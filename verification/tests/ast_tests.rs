use full_moon::ast::{extract_token_references, Ast, AstError};
use full_moon::tokenizer::tokens;

#[test]
fn test_extract_token_references() {
    let tokens = tokens("print(1)\n-- hello world\nlocal foo -- this is the word foo").unwrap();

    let references = extract_token_references(tokens);
    assert_eq!(references.len(), 7);

    assert!(references[0].trailing_trivia.is_empty());
    assert_eq!(references[0].token.to_string(), "print");
    assert!(references[0].leading_trivia.is_empty());

    assert!(references[1].trailing_trivia.is_empty());
    assert_eq!(references[1].token.to_string(), "(");
    assert!(references[1].leading_trivia.is_empty());

    assert!(references[2].trailing_trivia.is_empty());
    assert_eq!(references[2].token.to_string(), "1");
    assert!(references[2].leading_trivia.is_empty());

    assert_eq!(references[4].leading_trivia[0].to_string(), "\n");

    assert_eq!(
        references[4].leading_trivia[1].to_string(),
        "-- hello world",
    );

    assert_eq!(references[4].leading_trivia[2].to_string(), "\n");
    assert_eq!(references[4].token.to_string(), "local");
    assert_eq!(references[4].trailing_trivia[0].to_string(), " ");
}

#[test]
fn trailing_trivia_stays_on_the_line() {
    let tokens = tokens("local foo -- this is the word foo\nprint(2)").unwrap();
    let references = extract_token_references(tokens);
    // `foo` keeps the space and the comment as trailing trivia; the newline
    // leads `print`.
    assert_eq!(references[1].token.to_string(), "foo");
    assert_eq!(references[1].trailing_trivia[0].to_string(), " ");
    assert_eq!(
        references[1].trailing_trivia[1].to_string(),
        "-- this is the word foo",
    );
    assert_eq!(references[1].trailing_trivia.len(), 2);
    assert_eq!(references[2].token.to_string(), "print");
    assert_eq!(references[2].leading_trivia[0].to_string(), "\n");
}

#[test]
fn from_tokens_empty_input_errors() {
    assert_eq!(Ast::from_tokens(Vec::new()), Err(AstError::Empty));
}

#[test]
fn from_tokens_without_eof_errors() {
    let mut toks = tokens("local x = 1").unwrap();
    toks.pop();
    assert_eq!(Ast::from_tokens(toks), Err(AstError::NoEof));
}

#[test]
fn comment_only_input_parses_to_empty_tree() {
    let source = "-- just a comment";
    let ast = Ast::from_tokens(tokens(source).unwrap()).unwrap();
    assert_eq!(ast.nodes().iter_stmts().len(), 0);
    assert!(ast.nodes().last_stmt().is_none());
    assert_eq!(ast.render(), source);
}

#[test]
fn error_messages_name_the_position() {
    assert_eq!(
        AstError::Empty.error_message(),
        "tokens passed was empty, which shouldn't happen normally",
    );
    let err = Ast::from_tokens(tokens("local = 5").unwrap()).unwrap_err();
    assert_eq!(
        err.error_message(),
        "unexpected token `=`. (starting from line 1, character 7 and ending on line 1, \
         character 8)",
    );
    match err {
        AstError::UnexpectedToken { token, .. } => {
            assert_eq!(token.to_string(), "=");
        }
        other => panic!("expected a syntax error, found {:?}", other),
    }
}

#[test]
fn iter_tokens_reproduces_every_token() {
    let source = "print(1) -- call\n";
    let ast = Ast::from_tokens(tokens(source).unwrap()).unwrap();
    let toks = ast.iter_tokens();
    let mut rendered = String::new();
    for t in &toks {
        rendered.push_str(&t.to_string());
    }
    assert_eq!(rendered, source);
}
