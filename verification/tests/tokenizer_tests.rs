use full_moon::tokenizer::{
    tokens, Symbol, TokenKind, TokenizerError, TokenizerErrorType, Position,
};

#[test]
fn tokens_concatenate_back_to_the_source() {
    let source = "local x = 0x1F + 2.5e-3 .. 'str' .. [[long]] -- done";
    let toks = tokens(source).unwrap();
    let mut rendered = String::new();
    for t in &toks {
        rendered.push_str(&t.to_string());
    }
    assert_eq!(rendered, source);
}

#[test]
fn tokenizer_ends_with_exactly_one_eof() {
    let toks = tokens("print(1)").unwrap();
    assert_eq!(toks.last().unwrap().token_kind(), TokenKind::Eof);
    let eofs = toks
        .iter()
        .filter(|t| t.token_kind() == TokenKind::Eof)
        .count();
    assert_eq!(eofs, 1);
}

#[test]
fn keywords_become_symbols_and_names_stay_identifiers() {
    let toks = tokens("while whilex").unwrap();
    assert_eq!(toks[0].token_kind(), TokenKind::Symbol);
    assert_eq!(toks[0].to_string(), "while");
    assert_eq!(toks[2].token_kind(), TokenKind::Identifier);
    assert_eq!(toks[2].to_string(), "whilex");
}

#[test]
fn symbol_text_is_exact() {
    assert_eq!(Symbol::And.to_str(), "and");
    assert_eq!(Symbol::TildeEqual.to_str(), "~=");
    assert_eq!(Symbol::Ellipse.to_str(), "...");
}

#[test]
fn unclosed_string_is_a_lexical_error() {
    let err = tokens("x = \"unclosed").unwrap_err();
    assert_eq!(err.error(), TokenizerErrorType::UnclosedString);
    assert_eq!(err.position().line(), 1);
    assert_eq!(err.position().character(), 5);
}

#[test]
fn unclosed_comment_is_a_lexical_error() {
    let err = tokens("--[[ never closed").unwrap_err();
    assert_eq!(err.error(), TokenizerErrorType::UnclosedComment);
}

#[test]
fn stray_character_is_a_lexical_error() {
    let err = tokens("x = 1 ~ 2").unwrap_err();
    assert_eq!(err.error(), TokenizerErrorType::UnexpectedToken('~'));
    assert_eq!(
        err,
        TokenizerError {
            error: TokenizerErrorType::UnexpectedToken('~'),
            position: Position { bytes: 6, line: 1, character: 7 },
        },
    );
}

#[test]
fn positions_track_lines_and_characters() {
    let toks = tokens("x\ny").unwrap();
    // `y` starts at line 2, character 1, byte 2.
    assert_eq!(toks[2].to_string(), "y");
    assert_eq!(toks[2].start_position().line(), 2);
    assert_eq!(toks[2].start_position().character(), 1);
    assert_eq!(toks[2].start_position().bytes(), 2);
}

#[test]
fn long_bracket_strings_keep_their_level() {
    let source = "s = [==[body]==]";
    let toks = tokens(source).unwrap();
    let mut rendered = String::new();
    for t in &toks {
        rendered.push_str(&t.to_string());
    }
    assert_eq!(rendered, source);
    assert_eq!(toks[4].token_kind(), TokenKind::StringLiteral);
}
