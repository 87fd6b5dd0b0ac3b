use full_moon::ast::punctuated::{Pair, Punctuated};
use full_moon::ast::{expression_from_tokens, Ast, AstError, Expression, Stmt};
use full_moon::parse;
use full_moon::tokenizer::tokens;
use full_moon::visitors::Visitor;
use full_moon::Error;

fn round_trips(source: &str) {
    let ast = parse(source).unwrap();
    assert_eq!(ast.render(), source, "round trip failed for {:?}", source);
}

#[test]
fn round_trip_reproduces_sources_exactly() {
    round_trips("");
    round_trips("local x = 1");
    round_trips("local x, y = 1, 2 -- pair\n");
    round_trips("x = x + 1 * -2 .. 'str'\n");
    round_trips("while x < 10 do x = x + 1 end");
    round_trips("repeat x = x - 1 until x == 0");
    round_trips("if a then b() elseif c then d() else e() end");
    round_trips("for i = 1, 10, 2 do print(i) end");
    round_trips("for k, v in pairs(t) do print(k, v) end");
    round_trips("function x.y:z(a, b, ...) return a end");
    round_trips("local function f() return end");
    round_trips("do  end  -- trailing comment");
    round_trips("t = { 1, 2; x = 3, [\"y\"] = 4, }");
    round_trips("call 'string'   ; call { 1 }");
    round_trips("x = obj:method(1).field[2]()\nreturn x;\n--[[ closing\n thoughts ]]");
    round_trips("x = (#list) and not y or f()(2)");
    round_trips("  \t\nbreak");
}

#[test]
fn parsing_twice_gives_equal_trees() {
    let source = "local x = 1\nwhile x < 3 do x = x + 1 end -- loop\n";
    let first = parse(source).unwrap();
    let second = parse(source).unwrap();
    assert_eq!(first, second);
}

#[test]
fn leftover_input_fails_fast() {
    // An expression-only grammar must reject "1 2" at the second token even
    // though "1" parses on its own.
    let err = expression_from_tokens(tokens("1 2").unwrap()).unwrap_err();
    match err {
        AstError::UnexpectedToken { token, additional } => {
            assert_eq!(token.to_string(), "2");
            assert_eq!(additional.as_deref(), Some("leftover token"));
        }
        other => panic!("expected a leftover-token error, found {:?}", other),
    }
}

#[test]
fn lone_expression_parses_and_renders() {
    let expr = expression_from_tokens(tokens("1 + 2").unwrap()).unwrap();
    assert_eq!(expr.render(), "1 + 2");
}

#[test]
fn committed_alternative_reports_the_real_error() {
    // After `while`, a missing `do` is a definite syntax error at the end of
    // input, not a recoverable "leftover token" at `while`.
    let err = parse("while true").unwrap_err();
    match err {
        Error::AstError(AstError::UnexpectedToken { additional, .. }) => {
            assert_eq!(additional, None);
        }
        other => panic!("expected a definite syntax error, found {:?}", other),
    }
    // An opening delimiter with no closer is likewise definite.
    let err = parse("x = (1").unwrap_err();
    match err {
        Error::AstError(AstError::UnexpectedToken { additional, .. }) => {
            assert_eq!(additional, None);
        }
        other => panic!("expected a definite syntax error, found {:?}", other),
    }
}

#[test]
fn tokenizer_errors_surface_through_parse() {
    let err = parse("x = \"unclosed").unwrap_err();
    assert!(matches!(err, Error::TokenizerError(_)));
}

#[test]
fn punctuated_separator_counts() {
    let ast = parse("local a, b, c = 1").unwrap();
    let stmts = ast.nodes().iter_stmts();
    let name_list = match stmts[0] {
        Stmt::LocalAssignment(l) => l.name_list(),
        other => panic!("expected a local assignment, found {:?}", other),
    };
    assert_eq!(name_list.len(), 3);
    let with_separator = name_list
        .pairs()
        .iter()
        .filter(|p| p.punctuation().is_some())
        .count();
    // n items carry n - 1 separators without a trailing one.
    assert_eq!(with_separator, 2);
}

#[test]
fn punctuated_push_keeps_the_invariant() {
    let toks = tokens("a, b,").unwrap();
    let comma1 = full_moon::ast::extract_token_references(toks);
    let mut list: Punctuated<u8> = Punctuated::new();
    assert!(list.is_empty());
    list.push(Pair::Punctuated(1, comma1[1].clone()));
    list.push(Pair::Punctuated(2, comma1[3].clone()));
    assert_eq!(list.len(), 2);
    assert_eq!(*list.pair(0).value(), 1u8);
    assert_eq!(list.items(), vec![&1u8, &2u8]);
}

struct NameCollector {
    names: Vec<String>,
    blocks_entered: usize,
    blocks_left: usize,
}

impl Visitor for NameCollector {
    fn visit_token_reference(&mut self, node: &full_moon::tokenizer::TokenReference) {
        if let full_moon::tokenizer::TokenType::Identifier { identifier } = &node.token.token_type {
            self.names.push(identifier.clone());
        }
    }

    fn visit_block(&mut self, _node: &full_moon::ast::Block) {
        self.blocks_entered += 1;
    }

    fn visit_block_end(&mut self, _node: &full_moon::ast::Block) {
        self.blocks_left += 1;
    }
}

#[test]
fn visitor_walks_in_document_order() {
    let ast = parse("local alpha = beta\ndo gamma() end").unwrap();
    let mut visitor = NameCollector { names: Vec::new(), blocks_entered: 0, blocks_left: 0 };
    ast.nodes().visit(&mut visitor);
    assert_eq!(visitor.names, vec!["alpha", "beta", "gamma"]);
    assert_eq!(visitor.blocks_entered, 2);
    assert_eq!(visitor.blocks_left, 2);
}

#[test]
fn display_helpers_render_parts() {
    let ast = parse("local x = 1; y = 2").unwrap();
    let rendered = full_moon::util::display_optional_punctuated_vec(&ast.nodes().stmts);
    assert_eq!(rendered, "local x = 1; y = 2");
    let toks = tokens("a, b").unwrap();
    let refs = full_moon::ast::extract_token_references(toks);
    assert_eq!(full_moon::util::display_option(&Some(refs[1].clone())), ", ");
    let none: Option<full_moon::tokenizer::TokenReference> = None;
    assert_eq!(full_moon::util::display_option(&none), "");
}

#[test]
fn nested_expression_renders_exactly() {
    let source = "x = ((1 + 2))";
    let ast = parse(source).unwrap();
    let stmts = ast.nodes().iter_stmts();
    match stmts[0] {
        Stmt::Assignment(a) => {
            let exprs = a.expr_list().items();
            let rendered: String = exprs[0].render();
            assert_eq!(rendered, "((1 + 2))");
            assert!(matches!(exprs[0], Expression::Value { .. }));
        }
        other => panic!("expected an assignment, found {:?}", other),
    }
}

#[test]
fn eof_reference_carries_final_trivia() {
    let ast = parse("print(1)\n-- goodbye").unwrap();
    let eof = ast.eof();
    assert_eq!(eof.leading_trivia[0].to_string(), "\n");
    assert_eq!(eof.leading_trivia[1].to_string(), "-- goodbye");
    assert_eq!(eof.token.to_string(), "");
}
