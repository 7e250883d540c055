use sea::compile::infer::{infer_type_of_node, InferError};
use sea::compile::pragmas::Pragma;
use sea::compile::symbol::{Symbol, SymbolTable};
use sea::compile::type_::SeaType;
use sea::hashtags::FunTags;
use sea::parse::ast::{Node, NodeKind};
use sea::parse::error::{LexErrorKind, ParseError};
use sea::parse::lexer::Lexer;
use sea::parse::operator::OperatorKind;
use sea::parse::parser::{ParseFailure, Parser};
use sea::parse::polish_notation::PolishNodeTree;
use sea::parse::token::TokenKind;
use sea::sandbox::{Sandbox, SandboxAction};
use sea::util::get_lines_from;

fn parse(code: &str) -> Result<Node, ParseFailure> {
    let lexer = Lexer::new("test.sea".to_string(), code);
    let mut parser = Parser::new(lexer);
    parser.parse(false)
}

fn program(code: &str) -> Vec<Node> {
    match parse(code) {
        Ok(Node { node: NodeKind::Program(nodes), .. }) => nodes,
        Ok(other) => panic!("not a program: {:?}", other),
        Err(e) => panic!("parse error: {:?}", e),
    }
}

fn expression(code: &str) -> Node {
    let lexer = Lexer::new("test.sea".to_string(), code);
    let mut parser = Parser::new(lexer);
    parser.advance().unwrap();
    parser.parse_expression().unwrap()
}

fn kinds(code: &str) -> Vec<TokenKind> {
    let mut lexer = Lexer::new("test.sea".to_string(), code);
    let mut out = vec![];
    loop {
        let t = lexer.next_token().unwrap();
        out.push(t.kind);
        if t.kind == TokenKind::Eof {
            return out;
        }
    }
}

#[test]
fn lexes_keywords_and_symbols() {
    assert_eq!(
        kinds("fun main(): i32 -> ret 0"),
        vec![
            TokenKind::KwFun,
            TokenKind::Identifier,
            TokenKind::OpenParen,
            TokenKind::CloseParen,
            TokenKind::Colon,
            TokenKind::Identifier,
            TokenKind::Arrow,
            TokenKind::KwRet,
            TokenKind::Int,
            TokenKind::Eof,
        ]
    );
}

#[test]
fn lexes_strings_and_comments() {
    assert_eq!(
        kinds("\"hi\" // note\n c\"x\" /* a /* nested */ b */ `c`"),
        vec![TokenKind::String, TokenKind::CString, TokenKind::Character, TokenKind::Eof]
    );
    let mut lexer = Lexer::new("t".to_string(), "\"hello\"");
    let t = lexer.next_token().unwrap();
    assert_eq!(t.text, "hello");
    assert_eq!(t.line, 1);
}

#[test]
fn unterminated_comment_is_an_error() {
    let mut lexer = Lexer::new("t".to_string(), "/* open");
    let e = lexer.next_token().unwrap_err();
    assert_eq!(e.error, LexErrorKind::UnterminatedComment);
}

#[test]
fn parses_a_function() {
    let nodes = program("fun add(a: i32, b: i32): i32 -> ret a + b");
    assert_eq!(nodes.len(), 1);
    match &nodes[0].node {
        NodeKind::TopFun { tags, id, params, rets, expr } => {
            assert!(tags.is_empty());
            assert_eq!(id, "add");
            assert_eq!(params.len(), 2);
            assert_eq!(params[0].0, "a");
            match &rets.node {
                NodeKind::Type { name, pointers, .. } => {
                    assert_eq!(name, "i32");
                    assert_eq!(*pointers, 0);
                },
                _ => panic!("return type is not a type"),
            }
            match &expr.node {
                NodeKind::ExprBlock(body) => {
                    assert_eq!(body.len(), 1);
                    match &body[0].node {
                        NodeKind::StatRet(Some(v)) => match &v.node {
                            NodeKind::ExprBinaryOperator { kind, .. } => {
                                assert_eq!(*kind, OperatorKind::Add)
                            },
                            _ => panic!("not a binary operator"),
                        },
                        _ => panic!("not a return"),
                    }
                },
                _ => panic!("body is not a block"),
            }
        },
        _ => panic!("not a function"),
    }
}

#[test]
fn function_without_return_type_returns_void() {
    let nodes = program("fun f() {}");
    match &nodes[0].node {
        NodeKind::TopFun { rets, .. } => match &rets.node {
            NodeKind::Type { name, .. } => assert_eq!(name, "void"),
            _ => panic!(),
        },
        _ => panic!(),
    }
}

#[test]
fn multiplication_binds_tighter_than_addition() {
    let e = expression("1 + 2 * 3");
    match &e.node {
        NodeKind::ExprBinaryOperator { kind, left, right } => {
            assert_eq!(*kind, OperatorKind::Add);
            assert!(matches!(left.node, NodeKind::ExprNumber(_)));
            match &right.node {
                NodeKind::ExprBinaryOperator { kind, .. } => assert_eq!(*kind, OperatorKind::Mul),
                _ => panic!("right side is not a product"),
            }
        },
        _ => panic!("not a binary operator"),
    }
}

#[test]
fn subtraction_is_left_associative() {
    let e = expression("a - b - c");
    match &e.node {
        NodeKind::ExprBinaryOperator { kind, left, right } => {
            assert_eq!(*kind, OperatorKind::Sub);
            assert!(matches!(left.node, NodeKind::ExprBinaryOperator { .. }));
            assert!(matches!(right.node, NodeKind::ExprIdentifier(_)));
        },
        _ => panic!(),
    }
}

#[test]
fn postfix_operators_apply_to_atoms() {
    let e = expression("f(1, 2)[0]^");
    match &e.node {
        NodeKind::ExprUnaryOperator { kind, value } => {
            assert_eq!(*kind, OperatorKind::Deref);
            match &value.node {
                NodeKind::ExprBinaryOperator { kind, left, .. } => {
                    assert_eq!(*kind, OperatorKind::Index);
                    match &left.node {
                        NodeKind::ExprInvoke { params, .. } => assert_eq!(params.len(), 2),
                        _ => panic!(),
                    }
                },
                _ => panic!(),
            }
        },
        _ => panic!(),
    }
}

#[test]
fn parses_types() {
    let nodes = program("def t = ^^int[5][n][]");
    match &nodes[0].node {
        NodeKind::TopDef { typ, .. } => match &typ.node {
            NodeKind::Type { pointers, name, arrays, funptr_args, funptr_rets } => {
                assert_eq!(*pointers, 2);
                assert_eq!(name, "int");
                assert_eq!(
                    arrays,
                    &vec![(Some(5), None), (None, Some("n".to_string())), (None, None)]
                );
                assert!(funptr_args.is_none());
                assert!(funptr_rets.is_none());
            },
            _ => panic!(),
        },
        _ => panic!(),
    }
}

#[test]
fn parses_function_pointer_types() {
    let nodes = program("def cb = fun(i32, ^char): bool");
    match &nodes[0].node {
        NodeKind::TopDef { typ, .. } => match &typ.node {
            NodeKind::Type { name, funptr_args, funptr_rets, .. } => {
                assert_eq!(name, "fun");
                assert_eq!(funptr_args.as_ref().unwrap().len(), 2);
                assert!(funptr_rets.is_some());
            },
            _ => panic!(),
        },
        _ => panic!(),
    }
}

#[test]
fn function_pointer_with_arrays_is_an_error() {
    let e = parse("def cb = fun()[3]").unwrap_err();
    assert!(matches!(e.error, ParseError::FunPtrWithArrays));
}

#[test]
fn array_size_that_overflows_is_an_error() {
    let e = parse("def t = int[99999999999999999999999]").unwrap_err();
    match e.error {
        ParseError::InvalidArraySize(text) => assert_eq!(text, "99999999999999999999999"),
        _ => panic!("wrong error"),
    }
}

#[test]
fn hashtags_become_modifiers() {
    let nodes = program("#(inline, static) fun f() {}");
    match &nodes[0].node {
        NodeKind::TopFun { tags, .. } => assert_eq!(tags, &vec![FunTags::Inline, FunTags::Static]),
        _ => panic!(),
    }
}

#[test]
fn unknown_hashtag_is_an_error() {
    let e = parse("#fast fun f() {}").unwrap_err();
    match e.error {
        ParseError::UnknownHashtag(t) => assert_eq!(t, "fast"),
        _ => panic!("wrong error"),
    }
}

#[test]
fn missing_identifier_is_reported_with_help() {
    let e = parse("fun (").unwrap_err();
    assert!(matches!(e.error, ParseError::ExpectedToken(_)));
    assert_eq!(e.help, Some("expected identifier after `fun`"));
    assert_eq!(e.token.kind, TokenKind::OpenParen);
}

#[test]
fn implicit_use_std_comes_first() {
    let lexer = Lexer::new("t".to_string(), "");
    let mut parser = Parser::new(lexer);
    match parser.parse(true).unwrap().node {
        NodeKind::Program(nodes) => {
            assert_eq!(nodes.len(), 1);
            match &nodes[0].node {
                NodeKind::TopUse(path, sel) => {
                    assert_eq!(path, &vec!["std".to_string()]);
                    assert!(sel.is_none());
                },
                _ => panic!(),
            }
        },
        _ => panic!(),
    }
}

#[test]
fn parses_statements() {
    let nodes = program(
        "fun f() {\n if a { ret 1 } else if b { ret 2 } else { ret 3 }\n for i in 0 to 10 -> x\n for a; b; c {}\n switch x { case 1 -> y fall case 2 -> z else -> w }\n}",
    );
    match &nodes[0].node {
        NodeKind::TopFun { expr, .. } => match &expr.node {
            NodeKind::ExprBlock(body) => {
                assert_eq!(body.len(), 4);
                assert!(matches!(body[0].node, NodeKind::StatIf { .. }));
                assert!(matches!(body[1].node, NodeKind::StatForRange { .. }));
                assert!(matches!(body[2].node, NodeKind::StatForCStyle { .. }));
                match &body[3].node {
                    NodeKind::StatSwitch { cases, .. } => {
                        assert_eq!(cases.len(), 3);
                        assert!(!cases[0].1);
                        assert!(cases[1].1);
                        assert!(cases[2].0.is_none());
                    },
                    _ => panic!(),
                }
            },
            _ => panic!(),
        },
        _ => panic!(),
    }
}

#[test]
fn parses_records_and_tags() {
    let nodes = program("rec P(x: i32, y: i32)\ntag Color(Red, Green = 2, Blue)\ntag rec Shape(Circle(r: f32), Empty)\nuse std/io[print, read]");
    assert_eq!(nodes.len(), 4);
    match &nodes[0].node {
        NodeKind::TopRec { fields, .. } => assert_eq!(fields.len(), 2),
        _ => panic!(),
    }
    match &nodes[1].node {
        NodeKind::TopTag { entries, .. } => {
            assert_eq!(entries.len(), 3);
            assert!(entries[1].1.is_some());
        },
        _ => panic!(),
    }
    match &nodes[2].node {
        NodeKind::TopTagRec { entries, .. } => {
            assert_eq!(entries.len(), 2);
            assert_eq!(entries[0].1.len(), 1);
        },
        _ => panic!(),
    }
    match &nodes[3].node {
        NodeKind::TopUse(path, sel) => {
            assert_eq!(path, &vec!["std".to_string(), "io".to_string()]);
            assert_eq!(sel, &Some(vec!["print".to_string(), "read".to_string()]));
        },
        _ => panic!(),
    }
}

#[test]
fn symbol_table_reads_back_what_was_added() {
    let mut t = SymbolTable::new();
    t.add_symbol("x".to_string(), Symbol::Var { typ: SeaType::named_type("i32"), mutable: true });
    t.add_scoped_symbol("y".to_string(), 2, Symbol::Var { typ: SeaType::named_type("u8"), mutable: false });
    assert!(matches!(t.get_symbol("x".to_string()), Some(Symbol::Var { mutable: true, .. })));
    t.remove_symbols_from_scopes(1);
    assert!(t.get_symbol("y".to_string()).is_none());
    assert!(t.get_symbol("x".to_string()).is_some());
    t.remove_symbol("x".to_string());
    assert!(t.get_symbol("x".to_string()).is_none());
}

#[test]
fn infers_types() {
    let mut t = SymbolTable::new();
    t.add_symbol("x".to_string(), Symbol::Var { typ: SeaType::named_type("i32"), mutable: true });
    let ty = infer_type_of_node(&t, &expression("ref x")).unwrap();
    assert_eq!(ty.name, "i32");
    assert_eq!(ty.pointers, 1);
    let ty = infer_type_of_node(&t, &expression("1.5")).unwrap();
    assert_eq!(ty.name, "f32");
    let ty = infer_type_of_node(&t, &expression("[1, 2, 3]")).unwrap();
    assert_eq!(ty.arrays, vec![(None, None)]);
    assert!(matches!(infer_type_of_node(&t, &expression("y")), Err(InferError::UndefinedSymbol(_))));
    assert!(matches!(infer_type_of_node(&t, &expression("[]")), Err(InferError::EmptyList)));
}

#[test]
fn pragmas_take_one_string() {
    let params = match expression("f(\"-O2\")").node {
        NodeKind::ExprInvoke { params, .. } => params,
        _ => panic!(),
    };
    assert_eq!(
        Pragma::from(&"add_cc_flag".to_string(), &params).unwrap(),
        Pragma::AddCCFlag("-O2".to_string())
    );
    assert!(Pragma::from(&"nope".to_string(), &params).is_err());
}

#[test]
fn polish_notation_of_operators() {
    let t = PolishNodeTree::from_node(expression("1 + 2")).unwrap();
    assert_eq!(
        t.to_string(),
        "(\x1b[34m+\x1b[0m \x1b[31m1\x1b[0m \x1b[31m2\x1b[0m)"
    );
}

#[test]
fn sandbox_adds_lines_and_runs_commands() {
    let mut s = Sandbox::new();
    let a = s.eval("let x = 1".to_string());
    assert!(matches!(a[..], [SandboxAction::Recompile]));
    let a = s.eval("let y = 2\\".to_string());
    assert!(a.is_empty());
    assert_eq!(s.get_code(), "let x = 1\nlet y = 2");
    let a = s.eval("\\p 1".to_string());
    assert!(a.is_empty());
    assert_eq!(s.line, 1);
    s.eval("\\q".to_string());
    assert!(!s.running);
    assert_eq!(s.shlex("\\exec a \"b\" c".to_string()), vec!["\\exec", "a", "b", "c"]);
}

#[test]
fn lines_around_an_error() {
    let lines = get_lines_from("a\nb\r\nc\nd\n", 2);
    assert_eq!(lines, vec![(1, "a".to_string()), (2, "b".to_string()), (3, "c".to_string())]);
    assert_eq!(get_lines_from("a\nb", 9), vec![]);
}

#[test]
fn pretty_prints_a_binary_operator() {
    let e = expression("1 + 2");
    let text = e.pretty_print();
    let expected = "\x1b[31mbinary op: '\x1b[36mAdd\x1b[31m'\n  left: \x1b[31mnumber: '\x1b[36m1\x1b[31m'\n\x1b[0m\x1b[31m  right: \x1b[31mnumber: '\x1b[36m2\x1b[31m'\n\x1b[0m\x1b[0m";
    assert_eq!(text, expected);
}

#[test]
fn pretty_prints_a_program() {
    let p = parse("fun main() { ret 0 }").unwrap();
    let text = p.pretty_print();
    assert!(text.starts_with("\x1b[1mprogram:\x1b[0m\n"));
    assert!(text.contains("fun '\x1b[36mmain\x1b[34m'"));
    assert!(text.ends_with("\x1b[0m"));
}

#[test]
fn line_comment_may_end_the_input() {
    assert_eq!(kinds("x // trailing comment"), vec![TokenKind::Identifier, TokenKind::Eof]);
}

#[test]
fn pipe_is_one_token() {
    let mut lexer = Lexer::new("t".to_string(), "a |> f");
    assert_eq!(lexer.next_token().unwrap().kind, TokenKind::Identifier);
    let pipe = lexer.next_token().unwrap();
    assert_eq!(pipe.kind, TokenKind::OpPipe);
    assert_eq!(pipe.text, "|>");
    assert_eq!(pipe.len, 2);
    assert_eq!(lexer.next_token().unwrap().kind, TokenKind::Identifier);
    assert_eq!(lexer.next_token().unwrap().kind, TokenKind::Eof);
}

#[test]
fn first_line_has_no_line_before_it() {
    assert_eq!(get_lines_from("a\nb\nc", 1), vec![(1, "a".to_string()), (2, "b".to_string())]);
}

#[test]
fn c_style_for_with_increment() {
    let nodes = program("fun f() {\n for var i = 0 ; i < 10 ; i++ {}\n}");
    match &nodes[0].node {
        NodeKind::TopFun { expr, .. } => match &expr.node {
            NodeKind::ExprBlock(body) => match &body[0].node {
                NodeKind::StatForCStyle { inc, .. } => match &inc.node {
                    NodeKind::ExprUnaryOperator { kind, .. } => assert_eq!(*kind, OperatorKind::Inc),
                    _ => panic!("increment is not a unary operator"),
                },
                _ => panic!("not a c-style for"),
            },
            _ => panic!(),
        },
        _ => panic!(),
    }
}

#[test]
fn break_and_continue_are_statements() {
    let nodes = program("fun f() {\n for true {\n continue\n break\n }\n}");
    match &nodes[0].node {
        NodeKind::TopFun { expr, .. } => match &expr.node {
            NodeKind::ExprBlock(body) => match &body[0].node {
                NodeKind::StatForSingleExpr { expr, .. } => match &expr.node {
                    NodeKind::ExprBlock(inner) => {
                        assert!(matches!(inner[0].node, NodeKind::StatContinue));
                        assert!(matches!(inner[1].node, NodeKind::StatBreak));
                    },
                    _ => panic!(),
                },
                _ => panic!("not a for"),
            },
            _ => panic!(),
        },
        _ => panic!(),
    }
}

#[test]
fn list_literal_is_an_unsized_array() {
    let t = SymbolTable::new();
    let e = expression("[\"Frodo\", \"Sam\"]");
    let ty = infer_type_of_node(&t, &e).unwrap();
    assert_eq!(ty.name, "String");
    assert_eq!(ty.arrays, vec![(None, None)]);
}

#[test]
fn shadowed_variable_is_visible_again_after_its_scope() {
    let mut t = SymbolTable::new();
    t.add_scoped_symbol("a".to_string(), 1, Symbol::Var { typ: SeaType::named_type("i32"), mutable: true });
    t.add_scoped_symbol("a".to_string(), 2, Symbol::Var { typ: SeaType::named_type("u8"), mutable: true });
    match t.get_symbol("a".to_string()) {
        Some(Symbol::Var { typ, .. }) => assert_eq!(typ.name, "u8"),
        _ => panic!(),
    }
    t.remove_symbols_from_scopes(2);
    match t.get_symbol("a".to_string()) {
        Some(Symbol::Var { typ, .. }) => assert_eq!(typ.name, "i32"),
        _ => panic!("the outer variable is gone"),
    }
}

#[test]
fn short_commands_do_what_long_ones_do() {
    let mut a = Sandbox::new();
    let mut b = Sandbox::new();
    a.eval("let x = 1".to_string());
    b.eval("let x = 1".to_string());
    assert!(matches!(a.eval("\\e".to_string())[..], [SandboxAction::Echo]));
    assert!(matches!(b.eval("\\echo".to_string())[..], [SandboxAction::Echo]));
    a.eval("\\u".to_string());
    b.eval("\\pause".to_string());
    assert_eq!(a.paused, b.paused);
    assert!(a.paused);
}

#[test]
fn empty_braces_are_an_empty_block() {
    let nodes = program("fun f() {}");
    match &nodes[0].node {
        NodeKind::TopFun { expr, .. } => match &expr.node {
            NodeKind::ExprBlock(v) => assert!(v.is_empty()),
            _ => panic!("not a block"),
        },
        _ => panic!("not a function"),
    }
}
