use sea::backend::Backend;
use sea::backend::c::{CBackend, CodegenError};
use sea::compile::compiler::Compiler;
use sea::compile::error::CompilerError;
use sea::parse::ast::{Node, NodeKind};
use sea::parse::lexer::Lexer;
use sea::parse::parser::Parser;

fn parse(code: &str) -> Node {
    let lexer = Lexer::new("dir/test.sea".to_string(), code);
    let mut parser = Parser::new(lexer);
    parser.parse(false).unwrap()
}

fn program_nodes(code: &str) -> Vec<Node> {
    match parse(code) {
        Node { node: NodeKind::Program(nodes), .. } => nodes,
        _ => panic!("not a program"),
    }
}

fn generate(code: &str) -> Result<String, CodegenError> {
    let mut backend = CBackend::new(Compiler::new("dir/test.sea".to_string()));
    let mut out = String::new();
    for node in program_nodes(code) {
        backend.write(&mut out, &node)?;
    }
    Ok(out)
}

#[test]
fn generates_a_function() {
    let c = generate("fun main(): i32 -> ret 0").unwrap();
    assert_eq!(c, "i32 main()\n{\nreturn 0;\n}\n\n");
}

#[test]
fn generates_parameters_and_operators() {
    let c = generate("fun add(a: i32, b: i32): i32 -> ret a + b").unwrap();
    assert_eq!(c, "i32 add(i32 a, i32 b)\n{\nreturn (a+b);\n}\n\n");
}

#[test]
fn generates_a_record() {
    let c = generate("rec Point(x: i32, y: i32)").unwrap();
    assert_eq!(c, "typedef struct Point{\n\ti32 x;\n\ti32 y;\n} Point;\n\n");
}

#[test]
fn false_is_written_as_false() {
    let c = generate("fun f(): bool -> ret false").unwrap();
    assert!(c.contains("return false;"));
}

#[test]
fn escapes_count_once_in_string_length() {
    let c = generate("fun f(): String -> ret \"a\\n\"").unwrap();
    assert!(c.contains("(String){false, 2, \"a\\n\"}"));
}

#[test]
fn static_comes_before_inline() {
    let c = generate("#(inline, static)\nfun life(): int -> ret 42").unwrap();
    assert_eq!(c, "static inline int life()\n{\nreturn 42;\n}\n\n");
    let d = generate("#inline\nfun life(): int -> ret 42").unwrap();
    assert_eq!(d, "inline int life()\n{\nreturn 42;\n}\n\n");
}

#[test]
fn extern_has_no_effect() {
    let a = generate("#extern\nfun life(): int -> ret 42").unwrap();
    let b = generate("fun life(): int -> ret 42").unwrap();
    assert_eq!(a, b);
}

#[test]
fn include_dir_is_relative_to_the_file() {
    let mut backend = CBackend::new(Compiler::new("proj/src/main.sea".to_string()));
    let mut out = String::new();
    let node = Node {
        line: 1,
        column: 1,
        node: NodeKind::TopPragma {
            id: "add_include_dir".to_string(),
            params: vec![Node { line: 1, column: 17, node: NodeKind::ExprString("include".to_string()) }],
        },
    };
    backend.write(&mut out, &node).unwrap();
    assert_eq!(backend.compiler.cc_flags, vec!["-Iproj/src/include".to_string()]);
}

#[test]
fn loop_control_is_generated() {
    let c = generate("fun f() {\n for true {\n continue\n break\n }\n}").unwrap();
    assert!(c.contains("while (true) {{\ncontinue;\nbreak;\n}}"));
}

#[test]
fn string_literal_carries_its_byte_length() {
    let c = generate("fun f(): String -> ret \"héllo\"").unwrap();
    assert!(c.contains("(String){false, 6, \"héllo\"}"));
}

#[test]
fn variables_take_their_inferred_type() {
    let c = generate("fun f(): i32 {\n var x = 1\n ret x\n}").unwrap();
    assert!(c.contains("i32 x = 1"));
}

#[test]
fn instantiating_an_unknown_record_is_an_error() {
    let r = generate("fun f(): i32 -> ret new Nope()");
    match r {
        Err(CodegenError::Thrown { error: CompilerError::UnknownSymbol(s), .. }) => assert_eq!(s, "Nope"),
        other => panic!("unexpected: {:?}", other),
    }
}

#[test]
fn use_is_left_to_the_caller() {
    let mut backend = CBackend::new(Compiler::new("dir/test.sea".to_string()));
    let mut out = String::new();
    let node = parse("use std/io");
    let r = backend.write(&mut out, &node);
    assert!(matches!(r, Err(CodegenError::ModuleUse)));
}

#[test]
fn program_is_framed_by_regions() {
    let mut backend = CBackend::new(Compiler::new("dir/test.sea".to_string()));
    let mut out = String::new();
    let node = parse("fun f(): i32 -> ret 1");
    backend.write(&mut out, &node).unwrap();
    assert!(out.starts_with("#pragma region \"file: dir/test.sea\"\n"));
    assert!(out.ends_with("#pragma region \"end file: dir/test.sea\"\n"));
}

#[test]
fn pragma_adds_a_library_flag() {
    let mut backend = CBackend::new(Compiler::new("dir/test.sea".to_string()));
    let mut out = String::new();
    let node = Node {
        line: 1,
        column: 1,
        node: NodeKind::TopPragma {
            id: "add_library".to_string(),
            params: vec![Node { line: 1, column: 13, node: NodeKind::ExprString("m${dir}".to_string()) }],
        },
    };
    backend.write(&mut out, &node).unwrap();
    assert_eq!(backend.compiler.cc_flags, vec!["-lmdir".to_string()]);
    assert_eq!(out, "");
}

#[test]
fn function_scope_is_left_after_the_function() {
    let mut backend = CBackend::new(Compiler::new("dir/test.sea".to_string()));
    let mut out = String::new();
    for node in program_nodes("fun f(a: i32): i32 -> ret a") {
        backend.write(&mut out, &node).unwrap();
    }
    assert_eq!(backend.compiler.scope, 0);
    assert!(backend.compiler.symbols.get_symbol("f".to_string()).is_some());
    assert!(backend.compiler.symbols.get_symbol("a".to_string()).is_none());
}

fn pragma(id: &str, arg: &str) -> Node {
    Node {
        line: 1,
        column: 1,
        node: NodeKind::TopPragma {
            id: id.to_string(),
            params: vec![Node { line: 1, column: 10, node: NodeKind::ExprString(arg.to_string()) }],
        },
    }
}

#[test]
fn add_library_is_a_link_flag() {
    let mut a = CBackend::new(Compiler::new("dir/test.sea".to_string()));
    let mut b = CBackend::new(Compiler::new("dir/test.sea".to_string()));
    let mut out = String::new();
    a.write(&mut out, &pragma("add_library", "raylib")).unwrap();
    b.write(&mut out, &pragma("add_cc_flag", "-lraylib")).unwrap();
    assert_eq!(a.compiler.cc_flags, b.compiler.cc_flags);
    assert_eq!(a.compiler.cc_flags, vec!["-lraylib".to_string()]);
}

#[test]
fn arrow_body_is_a_braced_body() {
    let a = generate("fun f(): int -> ret 0").unwrap();
    let b = generate("fun f(): int {\nret 0\n}").unwrap();
    assert_eq!(a, b);
}

fn include_dir_flag(arg: &str) -> Vec<String> {
    let mut backend = CBackend::new(Compiler::new("proj/src/main.sea".to_string()));
    let mut out = String::new();
    let node = Node {
        line: 1,
        column: 1,
        node: NodeKind::TopPragma {
            id: "add_include_dir".to_string(),
            params: vec![Node { line: 1, column: 17, node: NodeKind::ExprString(arg.to_string()) }],
        },
    };
    backend.write(&mut out, &node).unwrap();
    assert_eq!(out, "");
    backend.compiler.cc_flags
}

#[test]
fn include_dir_written_with_dir_is_not_prefixed_twice() {
    assert_eq!(include_dir_flag("${dir}/include"), vec!["-Iproj/src/include".to_string()]);
}

#[test]
fn absolute_include_dir_stays() {
    assert_eq!(include_dir_flag("/usr/include"), vec!["-I/usr/include".to_string()]);
}

#[test]
fn pragma_appends_its_flag_last() {
    let mut backend = CBackend::new(Compiler::new("dir/test.sea".to_string()));
    let mut out = String::new();
    backend.write(&mut out, &pragma("add_cc_flag", "-O2")).unwrap();
    let scope = backend.compiler.scope;
    let usages = backend.compiler.usages.clone();
    let files = backend.compiler.file_stack.clone();
    backend.write(&mut out, &pragma("add_library", "raylib")).unwrap();
    assert_eq!(backend.compiler.cc_flags, vec!["-O2".to_string(), "-lraylib".to_string()]);
    assert_eq!(backend.compiler.scope, scope);
    assert_eq!(backend.compiler.usages, usages);
    assert_eq!(backend.compiler.file_stack, files);
    assert_eq!(out, "");
}

#[test]
fn backend_trait_writes_what_the_generator_writes() {
    let mut a = CBackend::new(Compiler::new("dir/test.sea".to_string()));
    let mut b = CBackend::new(Compiler::new("dir/test.sea".to_string()));
    let mut out_a = String::new();
    let mut out_b = String::new();
    for node in program_nodes("fun life(): int -> ret 42") {
        Backend::write(&mut a, &mut out_a, &node).unwrap();
        b.write(&mut out_b, &node).unwrap();
    }
    assert_eq!(out_a, out_b);
    assert!(out_a.contains("life"));
}
