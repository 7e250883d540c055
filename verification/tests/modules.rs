use sea::compile::modules::{select_use_paths, ModuleDir};

fn s(x: &str) -> String {
    x.to_string()
}

fn no_dir() -> ModuleDir {
    ModuleDir { is_dir: false, has_lib: false, entries: vec![] }
}

#[test]
fn module_in_use_brings_nothing() {
    let dirs = vec![ModuleDir { is_dir: true, has_lib: true, entries: vec![(s("a.sea"), true)] }];
    let r = select_use_paths(&vec![s("lib")], &vec![s("std"), s("io")], &dirs, &vec![s("std/io")]);
    assert_eq!(r, Ok(vec![]));
}

#[test]
fn first_directory_gives_lib_first_then_sea_files() {
    let entries = vec![
        (s("b.sea"), true),
        (s("lib.sea"), true),
        (s("notes.txt"), true),
        (s("sub.sea"), false),
        (s("README"), true),
        (s("a.sea"), true),
        (s("c.sea"), true),
    ];
    let dirs = vec![no_dir(), ModuleDir { is_dir: true, has_lib: true, entries }, ModuleDir {
        is_dir: true,
        has_lib: false,
        entries: vec![(s("z.sea"), true)],
    }];
    let r = select_use_paths(&vec![s("l1"), s("l2/"), s("l3")], &vec![s("m")], &dirs, &vec![s("l2/m/a.sea")]);
    assert_eq!(r, Ok(vec![s("l2/m/lib.sea"), s("l2/m/b.sea"), s("l2/m/c.sea")]));
}

#[test]
fn lib_in_use_is_not_taken_again() {
    let dirs = vec![ModuleDir { is_dir: true, has_lib: true, entries: vec![(s("lib.sea"), true), (s("x.sea"), true)] }];
    let r = select_use_paths(&vec![s("std")], &vec![s("io")], &dirs, &vec![s("std/io/lib.sea")]);
    assert_eq!(r, Ok(vec![s("std/io/x.sea")]));
}

#[test]
fn missing_module_is_an_error() {
    let r = select_use_paths(&vec![s("a"), s("b")], &vec![s("std"), s("io")], &vec![no_dir(), no_dir()], &vec![]);
    assert_eq!(r, Err(s("no such module: \"std/io\"")));
}
