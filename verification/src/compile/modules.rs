use vstd::prelude::*;

use crate::parse::ast::{lemma_strings_view_len, strings_view};
use crate::parse::ast_pp::{append_str, join_path, push_path};
use crate::text::{chars_of, push_char};

verus! {

/// What a library path holds at the place of a module: whether that place is a
/// directory, whether the directory has a `lib.sea`, and its entries in the order
/// in which the directory was listed, each as its file name and whether it is a
/// file.
pub struct ModuleDir {
    pub is_dir: bool,
    pub has_lib: bool,
    pub entries: Vec<(String, bool)>,
}

/// A module directory as plain values.
pub struct SModuleDir {
    pub is_dir: bool,
    pub has_lib: bool,
    pub entries: Seq<(Seq<char>, bool)>,
}

pub open spec fn entries_view(e: Seq<(String, bool)>) -> Seq<(Seq<char>, bool)> {
    e.map_values(|x: (String, bool)| (x.0@, x.1))
}

impl View for ModuleDir {
    type V = SModuleDir;

    open spec fn view(&self) -> SModuleDir {
        SModuleDir { is_dir: self.is_dir, has_lib: self.has_lib, entries: entries_view(self.entries@) }
    }
}

pub open spec fn dirs_view(d: Seq<ModuleDir>) -> Seq<SModuleDir> {
    d.map_values(|x: ModuleDir| x@)
}

pub open spec fn paths_result_view(r: Result<Vec<String>, String>) -> Result<Seq<Seq<char>>, Seq<char>> {
    match r {
        Ok(v) => Ok(strings_view(v@)),
        Err(e) => Err(e@),
    }
}

/// `b` taken relative to `a`, as `Path::join` puts them together: an absolute `b`
/// stands alone, and one `/` stands between the two.
pub open spec fn join_path_text(a: Seq<char>, b: Seq<char>) -> Seq<char> {
    if (b.len() > 0 && b[0] == '/') || a.len() == 0 {
        b
    } else if a.last() == '/' {
        a + b
    } else {
        a + seq!['/'] + b
    }
}

pub open spec fn lib_file_name() -> Seq<char> {
    seq!['l', 'i', 'b', '.', 's', 'e', 'a']
}

/// A file name whose extension is `sea`.
pub open spec fn is_sea_name(name: Seq<char>) -> bool {
    name.len() > 4 && name.skip(name.len() - 4) == seq!['.', 's', 'e', 'a']
}

/// The entries of the directory `p` that a `use` takes, in listing order: the
/// `.sea` files other than `lib.sea` that are not in use yet.
pub open spec fn listed_files(p: Seq<char>, entries: Seq<(Seq<char>, bool)>, usages: Seq<Seq<char>>) -> Seq<Seq<char>>
    decreases entries.len(),
{
    if entries.len() == 0 {
        Seq::empty()
    } else {
        let prev = listed_files(p, entries.drop_last(), usages);
        let name = entries.last().0;
        let path = join_path_text(p, name);
        if name != lib_file_name() && !usages.contains(path) && entries.last().1 && is_sea_name(name) {
            prev.push(path)
        } else {
            prev
        }
    }
}

/// The files that a `use` takes from the module directory `p`: its `lib.sea`
/// first, unless there is none or it is in use, then the listed files.
pub open spec fn dir_files(p: Seq<char>, d: SModuleDir, usages: Seq<Seq<char>>) -> Seq<Seq<char>> {
    let lib = join_path_text(p, lib_file_name());
    let first = if d.has_lib && !usages.contains(lib) { seq![lib] } else { Seq::empty() };
    first + listed_files(p, d.entries, usages)
}

pub open spec fn no_such_module(module: Seq<char>) -> Seq<char> {
    seq!['n', 'o', ' ', 's', 'u', 'c', 'h', ' ', 'm', 'o', 'd', 'u', 'l', 'e', ':', ' ', '"'] + module + seq!['"']
}

/// The search from the library path `i` on: the first one under which the
/// module is a directory gives the files; past the last one the module is missing.
pub open spec fn use_paths_from(
    libpaths: Seq<Seq<char>>,
    module: Seq<char>,
    dirs: Seq<SModuleDir>,
    usages: Seq<Seq<char>>,
    i: int,
) -> Result<Seq<Seq<char>>, Seq<char>>
    decreases libpaths.len() - i,
{
    if i < 0 || i >= libpaths.len() {
        Err(no_such_module(module))
    } else if dirs[i].is_dir {
        Ok(dir_files(join_path_text(libpaths[i], module), dirs[i], usages))
    } else {
        use_paths_from(libpaths, module, dirs, usages, i + 1)
    }
}

/// The files that `use` of the module with the path segments `module` brings in:
/// none if the module is in use already, else those of the first library path
/// under which the module is a directory; an error where there is none.
pub open spec fn spec_use_paths(
    libpaths: Seq<Seq<char>>,
    module: Seq<Seq<char>>,
    dirs: Seq<SModuleDir>,
    usages: Seq<Seq<char>>,
) -> Result<Seq<Seq<char>>, Seq<char>> {
    if usages.contains(join_path(module)) {
        Ok(Seq::empty())
    } else {
        use_paths_from(libpaths, join_path(module), dirs, usages, 0)
    }
}

/// Whether `path` is among `usages`.
pub fn in_use(usages: &Vec<String>, path: &String) -> (r: bool)
    ensures
        r == strings_view(usages@).contains(path@),
{
    let mut i: usize = 0;
    proof {
        lemma_strings_view_len(usages@);
    }
    while i < usages.len()
        invariant
            i <= usages.len(),
            strings_view(usages@).len() == usages.len(),
            forall|j: int| 0 <= j < usages.len() ==> #[trigger] strings_view(usages@)[j] == usages@[j]@,
            forall|j: int| 0 <= j < i ==> strings_view(usages@)[j] != path@,
        decreases usages.len() - i,
    {
        if usages[i] == *path {
            assert(strings_view(usages@)[i as int] == path@);
            return true;
        }
        i = i + 1;
    }
    false
}

/// `b` joined to `a` as a path.
pub fn join_text(a: &String, b: &String) -> (r: String)
    ensures
        r@ == join_path_text(a@, b@),
{
    let ac = chars_of(a.as_str());
    let bc = chars_of(b.as_str());
    if (bc.len() > 0 && bc[0] == '/') || ac.len() == 0 {
        b.clone()
    } else {
        let mut r = a.clone();
        if ac[ac.len() - 1] != '/' {
            push_char(&mut r, '/');
        }
        append_str(&mut r, b.as_str());
        r
    }
}

fn is_lib_name(name: &String) -> (r: bool)
    ensures
        r == (name@ == lib_file_name()),
{
    let c = chars_of(name.as_str());
    if c.len() == 7 && c[0] == 'l' && c[1] == 'i' && c[2] == 'b' && c[3] == '.' && c[4] == 's' && c[5] == 'e'
        && c[6] == 'a' {
        assert(c@ =~= lib_file_name());
        true
    } else {
        proof {
            if name@ == lib_file_name() {
                assert(c@[0] == 'l' && c@[1] == 'i' && c@[2] == 'b' && c@[3] == '.');
                assert(c@[4] == 's' && c@[5] == 'e' && c@[6] == 'a');
            }
        }
        false
    }
}

fn has_sea_extension(name: &String) -> (r: bool)
    ensures
        r == is_sea_name(name@),
{
    let c = chars_of(name.as_str());
    let n = c.len();
    if n > 4 && c[n - 4] == '.' && c[n - 3] == 's' && c[n - 2] == 'e' && c[n - 1] == 'a' {
        assert(c@.skip(n - 4 as int) =~= seq!['.', 's', 'e', 'a']);
        true
    } else {
        proof {
            if is_sea_name(name@) {
                let t = c@.skip(n - 4);
                assert(t[0] == c@[n - 4] && t[1] == c@[n - 3] && t[2] == c@[n - 2] && t[3] == c@[n - 1]);
            }
        }
        false
    }
}

fn lib_file() -> (r: String)
    ensures
        r@ == lib_file_name(),
{
    let mut r = String::new();
    push_char(&mut r, 'l');
    push_char(&mut r, 'i');
    push_char(&mut r, 'b');
    push_char(&mut r, '.');
    push_char(&mut r, 's');
    push_char(&mut r, 'e');
    push_char(&mut r, 'a');
    assert(r@ =~= lib_file_name());
    r
}

/// The files that the directory `p` gives to a `use`.
fn files_of_dir(p: &String, d: &ModuleDir, usages: &Vec<String>) -> (r: Vec<String>)
    ensures
        strings_view(r@) == dir_files(p@, d@, strings_view(usages@)),
{
    let ghost us = strings_view(usages@);
    let ghost es = entries_view(d.entries@);
    let mut r: Vec<String> = Vec::new();
    let lib = join_text(p, &lib_file());
    if d.has_lib && !in_use(usages, &lib) {
        r.push(lib);
    }
    let ghost first = strings_view(r@);
    proof {
        assert(first =~= (if d.has_lib && !us.contains(join_path_text(p@, lib_file_name())) {
            seq![join_path_text(p@, lib_file_name())]
        } else {
            Seq::empty()
        }));
        assert(es.take(0) =~= Seq::<(Seq<char>, bool)>::empty());
        assert(first + listed_files(p@, es.take(0), us) =~= first);
    }
    let mut i: usize = 0;
    while i < d.entries.len()
        invariant
            i <= d.entries.len(),
            es == entries_view(d.entries@),
            es.len() == d.entries.len(),
            us == strings_view(usages@),
            strings_view(r@) == first + listed_files(p@, es.take(i as int), us),
        decreases d.entries.len() - i,
    {
        let name = &d.entries[i].0;
        let is_file = d.entries[i].1;
        let path = join_text(p, name);
        proof {
            assert(es[i as int] == (d.entries@[i as int].0@, d.entries@[i as int].1));
            assert(es.take(i + 1).drop_last() =~= es.take(i as int));
            assert(es.take(i + 1).last() == es[i as int]);
        }
        if !is_lib_name(name) && !in_use(usages, &path) && is_file && has_sea_extension(name) {
            let ghost before = r@;
            let ghost pv = path@;
            r.push(path);
            proof {
                crate::parse::ast::lemma_strings_view_push(before, r@.last());
                assert(before.push(r@.last()) =~= r@);
                assert(listed_files(p@, es.take(i + 1), us) == listed_files(p@, es.take(i as int), us).push(pv));
                assert(strings_view(r@) =~= first + listed_files(p@, es.take(i + 1), us));
            }
        } else {
            assert(listed_files(p@, es.take(i + 1), us) == listed_files(p@, es.take(i as int), us));
        }
        i = i + 1;
    }
    proof {
        assert(es.take(i as int) =~= es);
    }
    r
}

/// The files that `use` of the module with the path segments `module` brings
/// in, searched for under each library path in turn; `dirs[i]` is what the
/// library path `libpaths[i]` holds at the place of the module. A module in use
/// already brings nothing; a module under no library path is an error. An
/// entry whose name has no extension is passed over.
pub fn select_use_paths(libpaths: &Vec<String>, module: &Vec<String>, dirs: &Vec<ModuleDir>, usages: &Vec<String>) -> (r: Result<Vec<String>, String>)
    requires
        dirs.len() == libpaths.len(),
    ensures
        paths_result_view(r) == spec_use_paths(strings_view(libpaths@), strings_view(module@), dirs_view(dirs@), strings_view(usages@)),
{
    let ghost lv = strings_view(libpaths@);
    let ghost dv = dirs_view(dirs@);
    let ghost us = strings_view(usages@);
    proof {
        lemma_strings_view_len(libpaths@);
    }
    let mut m = String::new();
    push_path(&mut m, module);
    assert(m@ =~= join_path(strings_view(module@)));
    if in_use(usages, &m) {
        let r: Vec<String> = Vec::new();
        assert(strings_view(r@) =~= Seq::<Seq<char>>::empty());
        return Ok(r);
    }
    let mut i: usize = 0;
    while i < libpaths.len()
        invariant
            i <= libpaths.len(),
            dirs.len() == libpaths.len(),
            lv == strings_view(libpaths@),
            lv.len() == libpaths.len(),
            forall|j: int| 0 <= j < libpaths.len() ==> #[trigger] lv[j] == libpaths@[j]@,
            dv == dirs_view(dirs@),
            us == strings_view(usages@),
            !us.contains(m@),
            m@ == join_path(strings_view(module@)),
            use_paths_from(lv, m@, dv, us, i as int) == use_paths_from(lv, m@, dv, us, 0),
        decreases libpaths.len() - i,
    {
        assert(dv[i as int] == dirs@[i as int]@);
        if dirs[i].is_dir {
            let p = join_text(&libpaths[i], &m);
            let files = files_of_dir(&p, &dirs[i], usages);
            return Ok(files);
        }
        i = i + 1;
    }
    let mut e = String::new();
    append_str(&mut e, "no such module: \"");
    append_str(&mut e, m.as_str());
    push_char(&mut e, '"');
    proof {
        reveal_strlit("no such module: \"");
        assert(e@ =~= no_such_module(m@));
    }
    Err(e)
}

} // verus!
