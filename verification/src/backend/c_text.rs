use vstd::prelude::*;

use crate::compile::error::SCompilerError;
use crate::compile::infer::{infer_defined, spec_infer, SInferError};
use crate::compile::pragmas::{spec_pragma, SPragma};
use crate::compile::symbol::{shallower, table_map, SEntry, SSymbol};
use crate::compile::type_::{is_type_tree, stype_of, stypes_of, SType};
use crate::hashtags::{DefTags, FunTags, RecTags, TagRecTags, TagTags};
use crate::parse::ast::{SKind, SNode};
use crate::parse::ast_pp::{arrays_text, decimal};
use crate::parse::operator::OperatorKind;

verus! {

/// What C code generation keeps track of: the scope depth, the symbols in scope
/// and the flags gathered for the C compiler.
pub struct CState {
    pub scope: int,
    pub symbols: Seq<SEntry>,
    pub cc_flags: Seq<Seq<char>>,
}

/// Why no C code could be generated.
pub enum SCodegenError {
    /// An error of the program, reported at a line and column, with a hint.
    Thrown { error: SCompilerError, help: Option<Seq<char>>, line: int, column: int },
    /// A function pointer type stands where C needs a named type.
    FunctionPointerType,
    /// A type is not a type node, or a function pointer type lacks its arguments.
    MalformedTree,
    /// The operator cannot be written in this position.
    NotAnOperator(OperatorKind),
    /// External functions and macros have no C form yet.
    Unimplemented,
    /// The type of a `var` or `let` cannot be inferred at all.
    NotInferable,
    /// Inferring the type of a `var` or `let` failed.
    Inference(SInferError),
    /// A `use` is resolved by the caller, which reads the module's files.
    ModuleUse,
    /// Scopes nest deeper than a `usize` counts.
    ScopeOverflow,
    /// The file being compiled has no parent directory for `${dir}`.
    NoParentDirectory,
}

/// The text written and the state after it, or why generation stopped.
pub type SGen = Result<(Seq<char>, CState), SCodegenError>;

/// `n` asterisks.
pub open spec fn stars(n: nat) -> Seq<char> {
    Seq::new(n, |i: int| '*')
}

/// The number of bytes of the UTF-8 encoding of `c`.
pub open spec fn char_utf8_len(c: char) -> nat {
    if (c as u32) < 0x80 {
        1
    } else if (c as u32) < 0x800 {
        2
    } else if (c as u32) < 0x10000 {
        3
    } else {
        4
    }
}

/// The number of bytes of the UTF-8 encoding of `s`.
pub open spec fn utf8_len(s: Seq<char>) -> nat
    decreases s.len(),
{
    if s.len() == 0 {
        0
    } else {
        char_utf8_len(s[0]) + utf8_len(s.skip(1))
    }
}

/// The number of bytes of the value of a string literal written as `s`: an
/// escape (`\\` and the character after it) stands for one byte, any other
/// character for the bytes of its UTF-8 encoding.
pub open spec fn literal_len(s: Seq<char>) -> nat
    decreases s.len(),
{
    if s.len() == 0 {
        0
    } else if s[0] == '\\' && s.len() >= 2 {
        1 + literal_len(s.skip(2))
    } else {
        char_utf8_len(s[0]) + literal_len(s.skip(1))
    }
}

/// A literal's value has no more bytes than the literal's text.
pub proof fn lemma_literal_len_bound(s: Seq<char>)
    ensures
        literal_len(s) <= utf8_len(s),
    decreases s.len(),
{
    if s.len() > 0 {
        if s[0] == '\\' && s.len() >= 2 {
            lemma_literal_len_bound(s.skip(2));
            assert(s.skip(1).skip(1) =~= s.skip(2));
            assert(s.skip(1)[0] == s[1]);
            assert(utf8_len(s.skip(1)) == char_utf8_len(s[1]) + utf8_len(s.skip(2)));
            assert(char_utf8_len(s[0]) >= 1);
        } else {
            lemma_literal_len_bound(s.skip(1));
        }
    }
}

/// `s` with each occurrence of `pat`, from the left and not overlapping, replaced by `rep`.
pub open spec fn replace_all(s: Seq<char>, pat: Seq<char>, rep: Seq<char>) -> Seq<char>
    decreases s.len(),
{
    if pat.len() == 0 || s.len() < pat.len() {
        s
    } else if s.take(pat.len() as int) == pat {
        rep + replace_all(s.skip(pat.len() as int), pat, rep)
    } else {
        seq![s[0]] + replace_all(s.skip(1), pat, rep)
    }
}

/// Adds `t` in front of the text of a successful generation.
pub open spec fn prepend(t: Seq<char>, g: SGen) -> SGen {
    match g {
        Ok((u, st)) => Ok((t + u, st)),
        Err(e) => Err(e),
    }
}

/// Adds `t` in front of a successfully written text.
pub open spec fn tprepend(t: Seq<char>, r: Result<Seq<char>, SCodegenError>) -> Result<Seq<char>, SCodegenError> {
    match r {
        Ok(u) => Ok(t + u),
        Err(e) => Err(e),
    }
}

/// The separator after the first of `len` items: `, ` unless it is the last.
pub open spec fn sep(len: nat) -> Seq<char> {
    if len > 1 { ", "@ } else { Seq::empty() }
}

pub proof fn lemma_prepend_twice(t: Seq<char>, u: Seq<char>, g: SGen)
    ensures
        prepend(t, prepend(u, g)) == prepend(t + u, g),
{
    if let Ok((v, st)) = g {
        assert(t + (u + v) =~= (t + u) + v);
    }
}

pub proof fn lemma_tprepend_twice(t: Seq<char>, u: Seq<char>, r: Result<Seq<char>, SCodegenError>)
    ensures
        tprepend(t, tprepend(u, r)) == tprepend(t + u, r),
{
    if let Ok(v) = r {
        assert(t + (u + v) =~= (t + u) + v);
    }
}

/// A C type from a type node: name, asterisks and array suffixes.
pub open spec fn type_text(n: SNode) -> Result<Seq<char>, SCodegenError> {
    match n.node {
        SKind::Type { pointers, name, arrays, funptr_rets, .. } => if funptr_rets is Some {
            Err(SCodegenError::FunctionPointerType)
        } else {
            Ok(name + stars(pointers as nat) + arrays_text(arrays))
        },
        _ => Err(SCodegenError::MalformedTree),
    }
}

/// The C types of function pointer arguments, separated by `, `.
pub open spec fn args_text(args: Seq<SNode>) -> Result<Seq<char>, SCodegenError>
    decreases args.len(),
{
    if args.len() == 0 {
        Ok(Seq::empty())
    } else {
        match type_text(args[0]) {
            Err(e) => Err(e),
            Ok(u) => tprepend(u + sep(args.len()), args_text(args.drop_first())),
        }
    }
}

/// A C declaration of `id` with the type of a type node.
pub open spec fn named_type_text(id: Seq<char>, n: SNode) -> Result<Seq<char>, SCodegenError> {
    match n.node {
        SKind::Type { pointers, name, arrays, funptr_args, funptr_rets } => match funptr_rets {
            Some(r) => match type_text(*r) {
                Err(e) => Err(e),
                Ok(rt) => match funptr_args {
                    None => Err(SCodegenError::MalformedTree),
                    Some(args) => match args_text(args) {
                        Err(e) => Err(e),
                        Ok(at) => Ok(rt + "(*"@ + stars(pointers as nat) + " "@ + id + ")("@ + at
                            + ")"@ + arrays_text(arrays)),
                    },
                },
            },
            None => Ok(name + " "@ + stars(pointers as nat) + id + arrays_text(arrays)),
        },
        _ => Err(SCodegenError::MalformedTree),
    }
}

/// A C type from a type.
pub open spec fn stype_text(t: SType) -> Result<Seq<char>, SCodegenError> {
    if t.funptr_rets is Some {
        Err(SCodegenError::FunctionPointerType)
    } else {
        Ok(t.name + stars(t.pointers as nat) + arrays_text(t.arrays))
    }
}

pub open spec fn stype_args_text(args: Seq<SType>) -> Result<Seq<char>, SCodegenError>
    decreases args.len(),
{
    if args.len() == 0 {
        Ok(Seq::empty())
    } else {
        match stype_text(args[0]) {
            Err(e) => Err(e),
            Ok(u) => tprepend(u + sep(args.len()), stype_args_text(args.drop_first())),
        }
    }
}

/// A C declaration of `id` with type `t`.
pub open spec fn named_stype_text(id: Seq<char>, t: SType) -> Result<Seq<char>, SCodegenError> {
    match t.funptr_rets {
        Some(r) => match stype_text(*r) {
            Err(e) => Err(e),
            Ok(rt) => match t.funptr_args {
                None => Err(SCodegenError::MalformedTree),
                Some(args) => match stype_args_text(args) {
                    Err(e) => Err(e),
                    Ok(at) => Ok(rt + "(*"@ + stars(t.pointers as nat) + " "@ + id + ")("@ + at + ")"@
                        + arrays_text(t.arrays)),
                },
            },
        },
        None => Ok(t.name + " "@ + stars(t.pointers as nat) + id + arrays_text(t.arrays)),
    }
}

/// The C specifiers of a function's hashtags, in C's order: `static`, then
/// `inline`, then `noreturn`; `#extern` has no effect yet.
pub open spec fn fun_tags_text(tags: Seq<FunTags>) -> Result<Seq<char>, SCodegenError> {
    Ok(
        (if tags.contains(FunTags::Static) { "static "@ } else { Seq::empty() }) + (if tags.contains(
            FunTags::Inline,
        ) {
            "inline "@
        } else {
            Seq::empty()
        }) + (if tags.contains(FunTags::NoRet) { "noreturn "@ } else { Seq::empty() }),
    )
}

/// `static ` for each `Static` hashtag of a record.
pub open spec fn rec_tags_text(tags: Seq<RecTags>) -> Seq<char>
    decreases tags.len(),
{
    if tags.len() == 0 {
        Seq::empty()
    } else {
        rec_tags_text(tags.drop_last()) + (if tags.last() == RecTags::Static {
            "static "@
        } else {
            Seq::empty()
        })
    }
}

/// `static ` for each hashtag of a type alias.
pub open spec fn def_tags_text(tags: Seq<DefTags>) -> Seq<char>
    decreases tags.len(),
{
    if tags.len() == 0 {
        Seq::empty()
    } else {
        def_tags_text(tags.drop_last()) + "static "@
    }
}

/// `static ` for each `Static` hashtag of a tag.
pub open spec fn tag_tags_text(tags: Seq<TagTags>) -> Seq<char>
    decreases tags.len(),
{
    if tags.len() == 0 {
        Seq::empty()
    } else {
        tag_tags_text(tags.drop_last()) + (if tags.last() == TagTags::Static {
            "static "@
        } else {
            Seq::empty()
        })
    }
}

/// Whether every type of `(name, type)` pairs is a type tree.
pub open spec fn all_type_trees(fields: Seq<(Seq<char>, SNode)>) -> bool {
    forall|i: int| 0 <= i < fields.len() ==> is_type_tree(#[trigger] fields[i].1)
}

/// The names with the types that their type nodes stand for.
pub open spec fn field_types(fields: Seq<(Seq<char>, SNode)>) -> Seq<(Seq<char>, SType)> {
    fields.map_values(|f: (Seq<char>, SNode)| (f.0, stype_of(f.1)))
}

/// The members of a record: a tab, the declaration and `;` on a line each.
pub open spec fn fields_text(fields: Seq<(Seq<char>, SNode)>) -> Result<Seq<char>, SCodegenError>
    decreases fields.len(),
{
    if fields.len() == 0 {
        Ok(Seq::empty())
    } else {
        match named_type_text(fields[0].0, fields[0].1) {
            Err(e) => Err(e),
            Ok(u) => tprepend("\t"@ + u + ";\n"@, fields_text(fields.drop_first())),
        }
    }
}

/// The members of a variant's struct, each followed by `; `.
pub open spec fn inline_fields_text(fields: Seq<(Seq<char>, SNode)>) -> Result<Seq<char>, SCodegenError>
    decreases fields.len(),
{
    if fields.len() == 0 {
        Ok(Seq::empty())
    } else {
        match named_type_text(fields[0].0, fields[0].1) {
            Err(e) => Err(e),
            Ok(u) => tprepend(u + "; "@, inline_fields_text(fields.drop_first())),
        }
    }
}

/// The parameters of a function, separated by `, `; each becomes a mutable
/// variable of the scope `st.scope`.
pub open spec fn params_text(st: CState, params: Seq<(Seq<char>, SNode)>) -> SGen
    decreases params.len(),
{
    if params.len() == 0 {
        Ok((Seq::empty(), st))
    } else {
        match named_type_text(params[0].0, params[0].1) {
            Err(e) => Err(e),
            Ok(u) => prepend(
                u + sep(params.len()),
                params_text(
                    CState {
                        symbols: st.symbols.push((params[0].0, st.scope, SSymbol::Var { typ: stype_of(params[0].1), mutable: true })),
                        ..st
                    },
                    params.drop_first(),
                ),
            ),
        }
    }
}

/// The name of the struct of a variant of a tagged record.
pub open spec fn variant_name(id: Seq<char>, entry: Seq<char>) -> Seq<char> {
    "_"@ + id + "_"@ + entry
}

/// The enumerators of a tagged record's kinds.
pub open spec fn kinds_text(entries: Seq<(Seq<char>, Seq<(Seq<char>, SNode)>)>) -> Seq<char>
    decreases entries.len(),
{
    if entries.len() == 0 {
        Seq::empty()
    } else {
        kinds_text(entries.drop_last()) + "\t"@ + entries.last().0 + ",\n"@
    }
}

/// The union members of a tagged record.
pub open spec fn members_text(id: Seq<char>, entries: Seq<(Seq<char>, Seq<(Seq<char>, SNode)>)>) -> Seq<char>
    decreases entries.len(),
{
    if entries.len() == 0 {
        Seq::empty()
    } else {
        members_text(id, entries.drop_last()) + variant_name(id, entries.last().0) + " "@
            + entries.last().0 + ";"@
    }
}

/// The variants of a tagged record with their field types.
pub open spec fn variant_types(entries: Seq<(Seq<char>, Seq<(Seq<char>, SNode)>)>) -> Seq<
    (Seq<char>, Seq<(Seq<char>, SType)>),
> {
    entries.map_values(|e: (Seq<char>, Seq<(Seq<char>, SNode)>)| (e.0, field_types(e.1)))
}

/// A struct for each variant of a tagged record, each declared as a record.
pub open spec fn variants_text(st: CState, id: Seq<char>, entries: Seq<(Seq<char>, Seq<(Seq<char>, SNode)>)>) -> SGen
    decreases entries.len(),
{
    if entries.len() == 0 {
        Ok((Seq::empty(), st))
    } else {
        let e = entries[0];
        match inline_fields_text(e.1) {
            Err(err) => Err(err),
            Ok(ft) => if !all_type_trees(e.1) {
                Err(SCodegenError::MalformedTree)
            } else {
                prepend(
                    "typedef struct { "@ + ft + "} "@ + variant_name(id, e.0) + ";\n"@,
                    variants_text(
                        CState {
                            symbols: st.symbols.push((variant_name(id, e.0), 0int, SSymbol::Rec { tags: Seq::empty(), fields: field_types(e.1) })),
                            ..st
                        },
                        id,
                        entries.drop_first(),
                    ),
                )
            },
        }
    }
}

/// The text of a tagged record: the enum of its kinds, a struct per variant, and
/// the struct with the kind and the union of the variants.
pub open spec fn tag_rec_text(st: CState, tags: Seq<TagRecTags>, id: Seq<char>, entries: Seq<(Seq<char>, Seq<(Seq<char>, SNode)>)>) -> SGen {
    let s: Seq<char> = if tags.contains(TagRecTags::Static) { "static "@ } else { Seq::empty() };
    match variants_text(st, id, entries) {
        Err(e) => Err(e),
        Ok((vt, st1)) => Ok((
            s + "typedef enum {\n"@ + kinds_text(entries) + "} _"@ + id + "_tag;\n\n"@ + vt + s
                + "typedef struct {\n"@ + "\t_"@ + id + "_tag kind;\n"@ + "\tunion {\n"@ + members_text(
                id,
                entries,
            ) + "\t};\n"@ + "} "@ + id + ";\n\n"@,
            CState {
                symbols: st1.symbols.push((id, 0int, SSymbol::TagRec { tags, entries: variant_types(entries) })),
                ..st1
            },
        )),
    }
}

/// `s` with `${dir}` replaced by `dir`.
pub open spec fn format_pragma(s: Seq<char>, dir: Seq<char>) -> Seq<char> {
    replace_all(s, "${dir}"@, dir)
}

/// The C compiler flag that a pragma adds.
pub open spec fn pragma_flag(p: SPragma, dir: Seq<char>) -> Seq<char> {
    match p {
        SPragma::AddCCFlag(s) => format_pragma(s, dir),
        SPragma::AddLibrary(s) => "-l"@ + format_pragma(s, dir),
        SPragma::AddIncludeDir(s) => "-I"@ + include_path(dir, s),
    }
}

/// Whether `p` begins with `${dir}`.
pub open spec fn starts_with_dir(p: Seq<char>) -> bool {
    p.len() >= 6 && p.take(6) == seq!['$', '{', 'd', 'i', 'r', '}']
}

/// The include directory written `p` in the file whose directory is `dir`:
/// `${dir}` stands for `dir`, and a path that starts neither with `/` nor with
/// `${dir}` is taken relative to `dir`.
pub open spec fn include_path(dir: Seq<char>, p: Seq<char>) -> Seq<char> {
    let f = format_pragma(p, dir);
    if (p.len() > 0 && p[0] == '/') || starts_with_dir(p) || dir.len() == 0 {
        f
    } else {
        dir + "/"@ + f
    }
}

/// Replacing in text after a first character that cannot start `${dir}` leaves
/// that character in front.
pub proof fn lemma_replace_after(c: char, x: Seq<char>, rep: Seq<char>)
    requires
        c != '$',
    ensures
        replace_all(seq![c] + x, "${dir}"@, rep) == seq![c] + replace_all(x, "${dir}"@, rep),
{
    reveal_strlit("${dir}");
    let pat = "${dir}"@;
    let s = seq![c] + x;
    assert(pat.len() == 6);
    assert(pat[0] == '$');
    assert(s.skip(1) =~= x);
    if s.len() >= 6 {
        assert(s.take(6)[0] == c);
        assert(s.take(6) != pat);
    } else {
        assert(x.len() < 6);
        assert(replace_all(x, pat, rep) == x);
        assert(s =~= seq![c] + x);
    }
}

/// `add_library("x")` adds the same flag as `add_cc_flag("-lx")`.
pub proof fn law_library_is_link_flag(x: Seq<char>, dir: Seq<char>)
    ensures
        pragma_flag(SPragma::AddLibrary(x), dir) == pragma_flag(SPragma::AddCCFlag("-l"@ + x), dir),
{
    reveal_strlit("-l");
    let l = "-l"@;
    assert(l =~= seq!['-', 'l']);
    lemma_replace_after('l', x, dir);
    lemma_replace_after('-', seq!['l'] + x, dir);
    assert(seq!['-'] + (seq!['l'] + x) =~= l + x);
    assert(seq!['-'] + (seq!['l'] + replace_all(x, "${dir}"@, dir)) =~= l + replace_all(x, "${dir}"@, dir));
}

/// What a pragma adds to the flags of the C compiler, `dir` being the directory
/// of the file being compiled.
pub open spec fn pragma_state(st: CState, n: SNode, dir: Option<Seq<char>>) -> SGen {
    match n.node {
        SKind::TopPragma { id, params } => match spec_pragma(id, params) {
            Err(e) => Err(thrown(e, None, n)),
            Ok(p) => match dir {
                None => Err(SCodegenError::NoParentDirectory),
                Some(d) => Ok((Seq::empty(), CState { cc_flags: st.cc_flags.push(pragma_flag(p, d)), ..st })),
            },
        },
        _ => Ok((Seq::empty(), st)),
    }
}

/// The error that the compiler reports at node `n`.
pub open spec fn thrown(error: SCompilerError, help: Option<Seq<char>>, n: SNode) -> SCodegenError {
    SCodegenError::Thrown { error, help, line: n.line, column: n.column }
}

/// The hint given when a tagged record is instantiated without a kind name.
pub open spec fn kind_help() -> Seq<char> {
    "the first parameter must be an entry in the tag rec (it currently is not)"@
}

/// The C operator of a binary operator kind, if it has one.
pub open spec fn binary_text(kind: OperatorKind) -> Option<Seq<char>> {
    match kind {
        OperatorKind::Dot => Some("."@),
        OperatorKind::Assign => Some("="@),
        OperatorKind::And => Some("&&"@),
        OperatorKind::Or => Some("||"@),
        OperatorKind::Eq => Some("=="@),
        OperatorKind::Neq => Some("!="@),
        OperatorKind::Gt => Some(">"@),
        OperatorKind::GtEq => Some(">="@),
        OperatorKind::Lt => Some("<"@),
        OperatorKind::LtEq => Some("<="@),
        OperatorKind::Add => Some("+"@),
        OperatorKind::Sub => Some("-"@),
        OperatorKind::Mul => Some("*"@),
        OperatorKind::Div => Some("/"@),
        OperatorKind::Mod => Some("%"@),
        OperatorKind::Index => Some("["@),
        _ => None,
    }
}

/// The C operator of a prefix operator kind, if it has one.
pub open spec fn prefix_text(kind: OperatorKind) -> Option<Seq<char>> {
    match kind {
        OperatorKind::Ref => Some("&"@),
        OperatorKind::Deref => Some("*"@),
        OperatorKind::Not => Some("!"@),
        OperatorKind::Negate => Some("-"@),
        _ => None,
    }
}

/// The C code of node `n` in state `st`, within the file `file` whose
/// directory is `dir`.
pub open spec fn gen(file: Seq<char>, dir: Option<Seq<char>>, st: CState, n: SNode) -> SGen
    decreases n, 1nat,
{
    match n.node {
        SKind::Program(_) | SKind::ExprBlock(_) | SKind::ExprList(_) | SKind::ExprInvoke { .. } => gen_seq(
            file,
            dir,
            st,
            n,
        ),
        SKind::TopFun { .. } => gen_fun(file, dir, st, n),
        SKind::TopTag { .. } => gen_tag(file, dir, st, n),
        SKind::TopRec { .. } | SKind::TopDef { .. } | SKind::TopTagRec { .. } | SKind::TopPragma { .. } => gen_decl(
            dir,
            st,
            n,
        ),
        SKind::StatRet(_) | SKind::StatExpr(_) | SKind::ExprGroup(_) | SKind::ExprUnaryOperator { .. }
        | SKind::StatForSingleExpr { .. } => gen_wrap(file, dir, st, n),
        SKind::StatIf { .. } => gen_if(file, dir, st, n),
        SKind::StatSwitch { .. } => gen_switch(file, dir, st, n),
        SKind::StatForCStyle { .. } | SKind::StatForRange { .. } => gen_for(file, dir, st, n),
        SKind::ExprNew { .. } => gen_new(file, dir, st, n),
        SKind::ExprBinaryOperator { .. } => gen_binary(file, dir, st, n),
        SKind::ExprVar { name, typ, value } => gen_binding(
            file,
            dir,
            st,
            name,
            typ,
            *value,
            true,
            Seq::empty(),
        ),
        SKind::ExprLet { name, typ, value } => gen_binding(file, dir, st, name, typ, *value, false, "const "@),
        _ => gen_leaf(file, st, n),
    }
}

/// The code of the nodes that hold no other code (see `leaf_code`).
#[verifier::opaque]
pub open spec fn gen_leaf(file: Seq<char>, st: CState, n: SNode) -> SGen {
    leaf_code(st, n)
}

/// Records, type aliases, tagged records and pragmas (see `decl_code`).
#[verifier::opaque]
pub open spec fn gen_decl(dir: Option<Seq<char>>, st: CState, n: SNode) -> SGen {
    decl_code(dir, st, n)
}

pub proof fn lemma_gen_leaf(file: Seq<char>, st: CState, n: SNode)
    ensures
        gen_leaf(file, st, n) == leaf_code(st, n),
{
    reveal(gen_leaf);
}

pub proof fn lemma_gen_decl(dir: Option<Seq<char>>, st: CState, n: SNode)
    ensures
        gen_decl(dir, st, n) == decl_code(dir, st, n),
{
    reveal(gen_decl);
}

/// The code of the nodes that hold no other code: raw code, types, literals,
/// names; `use` and macros have none.
pub open spec fn leaf_code(st: CState, n: SNode) -> SGen {
    match n.node {
        SKind::Raw(text) => Ok((text + "\n"@, st)),
        SKind::Type { .. } => match type_text(n) {
            Err(e) => Err(e),
            Ok(t) => Ok((t, st)),
        },
        SKind::TopUse(..) => Err(SCodegenError::ModuleUse),
        SKind::ExprNumber(v) => Ok((v, st)),
        SKind::ExprString(v) => Ok((
            "(String){false, "@ + decimal(literal_len(v)) + ", \""@ + v + "\"}"@,
            st,
        )),
        SKind::ExprCString(v) => Ok(("\""@ + v + "\""@, st)),
        SKind::ExprChar(v) => Ok(("'"@ + v + "'"@, st)),
        SKind::ExprTrue => Ok(("true"@, st)),
        SKind::ExprFalse => Ok(("false"@, st)),
        SKind::StatBreak => Ok(("break;\n"@, st)),
        SKind::StatContinue => Ok(("continue;\n"@, st)),
        SKind::ExprIdentifier(id) => Ok((id, st)),
        SKind::ExprMacInvoke { .. } => Err(SCodegenError::Unimplemented),
        _ => Ok((Seq::empty(), st)),
    }
}

/// Records, type aliases, tagged records and pragmas.
pub open spec fn decl_code(dir: Option<Seq<char>>, st: CState, n: SNode) -> SGen {
    match n.node {
        SKind::TopRec { tags, id, fields } => match fields_text(fields) {
            Err(e) => Err(e),
            Ok(ft) => if !all_type_trees(fields) {
                Err(SCodegenError::MalformedTree)
            } else {
                Ok((
                    rec_tags_text(tags) + "typedef "@ + (if tags.contains(RecTags::Union) {
                        "union "@
                    } else {
                        "struct "@
                    }) + id + "{\n"@ + ft + "} "@ + id + ";\n\n"@,
                    CState {
                        symbols: st.symbols.push((id, 0int, SSymbol::Rec { tags, fields: field_types(fields) })),
                        ..st
                    },
                ))
            },
        },
        SKind::TopDef { tags, id, typ } => match named_type_text(id, *typ) {
            Err(e) => Err(e),
            Ok(t) => if !is_type_tree(*typ) {
                Err(SCodegenError::MalformedTree)
            } else {
                Ok((
                    def_tags_text(tags) + "typedef "@ + t + ";\n\n"@,
                    CState {
                        symbols: st.symbols.push((id, 0int, SSymbol::Def { tags, typ: stype_of(*typ) })),
                        ..st
                    },
                ))
            },
        },
        SKind::TopTagRec { tags, id, entries } => tag_rec_text(st, tags, id, entries),
        SKind::TopPragma { .. } => pragma_state(st, n, dir),
        _ => Ok((Seq::empty(), st)),
    }
}

/// Programs, blocks, lists and calls: code around a sequence of nodes.
pub open spec fn gen_seq(file: Seq<char>, dir: Option<Seq<char>>, st: CState, n: SNode) -> SGen
    decreases n, 0nat,
{
    match n.node {
        SKind::Program(nodes) => match gen_all(file, dir, st, nodes) {
            Err(e) => Err(e),
            Ok((t, s)) => Ok((
                "#pragma region \"file: "@ + file + "\"\n"@ + t + "#pragma region \"end file: "@ + file
                    + "\"\n"@,
                s,
            )),
        },
        SKind::ExprBlock(nodes) => match gen_all(file, dir, st, nodes) {
            Err(e) => Err(e),
            Ok((t, s)) => Ok(("{\n"@ + t + "}"@, s)),
        },
        SKind::ExprList(nodes) => match gen_comma(file, dir, st, nodes) {
            Err(e) => Err(e),
            Ok((t, s)) => Ok(("{"@ + t + "}"@, s)),
        },
        SKind::ExprInvoke { left, params } => match gen(file, dir, st, *left) {
            Err(e) => Err(e),
            Ok((t, s)) => match gen_comma(file, dir, s, params) {
                Err(e) => Err(e),
                Ok((u, s2)) => Ok(("("@ + t + "("@ + u + "))"@, s2)),
            },
        },
        _ => Ok((Seq::empty(), st)),
    }
}

/// A tag: an enum with its enumerators, declared as a tag.
pub open spec fn gen_tag(file: Seq<char>, dir: Option<Seq<char>>, st: CState, n: SNode) -> SGen
    decreases n, 0nat,
{
    match n.node {
        SKind::TopTag { tags, id, entries } => match gen_entries(file, dir, st, entries) {
            Err(e) => Err(e),
            Ok((t, s)) => Ok((
                tag_tags_text(tags) + "typedef enum {\n"@ + t + "} "@ + id + ";\n\n"@,
                CState {
                    symbols: s.symbols.push((id, 0int, SSymbol::Tag {
                            tags,
                            entries: entries.map_values(|e: (Seq<char>, Option<Box<SNode>>)| e.0),
                        })),
                    ..s
                },
            )),
        },
        _ => Ok((Seq::empty(), st)),
    }
}

/// Nodes whose code is that of one node with text around it: returns,
/// expression statements, groups, unary operators and single-condition loops.
pub open spec fn gen_wrap(file: Seq<char>, dir: Option<Seq<char>>, st: CState, n: SNode) -> SGen
    decreases n, 0nat,
{
    match n.node {
        SKind::StatRet(v) => match v {
            None => Ok(("return ;\n"@, st)),
            Some(b) => prepend("return "@, gen_then(file, dir, st, *b, ";\n"@)),
        },
        SKind::StatExpr(e) => gen_then(file, dir, st, *e, ";\n"@),
        SKind::ExprGroup(e) => prepend("("@, gen_then(file, dir, st, *e, ")"@)),
        SKind::ExprUnaryOperator { kind, value } => if kind == OperatorKind::Inc {
            prepend("("@, gen_then(file, dir, st, *value, "++)"@))
        } else if kind == OperatorKind::Dec {
            prepend("("@, gen_then(file, dir, st, *value, "--)"@))
        } else {
            match prefix_text(kind) {
                None => Err(SCodegenError::NotAnOperator(kind)),
                Some(op) => prepend("("@ + op, gen_then(file, dir, st, *value, ")"@)),
            }
        },
        SKind::StatForSingleExpr { cond, expr } => match gen(file, dir, st, *cond) {
            Err(e) => Err(e),
            Ok((t, s)) => prepend("while ("@ + t + ") {"@, gen_then(file, dir, s, *expr, "}"@)),
        },
        _ => Ok((Seq::empty(), st)),
    }
}

/// A switch with its cases.
pub open spec fn gen_switch(file: Seq<char>, dir: Option<Seq<char>>, st: CState, n: SNode) -> SGen
    decreases n, 0nat,
{
    match n.node {
        SKind::StatSwitch { switch, cases } => match gen(file, dir, st, *switch) {
            Err(e) => Err(e),
            Ok((t, s)) => match gen_cases(file, dir, s, cases) {
                Err(e) => Err(e),
                Ok((u, s2)) => Ok(("switch ("@ + t + ") {\n"@ + u + "}\n"@, s2)),
            },
        },
        _ => Ok((Seq::empty(), st)),
    }
}

/// The code of `n` followed by `tail`.
pub open spec fn gen_then(file: Seq<char>, dir: Option<Seq<char>>, st: CState, n: SNode, tail: Seq<char>) -> SGen
    decreases n, 2nat,
{
    match gen(file, dir, st, n) {
        Err(e) => Err(e),
        Ok((t, s)) => Ok((t + tail, s)),
    }
}

/// The code of the nodes one after another.
pub open spec fn gen_all(file: Seq<char>, dir: Option<Seq<char>>, st: CState, nodes: Seq<SNode>) -> SGen
    decreases nodes, 0nat,
{
    if nodes.len() == 0 {
        Ok((Seq::empty(), st))
    } else {
        match gen(file, dir, st, nodes[0]) {
            Err(e) => Err(e),
            Ok((u, s)) => prepend(u, gen_all(file, dir, s, nodes.drop_first())),
        }
    }
}

/// The code of the nodes separated by `, `.
pub open spec fn gen_comma(file: Seq<char>, dir: Option<Seq<char>>, st: CState, nodes: Seq<SNode>) -> SGen
    decreases nodes, 0nat,
{
    if nodes.len() == 0 {
        Ok((Seq::empty(), st))
    } else {
        match gen(file, dir, st, nodes[0]) {
            Err(e) => Err(e),
            Ok((u, s)) => prepend(u + sep(nodes.len()), gen_comma(file, dir, s, nodes.drop_first())),
        }
    }
}

/// The cases of a switch.
pub open spec fn gen_cases(file: Seq<char>, dir: Option<Seq<char>>, st: CState, cases: Seq<(Option<Box<SNode>>, bool, Box<SNode>)>) -> SGen
    decreases cases, 0nat,
{
    if cases.len() == 0 {
        Ok((Seq::empty(), st))
    } else {
        let c = cases[0];
        let head: SGen = match c.0 {
            Some(v) => prepend("case ("@, gen_then(file, dir, st, *v, "): "@)),
            None => Ok(("default: "@, st)),
        };
        match head {
            Err(e) => Err(e),
            Ok((h, s1)) => match gen(file, dir, s1, *c.2) {
                Err(e) => Err(e),
                Ok((b, s2)) => prepend(
                    h + "{"@ + b + (if c.1 { Seq::empty() } else { "break;"@ }) + "}\n"@,
                    gen_cases(file, dir, s2, cases.drop_first()),
                ),
            },
        }
    }
}

/// The enumerators of a tag, with their values.
pub open spec fn gen_entries(file: Seq<char>, dir: Option<Seq<char>>, st: CState, entries: Seq<(Seq<char>, Option<Box<SNode>>)>) -> SGen
    decreases entries, 0nat,
{
    if entries.len() == 0 {
        Ok((Seq::empty(), st))
    } else {
        let e = entries[0];
        match e.1 {
            None => prepend("\t"@ + e.0 + ",\n"@, gen_entries(file, dir, st, entries.drop_first())),
            Some(v) => match gen(file, dir, st, *v) {
                Err(err) => Err(err),
                Ok((u, s)) => prepend(
                    "\t"@ + e.0 + " = "@ + u + ",\n"@,
                    gen_entries(file, dir, s, entries.drop_first()),
                ),
            },
        }
    }
}

/// A function: its specifiers, return type, name and parameters, then its body
/// in a scope of its own, in which the parameters are variables.
pub open spec fn gen_fun(file: Seq<char>, dir: Option<Seq<char>>, st: CState, n: SNode) -> SGen
    decreases n, 0nat,
{
    match n.node {
        SKind::TopFun { tags, id, params, rets, expr } => match fun_tags_text(tags) {
            Err(e) => Err(e),
            Ok(tt) => match type_text(*rets) {
                Err(e) => Err(e),
                Ok(rt) => if st.scope >= usize::MAX {
                    Err(SCodegenError::ScopeOverflow)
                } else if !(all_type_trees(params) && is_type_tree(*rets)) {
                    Err(SCodegenError::MalformedTree)
                } else {
                    let inner = CState {
                        scope: st.scope + 1,
                        symbols: st.symbols.push((id, 0int, SSymbol::Fun {
                                tags,
                                params: stypes_of(params.map_values(|p: (Seq<char>, SNode)| p.1)),
                                rets: stype_of(*rets),
                            })),
                        ..st
                    };
                    match params_text(inner, params) {
                        Err(e) => Err(e),
                        Ok((pt, s)) => match gen(file, dir, s, *expr) {
                            Err(e) => Err(e),
                            Ok((b, s2)) => Ok((
                                tt + rt + " "@ + id + "("@ + pt + ")\n"@ + b + "\n\n"@,
                                CState {
                                    scope: s2.scope - 1,
                                    symbols: shallower(s2.symbols, s2.scope),
                                    ..s2
                                },
                            )),
                        },
                    }
                },
            },
        },
        _ => Ok((Seq::empty(), st)),
    }
}

pub open spec fn gen_if(file: Seq<char>, dir: Option<Seq<char>>, st: CState, n: SNode) -> SGen
    decreases n, 0nat,
{
    match n.node {
        SKind::StatIf { cond, expr, else_ } => match gen(file, dir, st, *cond) {
            Err(e) => Err(e),
            Ok((c, s)) => match gen(file, dir, s, *expr) {
                Err(e) => Err(e),
                Ok((b, s2)) => match else_ {
                    None => Ok(("if ("@ + c + ") {"@ + b + "}"@, s2)),
                    Some(el) => prepend(
                        "if ("@ + c + ") {"@ + b + "}"@ + " else {"@,
                        gen_then(file, dir, s2, *el, "}"@),
                    ),
                },
            },
        },
        _ => Ok((Seq::empty(), st)),
    }
}

pub open spec fn gen_for(file: Seq<char>, dir: Option<Seq<char>>, st: CState, n: SNode) -> SGen
    decreases n, 0nat,
{
    match n.node {
        SKind::StatForCStyle { def, cond, inc, expr } => match gen(file, dir, st, *def) {
            Err(e) => Err(e),
            Ok((d, s1)) => match gen(file, dir, s1, *cond) {
                Err(e) => Err(e),
                Ok((c, s2)) => match gen(file, dir, s2, *inc) {
                    Err(e) => Err(e),
                    Ok((i, s3)) => prepend(
                        "for ("@ + d + " ; "@ + c + " ; "@ + i + ") {"@,
                        gen_then(file, dir, s3, *expr, "}"@),
                    ),
                },
            },
        },
        SKind::StatForRange { var, from, to, expr } => {
            let v: Seq<char> = match var {
                Some(v) => v,
                None => "_i"@,
            };
            match gen(file, dir, st, *from) {
                Err(e) => Err(e),
                Ok((f, s1)) => match gen(file, dir, s1, *to) {
                    Err(e) => Err(e),
                    Ok((t, s2)) => prepend(
                        "for ("@ + "int "@ + v + " = "@ + f + " ; "@ + v + " < "@ + t + " ; "@ + v
                            + "++"@ + ") {"@,
                        gen_then(file, dir, s2, *expr, "}"@),
                    ),
                },
            }
        },
        _ => Ok((Seq::empty(), st)),
    }
}

pub open spec fn gen_binary(file: Seq<char>, dir: Option<Seq<char>>, st: CState, n: SNode) -> SGen
    decreases n, 0nat,
{
    match n.node {
        SKind::ExprBinaryOperator { kind, left, right } => if kind == OperatorKind::As {
            match gen(file, dir, st, *right) {
                Err(e) => Err(e),
                Ok((r, s)) => prepend("("@ + r + ")("@, gen_then(file, dir, s, *left, ")"@)),
            }
        } else {
            match gen(file, dir, st, *left) {
                Err(e) => Err(e),
                Ok((l, s)) => match binary_text(kind) {
                    None => Err(SCodegenError::NotAnOperator(kind)),
                    Some(op) => prepend(
                        "("@ + l + op,
                        gen_then(
                            file,
                            dir,
                            s,
                            *right,
                            (if kind == OperatorKind::Index { "]"@ } else { Seq::empty() }) + ")"@,
                        ),
                    ),
                },
            }
        },
        _ => Ok((Seq::empty(), st)),
    }
}

/// An instance of a record (`(T){fields}`) or of a tagged record
/// (`(T){kind, .kind={fields}}`).
pub open spec fn gen_new(file: Seq<char>, dir: Option<Seq<char>>, st: CState, n: SNode) -> SGen
    decreases n, 0nat,
{
    match n.node {
        SKind::ExprNew { id, params } => {
            let head = "("@ + id + "){"@;
            if !table_map(st.symbols).contains_key(id) {
                Err(thrown(SCompilerError::UnknownSymbol(id), None, n))
            } else {
                match table_map(st.symbols)[id].1 {
                    SSymbol::Rec { .. } => match gen_comma(file, dir, st, params) {
                        Err(e) => Err(e),
                        Ok((t, s)) => Ok((head + t + "}"@, s)),
                    },
                    SSymbol::TagRec { .. } => if params.len() == 0 {
                        Err(thrown(SCompilerError::TagRecInstantiateWithoutKind, None, n))
                    } else {
                        match params[0].node {
                            SKind::ExprIdentifier(kind) => if params.len() > 1 {
                                match gen_comma(file, dir, st, params.drop_first()) {
                                    Err(e) => Err(e),
                                    Ok((t, s)) => Ok((
                                        head + kind + ", ."@ + kind + "={"@ + t + "}"@ + "}"@,
                                        s,
                                    )),
                                }
                            } else {
                                Ok((head + kind + "}"@, st))
                            },
                            _ => Err(
                                thrown(SCompilerError::TagRecInstantiateWithoutKind, Some(kind_help()), n),
                            ),
                        }
                    },
                    other => Err(thrown(SCompilerError::Uninstantiatable(id, other), None, n)),
                }
            }
        },
        _ => Ok((Seq::empty(), st)),
    }
}

/// The declared or inferred type of a `var` or `let`, with its declaration.
pub open spec fn binding_decl(st: CState, name: Seq<char>, typ: Option<Box<SNode>>, value: SNode) -> Result<(Seq<char>, SType), SCodegenError> {
    match typ {
        Some(t) => match named_type_text(name, *t) {
            Err(e) => Err(e),
            Ok(d) => if is_type_tree(*t) {
                Ok((d, stype_of(*t)))
            } else {
                Err(SCodegenError::MalformedTree)
            },
        },
        None => if !infer_defined(table_map(st.symbols), value) {
            Err(SCodegenError::NotInferable)
        } else {
            match spec_infer(table_map(st.symbols), value) {
                Err(e) => Err(SCodegenError::Inference(e)),
                Ok(t) => match named_stype_text(name, t) {
                    Err(e) => Err(e),
                    Ok(d) => Ok((d, t)),
                },
            }
        },
    }
}

/// A `var` (mutable) or `let` (`const`, given as `head`) declaration with its
/// value; the name becomes a variable of the current scope.
pub open spec fn gen_binding(
    file: Seq<char>,
    dir: Option<Seq<char>>,
    st: CState,
    name: Seq<char>,
    typ: Option<Box<SNode>>,
    value: SNode,
    mutable: bool,
    head: Seq<char>,
) -> SGen
    decreases value, 2nat,
{
    match binding_decl(st, name, typ, value) {
        Err(e) => Err(e),
        Ok((d, t)) => match gen(file, dir, st, value) {
            Err(e) => Err(e),
            Ok((v, s)) => Ok((
                head + d + " = "@ + v,
                CState {
                    symbols: s.symbols.push((name, s.scope, SSymbol::Var { typ: t, mutable })),
                    ..s
                },
            )),
        },
    }
}

/// `#extern` has no effect on a function's specifiers: they are those of the
/// same hashtags without it.
pub proof fn law_extern_has_no_effect(tags: Seq<FunTags>)
    ensures
        fun_tags_text(tags.filter(|t: FunTags| t != FunTags::Extern)) == fun_tags_text(tags),
{
    let pred = |t: FunTags| t != FunTags::Extern;
    let f = tags.filter(pred);
    assert forall|x: FunTags| x != FunTags::Extern implies (f.contains(x) <==> tags.contains(x)) by {
        if f.contains(x) {
            tags.lemma_filter_contains_rev(pred, x);
        }
        if tags.contains(x) {
            let i = choose|i: int| 0 <= i < tags.len() && tags[i] == x;
            tags.lemma_filter_contains(pred, i);
        }
    }
    assert(f.contains(FunTags::Static) == tags.contains(FunTags::Static));
    assert(f.contains(FunTags::Inline) == tags.contains(FunTags::Inline));
    assert(f.contains(FunTags::NoRet) == tags.contains(FunTags::NoRet));
}

} // verus!
