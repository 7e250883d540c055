use vstd::prelude::*;

use crate::compile::compiler::Compiler;
use crate::compile::error::{CompilerError, SCompilerError};
use crate::compile::infer::InferError;
use crate::compile::infer::{infer_defined, infer_type_of_node, spec_infer, SInferError};
use crate::compile::pragmas::{spec_pragma, Pragma, SPragma};
use crate::compile::symbol::{copy_fields, copy_tags, fields_view, SSymbol, Symbol, SymbolTable};
use crate::compile::type_::{is_type_tree, stype_of, stypes_of, types_view, SType, SeaType};
use crate::hashtags::{DefTags, FunTags, RecTags, TagRecTags, TagTags};
use crate::parse::ast::{
    lemma_named_nodes_view_index, lemma_named_nodes_view_len, lemma_nodes_view_index,
    lemma_nodes_view_len, named_nodes_view, nodes_view, opt_string_view, strings_view, Node, NodeKind,
    SKind, SNode, cases_view, lemma_cases_view_index, lemma_cases_view_len, lemma_tag_entries_view_index,
    lemma_tag_entries_view_len, lemma_tag_rec_entries_view_index, lemma_tag_rec_entries_view_len,
    opt_node_view, tag_entries_view, tag_rec_entries_view,
};
use crate::parse::ast_pp::{append_str, push_arrays, push_decimal};
use crate::parse::operator::OperatorKind;
use crate::text::push_char;

use super::c_text::{include_path, pragma_flag, char_utf8_len, lemma_literal_len_bound, literal_len, decl_code, leaf_code, lemma_gen_decl, lemma_gen_leaf, gen_decl, gen_leaf, gen_seq, gen_switch, gen_tag, gen_wrap, binding_decl, format_pragma, gen_binding, gen_new, kinds_text, members_text, pragma_state, replace_all, tag_rec_text, variant_name, variant_types, variants_text, binary_text, gen_binary, gen_cases, gen_entries, gen_for, gen_if, gen_fun, params_text, field_types, gen, gen_all, gen_comma, gen_then, utf8_len, all_type_trees, def_tags_text, fields_text, fun_tags_text, inline_fields_text, rec_tags_text, tag_tags_text, args_text, named_stype_text, named_type_text, stype_args_text, stype_text, lemma_prepend_twice, lemma_tprepend_twice, prepend, sep, stars, tprepend, type_text, CState, SCodegenError, SGen};

verus! {

/// Why no C code could be generated.
#[derive(Debug)]
pub enum CodegenError {
    /// An error of the program, reported at a line and column, with a hint.
    Thrown { error: CompilerError, help: Option<&'static str>, line: usize, column: usize },
    /// A function pointer type stands where C needs a named type.
    FunctionPointerType,
    /// A type is not a type node, or a function pointer type lacks its arguments.
    MalformedTree,
    /// The operator cannot be written in this position.
    NotAnOperator(OperatorKind),
    /// External functions and macros have no C form yet.
    Unimplemented,
    /// The type of a `var` or `let` cannot be inferred at all.
    NotInferable,
    /// Inferring the type of a `var` or `let` failed.
    Inference(InferError),
    /// A `use` is resolved by the caller, which reads the module's files.
    ModuleUse,
    /// Scopes nest deeper than a `usize` counts.
    ScopeOverflow,
    /// The file being compiled has no parent directory for `${dir}`.
    NoParentDirectory,
}

impl View for CodegenError {
    type V = SCodegenError;

    open spec fn view(&self) -> SCodegenError {
        match self {
            CodegenError::Thrown { error, help, line, column } => SCodegenError::Thrown {
                error: error@,
                help: match help {
                    Some(h) => Some(h@),
                    None => None,
                },
                line: *line as int,
                column: *column as int,
            },
            CodegenError::FunctionPointerType => SCodegenError::FunctionPointerType,
            CodegenError::MalformedTree => SCodegenError::MalformedTree,
            CodegenError::NotAnOperator(k) => SCodegenError::NotAnOperator(*k),
            CodegenError::Unimplemented => SCodegenError::Unimplemented,
            CodegenError::NotInferable => SCodegenError::NotInferable,
            CodegenError::Inference(e) => SCodegenError::Inference(e@),
            CodegenError::ModuleUse => SCodegenError::ModuleUse,
            CodegenError::ScopeOverflow => SCodegenError::ScopeOverflow,
            CodegenError::NoParentDirectory => SCodegenError::NoParentDirectory,
        }
    }
}

/// `r` and the text appended to `before` are what `g` gives.
pub open spec fn text_outcome(
    g: Result<Seq<char>, SCodegenError>,
    r: Result<(), CodegenError>,
    before: Seq<char>,
    after: Seq<char>,
) -> bool {
    match g {
        Ok(t) => r is Ok && after == before + t,
        Err(e) => r matches Err(x) && x@ == e,
    }
}

/// `r`, the text appended to `before` and the state `st` are what `g` gives.
pub open spec fn gen_outcome(
    g: SGen,
    r: Result<(), CodegenError>,
    before: Seq<char>,
    after: Seq<char>,
    st: CState,
) -> bool {
    match g {
        Ok((t, s)) => r is Ok && after == before + t && st == s,
        Err(e) => r matches Err(x) && x@ == e,
    }
}

proof fn lemma_types_view_index(s: Seq<SeaType>, i: int)
    requires
        0 <= i < s.len(),
    ensures
        types_view(s).len() == s.len(),
        types_view(s)[i] == s[i]@,
    decreases s.len(),
{
    lemma_types_view_len(s.subrange(0, s.len() - 1));
    if i < s.len() - 1 {
        lemma_types_view_index(s.subrange(0, s.len() - 1), i);
        assert(s.subrange(0, s.len() - 1)[i] == s[i]);
    }
}

proof fn lemma_types_view_len(s: Seq<SeaType>)
    ensures
        types_view(s).len() == s.len(),
    decreases s.len(),
{
    if s.len() > 0 {
        lemma_types_view_len(s.subrange(0, s.len() - 1));
    }
}

fn push_stars(out: &mut String, n: u8)
    ensures
        final(out)@ == old(out)@ + stars(n as nat),
{
    let mut i: u8 = 0;
    while i < n
        invariant
            i <= n,
            out@ == old(out)@ + stars(i as nat),
        decreases n - i,
    {
        push_char(out, '*');
        proof {
            assert(stars(i as nat).push('*') =~= stars((i + 1) as nat));
        }
        i = i + 1;
    }
}

fn write_type(out: &mut String, n: &Node) -> (r: Result<(), CodegenError>)
    ensures
        text_outcome(type_text(n@), r, old(out)@, final(out)@),
{
    match &n.node {
        NodeKind::Type { pointers, name, arrays, funptr_rets, .. } => {
            if funptr_rets.is_some() {
                Err(CodegenError::FunctionPointerType)
            } else {
                append_str(out, name.as_str());
                push_stars(out, *pointers);
                push_arrays(out, arrays);
                proof {
                    assert(final(out)@ =~= old(out)@ + type_text(n@)->Ok_0);
                }
                Ok(())
            }
        },
        _ => Err(CodegenError::MalformedTree),
    }
}

#[verifier::loop_isolation(false)]
fn write_type_args(out: &mut String, args: &Vec<Node>) -> (r: Result<(), CodegenError>)
    ensures
        text_outcome(args_text(nodes_view(args@)), r, old(out)@, final(out)@),
{
    let ghost ns = nodes_view(args@);
    let ghost mut text: Seq<char> = Seq::empty();
    proof {
        lemma_nodes_view_len(args@);
        assert(ns.skip(0) =~= ns);
        assert(tprepend(Seq::empty(), args_text(ns)) == args_text(ns)) by {
            if let Ok(v) = args_text(ns) {
                assert(Seq::<char>::empty() + v =~= v);
            }
        }
    }
    let mut i: usize = 0;
    while i < args.len()
        invariant
            i <= args.len(),
            ns.len() == args.len(),
            args_text(ns) == tprepend(text, args_text(ns.skip(i as int))),
            out@ == old(out)@ + text,
        decreases args.len() - i,
    {
        proof {
            lemma_nodes_view_index(args@, i as int);
            assert(ns.skip(i as int).drop_first() =~= ns.skip(i + 1));
            assert(ns.skip(i as int)[0] == ns[i as int]);
        }
        match write_type(out, &args[i]) {
            Err(e) => {
                return Err(e);
            },
            Ok(()) => {},
        }
        if i + 1 < args.len() {
            append_str(out, ", ");
        }
        proof {
            reveal_strlit(", ");
            let u = type_text(ns[i as int])->Ok_0;
            lemma_tprepend_twice(text, u + sep(ns.skip(i as int).len()), args_text(ns.skip(i + 1)));
            text = text + (u + sep(ns.skip(i as int).len()));
            assert(out@ =~= old(out)@ + text);
        }
        i = i + 1;
    }
    proof {
        assert(ns.skip(i as int) =~= Seq::<SNode>::empty());
        assert(text + Seq::<char>::empty() =~= text);
    }
    Ok(())
}

fn write_named_type(out: &mut String, id: &str, n: &Node) -> (r: Result<(), CodegenError>)
    ensures
        text_outcome(named_type_text(id@, n@), r, old(out)@, final(out)@),
{
    match &n.node {
        NodeKind::Type { pointers, name, arrays, funptr_args, funptr_rets } => {
            match funptr_rets {
                Some(rets) => {
                    match write_type(out, rets) {
                        Err(e) => {
                            return Err(e);
                        },
                        Ok(()) => {},
                    }
                    match funptr_args {
                        None => Err(CodegenError::MalformedTree),
                        Some(args) => {
                            append_str(out, "(*");
                            push_stars(out, *pointers);
                            append_str(out, " ");
                            append_str(out, id);
                            append_str(out, ")(");
                            match write_type_args(out, args) {
                                Err(e) => {
                                    return Err(e);
                                },
                                Ok(()) => {},
                            }
                            append_str(out, ")");
                            push_arrays(out, arrays);
                            proof {
                                assert(out@ =~= old(out)@ + named_type_text(id@, n@)->Ok_0);
                            }
                            Ok(())
                        },
                    }
                },
                None => {
                    append_str(out, name.as_str());
                    append_str(out, " ");
                    push_stars(out, *pointers);
                    append_str(out, id);
                    push_arrays(out, arrays);
                    proof {
                        assert(out@ =~= old(out)@ + named_type_text(id@, n@)->Ok_0);
                    }
                    Ok(())
                },
            }
        },
        _ => Err(CodegenError::MalformedTree),
    }
}

fn write_stype(out: &mut String, t: &SeaType) -> (r: Result<(), CodegenError>)
    ensures
        text_outcome(stype_text(t@), r, old(out)@, final(out)@),
{
    if t.funptr_rets.is_some() {
        Err(CodegenError::FunctionPointerType)
    } else {
        append_str(out, t.name.as_str());
        push_stars(out, t.pointers);
        push_arrays(out, &t.arrays);
        proof {
            assert(out@ =~= old(out)@ + stype_text(t@)->Ok_0);
        }
        Ok(())
    }
}

#[verifier::loop_isolation(false)]
fn write_stype_args(out: &mut String, args: &Vec<SeaType>) -> (r: Result<(), CodegenError>)
    ensures
        text_outcome(stype_args_text(types_view(args@)), r, old(out)@, final(out)@),
{
    let ghost ns = types_view(args@);
    let ghost mut text: Seq<char> = Seq::empty();
    proof {
        lemma_types_view_len(args@);
        assert(ns.skip(0) =~= ns);
        assert(tprepend(Seq::empty(), stype_args_text(ns)) == stype_args_text(ns)) by {
            if let Ok(v) = stype_args_text(ns) {
                assert(Seq::<char>::empty() + v =~= v);
            }
        }
    }
    let mut i: usize = 0;
    while i < args.len()
        invariant
            i <= args.len(),
            ns.len() == args.len(),
            stype_args_text(ns) == tprepend(text, stype_args_text(ns.skip(i as int))),
            out@ == old(out)@ + text,
        decreases args.len() - i,
    {
        proof {
            lemma_types_view_index(args@, i as int);
            assert(ns.skip(i as int).drop_first() =~= ns.skip(i + 1));
            assert(ns.skip(i as int)[0] == ns[i as int]);
        }
        match write_stype(out, &args[i]) {
            Err(e) => {
                return Err(e);
            },
            Ok(()) => {},
        }
        if i + 1 < args.len() {
            append_str(out, ", ");
        }
        proof {
            reveal_strlit(", ");
            let u = stype_text(ns[i as int])->Ok_0;
            lemma_tprepend_twice(text, u + sep(ns.skip(i as int).len()), stype_args_text(ns.skip(i + 1)));
            text = text + (u + sep(ns.skip(i as int).len()));
            assert(out@ =~= old(out)@ + text);
        }
        i = i + 1;
    }
    proof {
        assert(ns.skip(i as int) =~= Seq::<SType>::empty());
        assert(text + Seq::<char>::empty() =~= text);
    }
    Ok(())
}

fn write_named_stype(out: &mut String, id: &str, t: &SeaType) -> (r: Result<(), CodegenError>)
    ensures
        text_outcome(named_stype_text(id@, t@), r, old(out)@, final(out)@),
{
    match &t.funptr_rets {
        Some(rets) => {
            match write_stype(out, rets) {
                Err(e) => {
                    return Err(e);
                },
                Ok(()) => {},
            }
            match &t.funptr_args {
                None => Err(CodegenError::MalformedTree),
                Some(args) => {
                    append_str(out, "(*");
                    push_stars(out, t.pointers);
                    append_str(out, " ");
                    append_str(out, id);
                    append_str(out, ")(");
                    match write_stype_args(out, args) {
                        Err(e) => {
                            return Err(e);
                        },
                        Ok(()) => {},
                    }
                    append_str(out, ")");
                    push_arrays(out, &t.arrays);
                    proof {
                        assert(out@ =~= old(out)@ + named_stype_text(id@, t@)->Ok_0);
                    }
                    Ok(())
                },
            }
        },
        None => {
            append_str(out, t.name.as_str());
            append_str(out, " ");
            push_stars(out, t.pointers);
            append_str(out, id);
            push_arrays(out, &t.arrays);
            proof {
                assert(out@ =~= old(out)@ + named_stype_text(id@, t@)->Ok_0);
            }
            Ok(())
        },
    }
}

/// Whether a function has the hashtag `t`.
fn has_fun_tag(tags: &Vec<FunTags>, t: FunTags) -> (r: bool)
    ensures
        r == tags@.contains(t),
{
    let mut i: usize = 0;
    while i < tags.len()
        invariant
            i <= tags.len(),
            forall|j: int| 0 <= j < i ==> tags@[j] != t,
        decreases tags.len() - i,
    {
        if tags[i] == t {
            assert(tags@[i as int] == t);
            return true;
        }
        i = i + 1;
    }
    false
}

fn write_fun_tags(out: &mut String, tags: &Vec<FunTags>) -> (r: Result<(), CodegenError>)
    ensures
        text_outcome(fun_tags_text(tags@), r, old(out)@, final(out)@),
{
    let st = has_fun_tag(tags, FunTags::Static);
    let inl = has_fun_tag(tags, FunTags::Inline);
    let nr = has_fun_tag(tags, FunTags::NoRet);
    let a: &str = if st { "static " } else { "" };
    let b: &str = if inl { "inline " } else { "" };
    let c: &str = if nr { "noreturn " } else { "" };
    append_str(out, a);
    append_str(out, b);
    append_str(out, c);
    proof {
        reveal_strlit("static ");
        reveal_strlit("inline ");
        reveal_strlit("noreturn ");
        reveal_strlit("");
        assert(out@ =~= old(out)@ + fun_tags_text(tags@)->Ok_0);
    }
    Ok(())
}

fn write_rec_tags(out: &mut String, tags: &Vec<RecTags>)
    ensures
        final(out)@ == old(out)@ + rec_tags_text(tags@),
{
    let mut i: usize = 0;
    proof {
        assert(tags@.take(0) =~= Seq::<RecTags>::empty());
    }
    while i < tags.len()
        invariant
            i <= tags.len(),
            out@ == old(out)@ + rec_tags_text(tags@.take(i as int)),
        decreases tags.len() - i,
    {
        proof {
            assert(tags@.take(i + 1).drop_last() =~= tags@.take(i as int));
        }
        if tags[i] == RecTags::Static {
            append_str(out, "static ");
        }
        proof {
            reveal_strlit("static ");
            assert(out@ =~= old(out)@ + rec_tags_text(tags@.take(i + 1)));
        }
        i = i + 1;
    }
    proof {
        assert(tags@.take(i as int) =~= tags@);
    }
}

fn write_def_tags(out: &mut String, tags: &Vec<DefTags>)
    ensures
        final(out)@ == old(out)@ + def_tags_text(tags@),
{
    let mut i: usize = 0;
    proof {
        assert(tags@.take(0) =~= Seq::<DefTags>::empty());
    }
    while i < tags.len()
        invariant
            i <= tags.len(),
            out@ == old(out)@ + def_tags_text(tags@.take(i as int)),
        decreases tags.len() - i,
    {
        proof {
            assert(tags@.take(i + 1).drop_last() =~= tags@.take(i as int));
        }
        append_str(out, "static ");
        proof {
            reveal_strlit("static ");
            assert(out@ =~= old(out)@ + def_tags_text(tags@.take(i + 1)));
        }
        i = i + 1;
    }
    proof {
        assert(tags@.take(i as int) =~= tags@);
    }
}

fn write_tag_tags(out: &mut String, tags: &Vec<TagTags>)
    ensures
        final(out)@ == old(out)@ + tag_tags_text(tags@),
{
    let mut i: usize = 0;
    proof {
        assert(tags@.take(0) =~= Seq::<TagTags>::empty());
    }
    while i < tags.len()
        invariant
            i <= tags.len(),
            out@ == old(out)@ + tag_tags_text(tags@.take(i as int)),
        decreases tags.len() - i,
    {
        proof {
            assert(tags@.take(i + 1).drop_last() =~= tags@.take(i as int));
        }
        if tags[i] == TagTags::Static {
            append_str(out, "static ");
        }
        proof {
            reveal_strlit("static ");
            assert(out@ =~= old(out)@ + tag_tags_text(tags@.take(i + 1)));
        }
        i = i + 1;
    }
    proof {
        assert(tags@.take(i as int) =~= tags@);
    }
}

/// Whether `n` is a type whose function pointer parts are types too.
#[verifier::loop_isolation(false)]
fn type_tree(n: &Node) -> (r: bool)
    ensures
        r == is_type_tree(n@),
    decreases n,
{
    match &n.node {
        NodeKind::Type { funptr_args, funptr_rets, .. } => {
            match funptr_args {
                Some(v) => {
                    let ghost vs = nodes_view(v@);
                    proof {
                        lemma_nodes_view_len(v@);
                    }
                    let mut i: usize = 0;
                    while i < v.len()
                        invariant
                            i <= v.len(),
                            vs.len() == v.len(),
                            forall|j: int| 0 <= j < i ==> is_type_tree(#[trigger] vs[j]),
                        decreases v.len() - i,
                    {
                        proof {
                            lemma_nodes_view_index(v@, i as int);
                            assert(decreases_to!(n => v@[i as int]));
                        }
                        if !type_tree(&v[i]) {
                            assert(!is_type_tree(vs[i as int]));
                            proof {
                                let fa = n@.node->Type_funptr_args->Some_0;
                                assert(fa == vs);
                                assert(!is_type_tree(fa[i as int]));
                                reveal_with_fuel(is_type_tree, 2);
                            }
                            return false;
                        }
                        i = i + 1;
                    }
                },
                None => {},
            }
            match funptr_rets {
                Some(b) => type_tree(b),
                None => true,
            }
        },
        _ => false,
    }
}

/// Whether every type of `fields` is a type tree.
fn fields_are_types(fields: &Vec<(String, Node)>) -> (r: bool)
    ensures
        r == all_type_trees(named_nodes_view(fields@)),
{
    let ghost fs = named_nodes_view(fields@);
    proof {
        lemma_named_nodes_view_len(fields@);
    }
    let mut i: usize = 0;
    while i < fields.len()
        invariant
            i <= fields.len(),
            fs == named_nodes_view(fields@),
            fs.len() == fields.len(),
            forall|j: int| 0 <= j < i ==> is_type_tree(#[trigger] fs[j].1),
        decreases fields.len() - i,
    {
        proof {
            lemma_named_nodes_view_index(fields@, i as int);
        }
        if !type_tree(&fields[i].1) {
            assert(!is_type_tree(fs[i as int].1));
            return false;
        }
        i = i + 1;
    }
    true
}

#[verifier::loop_isolation(false)]
fn write_fields(out: &mut String, fields: &Vec<(String, Node)>, inline: bool) -> (r: Result<(), CodegenError>)
    ensures
        text_outcome(
            if inline { inline_fields_text(named_nodes_view(fields@)) } else { fields_text(named_nodes_view(fields@)) },
            r,
            old(out)@,
            final(out)@,
        ),
{
    let ghost fs = named_nodes_view(fields@);
    let ghost whole = if inline { inline_fields_text(fs) } else { fields_text(fs) };
    let ghost mut text: Seq<char> = Seq::empty();
    proof {
        lemma_named_nodes_view_len(fields@);
        assert(fs.skip(0) =~= fs);
        assert(tprepend(Seq::empty(), whole) == whole) by {
            if let Ok(v) = whole {
                assert(Seq::<char>::empty() + v =~= v);
            }
        }
    }
    let mut i: usize = 0;
    while i < fields.len()
        invariant
            i <= fields.len(),
            fs == named_nodes_view(fields@),
            fs.len() == fields.len(),
            whole == (if inline { inline_fields_text(fs) } else { fields_text(fs) }),
            whole == tprepend(
                text,
                if inline { inline_fields_text(fs.skip(i as int)) } else { fields_text(fs.skip(i as int)) },
            ),
            out@ == old(out)@ + text,
        decreases fields.len() - i,
    {
        proof {
            lemma_named_nodes_view_index(fields@, i as int);
            assert(fs.skip(i as int).drop_first() =~= fs.skip(i + 1));
            assert(fs.skip(i as int)[0] == fs[i as int]);
            reveal_strlit("\t");
            reveal_strlit(";\n");
            reveal_strlit("; ");
        }
        let ghost before = out@;
        if !inline {
            append_str(out, "\t");
        }
        let ghost mid = out@;
        match write_named_type(out, fields[i].0.as_str(), &fields[i].1) {
            Err(e) => {
                return Err(e);
            },
            Ok(()) => {},
        }
        if inline {
            append_str(out, "; ");
        } else {
            append_str(out, ";\n");
        }
        proof {
            let u = named_type_text(fs[i as int].0, fs[i as int].1)->Ok_0;
            let piece = if inline { u + "; "@ } else { "\t"@ + u + ";\n"@ };
            if inline {
                lemma_tprepend_twice(text, piece, inline_fields_text(fs.skip(i + 1)));
            } else {
                lemma_tprepend_twice(text, piece, fields_text(fs.skip(i + 1)));
            }
            text = text + piece;
            assert(out@ =~= old(out)@ + text);
        }
        i = i + 1;
    }
    proof {
        assert(fs.skip(i as int) =~= Seq::<(Seq<char>, SNode)>::empty());
        assert(text + Seq::<char>::empty() =~= text);
    }
    Ok(())
}

/// The types of named type nodes.
fn field_types_of(fields: &Vec<(String, Node)>) -> (r: Vec<(String, SeaType)>)
    requires
        all_type_trees(named_nodes_view(fields@)),
    ensures
        fields_view(r@) == field_types(named_nodes_view(fields@)),
{
    let ghost fs = named_nodes_view(fields@);
    proof {
        lemma_named_nodes_view_len(fields@);
    }
    let mut r: Vec<(String, SeaType)> = Vec::new();
    let mut i: usize = 0;
    while i < fields.len()
        invariant
            i <= fields.len(),
            fs == named_nodes_view(fields@),
            fs.len() == fields.len(),
            all_type_trees(fs),
            r.len() == i,
            forall|j: int| #![trigger r@[j]] 0 <= j < i ==> r@[j].0@ == fs[j].0 && r@[j].1@ == stype_of(fs[j].1),
        decreases fields.len() - i,
    {
        proof {
            lemma_named_nodes_view_index(fields@, i as int);
            assert(is_type_tree(fs[i as int].1));
        }
        let f = (fields[i].0.clone(), SeaType::of_type_node(&fields[i].1));
        r.push(f);
        i = i + 1;
    }
    proof {
        assert(fields_view(r@) =~= field_types(fs));
    }
    r
}

/// The types of the parameters of a function.
fn param_types_of(params: &Vec<(String, Node)>) -> (r: Vec<SeaType>)
    requires
        all_type_trees(named_nodes_view(params@)),
    ensures
        types_view(r@) == stypes_of(named_nodes_view(params@).map_values(|p: (Seq<char>, SNode)| p.1)),
{
    let ghost fs = named_nodes_view(params@);
    let ghost ps = fs.map_values(|p: (Seq<char>, SNode)| p.1);
    proof {
        lemma_named_nodes_view_len(params@);
        assert(ps.take(0) =~= Seq::<SNode>::empty());
        assert(types_view(Seq::<SeaType>::empty()) =~= Seq::<SType>::empty());
    }
    let mut r: Vec<SeaType> = Vec::new();
    let mut i: usize = 0;
    while i < params.len()
        invariant
            i <= params.len(),
            fs == named_nodes_view(params@),
            fs.len() == params.len(),
            ps == fs.map_values(|p: (Seq<char>, SNode)| p.1),
            all_type_trees(fs),
            types_view(r@) == stypes_of(ps.take(i as int)),
        decreases params.len() - i,
    {
        proof {
            lemma_named_nodes_view_index(params@, i as int);
            assert(is_type_tree(fs[i as int].1));
            crate::compile::type_::lemma_stypes_of_push(ps, i as int);
        }
        let t = SeaType::of_type_node(&params[i].1);
        proof {
            crate::compile::type_::lemma_types_view_push(r@, t);
        }
        r.push(t);
        i = i + 1;
    }
    proof {
        assert(ps.take(i as int) =~= ps);
    }
    r
}

/// The directory of a file path (`Path::parent`), if it has one.
pub uninterp spec fn path_parent(path: Seq<char>) -> Option<Seq<char>>;

/// Calls `std::path::Path::parent` on `path`. The contract names the result
/// `path_parent(path)` and claims no more: that the same path always has the
/// same parent.
#[verifier::external_body]
fn parent_dir(path: &str) -> (r: Option<String>)
    ensures
        opt_string_view(r) == path_parent(path@),
{
    match std::path::Path::new(path).parent() {
        Some(p) => Some(p.to_string_lossy().into_owned()),
        None => None,
    }
}

/// Calls `str::len`, which the documentation gives as the length of the UTF-8
/// encoding in bytes.
#[verifier::external_body]
fn byte_len(s: &str) -> (r: usize)
    ensures
        r as nat == utf8_len(s@),
{
    s.len()
}

/// The number of bytes of the value of the string literal written as `v`.
fn literal_length(v: &String) -> (r: usize)
    ensures
        r as nat == literal_len(v@),
{
    let total = byte_len(v.as_str());
    let cs = crate::text::chars_of(v.as_str());
    proof {
        lemma_literal_len_bound(cs@);
        assert(cs@.skip(0) =~= cs@);
    }
    let mut n: usize = 0;
    let mut i: usize = 0;
    while i < cs.len()
        invariant
            i <= cs.len(),
            cs@ == v@,
            n + literal_len(cs@.skip(i as int)) == literal_len(cs@),
            literal_len(cs@) <= total,
        decreases cs.len() - i,
    {
        let ghost rest = cs@.skip(i as int);
        assert(rest[0] == cs@[i as int]);
        if cs[i] == '\\' && cs.len() - i >= 2 {
            proof {
                assert(rest.skip(2) =~= cs@.skip(i + 2));
            }
            n = n + 1;
            i = i + 2;
        } else {
            let c = cs[i];
            let k: usize = if (c as u32) < 0x80 {
                1
            } else if (c as u32) < 0x800 {
                2
            } else if (c as u32) < 0x10000 {
                3
            } else {
                4
            };
            proof {
                assert(rest.skip(1) =~= cs@.skip(i + 1));
                assert(k == char_utf8_len(c));
            }
            n = n + k;
            i = i + 1;
        }
    }
    proof {
        assert(cs@.skip(i as int) =~= Seq::<char>::empty());
    }
    n
}

/// Generates C code from a syntax tree, keeping the symbols that the code
/// declares in a compiler's tables.
pub struct CBackend {
    pub compiler: Compiler,
}

impl CBackend {
    /// The compiler has a file being compiled.
    pub open spec fn wf(&self) -> bool {
        self.compiler.wf() && self.compiler.file_stack.len() > 0
    }

    /// The path of the file being compiled.
    pub open spec fn file(&self) -> Seq<char> {
        strings_view(self.compiler.file_stack@).last()
    }

    pub open spec fn state(&self) -> CState {
        CState {
            scope: self.compiler.scope as int,
            symbols: self.compiler.symbols.entries(),
            cc_flags: strings_view(self.compiler.cc_flags@),
        }
    }

    /// What a call that appends to the output and changes `before` into `after`
    /// promises: the file being compiled and the modules in use are as they were,
    /// the scope is left as it was found, and the text, the state and the result
    /// are what `g` gives.
    pub open spec fn stepped(
        before: CBackend,
        after: CBackend,
        g: SGen,
        r: Result<(), CodegenError>,
        out_before: Seq<char>,
        out_after: Seq<char>,
    ) -> bool {
        &&& after.wf()
        &&& after.compiler.file_stack == before.compiler.file_stack
        &&& after.compiler.usages == before.compiler.usages
        &&& (r is Ok ==> after.compiler.scope == before.compiler.scope)
        &&& gen_outcome(g, r, out_before, out_after, after.state())
    }

    /// Opens the region of the file being compiled, as a program does (a caller
    /// that generates a program's statements one by one writes this first).
    pub fn region_start(&self, out: &mut String)
        requires
            self.wf(),
        ensures
            final(out)@ == old(out)@ + "#pragma region \"file: "@ + self.file() + "\"\n"@,
    {
        let last = self.compiler.file_stack.len() - 1;
        proof {
            crate::parse::ast::lemma_strings_view_len(self.compiler.file_stack@);
        }
        append_str(out, "#pragma region \"file: ");
        append_str(out, self.compiler.file_stack[last].as_str());
        append_str(out, "\"\n");
    }

    /// Closes the region of the file being compiled.
    pub fn region_end(&self, out: &mut String)
        requires
            self.wf(),
        ensures
            final(out)@ == old(out)@ + "#pragma region \"end file: "@ + self.file() + "\"\n"@,
    {
        let last = self.compiler.file_stack.len() - 1;
        proof {
            crate::parse::ast::lemma_strings_view_len(self.compiler.file_stack@);
        }
        append_str(out, "#pragma region \"end file: ");
        append_str(out, self.compiler.file_stack[last].as_str());
        append_str(out, "\"\n");
    }

    /// A backend over `compiler`.
    pub fn new(compiler: Compiler) -> (r: CBackend)
        ensures
            r.compiler == compiler,
    {
        CBackend { compiler }
    }

    #[verifier::rlimit(100)]
    #[verifier::spinoff_prover]
    /// Appends the C code of `node` to `out`, declaring what it declares.
    pub fn write(&mut self, out: &mut String, node: &Node) -> (r: Result<(), CodegenError>)
        requires
            old(self).wf(),
        ensures
            CBackend::stepped(
                *old(self),
                *final(self),
                gen(old(self).file(), path_parent(old(self).file()), old(self).state(), node@),
                r,
                old(out)@,
                final(out)@,
            ),
        decreases node, 2nat,
    {
        match &node.node {
            NodeKind::Program(_) | NodeKind::ExprBlock(_) | NodeKind::ExprList(_) | NodeKind::ExprInvoke { .. } => {
                self.write_seq(out, node)
            },
            NodeKind::TopFun { .. } => self.top_fun(out, node),
            NodeKind::TopTag { .. } => self.write_tag(out, node),
            NodeKind::TopRec { .. } | NodeKind::TopDef { .. } | NodeKind::TopTagRec { .. }
            | NodeKind::TopPragma { .. } => self.write_decl(out, node),
            NodeKind::StatRet(_) | NodeKind::StatExpr(_) | NodeKind::ExprGroup(_)
            | NodeKind::ExprUnaryOperator { .. } | NodeKind::StatForSingleExpr { .. } => self.write_wrap(out, node),
            NodeKind::StatIf { .. } => self.stat_if(out, node),
            NodeKind::StatSwitch { .. } => self.write_switch(out, node),
            NodeKind::StatForCStyle { .. } | NodeKind::StatForRange { .. } => self.stat_for(out, node),
            NodeKind::ExprNew { .. } => self.expr_new(out, node),
            NodeKind::ExprBinaryOperator { .. } => self.expr_binary(out, node),
            NodeKind::ExprVar { name, typ, value } => {
                proof {
                    reveal_strlit("");
                }
                self.binding(out, name, typ, value, true, "")
            },
            NodeKind::ExprLet { name, typ, value } => {
                proof {
                    reveal_strlit("const ");
                }
                self.binding(out, name, typ, value, false, "const ")
            },
            _ => {
                proof {
                    lemma_gen_leaf(self.file(), self.state(), node@);
                }
                write_leaf(out, node, Ghost(self.state()))
            },
        }
    }

    #[verifier::rlimit(100)]
    #[verifier::spinoff_prover]
    /// Programs, blocks, lists and calls.
    fn write_seq(&mut self, out: &mut String, node: &Node) -> (r: Result<(), CodegenError>)
        requires
            old(self).wf(),
        ensures
            CBackend::stepped(
                *old(self),
                *final(self),
                gen_seq(old(self).file(), path_parent(old(self).file()), old(self).state(), node@),
                r,
                old(out)@,
                final(out)@,
            ),
        decreases node, 0nat,
    {
        let ghost f = self.file();
        let ghost d = path_parent(f);
        let ghost st = self.state();
        match &node.node {
            NodeKind::Program(nodes) => {
                let last = self.compiler.file_stack.len() - 1;
                let file = self.compiler.file_stack[last].clone();
                proof {
                    crate::parse::ast::lemma_strings_view_len(self.compiler.file_stack@);
                }
                append_str(out, "#pragma region \"file: ");
                append_str(out, file.as_str());
                append_str(out, "\"\n");
                match self.write_all(out, nodes) {
                    Err(e) => {
                        return Err(e);
                    },
                    Ok(()) => {},
                }
                append_str(out, "#pragma region \"end file: ");
                append_str(out, file.as_str());
                append_str(out, "\"\n");
                proof {
                    assert(out@ =~= old(out)@ + gen_seq(f, d, st, node@)->Ok_0.0);
                }
                Ok(())
            },
            NodeKind::ExprBlock(nodes) => {
                append_str(out, "{\n");
                match self.write_all(out, nodes) {
                    Err(e) => {
                        return Err(e);
                    },
                    Ok(()) => {},
                }
                append_str(out, "}");
                proof {
                    assert(out@ =~= old(out)@ + gen_seq(f, d, st, node@)->Ok_0.0);
                }
                Ok(())
            },
            NodeKind::ExprList(nodes) => {
                append_str(out, "{");
                proof {
                    assert(nodes_view(nodes@).skip(0) =~= nodes_view(nodes@));
                }
                match self.write_comma(out, nodes, 0) {
                    Err(e) => {
                        return Err(e);
                    },
                    Ok(()) => {},
                }
                append_str(out, "}");
                proof {
                    assert(out@ =~= old(out)@ + gen_seq(f, d, st, node@)->Ok_0.0);
                }
                Ok(())
            },
            NodeKind::ExprInvoke { left, params } => {
                append_str(out, "(");
                match self.write(out, left) {
                    Err(e) => {
                        return Err(e);
                    },
                    Ok(()) => {},
                }
                append_str(out, "(");
                proof {
                    assert(nodes_view(params@).skip(0) =~= nodes_view(params@));
                }
                match self.write_comma(out, params, 0) {
                    Err(e) => {
                        return Err(e);
                    },
                    Ok(()) => {},
                }
                append_str(out, "))");
                proof {
                    assert(out@ =~= old(out)@ + gen_seq(f, d, st, node@)->Ok_0.0);
                }
                Ok(())
            },
            _ => {
                proof {
                    assert(out@ =~= old(out)@ + Seq::<char>::empty());
                }
                Ok(())
            },
        }
    }

    /// A tag: an enum with its enumerators, declared as a tag.
    fn write_tag(&mut self, out: &mut String, node: &Node) -> (r: Result<(), CodegenError>)
        requires
            old(self).wf(),
        ensures
            CBackend::stepped(
                *old(self),
                *final(self),
                gen_tag(old(self).file(), path_parent(old(self).file()), old(self).state(), node@),
                r,
                old(out)@,
                final(out)@,
            ),
        decreases node, 0nat,
    {
        let ghost f = self.file();
        let ghost d = path_parent(f);
        let ghost st = self.state();
        match &node.node {
            NodeKind::TopTag { tags, id, entries } => {
                write_tag_tags(out, tags);
                append_str(out, "typedef enum {\n");
                match self.write_entries(out, entries) {
                    Err(e) => {
                        return Err(e);
                    },
                    Ok(()) => {},
                }
                append_str(out, "} ");
                append_str(out, id.as_str());
                append_str(out, ";\n\n");
                let names = entry_names(entries);
                self.compiler.add_tag(id.clone(), copy_tags(tags), names);
                proof {
                    assert(out@ =~= old(out)@ + gen_tag(f, d, st, node@)->Ok_0.0);
                    assert(self.state() =~= gen_tag(f, d, st, node@)->Ok_0.1);
                }
                Ok(())
            },
            _ => {
                proof {
                    assert(out@ =~= old(out)@ + Seq::<char>::empty());
                }
                Ok(())
            },
        }
    }

    /// Records, type aliases, tagged records and pragmas.
    fn write_decl(&mut self, out: &mut String, node: &Node) -> (r: Result<(), CodegenError>)
        requires
            old(self).wf(),
        ensures
            CBackend::stepped(
                *old(self),
                *final(self),
                gen_decl(path_parent(old(self).file()), old(self).state(), node@),
                r,
                old(out)@,
                final(out)@,
            ),
        
    {
        let ghost f = self.file();
        let ghost d = path_parent(f);
        let ghost st = self.state();
        proof {
            lemma_gen_decl(d, st, node@);
        }
        match &node.node {
            NodeKind::TopRec { tags, id, fields } => self.top_rec(out, tags, id, fields),
            NodeKind::TopDef { tags, id, typ } => self.top_def(out, tags, id, typ),
            NodeKind::TopTagRec { tags, id, entries } => self.top_tag_rec(out, tags, id, entries),
            NodeKind::TopPragma { .. } => {
                let r = self.top_pragma(node);
                proof {
                    assert(out@ =~= old(out)@ + Seq::<char>::empty());
                }
                r
            },
            _ => {
                proof {
                    assert(out@ =~= old(out)@ + Seq::<char>::empty());
                }
                Ok(())
            },
        }
    }

    #[verifier::rlimit(100)]
    #[verifier::spinoff_prover]
    /// Returns, expression statements, groups, unary operators and single-condition loops.
    fn write_wrap(&mut self, out: &mut String, node: &Node) -> (r: Result<(), CodegenError>)
        requires
            old(self).wf(),
        ensures
            CBackend::stepped(
                *old(self),
                *final(self),
                gen_wrap(old(self).file(), path_parent(old(self).file()), old(self).state(), node@),
                r,
                old(out)@,
                final(out)@,
            ),
        decreases node, 0nat,
    {
        let ghost f = self.file();
        let ghost d = path_parent(f);
        let ghost st = self.state();
        match &node.node {
            NodeKind::StatRet(v) => {
                append_str(out, "return ");
                match v {
                    None => {
                        append_str(out, ";\n");
                        proof {
                            reveal_strlit("return ");
                            reveal_strlit(";\n");
                            reveal_strlit("return ;\n");
                            assert(out@ =~= old(out)@ + gen_wrap(f, d, st, node@)->Ok_0.0);
                        }
                        Ok(())
                    },
                    Some(b) => {
                        proof {
                            assert(out@ =~= old(out)@ + "return "@);
                        }
                        let r = self.write_then(out, b, ";\n");
                        proof {
                            lemma_prepend_out(old(out)@, "return "@, gen_then(f, d, st, b@, ";\n"@), r, final(out)@);
                        }
                        r
                    },
                }
            },
            NodeKind::StatExpr(e) => self.write_then(out, e, ";\n"),
            NodeKind::ExprGroup(e) => {
                append_str(out, "(");
                proof {
                    assert(out@ =~= old(out)@ + "("@);
                }
                let r = self.write_then(out, e, ")");
                proof {
                    lemma_prepend_out(old(out)@, "("@, gen_then(f, d, st, e@, ")"@), r, final(out)@);
                }
                r
            },
            NodeKind::StatForSingleExpr { cond, expr } => {
                append_str(out, "while (");
                match self.write(out, cond) {
                    Err(e) => {
                        return Err(e);
                    },
                    Ok(()) => {},
                }
                append_str(out, ") {");
                let ghost t = gen(f, d, st, cond@)->Ok_0.0;
                let ghost s1 = gen(f, d, st, cond@)->Ok_0.1;
                proof {
                    assert(out@ =~= old(out)@ + ("while ("@ + t + ") {"@));
                }
                let r = self.write_then(out, expr, "}");
                proof {
                    lemma_prepend_out(old(out)@, "while ("@ + t + ") {"@, gen_then(f, d, s1, expr@, "}"@), r, final(out)@);
                }
                r
            },
            NodeKind::ExprUnaryOperator { kind, value } => {
                append_str(out, "(");
                let post: bool = *kind == OperatorKind::Inc || *kind == OperatorKind::Dec;
                if post {
                    let tail: &str = if *kind == OperatorKind::Inc { "++)" } else { "--)" };
                    proof {
                        assert(out@ =~= old(out)@ + "("@);
                    }
                    let r = self.write_then(out, value, tail);
                    proof {
                        reveal_strlit("++)");
                        reveal_strlit("--)");
                        lemma_prepend_out(old(out)@, "("@, gen_then(f, d, st, value@, tail@), r, final(out)@);
                    }
                    r
                } else {
                    let op: &str = match kind {
                        OperatorKind::Ref => "&",
                        OperatorKind::Deref => "*",
                        OperatorKind::Not => "!",
                        OperatorKind::Negate => "-",
                        _ => {
                            return Err(CodegenError::NotAnOperator(*kind));
                        },
                    };
                    append_str(out, op);
                    proof {
                        assert(out@ =~= old(out)@ + ("("@ + op@));
                    }
                    let r = self.write_then(out, value, ")");
                    proof {
                        reveal_strlit("&");
                        reveal_strlit("*");
                        reveal_strlit("!");
                        reveal_strlit("-");
                        lemma_prepend_out(old(out)@, "("@ + op@, gen_then(f, d, st, value@, ")"@), r, final(out)@);
                    }
                    r
                }
            },
            _ => {
                proof {
                    assert(out@ =~= old(out)@ + Seq::<char>::empty());
                }
                Ok(())
            },
        }
    }

    /// A switch with its cases.
    fn write_switch(&mut self, out: &mut String, node: &Node) -> (r: Result<(), CodegenError>)
        requires
            old(self).wf(),
        ensures
            CBackend::stepped(
                *old(self),
                *final(self),
                gen_switch(old(self).file(), path_parent(old(self).file()), old(self).state(), node@),
                r,
                old(out)@,
                final(out)@,
            ),
        decreases node, 0nat,
    {
        let ghost f = self.file();
        let ghost d = path_parent(f);
        let ghost st = self.state();
        match &node.node {
            NodeKind::StatSwitch { switch, cases } => {
                append_str(out, "switch (");
                match self.write(out, switch) {
                    Err(e) => {
                        return Err(e);
                    },
                    Ok(()) => {},
                }
                append_str(out, ") {\n");
                match self.write_cases(out, cases) {
                    Err(e) => {
                        return Err(e);
                    },
                    Ok(()) => {},
                }
                append_str(out, "}\n");
                proof {
                    assert(out@ =~= old(out)@ + gen_switch(f, d, st, node@)->Ok_0.0);
                }
                Ok(())
            },
            _ => {
                proof {
                    assert(out@ =~= old(out)@ + Seq::<char>::empty());
                }
                Ok(())
            },
        }
    }

    /// Appends the C code of `node` and then `tail`.
    pub fn write_then(&mut self, out: &mut String, node: &Node, tail: &str) -> (r: Result<(), CodegenError>)
        requires
            old(self).wf(),
        ensures
            CBackend::stepped(
                *old(self),
                *final(self),
                gen_then(old(self).file(), path_parent(old(self).file()), old(self).state(), node@, tail@),
                r,
                old(out)@,
                final(out)@,
            ),
        decreases node, 3nat,
    {
        match self.write(out, node) {
            Err(e) => Err(e),
            Ok(()) => {
                append_str(out, tail);
                proof {
                    assert(out@ =~= old(out)@ + gen_then(self.file(), path_parent(self.file()), old(self).state(), node@, tail@)->Ok_0.0);
                }
                Ok(())
            },
        }
    }

    #[verifier::rlimit(100)]
    #[verifier::spinoff_prover]
    /// Appends the C code of the nodes one after another.
    #[verifier::loop_isolation(false)]
    pub fn write_all(&mut self, out: &mut String, nodes: &Vec<Node>) -> (r: Result<(), CodegenError>)
        requires
            old(self).wf(),
        ensures
            CBackend::stepped(
                *old(self),
                *final(self),
                gen_all(old(self).file(), path_parent(old(self).file()), old(self).state(), nodes_view(nodes@)),
                r,
                old(out)@,
                final(out)@,
            ),
        decreases nodes, 0nat,
    {
        let ghost f = self.file();
        let ghost d = path_parent(f);
        let ghost ns = nodes_view(nodes@);
        let ghost whole = gen_all(f, d, self.state(), ns);
        let ghost mut text: Seq<char> = Seq::empty();
        proof {
            lemma_nodes_view_len(nodes@);
            assert(ns.skip(0) =~= ns);
            lemma_prepend_empty(whole);
        }
        let mut i: usize = 0;
        while i < nodes.len()
            invariant
                i <= nodes.len(),
                ns.len() == nodes.len(),
                self.wf(),
                self.file() == f,
                self.compiler.file_stack == old(self).compiler.file_stack,
                self.compiler.usages == old(self).compiler.usages,
                self.compiler.scope == old(self).compiler.scope,
                whole == prepend(text, gen_all(f, d, self.state(), ns.skip(i as int))),
                out@ == old(out)@ + text,
            decreases nodes.len() - i,
        {
            proof {
                lemma_nodes_view_index(nodes@, i as int);
                assert(ns.skip(i as int).drop_first() =~= ns.skip(i + 1));
                assert(ns.skip(i as int)[0] == ns[i as int]);
                assert(decreases_to!(nodes => nodes@[i as int]));
            }
            let ghost s0 = self.state();
            match self.write(out, &nodes[i]) {
                Err(e) => {
                    return Err(e);
                },
                Ok(()) => {},
            }
            proof {
                let u = gen(f, d, s0, ns[i as int])->Ok_0.0;
                assert(gen(f, d, s0, ns[i as int]) == Ok::<(Seq<char>, CState), SCodegenError>((u, self.state())));
                assert(gen_all(f, d, s0, ns.skip(i as int)) == prepend(u, gen_all(f, d, self.state(), ns.skip(i + 1)))) by {
                    reveal_with_fuel(gen_all, 1);
                }
                lemma_prepend_twice(text, u, gen_all(f, d, self.state(), ns.skip(i + 1)));
                text = text + u;
            }
            i = i + 1;
        }
        proof {
            assert(ns.skip(i as int) =~= Seq::<SNode>::empty());
            assert(text + Seq::<char>::empty() =~= text);
        }
        Ok(())
    }

    #[verifier::rlimit(100)]
    #[verifier::spinoff_prover]
    /// Appends the C code of the nodes from `start` on, separated by `, `.
    #[verifier::loop_isolation(false)]
    pub fn write_comma(&mut self, out: &mut String, nodes: &Vec<Node>, start: usize) -> (r: Result<(), CodegenError>)
        requires
            old(self).wf(),
            start <= nodes.len(),
        ensures
            CBackend::stepped(
                *old(self),
                *final(self),
                gen_comma(old(self).file(), path_parent(old(self).file()), old(self).state(), nodes_view(nodes@).skip(start as int)),
                r,
                old(out)@,
                final(out)@,
            ),
        decreases nodes, 0nat,
    {
        let ghost f = self.file();
        let ghost d = path_parent(f);
        let ghost ns = nodes_view(nodes@);
        let ghost whole = gen_comma(f, d, self.state(), ns.skip(start as int));
        let ghost mut text: Seq<char> = Seq::empty();
        proof {
            lemma_nodes_view_len(nodes@);
            lemma_prepend_empty(whole);
        }
        let mut i: usize = start;
        while i < nodes.len()
            invariant
                start <= i <= nodes.len(),
                ns.len() == nodes.len(),
                self.wf(),
                self.file() == f,
                self.compiler.file_stack == old(self).compiler.file_stack,
                self.compiler.usages == old(self).compiler.usages,
                self.compiler.scope == old(self).compiler.scope,
                whole == prepend(text, gen_comma(f, d, self.state(), ns.skip(i as int))),
                out@ == old(out)@ + text,
            decreases nodes.len() - i,
        {
            proof {
                lemma_nodes_view_index(nodes@, i as int);
                assert(ns.skip(i as int).drop_first() =~= ns.skip(i + 1));
                assert(ns.skip(i as int)[0] == ns[i as int]);
                assert(decreases_to!(nodes => nodes@[i as int]));
            }
            let ghost s0 = self.state();
            match self.write(out, &nodes[i]) {
                Err(e) => {
                    return Err(e);
                },
                Ok(()) => {},
            }
            if i + 1 < nodes.len() {
                append_str(out, ", ");
            }
            proof {
                reveal_strlit(", ");
                let g = gen(f, d, s0, ns[i as int])->Ok_0.0;
                let u = g + sep(ns.skip(i as int).len());
                assert(gen(f, d, s0, ns[i as int]) == Ok::<(Seq<char>, CState), SCodegenError>((g, self.state())));
                assert(gen_comma(f, d, s0, ns.skip(i as int)) == prepend(u, gen_comma(f, d, self.state(), ns.skip(i + 1))));
                lemma_prepend_twice(text, u, gen_comma(f, d, self.state(), ns.skip(i + 1)));
                text = text + u;
                assert(out@ =~= old(out)@ + text);
            }
            i = i + 1;
        }
        proof {
            assert(ns.skip(i as int) =~= Seq::<SNode>::empty());
            assert(text + Seq::<char>::empty() =~= text);
        }
        Ok(())
    }

    #[verifier::rlimit(100)]
    #[verifier::spinoff_prover]
    /// A function: specifiers, return type, name and parameters, then the body
    /// in a scope of its own.
    fn top_fun(&mut self, out: &mut String, node: &Node) -> (r: Result<(), CodegenError>)
        requires
            old(self).wf(),
        ensures
            CBackend::stepped(
                *old(self),
                *final(self),
                gen_fun(old(self).file(), path_parent(old(self).file()), old(self).state(), node@),
                r,
                old(out)@,
                final(out)@,
            ),
        decreases node, 0nat,
    {
        let ghost f = self.file();
        let ghost d = path_parent(f);
        let ghost st = self.state();
        match &node.node {
            NodeKind::TopFun { tags, id, params, rets, expr } => {
                match write_fun_tags(out, tags) {
                    Err(e) => {
                        return Err(e);
                    },
                    Ok(()) => {},
                }
                match write_type(out, rets) {
                    Err(e) => {
                        return Err(e);
                    },
                    Ok(()) => {},
                }
                append_str(out, " ");
                append_str(out, id.as_str());
                append_str(out, "(");
                if self.compiler.scope == usize::MAX {
                    return Err(CodegenError::ScopeOverflow);
                }
                self.compiler.push_scope();
                if !(fields_are_types(params) && type_tree(rets)) {
                    return Err(CodegenError::MalformedTree);
                }
                let ptypes = param_types_of(params);
                let rtype = SeaType::of_type_node(rets);
                self.compiler.add_fun(id.clone(), copy_tags(tags), ptypes, rtype);
                let ghost inner = self.state();
                proof {
                    assert(inner.symbols =~= st.symbols.push((id@, 0int, SSymbol::Fun {
                            tags: tags@,
                            params: stypes_of(named_nodes_view(params@).map_values(|p: (Seq<char>, SNode)| p.1)),
                            rets: stype_of(rets@),
                        })));
                }
                let ghost before_params = out@;
                match self.write_params(out, params) {
                    Err(e) => {
                        return Err(e);
                    },
                    Ok(()) => {},
                }
                append_str(out, ")\n");
                let ghost s1 = self.state();
                match self.write(out, expr) {
                    Err(e) => {
                        return Err(e);
                    },
                    Ok(()) => {},
                }
                append_str(out, "\n\n");
                self.compiler.pop_scope();
                proof {
                    reveal_strlit(" ");
                    reveal_strlit("(");
                    reveal_strlit(")\n");
                    reveal_strlit("\n\n");
                    assert(out@ =~= old(out)@ + gen_fun(f, d, st, node@)->Ok_0.0);
                }
                Ok(())
            },
            _ => {
                proof {
                    assert(gen_fun(f, d, st, node@) == Ok::<(Seq<char>, CState), SCodegenError>((Seq::empty(), st)));
                    assert(out@ =~= old(out)@ + Seq::<char>::empty());
                }
                Ok(())
            },
        }
    }

    /// The parameters of a function, each declared as a mutable variable.
    #[verifier::loop_isolation(false)]
    fn write_params(&mut self, out: &mut String, params: &Vec<(String, Node)>) -> (r: Result<(), CodegenError>)
        requires
            old(self).wf(),
            all_type_trees(named_nodes_view(params@)),
        ensures
            CBackend::stepped(
                *old(self),
                *final(self),
                params_text(old(self).state(), named_nodes_view(params@)),
                r,
                old(out)@,
                final(out)@,
            ),
    {
        let ghost fs = named_nodes_view(params@);
        let ghost whole = params_text(self.state(), fs);
        let ghost mut text: Seq<char> = Seq::empty();
        proof {
            lemma_named_nodes_view_len(params@);
            assert(fs.skip(0) =~= fs);
            lemma_prepend_empty(whole);
        }
        let mut i: usize = 0;
        while i < params.len()
            invariant
                i <= params.len(),
                fs.len() == params.len(),
                all_type_trees(fs),
                self.wf(),
                self.compiler.file_stack == old(self).compiler.file_stack,
                self.compiler.usages == old(self).compiler.usages,
                self.compiler.scope == old(self).compiler.scope,
                whole == prepend(text, params_text(self.state(), fs.skip(i as int))),
                out@ == old(out)@ + text,
            decreases params.len() - i,
        {
            proof {
                lemma_named_nodes_view_index(params@, i as int);
                assert(fs.skip(i as int).drop_first() =~= fs.skip(i + 1));
                assert(fs.skip(i as int)[0] == fs[i as int]);
                assert(is_type_tree(fs[i as int].1));
            }
            let ghost s0 = self.state();
            match write_named_type(out, params[i].0.as_str(), &params[i].1) {
                Err(e) => {
                    return Err(e);
                },
                Ok(()) => {},
            }
            if i + 1 < params.len() {
                append_str(out, ", ");
            }
            let t = SeaType::of_type_node(&params[i].1);
            self.compiler.add_var(params[i].0.clone(), t, true);
            proof {
                reveal_strlit(", ");
                let u = named_type_text(fs[i as int].0, fs[i as int].1)->Ok_0 + sep(fs.skip(i as int).len());
                assert(self.state() =~= CState {
                    symbols: s0.symbols.push((fs[i as int].0, s0.scope, SSymbol::Var { typ: stype_of(fs[i as int].1), mutable: true })),
                    ..s0
                });
                lemma_prepend_twice(text, u, params_text(self.state(), fs.skip(i + 1)));
                text = text + u;
                assert(out@ =~= old(out)@ + text);
            }
            i = i + 1;
        }
        proof {
            assert(fs.skip(i as int) =~= Seq::<(Seq<char>, SNode)>::empty());
            assert(text + Seq::<char>::empty() =~= text);
        }
        Ok(())
    }

    /// A record: a C struct or union, declared as a record.
    fn top_rec(&mut self, out: &mut String, tags: &Vec<RecTags>, id: &String, fields: &Vec<(String, Node)>) -> (r: Result<(), CodegenError>)
        requires
            old(self).wf(),
        ensures
            CBackend::stepped(
                *old(self),
                *final(self),
                decl_code(
                    path_parent(old(self).file()),
                    old(self).state(),
                    SNode { line: 0, column: 0, node: SKind::TopRec { tags: tags@, id: id@, fields: named_nodes_view(fields@) } },
                ),
                r,
                old(out)@,
                final(out)@,
            ),
    {
        write_rec_tags(out, tags);
        append_str(out, "typedef ");
        if has_union(tags) {
            append_str(out, "union ");
        } else {
            append_str(out, "struct ");
        }
        append_str(out, id.as_str());
        append_str(out, "{\n");
        match write_fields(out, fields, false) {
            Err(e) => {
                return Err(e);
            },
            Ok(()) => {},
        }
        if !fields_are_types(fields) {
            return Err(CodegenError::MalformedTree);
        }
        append_str(out, "} ");
        append_str(out, id.as_str());
        append_str(out, ";\n\n");
        let ft = field_types_of(fields);
        self.compiler.add_rec(id.clone(), copy_tags(tags), ft);
        proof {
            reveal_strlit("union ");
            reveal_strlit("struct ");
            reveal_strlit("typedef ");
            reveal_strlit("{\n");
            reveal_strlit("} ");
            reveal_strlit(";\n\n");
            assert(out@ =~= old(out)@ + decl_code(
                path_parent(self.file()),
                old(self).state(),
                SNode { line: 0, column: 0, node: SKind::TopRec { tags: tags@, id: id@, fields: named_nodes_view(fields@) } },
            )->Ok_0.0);
        }
        Ok(())
    }

    /// A type alias.
    fn top_def(&mut self, out: &mut String, tags: &Vec<DefTags>, id: &String, typ: &Node) -> (r: Result<(), CodegenError>)
        requires
            old(self).wf(),
        ensures
            CBackend::stepped(
                *old(self),
                *final(self),
                decl_code(
                    path_parent(old(self).file()),
                    old(self).state(),
                    SNode { line: 0, column: 0, node: SKind::TopDef { tags: tags@, id: id@, typ: Box::new(typ@) } },
                ),
                r,
                old(out)@,
                final(out)@,
            ),
    {
        write_def_tags(out, tags);
        append_str(out, "typedef ");
        match write_named_type(out, id.as_str(), typ) {
            Err(e) => {
                return Err(e);
            },
            Ok(()) => {},
        }
        append_str(out, ";\n\n");
        if !type_tree(typ) {
            return Err(CodegenError::MalformedTree);
        }
        let t = SeaType::of_type_node(typ);
        self.compiler.add_def(id.clone(), copy_tags(tags), t);
        proof {
            reveal_strlit("typedef ");
            reveal_strlit(";\n\n");
            assert(out@ =~= old(out)@ + decl_code(
                path_parent(self.file()),
                old(self).state(),
                SNode { line: 0, column: 0, node: SKind::TopDef { tags: tags@, id: id@, typ: Box::new(typ@) } },
            )->Ok_0.0);
        }
        Ok(())
    }

    /// The enumerators of a tag, with their values.
    #[verifier::loop_isolation(false)]
    #[verifier::rlimit(100)]
    #[verifier::spinoff_prover]
    fn write_entries(&mut self, out: &mut String, entries: &Vec<(String, Option<Box<Node>>)>) -> (r: Result<(), CodegenError>)
        requires
            old(self).wf(),
        ensures
            CBackend::stepped(
                *old(self),
                *final(self),
                gen_entries(old(self).file(), path_parent(old(self).file()), old(self).state(), tag_entries_view(entries@)),
                r,
                old(out)@,
                final(out)@,
            ),
        decreases entries, 0nat,
    {
        let ghost f = self.file();
        let ghost d = path_parent(f);
        let ghost es = tag_entries_view(entries@);
        let ghost whole = gen_entries(f, d, self.state(), es);
        let ghost mut text: Seq<char> = Seq::empty();
        proof {
            lemma_tag_entries_view_len(entries@);
            assert(es.skip(0) =~= es);
            lemma_prepend_empty(whole);
        }
        let mut i: usize = 0;
        while i < entries.len()
            invariant
                i <= entries.len(),
                es.len() == entries.len(),
                self.wf(),
                self.file() == f,
                self.compiler.file_stack == old(self).compiler.file_stack,
                self.compiler.usages == old(self).compiler.usages,
                self.compiler.scope == old(self).compiler.scope,
                whole == prepend(text, gen_entries(f, d, self.state(), es.skip(i as int))),
                out@ == old(out)@ + text,
            decreases entries.len() - i,
        {
            proof {
                lemma_tag_entries_view_index(entries@, i as int);
                assert(es.skip(i as int).drop_first() =~= es.skip(i + 1));
                assert(es.skip(i as int)[0] == es[i as int]);
                reveal_strlit("\t");
                reveal_strlit(" = ");
                reveal_strlit(",\n");
            }
            let ghost s0 = self.state();
            append_str(out, "\t");
            append_str(out, entries[i].0.as_str());
            match &entries[i].1 {
                None => {
                    append_str(out, ",\n");
                    proof {
                        let u = "\t"@ + es[i as int].0 + ",\n"@;
                        lemma_prepend_twice(text, u, gen_entries(f, d, self.state(), es.skip(i + 1)));
                        text = text + u;
                        assert(out@ =~= old(out)@ + text);
                    }
                },
                Some(v) => {
                    append_str(out, " = ");
                    proof {
                        assert(decreases_to!(entries => entries@[i as int].1->Some_0));
                    }
                    match self.write(out, v) {
                        Err(e) => {
                            return Err(e);
                        },
                        Ok(()) => {},
                    }
                    append_str(out, ",\n");
                    proof {
                        let u = "\t"@ + es[i as int].0 + " = "@ + gen(f, d, s0, v@)->Ok_0.0 + ",\n"@;
                        lemma_prepend_twice(text, u, gen_entries(f, d, self.state(), es.skip(i + 1)));
                        text = text + u;
                        assert(out@ =~= old(out)@ + text);
                    }
                },
            }
            i = i + 1;
        }
        proof {
            assert(es.skip(i as int) =~= Seq::<(Seq<char>, Option<Box<SNode>>)>::empty());
            assert(text + Seq::<char>::empty() =~= text);
        }
        Ok(())
    }

    #[verifier::rlimit(100)]
    #[verifier::spinoff_prover]
    /// The cases of a switch.
    #[verifier::loop_isolation(false)]
    fn write_cases(&mut self, out: &mut String, cases: &Vec<(Option<Box<Node>>, bool, Box<Node>)>) -> (r: Result<(), CodegenError>)
        requires
            old(self).wf(),
        ensures
            CBackend::stepped(
                *old(self),
                *final(self),
                gen_cases(old(self).file(), path_parent(old(self).file()), old(self).state(), cases_view(cases@)),
                r,
                old(out)@,
                final(out)@,
            ),
        decreases cases, 0nat,
    {
        let ghost f = self.file();
        let ghost d = path_parent(f);
        let ghost cs = cases_view(cases@);
        let ghost whole = gen_cases(f, d, self.state(), cs);
        let ghost mut text: Seq<char> = Seq::empty();
        proof {
            lemma_cases_view_len(cases@);
            assert(cs.skip(0) =~= cs);
            lemma_prepend_empty(whole);
        }
        let mut i: usize = 0;
        while i < cases.len()
            invariant
                i <= cases.len(),
                cs.len() == cases.len(),
                self.wf(),
                self.file() == f,
                self.compiler.file_stack == old(self).compiler.file_stack,
                self.compiler.usages == old(self).compiler.usages,
                self.compiler.scope == old(self).compiler.scope,
                whole == prepend(text, gen_cases(f, d, self.state(), cs.skip(i as int))),
                out@ == old(out)@ + text,
            decreases cases.len() - i,
        {
            proof {
                lemma_cases_view_index(cases@, i as int);
                assert(cs.skip(i as int).drop_first() =~= cs.skip(i + 1));
                assert(cs.skip(i as int)[0] == cs[i as int]);
                reveal_strlit("case (");
                reveal_strlit("): ");
                reveal_strlit("default: ");
                reveal_strlit("{");
                reveal_strlit("break;");
                reveal_strlit("}\n");
                assert(decreases_to!(cases => cases@[i as int].2));
            }
            let ghost s0 = self.state();
            let ghost o0 = out@;
            let ghost mut h: Seq<char> = Seq::empty();
            match &cases[i].0 {
                Some(v) => {
                    append_str(out, "case (");
                    proof {
                        assert(decreases_to!(cases => cases@[i as int].0->Some_0));
                    }
                    match self.write_then(out, v, "): ") {
                        Err(e) => {
                            return Err(e);
                        },
                        Ok(()) => {},
                    }
                    proof {
                        h = "case ("@ + gen_then(f, d, s0, (**v)@, "): "@)->Ok_0.0;
                        assert(out@ =~= o0 + h);
                    }
                },
                None => {
                    append_str(out, "default: ");
                    proof {
                        h = "default: "@;
                    }
                },
            }
            let ghost s1 = self.state();
            append_str(out, "{");
            match self.write(out, &cases[i].2) {
                Err(e) => {
                    return Err(e);
                },
                Ok(()) => {},
            }
            if !cases[i].1 {
                append_str(out, "break;");
            }
            append_str(out, "}\n");
            proof {
                let c = cs[i as int];
                let b = gen(f, d, s1, *c.2)->Ok_0.0;
                let u = h + "{"@ + b + (if c.1 { Seq::empty() } else { "break;"@ }) + "}\n"@;
                assert(gen(f, d, s1, *c.2) == Ok::<(Seq<char>, CState), SCodegenError>((b, self.state())));
                assert(gen_cases(f, d, s0, cs.skip(i as int)) == prepend(u, gen_cases(f, d, self.state(), cs.skip(i + 1))));
                lemma_prepend_twice(text, u, gen_cases(f, d, self.state(), cs.skip(i + 1)));
                text = text + u;
                assert(out@ =~= old(out)@ + text);
            }
            i = i + 1;
        }
        proof {
            assert(cs.skip(i as int) =~= Seq::<(Option<Box<SNode>>, bool, Box<SNode>)>::empty());
            assert(text + Seq::<char>::empty() =~= text);
        }
        Ok(())
    }

    #[verifier::rlimit(100)]
    #[verifier::spinoff_prover]
    fn stat_if(&mut self, out: &mut String, node: &Node) -> (r: Result<(), CodegenError>)
        requires
            old(self).wf(),
        ensures
            CBackend::stepped(
                *old(self),
                *final(self),
                gen_if(old(self).file(), path_parent(old(self).file()), old(self).state(), node@),
                r,
                old(out)@,
                final(out)@,
            ),
        decreases node, 0nat,
    {
        let ghost f = self.file();
        let ghost d = path_parent(f);
        let ghost st = self.state();
        match &node.node {
            NodeKind::StatIf { cond, expr, else_ } => {
                append_str(out, "if (");
                match self.write(out, cond) {
                    Err(e) => {
                        return Err(e);
                    },
                    Ok(()) => {},
                }
                append_str(out, ") {");
                let ghost s1 = self.state();
                match self.write(out, expr) {
                    Err(e) => {
                        return Err(e);
                    },
                    Ok(()) => {},
                }
                append_str(out, "}");
                let ghost c = gen(f, d, st, cond@)->Ok_0.0;
                let ghost b = gen(f, d, s1, expr@)->Ok_0.0;
                let ghost s2 = self.state();
                proof {
                    assert(gen(f, d, st, cond@) == Ok::<(Seq<char>, CState), SCodegenError>((c, s1)));
                    assert(gen(f, d, s1, expr@) == Ok::<(Seq<char>, CState), SCodegenError>((b, s2)));
                }
                match else_ {
                    None => {
                        proof {
                            assert(gen_if(f, d, st, node@) == Ok::<(Seq<char>, CState), SCodegenError>(("if ("@ + c + ") {"@ + b + "}"@, s2)));
                            assert(out@ =~= old(out)@ + gen_if(f, d, st, node@)->Ok_0.0);
                        }
                        Ok(())
                    },
                    Some(el) => {
                        append_str(out, " else {");
                        proof {
                            assert(out@ =~= old(out)@ + ("if ("@ + c + ") {"@ + b + "}"@ + " else {"@));
                        }
                        let r = self.write_then(out, el, "}");
                        proof {
                            assert(gen_if(f, d, st, node@) == prepend("if ("@ + c + ") {"@ + b + "}"@ + " else {"@, gen_then(f, d, s2, el@, "}"@)));
                            lemma_prepend_out(
                                old(out)@,
                                "if ("@ + c + ") {"@ + b + "}"@ + " else {"@,
                                gen_then(f, d, s2, el@, "}"@),
                                r,
                                final(out)@,
                            );
                        }
                        r
                    },
                }
            },
            _ => {
                proof {
                    assert(out@ =~= old(out)@ + Seq::<char>::empty());
                }
                Ok(())
            },
        }
    }

    #[verifier::rlimit(100)]
    #[verifier::spinoff_prover]
    fn stat_for(&mut self, out: &mut String, node: &Node) -> (r: Result<(), CodegenError>)
        requires
            old(self).wf(),
        ensures
            CBackend::stepped(
                *old(self),
                *final(self),
                gen_for(old(self).file(), path_parent(old(self).file()), old(self).state(), node@),
                r,
                old(out)@,
                final(out)@,
            ),
        decreases node, 0nat,
    {
        let ghost f = self.file();
        let ghost d = path_parent(f);
        let ghost st = self.state();
        match &node.node {
            NodeKind::StatForCStyle { def, cond, inc, expr } => {
                append_str(out, "for (");
                match self.write(out, def) {
                    Err(e) => {
                        return Err(e);
                    },
                    Ok(()) => {},
                }
                append_str(out, " ; ");
                let ghost s1 = self.state();
                match self.write(out, cond) {
                    Err(e) => {
                        return Err(e);
                    },
                    Ok(()) => {},
                }
                append_str(out, " ; ");
                let ghost s2 = self.state();
                match self.write(out, inc) {
                    Err(e) => {
                        return Err(e);
                    },
                    Ok(()) => {},
                }
                append_str(out, ") {");
                let ghost s3 = self.state();
                let ghost t = "for ("@ + gen(f, d, st, def@)->Ok_0.0 + " ; "@ + gen(f, d, s1, cond@)->Ok_0.0
                    + " ; "@ + gen(f, d, s2, inc@)->Ok_0.0 + ") {"@;
                proof {
                    assert(out@ =~= old(out)@ + t);
                }
                let r = self.write_then(out, expr, "}");
                proof {
                    lemma_prepend_out(old(out)@, t, gen_then(f, d, s3, expr@, "}"@), r, final(out)@);
                }
                r
            },
            NodeKind::StatForRange { var, from, to, expr } => {
                let v: String = match var {
                    Some(v) => v.clone(),
                    None => "_i".to_string(),
                };
                proof {
                    reveal_strlit("_i");
                }
                append_str(out, "for (");
                append_str(out, "int ");
                append_str(out, v.as_str());
                append_str(out, " = ");
                match self.write(out, from) {
                    Err(e) => {
                        return Err(e);
                    },
                    Ok(()) => {},
                }
                append_str(out, " ; ");
                append_str(out, v.as_str());
                append_str(out, " < ");
                let ghost s1 = self.state();
                match self.write(out, to) {
                    Err(e) => {
                        return Err(e);
                    },
                    Ok(()) => {},
                }
                append_str(out, " ; ");
                append_str(out, v.as_str());
                append_str(out, "++");
                append_str(out, ") {");
                let ghost s2 = self.state();
                let ghost t = "for ("@ + "int "@ + v@ + " = "@ + gen(f, d, st, from@)->Ok_0.0 + " ; "@ + v@
                    + " < "@ + gen(f, d, s1, to@)->Ok_0.0 + " ; "@ + v@ + "++"@ + ") {"@;
                proof {
                    assert(out@ =~= old(out)@ + t);
                }
                let r = self.write_then(out, expr, "}");
                proof {
                    lemma_prepend_out(old(out)@, t, gen_then(f, d, s2, expr@, "}"@), r, final(out)@);
                }
                r
            },
            _ => {
                proof {
                    assert(out@ =~= old(out)@ + Seq::<char>::empty());
                }
                Ok(())
            },
        }
    }

    #[verifier::rlimit(100)]
    #[verifier::spinoff_prover]
    fn expr_binary(&mut self, out: &mut String, node: &Node) -> (r: Result<(), CodegenError>)
        requires
            old(self).wf(),
        ensures
            CBackend::stepped(
                *old(self),
                *final(self),
                gen_binary(old(self).file(), path_parent(old(self).file()), old(self).state(), node@),
                r,
                old(out)@,
                final(out)@,
            ),
        decreases node, 0nat,
    {
        let ghost f = self.file();
        let ghost d = path_parent(f);
        let ghost st = self.state();
        match &node.node {
            NodeKind::ExprBinaryOperator { kind, left, right } => {
                append_str(out, "(");
                if *kind == OperatorKind::As {
                    match self.write(out, right) {
                        Err(e) => {
                            return Err(e);
                        },
                        Ok(()) => {},
                    }
                    append_str(out, ")(");
                    let ghost s1 = self.state();
                    let ghost t = "("@ + gen(f, d, st, right@)->Ok_0.0 + ")("@;
                    proof {
                        assert(out@ =~= old(out)@ + t);
                    }
                    let r = self.write_then(out, left, ")");
                    proof {
                        lemma_prepend_out(old(out)@, t, gen_then(f, d, s1, left@, ")"@), r, final(out)@);
                    }
                    r
                } else {
                    match self.write(out, left) {
                        Err(e) => {
                            return Err(e);
                        },
                        Ok(()) => {},
                    }
                    let op: &str = match kind {
                        OperatorKind::Dot => ".",
                        OperatorKind::Assign => "=",
                        OperatorKind::And => "&&",
                        OperatorKind::Or => "||",
                        OperatorKind::Eq => "==",
                        OperatorKind::Neq => "!=",
                        OperatorKind::Gt => ">",
                        OperatorKind::GtEq => ">=",
                        OperatorKind::Lt => "<",
                        OperatorKind::LtEq => "<=",
                        OperatorKind::Add => "+",
                        OperatorKind::Sub => "-",
                        OperatorKind::Mul => "*",
                        OperatorKind::Div => "/",
                        OperatorKind::Mod => "%",
                        OperatorKind::Index => "[",
                        _ => {
                            return Err(CodegenError::NotAnOperator(*kind));
                        },
                    };
                    proof {
                        lemma_binary_text(*kind, op);
                    }
                    append_str(out, op);
                    let tail: &str = if *kind == OperatorKind::Index { "])" } else { ")" };
                    proof {
                        reveal_strlit("])");
                        reveal_strlit(")");
                        reveal_strlit("]");
                        assert(tail@ =~= (if *kind == OperatorKind::Index { "]"@ } else { Seq::empty() }) + ")"@);
                    }
                    let ghost s1 = self.state();
                    let ghost t = "("@ + gen(f, d, st, left@)->Ok_0.0 + op@;
                    proof {
                        assert(out@ =~= old(out)@ + t);
                    }
                    let r = self.write_then(out, right, tail);
                    proof {
                        lemma_prepend_out(old(out)@, t, gen_then(f, d, s1, right@, tail@), r, final(out)@);
                    }
                    r
                }
            },
            _ => {
                proof {
                    assert(out@ =~= old(out)@ + Seq::<char>::empty());
                }
                Ok(())
            },
        }
    }

    /// A tagged record: the enum of its kinds, a struct per variant (each
    /// declared as a record), and the struct of kind and union.
    #[verifier::rlimit(100)]
    #[verifier::spinoff_prover]
    fn top_tag_rec(
        &mut self,
        out: &mut String,
        tags: &Vec<TagRecTags>,
        id: &String,
        entries: &Vec<(String, Vec<(String, Node)>)>,
    ) -> (r: Result<(), CodegenError>)
        requires
            old(self).wf(),
        ensures
            CBackend::stepped(
                *old(self),
                *final(self),
                tag_rec_text(old(self).state(), tags@, id@, tag_rec_entries_view(entries@)),
                r,
                old(out)@,
                final(out)@,
            ),
    {
        let ghost es = tag_rec_entries_view(entries@);
        let ghost st = self.state();
        let is_static = has_static(tags);
        let s: &str = if is_static { "static " } else { "" };
        proof {
            reveal_strlit("static ");
            reveal_strlit("");
        }
        let ghost sv: Seq<char> = if tags@.contains(TagRecTags::Static) { "static "@ } else { Seq::empty() };
        let ghost head = sv + "typedef enum {\n"@ + kinds_text(es) + "} _"@ + id@ + "_tag;\n\n"@;
        append_str(out, s);
        append_str(out, "typedef enum {\n");
        write_kinds(out, entries);
        append_str(out, "} _");
        append_str(out, id.as_str());
        append_str(out, "_tag;\n\n");
        proof {
            assert(out@ =~= old(out)@ + head);
        }
        let ghost o1 = out@;
        let mapped = match self.write_variants(out, id, entries) {
            Err(e) => {
                return Err(e);
            },
            Ok(m) => m,
        };
        let ghost vt = variants_text(st, id@, es)->Ok_0.0;
        let ghost st1 = variants_text(st, id@, es)->Ok_0.1;
        proof {
            assert(out@ =~= old(out)@ + (head + vt));
        }
        let ghost o2 = out@;
        append_str(out, s);
        append_str(out, "typedef struct {\n");
        append_str(out, "\t_");
        append_str(out, id.as_str());
        append_str(out, "_tag kind;\n");
        append_str(out, "\tunion {\n");
        write_members(out, id, entries);
        append_str(out, "\t};\n");
        append_str(out, "} ");
        append_str(out, id.as_str());
        append_str(out, ";\n\n");
        let ghost tail = sv + "typedef struct {\n"@ + "\t_"@ + id@ + "_tag kind;\n"@ + "\tunion {\n"@
            + members_text(id@, es) + "\t};\n"@ + "} "@ + id@ + ";\n\n"@;
        proof {
            assert(out@ =~= o2 + tail);
            assert(out@ =~= old(out)@ + (head + vt + tail));
        }
        self.compiler.add_tag_rec(id.clone(), copy_tags(tags), mapped);
        proof {
            assert(tag_rec_text(st, tags@, id@, es)->Ok_0.0 =~= head + vt + tail);
            assert(self.state().symbols =~= tag_rec_text(st, tags@, id@, es)->Ok_0.1.symbols);
            assert(self.state() == tag_rec_text(st, tags@, id@, es)->Ok_0.1);
        }
        Ok(())
    }

    /// The struct of each variant of a tagged record; gives the variants with
    /// their field types.
    #[verifier::loop_isolation(false)]
    fn write_variants(&mut self, out: &mut String, id: &String, entries: &Vec<(String, Vec<(String, Node)>)>) -> (r: Result<Vec<(String, Vec<(String, SeaType)>)>, CodegenError>)
        requires
            old(self).wf(),
        ensures
            CBackend::stepped(
                *old(self),
                *final(self),
                variants_text(old(self).state(), id@, tag_rec_entries_view(entries@)),
                match r {
                    Ok(_) => Ok(()),
                    Err(e) => Err(e),
                },
                old(out)@,
                final(out)@,
            ),
            r matches Ok(m) ==> m@.map_values(|e: (String, Vec<(String, SeaType)>)| (e.0@, fields_view(e.1@)))
                == variant_types(tag_rec_entries_view(entries@)),
    {
        let ghost es = tag_rec_entries_view(entries@);
        let ghost whole = variants_text(self.state(), id@, es);
        let ghost mut text: Seq<char> = Seq::empty();
        proof {
            lemma_tag_rec_entries_view_len(entries@);
            assert(es.skip(0) =~= es);
            lemma_prepend_empty(whole);
        }
        let mut mapped: Vec<(String, Vec<(String, SeaType)>)> = Vec::new();
        let mut i: usize = 0;
        while i < entries.len()
            invariant
                i <= entries.len(),
                es.len() == entries.len(),
                self.wf(),
                self.compiler.file_stack == old(self).compiler.file_stack,
                self.compiler.usages == old(self).compiler.usages,
                self.compiler.scope == old(self).compiler.scope,
                whole == prepend(text, variants_text(self.state(), id@, es.skip(i as int))),
                out@ == old(out)@ + text,
                mapped.len() == i,
                forall|j: int|
                    #![trigger mapped@[j]]
                    0 <= j < i ==> (mapped@[j].0@, fields_view(mapped@[j].1@)) == variant_types(es)[j],
            decreases entries.len() - i,
        {
            proof {
                lemma_tag_rec_entries_view_index(entries@, i as int);
                assert(es.skip(i as int).drop_first() =~= es.skip(i + 1));
                assert(es.skip(i as int)[0] == es[i as int]);
                reveal_strlit("typedef struct { ");
                reveal_strlit("} ");
                reveal_strlit(";\n");
                reveal_strlit("_");
            }
            let ghost s0 = self.state();
            append_str(out, "typedef struct { ");
            match write_fields(out, &entries[i].1, true) {
                Err(e) => {
                    return Err(e);
                },
                Ok(()) => {},
            }
            if !fields_are_types(&entries[i].1) {
                return Err(CodegenError::MalformedTree);
            }
            let mut name = String::new();
            append_str(&mut name, "_");
            append_str(&mut name, id.as_str());
            append_str(&mut name, "_");
            append_str(&mut name, entries[i].0.as_str());
            append_str(out, "} ");
            append_str(out, name.as_str());
            append_str(out, ";\n");
            let ft = field_types_of(&entries[i].1);
            let ft2 = copy_fields(&ft);
            self.compiler.add_rec(name, Vec::new(), ft);
            mapped.push((entries[i].0.clone(), ft2));
            proof {
                let e = es[i as int];
                assert(name@ =~= variant_name(id@, e.0));
                let u = "typedef struct { "@ + inline_fields_text(e.1)->Ok_0 + "} "@ + variant_name(id@, e.0) + ";\n"@;
                assert(self.state() =~= CState {
                    symbols: s0.symbols.push((variant_name(id@, e.0), 0int, SSymbol::Rec { tags: Seq::empty(), fields: field_types(e.1) })),
                    ..s0
                });
                lemma_prepend_twice(text, u, variants_text(self.state(), id@, es.skip(i + 1)));
                text = text + u;
                assert(out@ =~= old(out)@ + text);
            }
            i = i + 1;
        }
        proof {
            assert(es.skip(i as int) =~= Seq::<(Seq<char>, Seq<(Seq<char>, SNode)>)>::empty());
            assert(text + Seq::<char>::empty() =~= text);
            assert(mapped@.map_values(|e: (String, Vec<(String, SeaType)>)| (e.0@, fields_view(e.1@)))
                =~= variant_types(es));
        }
        Ok(mapped)
    }

    /// A pragma adds a flag for the C compiler, with `${dir}` replaced by the
    /// directory of the file being compiled.
    fn top_pragma(&mut self, node: &Node) -> (r: Result<(), CodegenError>)
        requires
            old(self).wf(),
            node@.node is TopPragma,
        ensures
            CBackend::stepped(
                *old(self),
                *final(self),
                pragma_state(old(self).state(), node@, path_parent(old(self).file())),
                r,
                Seq::empty(),
                Seq::empty(),
            ),
    {
        let p = match Pragma::from_node(node) {
            Err(e) => {
                return Err(CodegenError::Thrown { error: e, help: None, line: node.line, column: node.column });
            },
            Ok(p) => p,
        };
        let last = self.compiler.file_stack.len() - 1;
        proof {
            crate::parse::ast::lemma_strings_view_len(self.compiler.file_stack@);
        }
        let dir = match parent_dir(self.compiler.file_stack[last].as_str()) {
            None => {
                return Err(CodegenError::NoParentDirectory);
            },
            Some(d) => d,
        };
        let flag = match p {
            Pragma::AddCCFlag(s) => replace_dir(&s, &dir),
            Pragma::AddLibrary(s) => {
                let mut f = String::new();
                append_str(&mut f, "-l");
                let t = replace_dir(&s, &dir);
                append_str(&mut f, t.as_str());
                f
            },
            Pragma::AddIncludeDir(s) => {
                let mut f = String::new();
                append_str(&mut f, "-I");
                let p = include_path_of(&dir, &s);
                append_str(&mut f, p.as_str());
                f
            },
        };
        proof {
            reveal_strlit("-l");
            reveal_strlit("-I");
            crate::parse::ast::lemma_strings_view_push(self.compiler.cc_flags@, flag);
        }
        self.compiler.cc_flags.push(flag);
        proof {
            assert(Seq::<char>::empty() =~= Seq::<char>::empty() + Seq::<char>::empty());
        }
        Ok(())
    }

    #[verifier::rlimit(100)]
    #[verifier::spinoff_prover]
    /// An instance of a record (`(T){fields}`) or of a tagged record
    /// (`(T){kind, .kind={fields}}`).
    fn expr_new(&mut self, out: &mut String, node: &Node) -> (r: Result<(), CodegenError>)
        requires
            old(self).wf(),
        ensures
            CBackend::stepped(
                *old(self),
                *final(self),
                gen_new(old(self).file(), path_parent(old(self).file()), old(self).state(), node@),
                r,
                old(out)@,
                final(out)@,
            ),
        decreases node, 0nat,
    {
        let ghost f = self.file();
        let ghost d = path_parent(f);
        let ghost st = self.state();
        proof {
            self.compiler.symbols.lemma_view();
        }
        match &node.node {
            NodeKind::ExprNew { id, params } => {
                let mut other: Option<Symbol> = None;
                let which: u8 = match self.compiler.symbols.get_symbol(id.clone()) {
                    None => 0,
                    Some(Symbol::Rec { .. }) => 1,
                    Some(Symbol::TagRec { .. }) => 2,
                    Some(sym) => {
                        other = Some(sym.duplicate());
                        3
                    },
                };
                if which == 0 {
                    return Err(CodegenError::Thrown {
                        error: CompilerError::UnknownSymbol(id.clone()),
                        help: None,
                        line: node.line,
                        column: node.column,
                    });
                }
                if which == 3 {
                    match other {
                        Some(sym) => {
                            return Err(CodegenError::Thrown {
                                error: CompilerError::Uninstantiatable(id.clone(), sym),
                                help: None,
                                line: node.line,
                                column: node.column,
                            });
                        },
                        None => {},
                    }
                }
                append_str(out, "(");
                append_str(out, id.as_str());
                append_str(out, "){");
                proof {
                    reveal_strlit("(");
                    reveal_strlit("){");
                    reveal_strlit("}");
                    reveal_strlit(", .");
                    reveal_strlit("={");
                    lemma_nodes_view_len(params@);
                }
                if which == 1 {
                    proof {
                        assert(nodes_view(params@).skip(0) =~= nodes_view(params@));
                    }
                    match self.write_comma(out, params, 0) {
                        Err(e) => {
                            return Err(e);
                        },
                        Ok(()) => {},
                    }
                    append_str(out, "}");
                    proof {
                        assert(out@ =~= old(out)@ + gen_new(f, d, st, node@)->Ok_0.0);
                    }
                    return Ok(());
                }
                if params.len() == 0 {
                    return Err(CodegenError::Thrown {
                        error: CompilerError::TagRecInstantiateWithoutKind,
                        help: None,
                        line: node.line,
                        column: node.column,
                    });
                }
                proof {
                    lemma_nodes_view_index(params@, 0);
                }
                match &params[0].node {
                    NodeKind::ExprIdentifier(kind) => {
                        append_str(out, kind.as_str());
                        if params.len() > 1 {
                            append_str(out, ", .");
                            append_str(out, kind.as_str());
                            append_str(out, "={");
                            proof {
                                assert(nodes_view(params@).skip(1) =~= nodes_view(params@).drop_first());
                            }
                            match self.write_comma(out, params, 1) {
                                Err(e) => {
                                    return Err(e);
                                },
                                Ok(()) => {},
                            }
                            append_str(out, "}");
                        }
                        append_str(out, "}");
                        proof {
                            assert(out@ =~= old(out)@ + gen_new(f, d, st, node@)->Ok_0.0);
                        }
                        Ok(())
                    },
                    _ => Err(CodegenError::Thrown {
                        error: CompilerError::TagRecInstantiateWithoutKind,
                        help: Some("the first parameter must be an entry in the tag rec (it currently is not)"),
                        line: node.line,
                        column: node.column,
                    }),
                }
            },
            _ => {
                proof {
                    assert(out@ =~= old(out)@ + Seq::<char>::empty());
                }
                Ok(())
            },
        }
    }

    /// A `var` or `let` declaration (`head` being `const ` for `let`); the name
    /// becomes a variable of the current scope.
    #[verifier::rlimit(100)]
    #[verifier::spinoff_prover]
    fn binding(
        &mut self,
        out: &mut String,
        name: &String,
        typ: &Option<Box<Node>>,
        value: &Node,
        mutable: bool,
        head: &str,
    ) -> (r: Result<(), CodegenError>)
        requires
            old(self).wf(),
        ensures
            CBackend::stepped(
                *old(self),
                *final(self),
                gen_binding(
                    old(self).file(),
                    path_parent(old(self).file()),
                    old(self).state(),
                    name@,
                    opt_node_view(*typ),
                    value@,
                    mutable,
                    head@,
                ),
                r,
                old(out)@,
                final(out)@,
            ),
        decreases value, 3nat,
    {
        let ghost f = self.file();
        let ghost d = path_parent(f);
        let ghost st = self.state();
        proof {
            self.compiler.symbols.lemma_view();
        }
        append_str(out, head);
        let t: SeaType = match typ {
            Some(tn) => {
                match write_named_type(out, name.as_str(), tn) {
                    Err(e) => {
                        return Err(e);
                    },
                    Ok(()) => {},
                }
                if !type_tree(tn) {
                    return Err(CodegenError::MalformedTree);
                }
                SeaType::of_type_node(tn)
            },
            None => {
                if !inference_defined(&self.compiler.symbols, value) {
                    return Err(CodegenError::NotInferable);
                }
                match infer_type_of_node(&self.compiler.symbols, value) {
                    Err(e) => {
                        return Err(CodegenError::Inference(e));
                    },
                    Ok(t) => {
                        match write_named_stype(out, name.as_str(), &t) {
                            Err(e) => {
                                return Err(e);
                            },
                            Ok(()) => {},
                        }
                        t
                    },
                }
            },
        };
        let ghost decl = binding_decl(st, name@, opt_node_view(*typ), value@)->Ok_0;
        proof {
            assert(t@ == decl.1);
            assert(out@ =~= old(out)@ + head@ + decl.0);
        }
        append_str(out, " = ");
        match self.write(out, value) {
            Err(e) => {
                return Err(e);
            },
            Ok(()) => {},
        }
        self.compiler.add_var(name.clone(), t, mutable);
        proof {
            reveal_strlit(" = ");
            assert(out@ =~= old(out)@ + gen_binding(f, d, st, name@, opt_node_view(*typ), value@, mutable, head@)->Ok_0.0);
        }
        Ok(())
    }
}

/// `prepend` with nothing in front changes nothing.
proof fn lemma_prepend_empty(g: SGen)
    ensures
        prepend(Seq::empty(), g) == g,
{
    if let Ok((v, s)) = g {
        assert(Seq::<char>::empty() + v =~= v);
    }
}

/// Writing `t` and then what `g` gives is what `prepend(t, g)` gives.
proof fn lemma_prepend_out(before: Seq<char>, t: Seq<char>, g: SGen, r: Result<(), CodegenError>, after: Seq<char>)
    ensures
        forall|st: CState| gen_outcome(g, r, before + t, after, st) ==> gen_outcome(prepend(t, g), r, before, after, st),
{
    if let Ok((v, s)) = g {
        assert(before + t + v =~= before + (t + v));
    }
}

/// Raw code, types, literals and names.
fn write_leaf(out: &mut String, node: &Node, Ghost(st): Ghost<CState>) -> (r: Result<(), CodegenError>)
    ensures
        gen_outcome(leaf_code(st, node@), r, old(out)@, final(out)@, st),
{
    match &node.node {
        NodeKind::Raw(text) => {
            append_str(out, text.as_str());
            append_str(out, "\n");
            proof {
                reveal_strlit("\n");
                assert(out@ =~= old(out)@ + leaf_code(st, node@)->Ok_0.0);
            }
            Ok(())
        },
        NodeKind::Type { .. } => write_type(out, node),
        NodeKind::TopUse(..) => Err(CodegenError::ModuleUse),
        NodeKind::ExprNumber(v) => {
            append_str(out, v.as_str());
            Ok(())
        },
        NodeKind::ExprString(v) => {
            append_str(out, "(String){false, ");
            push_decimal(out, literal_length(v));
            append_str(out, ", \"");
            append_str(out, v.as_str());
            append_str(out, "\"}");
            proof {
                assert(out@ =~= old(out)@ + leaf_code(st, node@)->Ok_0.0);
            }
            Ok(())
        },
        NodeKind::ExprCString(v) => {
            append_str(out, "\"");
            append_str(out, v.as_str());
            append_str(out, "\"");
            proof {
                assert(out@ =~= old(out)@ + leaf_code(st, node@)->Ok_0.0);
            }
            Ok(())
        },
        NodeKind::ExprChar(v) => {
            append_str(out, "'");
            append_str(out, v.as_str());
            append_str(out, "'");
            proof {
                assert(out@ =~= old(out)@ + leaf_code(st, node@)->Ok_0.0);
            }
            Ok(())
        },
        NodeKind::ExprTrue => {
            append_str(out, "true");
            Ok(())
        },
        NodeKind::ExprFalse => {
            append_str(out, "false");
            Ok(())
        },
        NodeKind::StatBreak => {
            append_str(out, "break;\n");
            Ok(())
        },
        NodeKind::StatContinue => {
            append_str(out, "continue;\n");
            Ok(())
        },
        NodeKind::ExprIdentifier(id) => {
            append_str(out, id.as_str());
            Ok(())
        },
        NodeKind::ExprMacInvoke { .. } => Err(CodegenError::Unimplemented),
        _ => {
            proof {
                assert(out@ =~= old(out)@ + Seq::<char>::empty());
            }
            Ok(())
        },
    }
}

/// Whether a record's hashtags make it a union.
fn has_union(tags: &Vec<RecTags>) -> (r: bool)
    ensures
        r == tags@.contains(RecTags::Union),
{
    let mut i: usize = 0;
    while i < tags.len()
        invariant
            i <= tags.len(),
            forall|j: int| 0 <= j < i ==> tags@[j] != RecTags::Union,
        decreases tags.len() - i,
    {
        if tags[i] == RecTags::Union {
            assert(tags@[i as int] == RecTags::Union);
            return true;
        }
        i = i + 1;
    }
    false
}

/// The names of a tag's enumerators.
fn entry_names(entries: &Vec<(String, Option<Box<Node>>)>) -> (r: Vec<String>)
    ensures
        strings_view(r@) == tag_entries_view(entries@).map_values(|e: (Seq<char>, Option<Box<SNode>>)| e.0),
{
    proof {
        lemma_tag_entries_view_len(entries@);
    }
    let mut r: Vec<String> = Vec::new();
    let mut i: usize = 0;
    while i < entries.len()
        invariant
            i <= entries.len(),
            tag_entries_view(entries@).len() == entries.len(),
            r.len() == i,
            forall|j: int| #![trigger r@[j]] 0 <= j < i ==> r@[j]@ == tag_entries_view(entries@)[j].0,
        decreases entries.len() - i,
    {
        proof {
            lemma_tag_entries_view_index(entries@, i as int);
        }
        r.push(entries[i].0.clone());
        i = i + 1;
    }
    proof {
        assert(strings_view(r@) =~= tag_entries_view(entries@).map_values(|e: (Seq<char>, Option<Box<SNode>>)| e.0));
    }
    r
}

proof fn lemma_binary_text(kind: OperatorKind, op: &str)
    requires
        (kind == OperatorKind::Dot && op@ == "."@) || (kind == OperatorKind::Assign && op@ == "="@)
            || (kind == OperatorKind::And && op@ == "&&"@) || (kind == OperatorKind::Or && op@ == "||"@)
            || (kind == OperatorKind::Eq && op@ == "=="@) || (kind == OperatorKind::Neq && op@ == "!="@)
            || (kind == OperatorKind::Gt && op@ == ">"@) || (kind == OperatorKind::GtEq && op@ == ">="@)
            || (kind == OperatorKind::Lt && op@ == "<"@) || (kind == OperatorKind::LtEq && op@ == "<="@)
            || (kind == OperatorKind::Add && op@ == "+"@) || (kind == OperatorKind::Sub && op@ == "-"@)
            || (kind == OperatorKind::Mul && op@ == "*"@) || (kind == OperatorKind::Div && op@ == "/"@)
            || (kind == OperatorKind::Mod && op@ == "%"@) || (kind == OperatorKind::Index && op@ == "["@),
    ensures
        binary_text(kind) == Some(op@),
{
}

/// Whether a tagged record's hashtags make it static.
fn has_static(tags: &Vec<TagRecTags>) -> (r: bool)
    ensures
        r == tags@.contains(TagRecTags::Static),
{
    let mut i: usize = 0;
    while i < tags.len()
        invariant
            i <= tags.len(),
            forall|j: int| 0 <= j < i ==> tags@[j] != TagRecTags::Static,
        decreases tags.len() - i,
    {
        if tags[i] == TagRecTags::Static {
            assert(tags@[i as int] == TagRecTags::Static);
            return true;
        }
        i = i + 1;
    }
    false
}

fn write_kinds(out: &mut String, entries: &Vec<(String, Vec<(String, Node)>)>)
    ensures
        final(out)@ == old(out)@ + kinds_text(tag_rec_entries_view(entries@)),
{
    let ghost es = tag_rec_entries_view(entries@);
    proof {
        lemma_tag_rec_entries_view_len(entries@);
        assert(es.take(0) =~= Seq::<(Seq<char>, Seq<(Seq<char>, SNode)>)>::empty());
    }
    let mut i: usize = 0;
    while i < entries.len()
        invariant
            i <= entries.len(),
            es.len() == entries.len(),
            es == tag_rec_entries_view(entries@),
            out@ == old(out)@ + kinds_text(es.take(i as int)),
        decreases entries.len() - i,
    {
        proof {
            lemma_tag_rec_entries_view_index(entries@, i as int);
            assert(es.take(i + 1).drop_last() =~= es.take(i as int));
            assert(es.take(i + 1).last() == es[i as int]);
            reveal_strlit("\t");
            reveal_strlit(",\n");
        }
        append_str(out, "\t");
        append_str(out, entries[i].0.as_str());
        append_str(out, ",\n");
        proof {
            assert(kinds_text(es.take(i + 1)) == kinds_text(es.take(i as int)) + "\t"@ + es[i as int].0 + ",\n"@);
            assert(out@ =~= old(out)@ + kinds_text(es.take(i + 1)));
        }
        i = i + 1;
    }
    proof {
        assert(es.take(i as int) =~= es);
    }
}

fn write_members(out: &mut String, id: &String, entries: &Vec<(String, Vec<(String, Node)>)>)
    ensures
        final(out)@ == old(out)@ + members_text(id@, tag_rec_entries_view(entries@)),
{
    let ghost es = tag_rec_entries_view(entries@);
    proof {
        lemma_tag_rec_entries_view_len(entries@);
        assert(es.take(0) =~= Seq::<(Seq<char>, Seq<(Seq<char>, SNode)>)>::empty());
    }
    let mut i: usize = 0;
    while i < entries.len()
        invariant
            i <= entries.len(),
            es.len() == entries.len(),
            es == tag_rec_entries_view(entries@),
            out@ == old(out)@ + members_text(id@, es.take(i as int)),
        decreases entries.len() - i,
    {
        proof {
            lemma_tag_rec_entries_view_index(entries@, i as int);
            assert(es.take(i + 1).drop_last() =~= es.take(i as int));
            assert(es.take(i + 1).last() == es[i as int]);
            reveal_strlit("_");
            reveal_strlit(" ");
            reveal_strlit(";");
        }
        append_str(out, "_");
        append_str(out, id.as_str());
        append_str(out, "_");
        append_str(out, entries[i].0.as_str());
        append_str(out, " ");
        append_str(out, entries[i].0.as_str());
        append_str(out, ";");
        proof {
            assert(members_text(id@, es.take(i + 1)) == members_text(id@, es.take(i as int)) + variant_name(id@, es[i as int].0) + " "@ + es[i as int].0 + ";"@);
            assert(out@ =~= old(out)@ + members_text(id@, es.take(i + 1)));
        }
        i = i + 1;
    }
    proof {
        assert(es.take(i as int) =~= es);
    }
}

/// The include directory written `p` in the file whose directory is `dir`.
fn include_path_of(dir: &String, p: &String) -> (r: String)
    ensures
        r@ == include_path(dir@, p@),
{
    let pc = crate::text::chars_of(p.as_str());
    let dc = crate::text::chars_of(dir.as_str());
    let f = replace_dir(p, dir);
    let dir_first = pc.len() >= 6 && pc[0] == '$' && pc[1] == '{' && pc[2] == 'd' && pc[3] == 'i' && pc[4] == 'r'
        && pc[5] == '}';
    proof {
        if dir_first {
            assert(pc@.take(6) =~= seq!['$', '{', 'd', 'i', 'r', '}']);
        } else if pc@.len() >= 6 && pc@.take(6) == seq!['$', '{', 'd', 'i', 'r', '}'] {
            let t = pc@.take(6);
            assert(t[0] == pc@[0] && t[1] == pc@[1] && t[2] == pc@[2] && t[3] == pc@[3]);
            assert(t[4] == pc@[4] && t[5] == pc@[5]);
        }
    }
    if (pc.len() > 0 && pc[0] == '/') || dir_first || dc.len() == 0 {
        f
    } else {
        let mut r = String::new();
        append_str(&mut r, dir.as_str());
        append_str(&mut r, "/");
        append_str(&mut r, f.as_str());
        r
    }
}

/// `s` with each `${dir}` replaced by `dir` (as `str::replace` does).
fn replace_dir(s: &String, dir: &String) -> (r: String)
    ensures
        r@ == format_pragma(s@, dir@),
{
    let cs = crate::text::chars_of(s.as_str());
    let ghost pat = "${dir}"@;
    proof {
        reveal_strlit("${dir}");
        assert(pat =~= seq!['$', '{', 'd', 'i', 'r', '}']);
    }
    let mut r = String::new();
    let mut i: usize = 0;
    proof {
        assert(cs@.skip(0) =~= cs@);
        assert(Seq::<char>::empty() + replace_all(cs@, pat, dir@) =~= replace_all(cs@, pat, dir@));
    }
    while i < cs.len()
        invariant
            i <= cs.len(),
            cs@ == s@,
            pat == seq!['$', '{', 'd', 'i', 'r', '}'],
            r@ + replace_all(cs@.skip(i as int), pat, dir@) == replace_all(s@, pat, dir@),
        decreases cs.len() - i,
    {
        let ghost rest = cs@.skip(i as int);
        if cs.len() - i >= 6 && cs[i] == '$' && cs[i + 1] == '{' && cs[i + 2] == 'd' && cs[i + 3] == 'i'
            && cs[i + 4] == 'r' && cs[i + 5] == '}' {
            proof {
                assert(rest.take(6) =~= pat);
                assert(rest.skip(6) =~= cs@.skip(i + 6));
            }
            append_str(&mut r, dir.as_str());
            proof {
                assert(r@ + replace_all(cs@.skip(i + 6), pat, dir@) =~= replace_all(s@, pat, dir@));
            }
            i = i + 6;
        } else {
            proof {
                if rest.len() >= 6 {
                    assert(rest.take(6) != pat) by {
                        if rest.take(6) == pat {
                            assert(rest.take(6)[0] == cs@[i as int]);
                            assert(rest.take(6)[1] == cs@[i + 1]);
                            assert(rest.take(6)[2] == cs@[i + 2]);
                            assert(rest.take(6)[3] == cs@[i + 3]);
                            assert(rest.take(6)[4] == cs@[i + 4]);
                            assert(rest.take(6)[5] == cs@[i + 5]);
                        }
                    }
                }
                assert(rest.skip(1) =~= cs@.skip(i + 1));
            }
            push_char(&mut r, cs[i]);
            proof {
                if rest.len() >= 6 {
                    assert(replace_all(rest, pat, dir@) == seq![rest[0]] + replace_all(rest.skip(1), pat, dir@));
                } else {
                    assert(replace_all(rest, pat, dir@) == rest);
                    assert(replace_all(rest.skip(1), pat, dir@) == rest.skip(1));
                    assert(rest =~= seq![rest[0]] + rest.skip(1));
                }
                assert(r@ + replace_all(cs@.skip(i + 1), pat, dir@) =~= replace_all(s@, pat, dir@));
            }
            i = i + 1;
        }
    }
    proof {
        assert(cs@.skip(i as int) =~= Seq::<char>::empty());
        assert(replace_all(Seq::<char>::empty(), pat, dir@) == Seq::<char>::empty());
        reveal_strlit("${dir}");
        assert(r@ + Seq::<char>::empty() =~= r@);
    }
    r
}

/// Whether inferring the type of `n` runs to its end (see `infer_defined`).
#[verifier::rlimit(100)]
#[verifier::spinoff_prover]
fn inference_defined(symbols: &SymbolTable, n: &Node) -> (r: bool)
    requires
        symbols.wf(),
    ensures
        r == infer_defined(symbols@, n@),
    decreases n,
{
    match &n.node {
        NodeKind::ExprGroup(b) => {
            let r = inference_defined(symbols, b);
            assert(r == infer_defined(symbols@, n@));
            r
        },
        NodeKind::ExprUnaryOperator { kind, value } => {
            if !inference_defined(symbols, value) {
                assert(!infer_defined(symbols@, n@));
                return false;
            }
            let r = match infer_type_of_node(symbols, value) {
                Err(_) => true,
                Ok(t) => (*kind != OperatorKind::Ref || t.pointers < 255) && (*kind != OperatorKind::Deref
                    || t.pointers > 0),
            };
            assert(r == infer_defined(symbols@, n@));
            r
        },
        NodeKind::ExprBinaryOperator { kind, left, right } => {
            proof {
                assert(right.node.view_kind() == (**right)@.node);
            }
            let r = if *kind == OperatorKind::Dot {
                match &right.node {
                    NodeKind::ExprIdentifier(_) => inference_defined(symbols, left),
                    _ => {
                        assert(!((**right)@.node is ExprIdentifier));
                        false
                    },
                }
            } else if *kind == OperatorKind::As {
                match &right.node {
                    NodeKind::Type { .. } => type_tree(right),
                    _ => {
                        assert(!((**right)@.node is Type));
                        false
                    },
                }
            } else if *kind == OperatorKind::Assign {
                inference_defined(symbols, right)
            } else {
                inference_defined(symbols, left)
            };
            assert(r == infer_defined(symbols@, n@));
            r
        },
        NodeKind::ExprInvoke { left, .. } => {
            let r = match &left.node {
                NodeKind::ExprIdentifier(_) => {
                    assert((**left)@.node is ExprIdentifier);
                    true
                },
                _ => {
                    assert(!((**left)@.node is ExprIdentifier));
                    false
                },
            };
            assert(r == infer_defined(symbols@, n@));
            r
        },
        NodeKind::ExprList(nodes) => {
            proof {
                lemma_nodes_view_len(nodes@);
            }
            if nodes.len() == 0 {
                assert(infer_defined(symbols@, n@));
                true
            } else {
                proof {
                    lemma_nodes_view_index(nodes@, 0);
                    assert(decreases_to!(n => nodes@[0]));
                }
                let r = inference_defined(symbols, &nodes[0]);
                assert(r == infer_defined(symbols@, n@));
                r
            }
        },
        NodeKind::ExprVar { .. } => false,
        NodeKind::ExprLet { .. } => false,
        _ => {
            assert(infer_defined(symbols@, n@));
            true
        },
    }
}

/// Programs, raw code, types and top level statements.
spec fn top_kind(k: SKind) -> bool {
    ||| k is Program
    ||| k is Raw
    ||| k is Type
    ||| k is TopUse
    ||| k is TopFun
    ||| k is TopRec
    ||| k is TopDef
    ||| k is TopTag
    ||| k is TopTagRec
    ||| k is TopPragma
}

/// Statements.
spec fn stat_kind(k: SKind) -> bool {
    ||| k is StatRet
    ||| k is StatIf
    ||| k is StatSwitch
    ||| k is StatForCStyle
    ||| k is StatForSingleExpr
    ||| k is StatForRange
    ||| k is StatExpr
}

/// A pragma writes no code, adds its flag after the flags that were there, and
/// changes nothing else: scope, symbols, files and modules in use stay.
pub proof fn law_pragma_appends_flag(
    before: CBackend,
    after: CBackend,
    n: SNode,
    p: SPragma,
    r: Result<(), CodegenError>,
    out_before: Seq<char>,
    out_after: Seq<char>,
)
    requires
        before.wf(),
        n.node is TopPragma,
        spec_pragma(n.node->TopPragma_id, n.node->TopPragma_params) == Ok::<SPragma, SCompilerError>(p),
        path_parent(before.file()) is Some,
        CBackend::stepped(before, after, gen(before.file(), path_parent(before.file()), before.state(), n), r, out_before, out_after),
    ensures
        r is Ok,
        out_after == out_before,
        after.state().cc_flags == before.state().cc_flags.push(pragma_flag(p, path_parent(before.file())->Some_0)),
        after.state().symbols == before.state().symbols,
        after.state().scope == before.state().scope,
        after.compiler.file_stack == before.compiler.file_stack,
        after.compiler.usages == before.compiler.usages,
{
    lemma_gen_decl(path_parent(before.file()), before.state(), n);
    assert(out_before + Seq::<char>::empty() =~= out_before);
}

} // verus!
