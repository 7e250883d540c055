use vstd::prelude::*;

use crate::hashtags::Hashtag;
use crate::text::{chars_of, push_char};

use super::ast::{lemma_nodes_view_index, lemma_nodes_view_len, lemma_strings_view_len, named_nodes_view, nodes_view, strings_view, cases_view, tag_entries_view, tag_rec_entries_view, arrays_view, opt_string_view, Node, NodeKind, SKind, SNode};
use super::operator::OperatorKind;

verus! {

/// Two spaces for each level of indentation.
pub open spec fn sp(indent: usize) -> Seq<char> {
    Seq::new((2 * indent) as nat, |i: int| ' ')
}

/// `i + k`, or the largest `usize` where that does not fit.
pub open spec fn bump(i: usize, k: usize) -> usize {
    if i + k <= usize::MAX {
        (i + k) as usize
    } else {
        usize::MAX
    }
}

pub open spec fn carets(n: nat) -> Seq<char> {
    Seq::new(n, |i: int| '^')
}

pub open spec fn digit(d: nat) -> char {
    if d == 0 { '0' } else if d == 1 { '1' } else if d == 2 { '2' } else if d == 3 { '3' } else if d
        == 4 { '4' } else if d == 5 { '5' } else if d == 6 { '6' } else if d == 7 { '7' } else if d
        == 8 { '8' } else { '9' }
}

/// The decimal digits of `n`.
pub open spec fn decimal(n: nat) -> Seq<char>
    decreases n,
{
    if n < 10 {
        seq![digit(n)]
    } else {
        decimal(n / 10).push(digit(n % 10))
    }
}

/// The text of one array suffix.
pub open spec fn array_text(a: (Option<usize>, Option<Seq<char>>)) -> Seq<char> {
    match a {
        (Some(n), _) => seq!['['] + decimal(n as nat) + seq![']'],
        (None, Some(id)) => seq!['['] + id + seq![']'],
        (None, None) => seq!['[', ']'],
    }
}

pub open spec fn arrays_text(s: Seq<(Option<usize>, Option<Seq<char>>)>) -> Seq<char>
    decreases s.len(),
{
    if s.len() == 0 {
        Seq::empty()
    } else {
        arrays_text(s.drop_last()) + array_text(s.last())
    }
}

/// Names joined by `sep`.
pub open spec fn join_with(names: Seq<Seq<char>>, sep: Seq<char>) -> Seq<char>
    decreases names.len(),
{
    if names.len() == 0 {
        Seq::empty()
    } else if names.len() == 1 {
        names[0]
    } else {
        join_with(names.drop_last(), sep) + sep + names.last()
    }
}

/// A module path as `Debug` writes a path: in quotes, with `/` between segments.
pub open spec fn join_path(path: Seq<Seq<char>>) -> Seq<char> {
    join_with(path, seq!['/'])
}

/// Modifiers as `Debug` writes a list of them.
pub open spec fn tags_text<T: Hashtag>(tags: Seq<T>) -> Seq<char> {
    seq!['['] + join_with(tags.map_values(|t: T| t.spec_debug_name()), seq![',', ' ']) + seq![']']
}

/// The name of an operator kind as `Debug` writes it.
pub open spec fn kind_name(k: OperatorKind) -> Seq<char> {
    match k {
        OperatorKind::Ref => "Ref"@,
        OperatorKind::Deref => "Deref"@,
        OperatorKind::Dot => "Dot"@,
        OperatorKind::Pkg => "Pkg"@,
        OperatorKind::As => "As"@,
        OperatorKind::Assign => "Assign"@,
        OperatorKind::And => "And"@,
        OperatorKind::Or => "Or"@,
        OperatorKind::Not => "Not"@,
        OperatorKind::Eq => "Eq"@,
        OperatorKind::Neq => "Neq"@,
        OperatorKind::Gt => "Gt"@,
        OperatorKind::GtEq => "GtEq"@,
        OperatorKind::Lt => "Lt"@,
        OperatorKind::LtEq => "LtEq"@,
        OperatorKind::Add => "Add"@,
        OperatorKind::Sub => "Sub"@,
        OperatorKind::Mul => "Mul"@,
        OperatorKind::Div => "Div"@,
        OperatorKind::Mod => "Mod"@,
        OperatorKind::Inc => "Inc"@,
        OperatorKind::Dec => "Dec"@,
        OperatorKind::Negate => "Negate"@,
        OperatorKind::Index => "Index"@,
        OperatorKind::Invoke => "Invoke"@,
    }
}

/// The entries of a tag, one per line.
pub open spec fn tag_entries_text(acc: Seq<char>, entries: Seq<(Seq<char>, Option<Box<SNode>>)>, indent: usize) -> Seq<char>
    decreases entries.len(),
{
    if entries.len() == 0 {
        acc
    } else {
        tag_entries_text(acc, entries.drop_last(), indent) + sp(indent) + "    - '\x1b[36m"@ + entries.last().0 + "\x1b[34m'\n"@
    }
}

/// `acc` followed by the text of the tree `n`, indented by `indent`; with `first`,
/// its first line is indented too.
pub open spec fn pp_into(acc: Seq<char>, n: SNode, indent: usize, first: bool) -> Seq<char>
    decreases n, 1nat,
{
    pp_body(if first { acc + sp(indent) } else { acc }, n, indent) + "\x1b[0m"@
}

/// The nodes, each after `prefix`.
pub open spec fn pp_list(acc: Seq<char>, ns: Seq<SNode>, indent: usize, first: bool, prefix: Seq<char>) -> Seq<char>
    decreases ns, 0nat,
{
    if ns.len() == 0 {
        acc
    } else {
        pp_into(pp_list(acc, ns.subrange(0, ns.len() - 1), indent, first, prefix) + prefix, ns[ns.len() - 1], indent, first)
    }
}

/// Named nodes: `pre`, the name, `mid`, then the node.
pub open spec fn pp_named(acc: Seq<char>, ps: Seq<(Seq<char>, SNode)>, indent: usize, pre: Seq<char>, mid: Seq<char>) -> Seq<char>
    decreases ps, 0nat,
{
    if ps.len() == 0 {
        acc
    } else {
        pp_into(pp_named(acc, ps.subrange(0, ps.len() - 1), indent, pre, mid) + pre + ps[ps.len() - 1].0 + mid, ps[ps.len() - 1].1, indent, false)
    }
}

/// The cases of a `switch`.
pub open spec fn pp_cases(acc: Seq<char>, cases: Seq<(Option<Box<SNode>>, bool, Box<SNode>)>, indent: usize) -> Seq<char>
    decreases cases, 0nat,
{
    if cases.len() == 0 {
        acc
    } else {
        let prev = pp_cases(acc, cases.subrange(0, cases.len() - 1), indent);
        let c = cases[cases.len() - 1];
        let a1 = match c.0 {
            Some(e) => pp_into(
                prev + "\x1b[32m"@ + sp(indent) + if c.1 { "    fall case:\n"@ } else { "    case:\n"@ },
                *e,
                bump(indent, 3),
                true,
            ),
            None => prev + "\x1b[32m"@ + sp(indent) + "    else:\n"@,
        };
        pp_into(a1 + "\x1b[32m"@ + sp(indent) + "      code:\n"@, *c.2, bump(indent, 4), true)
    }
}

/// The entries of a tagged record.
pub open spec fn pp_tagrec(acc: Seq<char>, entries: Seq<(Seq<char>, Seq<(Seq<char>, SNode)>)>, indent: usize) -> Seq<char>
    decreases entries, 0nat,
{
    if entries.len() == 0 {
        acc
    } else {
        let prev = pp_tagrec(acc, entries.subrange(0, entries.len() - 1), indent);
        let e = entries[entries.len() - 1];
        if e.1.len() > 0 {
            let b = prev + sp(indent) + "    - '\x1b[36m"@ + e.0 + "\x1b[34m'(\n"@;
            let c = pp_named(b, e.1, bump(indent, 4), "\x1b[34m"@ + sp(indent) + "      '\x1b[36m"@, "\x1b[34m' = "@);
            c + "\x1b[34m"@ + sp(indent) + "    )\n"@
        } else {
            prev + sp(indent) + "    - '\x1b[36m"@ + e.0 + "\x1b[34m'()\n"@
        }
    }
}

/// The text of a node after `a`, without its first-line indentation and final reset.
pub open spec fn pp_body(a: Seq<char>, n: SNode, indent: usize) -> Seq<char>
    decreases n, 0nat,
{
    match n.node {
        SKind::Program(nodes) => {
            let a1 = a + "\x1b[1mprogram:\x1b[0m\n"@;
            let a2 = pp_list(a1, nodes, bump(indent, 1), true, Seq::<char>::empty());
            let a3 = a2 + "\x1b[0m"@;
            a3
        },
        SKind::Raw(code) => {
            let a1 = a + "raw code: '\x1b[36m"@;
            let a2 = a1 + code;
            let a3 = a2 + "\x1b[0m'\n"@;
            a3
        },
        SKind::Type { pointers, name, arrays, funptr_args, funptr_rets } => {
            let a33 = (if funptr_rets is Some { let a1 = a + "\x1b[33mtype:\n"@;
let a2 = a1 + sp(indent);
let a3 = a2 + "  name: \x1b[36m"@;
let a4 = a3 + name;
let a5 = a4 + "\x1b[33m\n"@;
let a6 = a5 + sp(indent);
let a7 = a6 + "  pointers: \x1b[36m"@;
let a8 = a7 + carets(pointers as nat);
let a9 = a8 + "\x1b[33m (\x1b[36m"@;
let a10 = a9 + decimal(pointers as nat);
let a11 = a10 + "\x1b[33m)\n"@;
let a12 = a11 + sp(indent);
let a13 = a12 + "  arrays: \x1b[36m"@;
let a14 = a13 + arrays_text(arrays);
let a15 = a14 + "\x1b[33m (\x1b[36m"@;
let a16 = a15 + decimal(arrays.len());
let a17 = a16 + "\x1b[33m)\n"@;
let a18 = a17 + sp(indent);
let a19 = a18 + "  args: (\n"@;
let a21 = (match funptr_args { Some(args) => { let a20 = pp_list(a19, args, bump(indent, 2), true, Seq::<char>::empty()); a20 }, None => a19 });
let a22 = a21 + "\x1b[33m"@;
let a23 = a22 + sp(indent);
let a24 = a23 + "  ): \n"@;
let a25 = a24 + sp(indent);
let a26 = a25 + "  rets: "@;
let a27 = pp_into(a26, *(funptr_rets->0), bump(indent, 0), false); a27 } else { let a28 = a + "\x1b[33mtype: \x1b[36m"@;
let a29 = a28 + carets(pointers as nat);
let a30 = a29 + name;
let a31 = a30 + arrays_text(arrays);
let a32 = a31 + "\n"@; a32 });
            a33
        },
        SKind::TopUse(path, _) => {
            let a1 = a + "\x1b[34muse: \x1b[36m\""@;
            let a2 = a1 + join_path(path);
            let a3 = a2 + "\"\n"@;
            a3
        },
        SKind::TopFun { tags, id, params, rets, expr } => {
            let a1 = a + "\x1b[34mfun '\x1b[36m"@;
            let a2 = a1 + id;
            let a3 = a2 + "\x1b[34m':\n"@;
            let a4 = (if tags.len() > 0 { a3 + sp(indent) + "  tags: \x1b[36m#"@ + tags_text(tags) + "\x1b[34m\n"@ } else { a3 });
            let a5 = a4 + sp(indent);
            let a6 = a5 + "  params:\n"@;
            let a7 = pp_named(a6, params, bump(indent, 2), "\x1b[34m"@ + sp(indent) + "    '\x1b[36m"@, "\x1b[34m' = "@);
            let a8 = a7 + "\x1b[34m"@;
            let a9 = a8 + sp(indent);
            let a10 = a9 + "  rets = "@;
            let a11 = pp_into(a10, *rets, bump(indent, 0), false);
            let a12 = a11 + "\x1b[34m"@;
            let a13 = a12 + sp(indent);
            let a14 = a13 + "  code:\n"@;
            let a15 = pp_into(a14, *expr, bump(indent, 2), true);
            a15
        },
        SKind::TopRec { tags, id, fields } => {
            let a1 = a + "\x1b[34mrec '\x1b[36m"@;
            let a2 = a1 + id;
            let a3 = a2 + "\x1b[34m'\n"@;
            let a4 = (if tags.len() > 0 { a3 + sp(indent) + "  tags: \x1b[36m#"@ + tags_text(tags) + "\x1b[34m\n"@ } else { a3 });
            let a5 = a4 + sp(indent);
            let a6 = a5 + "  fields:\n"@;
            let a7 = pp_named(a6, fields, bump(indent, 2), "\x1b[34m"@ + sp(indent) + "    \x1b[36m"@, "\x1b[34m = "@);
            a7
        },
        SKind::TopDef { tags, id, typ } => {
            let a1 = a + "\x1b[34mdef '\x1b[36m"@;
            let a2 = a1 + id;
            let a3 = a2 + "\x1b[34m' = "@;
            let a4 = pp_into(a3, *typ, bump(indent, 1), false);
            let a5 = (if tags.len() > 0 { a4 + sp(indent) + "  tags: \x1b[36m#"@ + tags_text(tags) + "\x1b[34m\n"@ } else { a4 });
            a5
        },
        SKind::TopTag { tags, id, entries } => {
            let a1 = a + "\x1b[34mtag '\x1b[36m"@;
            let a2 = a1 + id;
            let a3 = a2 + "\x1b[34m':\n"@;
            let a4 = (if tags.len() > 0 { a3 + sp(indent) + "  tags: \x1b[36m#"@ + tags_text(tags) + "\x1b[34m\n"@ } else { a3 });
            let a5 = a4 + sp(indent);
            let a6 = a5 + "  entries:\n"@;
            let a7 = tag_entries_text(a6, entries, indent);
            a7
        },
        SKind::TopTagRec { tags, id, entries } => {
            let a1 = a + "\x1b[34mtag rec '\x1b[36m"@;
            let a2 = a1 + id;
            let a3 = a2 + "\x1b[34m':\n"@;
            let a4 = (if tags.len() > 0 { a3 + sp(indent) + "  tags: \x1b[36m#"@ + tags_text(tags) + "\x1b[34m\n"@ } else { a3 });
            let a5 = a4 + sp(indent);
            let a6 = a5 + "  entries:\n"@;
            let a7 = pp_tagrec(a6, entries, indent);
            a7
        },
        SKind::TopPragma { id, params } => {
            let a1 = a + "\x1b[34mpragma '\x1b[36m"@;
            let a2 = a1 + id;
            let a3 = a2 + "\x1b[34m', params:\n"@;
            let a4 = pp_list(a3, params, bump(indent, 1), true, Seq::<char>::empty());
            a4
        },
        SKind::StatRet(value) => {
            let a1 = a + "\x1b[32mret:\n"@;
            let a3 = (match value { Some(v) => { let a2 = pp_into(a1, *v, bump(indent, 1), true); a2 }, None => a1 });
            a3
        },
        SKind::StatIf { cond, expr, else_ } => {
            let a1 = a + "\x1b[32mif:\n"@;
            let a2 = a1 + sp(indent);
            let a3 = a2 + "  cond:\n"@;
            let a4 = pp_into(a3, *cond, bump(indent, 2), true);
            let a5 = a4 + "\x1b[32m"@;
            let a6 = a5 + sp(indent);
            let a7 = a6 + "  expr:\n"@;
            let a8 = pp_into(a7, *expr, bump(indent, 2), true);
            let a13 = (match else_ { Some(it) => { let a9 = a8 + "\x1b[32m"@;
let a10 = a9 + sp(indent);
let a11 = a10 + "  else:\n"@;
let a12 = pp_into(a11, *it, bump(indent, 2), true); a12 }, None => a8 });
            a13
        },
        SKind::StatSwitch { switch, cases } => {
            let a1 = a + "\x1b[32mswitch:\n"@;
            let a2 = a1 + sp(indent);
            let a3 = a2 + "  expr:\n"@;
            let a4 = pp_into(a3, *switch, bump(indent, 2), true);
            let a5 = a4 + "\x1b[32m"@;
            let a6 = a5 + sp(indent);
            let a7 = a6 + "  cases:\n"@;
            let a8 = pp_cases(a7, cases, indent);
            a8
        },
        SKind::StatForCStyle { def, cond, inc, expr } => {
            let a1 = a + "\x1b[32mfor (c style):\n"@;
            let a2 = a1 + sp(indent);
            let a3 = a2 + "  def: \n"@;
            let a4 = pp_into(a3, *def, bump(indent, 2), true);
            let a5 = a4 + "\x1b[32m"@;
            let a6 = a5 + sp(indent);
            let a7 = a6 + "  cond: \n"@;
            let a8 = pp_into(a7, *cond, bump(indent, 2), true);
            let a9 = a8 + "\x1b[32m"@;
            let a10 = a9 + sp(indent);
            let a11 = a10 + "  inc: \n"@;
            let a12 = pp_into(a11, *inc, bump(indent, 2), true);
            let a13 = a12 + "\x1b[32m"@;
            let a14 = a13 + sp(indent);
            let a15 = a14 + "  expr:\n"@;
            let a16 = pp_into(a15, *expr, bump(indent, 2), true);
            a16
        },
        SKind::StatForSingleExpr { cond, expr } => {
            let a1 = a + "\x1b[32mfor (single expr):\n"@;
            let a2 = a1 + sp(indent);
            let a3 = a2 + "  cond: \n"@;
            let a4 = pp_into(a3, *cond, bump(indent, 2), true);
            let a5 = a4 + "\x1b[32m"@;
            let a6 = a5 + sp(indent);
            let a7 = a6 + "  expr:\n"@;
            let a8 = pp_into(a7, *expr, bump(indent, 2), true);
            a8
        },
        SKind::StatForRange { var, from, to, expr } => {
            let a1 = a + "\x1b[32mfor (range):\n"@;
            let a6 = (match var { Some(it) => { let a2 = a1 + sp(indent);
let a3 = a2 + "  var: "@;
let a4 = a3 + it;
let a5 = a4 + "\n"@; a5 }, None => a1 });
            let a7 = a6 + sp(indent);
            let a8 = a7 + "  from: \n"@;
            let a9 = pp_into(a8, *from, bump(indent, 2), true);
            let a10 = a9 + "\x1b[32m"@;
            let a11 = a10 + sp(indent);
            let a12 = a11 + "  to: \n"@;
            let a13 = pp_into(a12, *to, bump(indent, 2), true);
            let a14 = a13 + "\x1b[32m"@;
            let a15 = a14 + sp(indent);
            let a16 = a15 + "  expr:\n"@;
            let a17 = pp_into(a16, *expr, bump(indent, 2), true);
            a17
        },
        SKind::StatExpr(inner) => {
            let a1 = a + "\x1b[31mexpr:\n"@;
            let a2 = pp_into(a1, *inner, bump(indent, 1), true);
            a2
        },
        SKind::StatBreak => a + "\x1b[32mbreak\n"@,
        SKind::StatContinue => a + "\x1b[32mcontinue\n"@,
        SKind::ExprGroup(inner) => {
            let a1 = a + "\x1b[31mgroup:\n"@;
            let a2 = pp_into(a1, *inner, bump(indent, 1), true);
            a2
        },
        SKind::ExprNumber(value) => {
            let a1 = a + "\x1b[31mnumber: '\x1b[36m"@;
            let a2 = a1 + value;
            let a3 = a2 + "\x1b[31m'\n"@;
            a3
        },
        SKind::ExprString(value) => {
            let a1 = a + "\x1b[31mstring: '\x1b[36m"@;
            let a2 = a1 + value;
            let a3 = a2 + "\x1b[31m'\n"@;
            a3
        },
        SKind::ExprCString(value) => {
            let a1 = a + "\x1b[31mcstring: c'\x1b[36m"@;
            let a2 = a1 + value;
            let a3 = a2 + "\x1b[31m'\n"@;
            a3
        },
        SKind::ExprChar(value) => {
            let a1 = a + "\x1b[31mchar: '\x1b[36m"@;
            let a2 = a1 + value;
            let a3 = a2 + "\x1b[31m'\n"@;
            a3
        },
        SKind::ExprTrue => {
            let a1 = a + "\x1b[31mtrue\n"@;
            a1
        },
        SKind::ExprFalse => {
            let a1 = a + "\x1b[31mfalse\n"@;
            a1
        },
        SKind::ExprIdentifier(value) => {
            let a1 = a + "\x1b[31mid: '\x1b[36m"@;
            let a2 = a1 + value;
            let a3 = a2 + "\x1b[31m'\n"@;
            a3
        },
        SKind::ExprBlock(nodes) => {
            let a1 = a + "\x1b[31mblock:\n"@;
            let a2 = pp_list(a1, nodes, bump(indent, 1), true, Seq::<char>::empty());
            a2
        },
        SKind::ExprNew { id, params } => {
            let a1 = a + "\x1b[31mnew: '\x1b[36m"@;
            let a2 = a1 + id;
            let a3 = a2 + "\x1b[31m', params:\n"@;
            let a4 = pp_list(a3, params, bump(indent, 1), true, Seq::<char>::empty());
            a4
        },
        SKind::ExprUnaryOperator { kind, value } => {
            let a1 = a + "\x1b[31munary op: '\x1b[36m"@;
            let a2 = a1 + kind_name(kind);
            let a3 = a2 + "\x1b[31m'\n"@;
            let a4 = a3 + sp(indent);
            let a5 = a4 + "  value: "@;
            let a6 = pp_into(a5, *value, bump(indent, 1), false);
            a6
        },
        SKind::ExprBinaryOperator { kind, left, right } => {
            let a1 = a + "\x1b[31mbinary op: '\x1b[36m"@;
            let a2 = a1 + kind_name(kind);
            let a3 = a2 + "\x1b[31m'\n"@;
            let a4 = a3 + sp(indent);
            let a5 = a4 + "  left: "@;
            let a6 = pp_into(a5, *left, bump(indent, 1), false);
            let a7 = a6 + "\x1b[31m"@;
            let a8 = a7 + sp(indent);
            let a9 = a8 + "  right: "@;
            let a10 = pp_into(a9, *right, bump(indent, 1), false);
            a10
        },
        SKind::ExprInvoke { left, params } => {
            let a1 = a + "\x1b[31minvoke:\n"@;
            let a2 = pp_into(a1, *left, bump(indent, 1), true);
            let a3 = a2 + "\x1b[31m"@;
            let a4 = a3 + sp(indent);
            let a5 = a4 + "  params:\n"@;
            let a6 = pp_list(a5, params, bump(indent, 2), false, "\x1b[31m"@ + sp(indent) + "    - "@);
            a6
        },
        SKind::ExprMacInvoke { name, params } => {
            let a1 = a + "mac invoke: '\x1b[36m"@;
            let a2 = a1 + name;
            let a3 = a2 + "\x1b[0m'\n"@;
            let a4 = a3 + sp(indent);
            let a5 = a4 + "  params:\n"@;
            let a6 = pp_list(a5, params, bump(indent, 2), false, "\x1b[0m"@ + sp(indent) + "    - "@);
            a6
        },
        SKind::ExprList(nodes) => {
            let a1 = a + "\x1b[31mlist:\n"@;
            let a2 = pp_list(a1, nodes, bump(indent, 1), false, "\x1b[31m"@ + sp(indent) + "  - "@);
            a2
        },
        SKind::ExprVar { name, typ, value } => {
            let a15 = (if typ is Some { let a1 = a + "\x1b[31mvar '\x1b[36m"@;
let a2 = a1 + name;
let a3 = a2 + "\x1b[31m':\n\x1b[31m"@;
let a4 = a3 + sp(indent);
let a5 = a4 + "  type: "@;
let a6 = pp_into(a5, *(typ->0), bump(indent, 1), false);
let a7 = a6 + "\x1b[31m"@;
let a8 = a7 + sp(indent);
let a9 = a8 + "  value = "@;
let a10 = pp_into(a9, *value, bump(indent, 1), false); a10 } else { let a11 = a + "\x1b[31mvar '\x1b[36m"@;
let a12 = a11 + name;
let a13 = a12 + "\x1b[31m' =\n"@;
let a14 = pp_into(a13, *value, bump(indent, 1), true); a14 });
            a15
        },
        SKind::ExprLet { name, typ, value } => {
            let a15 = (if typ is Some { let a1 = a + "\x1b[31mlet '\x1b[36m"@;
let a2 = a1 + name;
let a3 = a2 + "\x1b[31m':\n\x1b[31m"@;
let a4 = a3 + sp(indent);
let a5 = a4 + "  type: "@;
let a6 = pp_into(a5, *(typ->0), bump(indent, 1), false);
let a7 = a6 + "\x1b[31m"@;
let a8 = a7 + sp(indent);
let a9 = a8 + "  value = "@;
let a10 = pp_into(a9, *value, bump(indent, 1), false); a10 } else { let a11 = a + "\x1b[31mlet '\x1b[36m"@;
let a12 = a11 + name;
let a13 = a12 + "\x1b[31m' =\n"@;
let a14 = pp_into(a13, *value, bump(indent, 1), true); a14 });
            a15
        },
    }
}

pub(crate) fn append_str(s: &mut String, t: &str)
    ensures
        final(s)@ == old(s)@ + t@,
{
    let cs = chars_of(t);
    let mut i: usize = 0;
    while i < cs.len()
        invariant
            i <= cs.len(),
            cs@ == t@,
            s@ == old(s)@ + t@.take(i as int),
        decreases cs.len() - i,
    {
        push_char(s, cs[i]);
        proof {
            assert(t@.take(i + 1) =~= t@.take(i as int).push(cs@[i as int]));
        }
        i = i + 1;
    }
    proof {
        assert(t@.take(i as int) =~= t@);
    }
}

fn spaces(indent: usize) -> (r: String)
    ensures
        r@ == sp(indent),
{
    let mut s = String::new();
    let mut i: usize = 0;
    while i < indent
        invariant
            i <= indent,
            s@ =~= Seq::new((2 * i) as nat, |j: int| ' '),
        decreases indent - i,
    {
        push_char(&mut s, ' ');
        push_char(&mut s, ' ');
        i = i + 1;
    }
    s
}

fn bumped(i: usize, k: usize) -> (r: usize)
    ensures
        r == bump(i, k),
{
    if i <= usize::MAX - k {
        i + k
    } else {
        usize::MAX
    }
}

fn push_carets(out: &mut String, n: u8)
    ensures
        final(out)@ == old(out)@ + carets(n as nat),
{
    let mut i: u8 = 0;
    while i < n
        invariant
            i <= n,
            out@ =~= old(out)@ + carets(i as nat),
        decreases n - i,
    {
        push_char(out, '^');
        i = i + 1;
    }
}

fn digit_char(d: usize) -> (r: char)
    requires
        d < 10,
    ensures
        r == digit(d as nat),
{
    if d == 0 { '0' } else if d == 1 { '1' } else if d == 2 { '2' } else if d == 3 { '3' } else if d
        == 4 { '4' } else if d == 5 { '5' } else if d == 6 { '6' } else if d == 7 { '7' } else if d
        == 8 { '8' } else { '9' }
}

pub(crate) fn push_decimal(out: &mut String, n: usize)
    ensures
        final(out)@ == old(out)@ + decimal(n as nat),
    decreases n,
{
    if n >= 10 {
        push_decimal(out, n / 10);
    }
    push_char(out, digit_char(n % 10));
    proof {
        if n >= 10 {
            assert(old(out)@ + decimal(n as nat) =~= old(out)@ + decimal((n / 10) as nat) + seq![
                digit((n % 10) as nat),
            ]);
        } else {
            assert(old(out)@ + decimal(n as nat) =~= old(out)@.push(digit(n as nat)));
        }
    }
}

pub(crate) fn push_arrays(out: &mut String, arrays: &Vec<(Option<usize>, Option<String>)>)
    ensures
        final(out)@ == old(out)@ + arrays_text(arrays_view(arrays@)),
{
    let ghost av = arrays_view(arrays@);
    let mut i: usize = 0;
    proof {
        assert(av.take(0) =~= Seq::<(Option<usize>, Option<Seq<char>>)>::empty());
        assert(old(out)@ + arrays_text(av.take(0)) =~= old(out)@);
    }
    while i < arrays.len()
        invariant
            i <= arrays.len(),
            av == arrays_view(arrays@),
            av.len() == arrays.len(),
            out@ == old(out)@ + arrays_text(av.take(i as int)),
        decreases arrays.len() - i,
    {
        let ghost before = out@;
        proof {
            assert(av.take(i + 1).drop_last() =~= av.take(i as int));
            assert(av[i as int] == (arrays@[i as int].0, opt_string_view(arrays@[i as int].1)));
        }
        match &arrays[i] {
            (Some(n), _) => {
                push_char(out, '[');
                push_decimal(out, *n);
                push_char(out, ']');
            },
            (None, Some(id)) => {
                push_char(out, '[');
                append_str(out, id.as_str());
                push_char(out, ']');
            },
            (None, None) => {
                push_char(out, '[');
                push_char(out, ']');
            },
        }
        proof {
            assert(out@ =~= before + array_text(av[i as int]));
            assert(arrays_text(av.take(i + 1)) == arrays_text(av.take(i as int)) + array_text(
                av[i as int],
            ));
            assert(out@ =~= old(out)@ + arrays_text(av.take(i + 1)));
        }
        i = i + 1;
    }
    proof {
        assert(av.take(i as int) =~= av);
    }
}

fn push_joined(out: &mut String, names: &Vec<&'static str>, sep: &str)
    ensures
        final(out)@ == old(out)@ + join_with(names@.map_values(|s: &'static str| s@), sep@),
{
    let ghost nv = names@.map_values(|s: &'static str| s@);
    let mut i: usize = 0;
    proof {
        assert(nv.take(0) =~= Seq::<Seq<char>>::empty());
        assert(old(out)@ + join_with(nv.take(0), sep@) =~= old(out)@);
    }
    while i < names.len()
        invariant
            i <= names.len(),
            nv == names@.map_values(|s: &'static str| s@),
            out@ == old(out)@ + join_with(nv.take(i as int), sep@),
        decreases names.len() - i,
    {
        let ghost before = out@;
        proof {
            assert(nv.take(i + 1).drop_last() =~= nv.take(i as int));
        }
        if i > 0 {
            append_str(out, sep);
        }
        append_str(out, names[i]);
        proof {
            if i == 0 {
                assert(nv.take(1) =~= seq![nv[0]]);
            }
            assert(out@ =~= old(out)@ + join_with(nv.take(i + 1), sep@));
        }
        i = i + 1;
    }
    proof {
        assert(nv.take(i as int) =~= nv);
    }
}

pub(crate) fn push_path(out: &mut String, path: &Vec<String>)
    ensures
        final(out)@ == old(out)@ + join_path(strings_view(path@)),
{
    let ghost pv = strings_view(path@);
    proof {
        lemma_strings_view_len(path@);
    }
    let mut i: usize = 0;
    proof {
        assert(pv.take(0) =~= Seq::<Seq<char>>::empty());
        assert(old(out)@ + join_path(pv.take(0)) =~= old(out)@);
    }
    while i < path.len()
        invariant
            i <= path.len(),
            pv == strings_view(path@),
            pv.len() == path.len(),
            forall|j: int| 0 <= j < path.len() ==> #[trigger] pv[j] == path@[j]@,
            out@ == old(out)@ + join_path(pv.take(i as int)),
        decreases path.len() - i,
    {
        proof {
            assert(pv.take(i + 1).drop_last() =~= pv.take(i as int));
        }
        if i > 0 {
            push_char(out, '/');
        }
        append_str(out, path[i].as_str());
        proof {
            if i == 0 {
                assert(pv.take(1) =~= seq![pv[0]]);
            }
            assert(out@ =~= old(out)@ + join_path(pv.take(i + 1)));
        }
        i = i + 1;
    }
    proof {
        assert(pv.take(i as int) =~= pv);
    }
}

fn push_tags<T: Hashtag>(out: &mut String, tags: &Vec<T>)
    ensures
        final(out)@ == old(out)@ + tags_text(tags@),
{
    let mut names: Vec<&'static str> = Vec::new();
    let mut i: usize = 0;
    while i < tags.len()
        invariant
            i <= tags.len(),
            names@.len() == i,
            forall|j: int| 0 <= j < i ==> (#[trigger] names@[j])@ == tags@[j].spec_debug_name(),
        decreases tags.len() - i,
    {
        let n = tags[i].debug_name();
        names.push(n);
        i = i + 1;
    }
    let ghost nv = names@.map_values(|s: &'static str| s@);
    proof {
        assert(nv =~= tags@.map_values(|t: T| t.spec_debug_name()));
    }
    push_char(out, '[');
    push_joined(out, &names, ", ");
    push_char(out, ']');
    proof {
        reveal_strlit(", ");
        assert(", "@ =~= seq![',', ' ']);
        assert(out@ =~= old(out)@ + tags_text(tags@));
    }
}

fn kind_text(k: OperatorKind) -> (r: &'static str)
    ensures
        r@ == kind_name(k),
{
    match k {
        OperatorKind::Ref => "Ref",
        OperatorKind::Deref => "Deref",
        OperatorKind::Dot => "Dot",
        OperatorKind::Pkg => "Pkg",
        OperatorKind::As => "As",
        OperatorKind::Assign => "Assign",
        OperatorKind::And => "And",
        OperatorKind::Or => "Or",
        OperatorKind::Not => "Not",
        OperatorKind::Eq => "Eq",
        OperatorKind::Neq => "Neq",
        OperatorKind::Gt => "Gt",
        OperatorKind::GtEq => "GtEq",
        OperatorKind::Lt => "Lt",
        OperatorKind::LtEq => "LtEq",
        OperatorKind::Add => "Add",
        OperatorKind::Sub => "Sub",
        OperatorKind::Mul => "Mul",
        OperatorKind::Div => "Div",
        OperatorKind::Mod => "Mod",
        OperatorKind::Inc => "Inc",
        OperatorKind::Dec => "Dec",
        OperatorKind::Negate => "Negate",
        OperatorKind::Index => "Index",
        OperatorKind::Invoke => "Invoke",
    }
}

fn write_tag_entries(
    out: &mut String,
    entries: &Vec<(String, Option<Box<Node>>)>,
    indent: usize,
    spacing: &String,
)
    requires
        spacing@ == sp(indent),
    ensures
        final(out)@ == tag_entries_text(old(out)@, tag_entries_view(entries@), indent),
{
    let ghost ev = tag_entries_view(entries@);
    proof {
        super::ast::lemma_tag_entries_view_len(entries@);
    }
    let mut i: usize = 0;
    proof {
        assert(ev.subrange(0, 0) =~= Seq::<(Seq<char>, Option<Box<SNode>>)>::empty());
    }
    while i < entries.len()
        invariant
            i <= entries.len(),
            spacing@ == sp(indent),
            ev == tag_entries_view(entries@),
            ev.len() == entries.len(),
            forall|j: int| 0 <= j < entries.len() ==> #[trigger] ev[j].0 == entries@[j].0@,
            out@ == tag_entries_text(old(out)@, ev.subrange(0, i as int), indent),
        decreases entries.len() - i,
    {
        proof {
            assert(ev.subrange(0, i + 1).drop_last() =~= ev.subrange(0, i as int));
        }
        append_str(out, spacing.as_str());
        append_str(out, "    - '\x1b[36m");
        append_str(out, entries[i].0.as_str());
        append_str(out, "\x1b[34m'\n");
        i = i + 1;
    }
    proof {
        assert(ev.subrange(0, i as int) =~= ev);
    }
}

#[verifier::loop_isolation(false)]
fn write_list(out: &mut String, nodes: &Vec<Node>, indent: usize, first: bool, prefix: &String)
    ensures
        final(out)@ == pp_list(old(out)@, nodes_view(nodes@), indent, first, prefix@),
    decreases nodes, 0nat,
{
    let ghost ns = nodes_view(nodes@);
    proof {
        lemma_nodes_view_len(nodes@);
        assert(ns.subrange(0, 0) =~= Seq::<SNode>::empty());
    }
    let mut i: usize = 0;
    while i < nodes.len()
        invariant
            i <= nodes.len(),
            ns == nodes_view(nodes@),
            ns.len() == nodes.len(),
            out@ == pp_list(old(out)@, ns.subrange(0, i as int), indent, first, prefix@),
        decreases nodes.len() - i,
    {
        proof {
            lemma_nodes_view_index(nodes@, i as int);
            assert(ns.subrange(0, i + 1).subrange(0, i as int) =~= ns.subrange(0, i as int));
            assert(decreases_to!(nodes => nodes@[i as int]));
        }
        append_str(out, prefix.as_str());
        nodes[i].pretty_print_inner(out, indent, first);
        i = i + 1;
    }
    proof {
        assert(ns.subrange(0, i as int) =~= ns);
    }
}

#[verifier::loop_isolation(false)]
fn write_named(out: &mut String, ps: &Vec<(String, Node)>, indent: usize, pre: &String, mid: &String)
    ensures
        final(out)@ == pp_named(old(out)@, named_nodes_view(ps@), indent, pre@, mid@),
    decreases ps, 0nat,
{
    let ghost ns = named_nodes_view(ps@);
    proof {
        super::ast::lemma_named_nodes_view_len(ps@);
        assert(ns.subrange(0, 0) =~= Seq::<(Seq<char>, SNode)>::empty());
    }
    let mut i: usize = 0;
    while i < ps.len()
        invariant
            i <= ps.len(),
            ns == named_nodes_view(ps@),
            ns.len() == ps.len(),
            out@ == pp_named(old(out)@, ns.subrange(0, i as int), indent, pre@, mid@),
        decreases ps.len() - i,
    {
        proof {
            super::ast::lemma_named_nodes_view_index(ps@, i as int);
            assert(ns.subrange(0, i + 1).subrange(0, i as int) =~= ns.subrange(0, i as int));
            assert(decreases_to!(ps => ps@[i as int].1));
        }
        append_str(out, pre.as_str());
        append_str(out, ps[i].0.as_str());
        append_str(out, mid.as_str());
        ps[i].1.pretty_print_inner(out, indent, false);
        i = i + 1;
    }
    proof {
        assert(ns.subrange(0, i as int) =~= ns);
    }
}

#[verifier::loop_isolation(false)]
fn write_cases(
    out: &mut String,
    cases: &Vec<(Option<Box<Node>>, bool, Box<Node>)>,
    indent: usize,
    spacing: &String,
)
    requires
        spacing@ == sp(indent),
    ensures
        final(out)@ == pp_cases(old(out)@, cases_view(cases@), indent),
    decreases cases, 0nat,
{
    let ghost cs = cases_view(cases@);
    proof {
        super::ast::lemma_cases_view_len(cases@);
        assert(cs.subrange(0, 0) =~= Seq::<(Option<Box<SNode>>, bool, Box<SNode>)>::empty());
    }
    let mut i: usize = 0;
    while i < cases.len()
        invariant
            i <= cases.len(),
            cs == cases_view(cases@),
            cs.len() == cases.len(),
            out@ == pp_cases(old(out)@, cs.subrange(0, i as int), indent),
        decreases cases.len() - i,
    {
        proof {
            super::ast::lemma_cases_view_index(cases@, i as int);
            assert(cs.subrange(0, i + 1).subrange(0, i as int) =~= cs.subrange(0, i as int));
            assert(decreases_to!(cases => cases@[i as int].2));
        }
        let c = &cases[i];
        match &c.0 {
            Some(e) => {
                proof {
                    assert(decreases_to!(cases => cases@[i as int].0->0));
                }
                append_str(out, "\x1b[32m");
                append_str(out, spacing.as_str());
                if c.1 {
                    append_str(out, "    fall case:\n");
                } else {
                    append_str(out, "    case:\n");
                }
                e.pretty_print_inner(out, bumped(indent, 3), true);
            },
            None => {
                append_str(out, "\x1b[32m");
                append_str(out, spacing.as_str());
                append_str(out, "    else:\n");
            },
        }
        append_str(out, "\x1b[32m");
        append_str(out, spacing.as_str());
        append_str(out, "      code:\n");
        c.2.pretty_print_inner(out, bumped(indent, 4), true);
        i = i + 1;
    }
    proof {
        assert(cs.subrange(0, i as int) =~= cs);
    }
}

#[verifier::loop_isolation(false)]
fn write_tagrec(
    out: &mut String,
    entries: &Vec<(String, Vec<(String, Node)>)>,
    indent: usize,
    spacing: &String,
)
    requires
        spacing@ == sp(indent),
    ensures
        final(out)@ == pp_tagrec(old(out)@, tag_rec_entries_view(entries@), indent),
    decreases entries, 0nat,
{
    let ghost es = tag_rec_entries_view(entries@);
    proof {
        super::ast::lemma_tag_rec_entries_view_len(entries@);
        assert(es.subrange(0, 0) =~= Seq::<(Seq<char>, Seq<(Seq<char>, SNode)>)>::empty());
    }
    let mut i: usize = 0;
    while i < entries.len()
        invariant
            i <= entries.len(),
            es == tag_rec_entries_view(entries@),
            es.len() == entries.len(),
            out@ == pp_tagrec(old(out)@, es.subrange(0, i as int), indent),
        decreases entries.len() - i,
    {
        proof {
            super::ast::lemma_tag_rec_entries_view_index(entries@, i as int);
            assert(es.subrange(0, i + 1).subrange(0, i as int) =~= es.subrange(0, i as int));
            assert(decreases_to!(entries => entries@[i as int].1));
            super::ast::lemma_named_nodes_view_len(entries@[i as int].1@);
        }
        let e = &entries[i];
        if e.1.len() > 0 {
            append_str(out, spacing.as_str());
            append_str(out, "    - '\x1b[36m");
            append_str(out, e.0.as_str());
            append_str(out, "\x1b[34m'(\n");
            let mut pre = String::new();
            append_str(&mut pre, "\x1b[34m");
            append_str(&mut pre, spacing.as_str());
            append_str(&mut pre, "      '\x1b[36m");
            let mut mid = String::new();
            append_str(&mut mid, "\x1b[34m' = ");
            write_named(out, &e.1, bumped(indent, 4), &pre, &mid);
            append_str(out, "\x1b[34m");
            append_str(out, spacing.as_str());
            append_str(out, "    )\n");
        } else {
            append_str(out, spacing.as_str());
            append_str(out, "    - '\x1b[36m");
            append_str(out, e.0.as_str());
            append_str(out, "\x1b[34m'()\n");
        }
        i = i + 1;
    }
    proof {
        assert(es.subrange(0, i as int) =~= es);
    }
}

pub open spec fn is_top_kind(k: SKind) -> bool {
    ||| k is Program
    ||| k is Raw
    ||| k is Type
    ||| k is TopUse
    ||| k is TopFun
    ||| k is TopRec
    ||| k is TopDef
    ||| k is TopTag
    ||| k is TopTagRec
    ||| k is TopPragma
}

pub open spec fn is_stat_kind(k: SKind) -> bool {
    ||| k is StatRet
    ||| k is StatIf
    ||| k is StatSwitch
    ||| k is StatForCStyle
    ||| k is StatForSingleExpr
    ||| k is StatForRange
    ||| k is StatExpr
    ||| k is StatBreak
    ||| k is StatContinue
}

/// The key to the colours of the tree's text.
pub fn help_text() -> (r: &'static str)
    ensures
        r@ == "\x1b[1mnodes are colour-coded using the following key:\x1b[0m\n  types: {TYPE}yellow{RESET}\n  top level statements: {TOP_LEVEL_STAT}blue{RESET}\n  statements: {STAT}green{RESET}\n  expressions: {EXPR}red{RESET}\n  values: {TEXT}cyan{RESET}\n"@,
{
    "\x1b[1mnodes are colour-coded using the following key:\x1b[0m\n  types: {TYPE}yellow{RESET}\n  top level statements: {TOP_LEVEL_STAT}blue{RESET}\n  statements: {STAT}green{RESET}\n  expressions: {EXPR}red{RESET}\n  values: {TEXT}cyan{RESET}\n"
}

impl Node {
    /// The tree as indented, colour-coded text.
    pub fn pretty_print(&self) -> (r: String)
        ensures
            r@ == pp_into(Seq::empty(), self@, 0, false),
    {
        let mut out = String::new();
        self.pretty_print_inner(&mut out, 0, false);
        out
    }

    /// Appends the text of the tree to `out`, indented by `indent`; with
    /// `indent_first`, its first line is indented too.
    pub fn pretty_print_inner(&self, out: &mut String, indent: usize, indent_first: bool)
        ensures
            final(out)@ == pp_into(old(out)@, self@, indent, indent_first),
        decreases self, 1nat,
    {
        let spacing = spaces(indent);
        if indent_first {
            append_str(out, spacing.as_str());
        }
        match &self.node {
            NodeKind::Program(_) | NodeKind::Raw(_) | NodeKind::Type { .. } | NodeKind::TopUse(..)
            | NodeKind::TopFun { .. } | NodeKind::TopRec { .. } | NodeKind::TopDef { .. }
            | NodeKind::TopTag { .. } | NodeKind::TopTagRec { .. } | NodeKind::TopPragma { .. } => {
                self.pp_top(out, indent, &spacing)
            },
            NodeKind::StatRet(_) | NodeKind::StatIf { .. } | NodeKind::StatSwitch { .. }
            | NodeKind::StatForCStyle { .. } | NodeKind::StatForSingleExpr { .. }
            | NodeKind::StatForRange { .. } | NodeKind::StatExpr(_) | NodeKind::StatBreak
            | NodeKind::StatContinue => {
                self.pp_stat(out, indent, &spacing)
            },
            _ => self.pp_expr(out, indent, &spacing),
        }
        append_str(out, "\x1b[0m");
    }

    fn pp_top(&self, out: &mut String, indent: usize, spacing: &String)
        requires
            spacing@ == sp(indent),
            is_top_kind(self@.node),
        ensures
            final(out)@ == pp_body(old(out)@, self@, indent),
        decreases self, 0nat,
    {
        match &self.node {
            NodeKind::Program(nodes) => {
                append_str(out, "\x1b[1mprogram:\x1b[0m\n");
                {
                    let mut p = String::new();
                    write_list(out, nodes, bumped(indent, 1), true, &p);
                }
                append_str(out, "\x1b[0m");
            },
            NodeKind::Raw(code) => {
                append_str(out, "raw code: '\x1b[36m");
                append_str(out, code.as_str());
                append_str(out, "\x1b[0m'\n");
            },
            NodeKind::Type { pointers, name, arrays, funptr_args, funptr_rets } => {
                if funptr_rets.is_some() {
                    append_str(out, "\x1b[33mtype:\n");
                    append_str(out, spacing.as_str());
                    append_str(out, "  name: \x1b[36m");
                    append_str(out, name.as_str());
                    append_str(out, "\x1b[33m\n");
                    append_str(out, spacing.as_str());
                    append_str(out, "  pointers: \x1b[36m");
                    push_carets(out, *pointers);
                    append_str(out, "\x1b[33m (\x1b[36m");
                    push_decimal(out, *pointers as usize);
                    append_str(out, "\x1b[33m)\n");
                    append_str(out, spacing.as_str());
                    append_str(out, "  arrays: \x1b[36m");
                    push_arrays(out, arrays);
                    append_str(out, "\x1b[33m (\x1b[36m");
                    push_decimal(out, arrays.len());
                    append_str(out, "\x1b[33m)\n");
                    append_str(out, spacing.as_str());
                    append_str(out, "  args: (\n");
                    match funptr_args {
                        Some(args) => {
                            {
                                let mut p = String::new();
                                write_list(out, args, bumped(indent, 2), true, &p);
                            }
                        },
                        None => {},
                    }
                    append_str(out, "\x1b[33m");
                    append_str(out, spacing.as_str());
                    append_str(out, "  ): \n");
                    append_str(out, spacing.as_str());
                    append_str(out, "  rets: ");
                    match funptr_rets { Some(t) => t.pretty_print_inner(out, bumped(indent, 0), false), None => {} }
                } else {
                    append_str(out, "\x1b[33mtype: \x1b[36m");
                    push_carets(out, *pointers);
                    append_str(out, name.as_str());
                    push_arrays(out, arrays);
                    append_str(out, "\n");
                }
            },
            NodeKind::TopUse(path, _) => {
                append_str(out, "\x1b[34muse: \x1b[36m\"");
                push_path(out, path);
                append_str(out, "\"\n");
            },
            NodeKind::TopFun { tags, id, params, rets, expr } => {
                append_str(out, "\x1b[34mfun '\x1b[36m");
                append_str(out, id.as_str());
                append_str(out, "\x1b[34m':\n");
                if tags.len() > 0 {
                    append_str(out, spacing.as_str());
                    append_str(out, "  tags: \x1b[36m#");
                    push_tags(out, tags);
                    append_str(out, "\x1b[34m\n");
                }
                append_str(out, spacing.as_str());
                append_str(out, "  params:\n");
                {
                    let mut pre = String::new();
                    append_str(&mut pre, "\x1b[34m");
                    append_str(&mut pre, spacing.as_str());
                    append_str(&mut pre, "    '\x1b[36m");
                    let mut mid = String::new();
                    append_str(&mut mid, "\x1b[34m' = ");
                    write_named(out, params, bumped(indent, 2), &pre, &mid);
                }
                append_str(out, "\x1b[34m");
                append_str(out, spacing.as_str());
                append_str(out, "  rets = ");
                rets.pretty_print_inner(out, bumped(indent, 0), false);
                append_str(out, "\x1b[34m");
                append_str(out, spacing.as_str());
                append_str(out, "  code:\n");
                expr.pretty_print_inner(out, bumped(indent, 2), true);
            },
            NodeKind::TopRec { tags, id, fields } => {
                append_str(out, "\x1b[34mrec '\x1b[36m");
                append_str(out, id.as_str());
                append_str(out, "\x1b[34m'\n");
                if tags.len() > 0 {
                    append_str(out, spacing.as_str());
                    append_str(out, "  tags: \x1b[36m#");
                    push_tags(out, tags);
                    append_str(out, "\x1b[34m\n");
                }
                append_str(out, spacing.as_str());
                append_str(out, "  fields:\n");
                {
                    let mut pre = String::new();
                    append_str(&mut pre, "\x1b[34m");
                    append_str(&mut pre, spacing.as_str());
                    append_str(&mut pre, "    \x1b[36m");
                    let mut mid = String::new();
                    append_str(&mut mid, "\x1b[34m = ");
                    write_named(out, fields, bumped(indent, 2), &pre, &mid);
                }
            },
            NodeKind::TopDef { tags, id, typ } => {
                append_str(out, "\x1b[34mdef '\x1b[36m");
                append_str(out, id.as_str());
                append_str(out, "\x1b[34m' = ");
                typ.pretty_print_inner(out, bumped(indent, 1), false);
                if tags.len() > 0 {
                    append_str(out, spacing.as_str());
                    append_str(out, "  tags: \x1b[36m#");
                    push_tags(out, tags);
                    append_str(out, "\x1b[34m\n");
                }
            },
            NodeKind::TopTag { tags, id, entries } => {
                append_str(out, "\x1b[34mtag '\x1b[36m");
                append_str(out, id.as_str());
                append_str(out, "\x1b[34m':\n");
                if tags.len() > 0 {
                    append_str(out, spacing.as_str());
                    append_str(out, "  tags: \x1b[36m#");
                    push_tags(out, tags);
                    append_str(out, "\x1b[34m\n");
                }
                append_str(out, spacing.as_str());
                append_str(out, "  entries:\n");
                write_tag_entries(out, entries, indent, &spacing);
            },
            NodeKind::TopTagRec { tags, id, entries } => {
                append_str(out, "\x1b[34mtag rec '\x1b[36m");
                append_str(out, id.as_str());
                append_str(out, "\x1b[34m':\n");
                if tags.len() > 0 {
                    append_str(out, spacing.as_str());
                    append_str(out, "  tags: \x1b[36m#");
                    push_tags(out, tags);
                    append_str(out, "\x1b[34m\n");
                }
                append_str(out, spacing.as_str());
                append_str(out, "  entries:\n");
                write_tagrec(out, entries, indent, &spacing);
            },
            NodeKind::TopPragma { id, params } => {
                append_str(out, "\x1b[34mpragma '\x1b[36m");
                append_str(out, id.as_str());
                append_str(out, "\x1b[34m', params:\n");
                {
                    let mut p = String::new();
                    write_list(out, params, bumped(indent, 1), true, &p);
                }
            },
            _ => {},
        }
    }

    fn pp_stat(&self, out: &mut String, indent: usize, spacing: &String)
        requires
            spacing@ == sp(indent),
            is_stat_kind(self@.node),
        ensures
            final(out)@ == pp_body(old(out)@, self@, indent),
        decreases self, 0nat,
    {
        match &self.node {
            NodeKind::StatRet(value) => {
                append_str(out, "\x1b[32mret:\n");
                match value {
                    Some(v) => {
                        v.pretty_print_inner(out, bumped(indent, 1), true);
                    },
                    None => {},
                }
            },
            NodeKind::StatIf { cond, expr, else_ } => {
                append_str(out, "\x1b[32mif:\n");
                append_str(out, spacing.as_str());
                append_str(out, "  cond:\n");
                cond.pretty_print_inner(out, bumped(indent, 2), true);
                append_str(out, "\x1b[32m");
                append_str(out, spacing.as_str());
                append_str(out, "  expr:\n");
                expr.pretty_print_inner(out, bumped(indent, 2), true);
                match else_ {
                    Some(it) => {
                        append_str(out, "\x1b[32m");
                        append_str(out, spacing.as_str());
                        append_str(out, "  else:\n");
                        it.pretty_print_inner(out, bumped(indent, 2), true);
                    },
                    None => {},
                }
            },
            NodeKind::StatSwitch { switch, cases } => {
                append_str(out, "\x1b[32mswitch:\n");
                append_str(out, spacing.as_str());
                append_str(out, "  expr:\n");
                switch.pretty_print_inner(out, bumped(indent, 2), true);
                append_str(out, "\x1b[32m");
                append_str(out, spacing.as_str());
                append_str(out, "  cases:\n");
                write_cases(out, cases, indent, &spacing);
            },
            NodeKind::StatForCStyle { def, cond, inc, expr } => {
                append_str(out, "\x1b[32mfor (c style):\n");
                append_str(out, spacing.as_str());
                append_str(out, "  def: \n");
                def.pretty_print_inner(out, bumped(indent, 2), true);
                append_str(out, "\x1b[32m");
                append_str(out, spacing.as_str());
                append_str(out, "  cond: \n");
                cond.pretty_print_inner(out, bumped(indent, 2), true);
                append_str(out, "\x1b[32m");
                append_str(out, spacing.as_str());
                append_str(out, "  inc: \n");
                inc.pretty_print_inner(out, bumped(indent, 2), true);
                append_str(out, "\x1b[32m");
                append_str(out, spacing.as_str());
                append_str(out, "  expr:\n");
                expr.pretty_print_inner(out, bumped(indent, 2), true);
            },
            NodeKind::StatForSingleExpr { cond, expr } => {
                append_str(out, "\x1b[32mfor (single expr):\n");
                append_str(out, spacing.as_str());
                append_str(out, "  cond: \n");
                cond.pretty_print_inner(out, bumped(indent, 2), true);
                append_str(out, "\x1b[32m");
                append_str(out, spacing.as_str());
                append_str(out, "  expr:\n");
                expr.pretty_print_inner(out, bumped(indent, 2), true);
            },
            NodeKind::StatForRange { var, from, to, expr } => {
                append_str(out, "\x1b[32mfor (range):\n");
                match var {
                    Some(it) => {
                        append_str(out, spacing.as_str());
                        append_str(out, "  var: ");
                        append_str(out, it.as_str());
                        append_str(out, "\n");
                    },
                    None => {},
                }
                append_str(out, spacing.as_str());
                append_str(out, "  from: \n");
                from.pretty_print_inner(out, bumped(indent, 2), true);
                append_str(out, "\x1b[32m");
                append_str(out, spacing.as_str());
                append_str(out, "  to: \n");
                to.pretty_print_inner(out, bumped(indent, 2), true);
                append_str(out, "\x1b[32m");
                append_str(out, spacing.as_str());
                append_str(out, "  expr:\n");
                expr.pretty_print_inner(out, bumped(indent, 2), true);
            },
            NodeKind::StatExpr(inner) => {
                append_str(out, "\x1b[31mexpr:\n");
                inner.pretty_print_inner(out, bumped(indent, 1), true);
            },
            NodeKind::StatBreak => {
                append_str(out, "\x1b[32mbreak\n");
            },
            NodeKind::StatContinue => {
                append_str(out, "\x1b[32mcontinue\n");
            },
            _ => {},
        }
    }

    fn pp_expr(&self, out: &mut String, indent: usize, spacing: &String)
        requires
            spacing@ == sp(indent),
            !is_top_kind(self@.node),
            !is_stat_kind(self@.node),
        ensures
            final(out)@ == pp_body(old(out)@, self@, indent),
        decreases self, 0nat,
    {
        match &self.node {
            NodeKind::ExprGroup(inner) => {
                append_str(out, "\x1b[31mgroup:\n");
                inner.pretty_print_inner(out, bumped(indent, 1), true);
            },
            NodeKind::ExprNumber(value) => {
                append_str(out, "\x1b[31mnumber: '\x1b[36m");
                append_str(out, value.as_str());
                append_str(out, "\x1b[31m'\n");
            },
            NodeKind::ExprString(value) => {
                append_str(out, "\x1b[31mstring: '\x1b[36m");
                append_str(out, value.as_str());
                append_str(out, "\x1b[31m'\n");
            },
            NodeKind::ExprCString(value) => {
                append_str(out, "\x1b[31mcstring: c'\x1b[36m");
                append_str(out, value.as_str());
                append_str(out, "\x1b[31m'\n");
            },
            NodeKind::ExprChar(value) => {
                append_str(out, "\x1b[31mchar: '\x1b[36m");
                append_str(out, value.as_str());
                append_str(out, "\x1b[31m'\n");
            },
            NodeKind::ExprTrue => {
                append_str(out, "\x1b[31mtrue\n");
            },
            NodeKind::ExprFalse => {
                append_str(out, "\x1b[31mfalse\n");
            },
            NodeKind::ExprIdentifier(value) => {
                append_str(out, "\x1b[31mid: '\x1b[36m");
                append_str(out, value.as_str());
                append_str(out, "\x1b[31m'\n");
            },
            NodeKind::ExprBlock(nodes) => {
                append_str(out, "\x1b[31mblock:\n");
                {
                    let mut p = String::new();
                    write_list(out, nodes, bumped(indent, 1), true, &p);
                }
            },
            NodeKind::ExprNew { id, params } => {
                append_str(out, "\x1b[31mnew: '\x1b[36m");
                append_str(out, id.as_str());
                append_str(out, "\x1b[31m', params:\n");
                {
                    let mut p = String::new();
                    write_list(out, params, bumped(indent, 1), true, &p);
                }
            },
            NodeKind::ExprUnaryOperator { kind, value } => {
                append_str(out, "\x1b[31munary op: '\x1b[36m");
                append_str(out, kind_text(*kind));
                append_str(out, "\x1b[31m'\n");
                append_str(out, spacing.as_str());
                append_str(out, "  value: ");
                value.pretty_print_inner(out, bumped(indent, 1), false);
            },
            NodeKind::ExprBinaryOperator { kind, left, right } => {
                append_str(out, "\x1b[31mbinary op: '\x1b[36m");
                append_str(out, kind_text(*kind));
                append_str(out, "\x1b[31m'\n");
                append_str(out, spacing.as_str());
                append_str(out, "  left: ");
                left.pretty_print_inner(out, bumped(indent, 1), false);
                append_str(out, "\x1b[31m");
                append_str(out, spacing.as_str());
                append_str(out, "  right: ");
                right.pretty_print_inner(out, bumped(indent, 1), false);
            },
            NodeKind::ExprInvoke { left, params } => {
                append_str(out, "\x1b[31minvoke:\n");
                left.pretty_print_inner(out, bumped(indent, 1), true);
                append_str(out, "\x1b[31m");
                append_str(out, spacing.as_str());
                append_str(out, "  params:\n");
                {
                    let mut p = String::new();
                    append_str(&mut p, "\x1b[31m");
                    append_str(&mut p, spacing.as_str());
                    append_str(&mut p, "    - ");
                    write_list(out, params, bumped(indent, 2), false, &p);
                }
            },
            NodeKind::ExprMacInvoke { name, params } => {
                append_str(out, "mac invoke: '\x1b[36m");
                append_str(out, name.as_str());
                append_str(out, "\x1b[0m'\n");
                append_str(out, spacing.as_str());
                append_str(out, "  params:\n");
                {
                    let mut p = String::new();
                    append_str(&mut p, "\x1b[0m");
                    append_str(&mut p, spacing.as_str());
                    append_str(&mut p, "    - ");
                    write_list(out, params, bumped(indent, 2), false, &p);
                }
            },
            NodeKind::ExprList(nodes) => {
                append_str(out, "\x1b[31mlist:\n");
                {
                    let mut p = String::new();
                    append_str(&mut p, "\x1b[31m");
                    append_str(&mut p, spacing.as_str());
                    append_str(&mut p, "  - ");
                    write_list(out, nodes, bumped(indent, 1), false, &p);
                }
            },
            NodeKind::ExprVar { name, typ, value } => {
                if typ.is_some() {
                    append_str(out, "\x1b[31mvar '\x1b[36m");
                    append_str(out, name.as_str());
                    append_str(out, "\x1b[31m':\n\x1b[31m");
                    append_str(out, spacing.as_str());
                    append_str(out, "  type: ");
                    match typ { Some(t) => t.pretty_print_inner(out, bumped(indent, 1), false), None => {} }
                    append_str(out, "\x1b[31m");
                    append_str(out, spacing.as_str());
                    append_str(out, "  value = ");
                    value.pretty_print_inner(out, bumped(indent, 1), false);
                } else {
                    append_str(out, "\x1b[31mvar '\x1b[36m");
                    append_str(out, name.as_str());
                    append_str(out, "\x1b[31m' =\n");
                    value.pretty_print_inner(out, bumped(indent, 1), true);
                }
            },
            NodeKind::ExprLet { name, typ, value } => {
                if typ.is_some() {
                    append_str(out, "\x1b[31mlet '\x1b[36m");
                    append_str(out, name.as_str());
                    append_str(out, "\x1b[31m':\n\x1b[31m");
                    append_str(out, spacing.as_str());
                    append_str(out, "  type: ");
                    match typ { Some(t) => t.pretty_print_inner(out, bumped(indent, 1), false), None => {} }
                    append_str(out, "\x1b[31m");
                    append_str(out, spacing.as_str());
                    append_str(out, "  value = ");
                    value.pretty_print_inner(out, bumped(indent, 1), false);
                } else {
                    append_str(out, "\x1b[31mlet '\x1b[36m");
                    append_str(out, name.as_str());
                    append_str(out, "\x1b[31m' =\n");
                    value.pretty_print_inner(out, bumped(indent, 1), true);
                }
            },
            _ => {},
        }
    }
}

} // verus!
