use vstd::prelude::*;

use crate::hashtags::{DefTags, FunTags, RecTags, TagRecTags, TagTags};

use super::operator::OperatorKind;

verus! {

/// A node of the syntax tree, with the line and column where it starts.
#[derive(Debug)]
pub struct Node {
    pub line: usize,
    pub column: usize,
    pub node: NodeKind,
}

/// What a node is.
#[derive(Debug)]
pub enum NodeKind {
    Program(Vec<Node>),
    Raw(String),
    Type {
        pointers: u8,
        name: String,
        arrays: Vec<(Option<usize>, Option<String>)>,
        funptr_args: Option<Vec<Node>>,
        funptr_rets: Option<Box<Node>>,
    },
    // Top level statements
    /// The segments of the module path, and the selected names if any.
    TopUse(Vec<String>, Option<Vec<String>>),
    TopFun {
        tags: Vec<FunTags>,
        id: String,
        params: Vec<(String, Node)>,
        rets: Box<Node>,
        expr: Box<Node>,
    },
    TopRec { tags: Vec<RecTags>, id: String, fields: Vec<(String, Node)> },
    TopDef { tags: Vec<DefTags>, id: String, typ: Box<Node> },
    TopTag { tags: Vec<TagTags>, id: String, entries: Vec<(String, Option<Box<Node>>)> },
    TopTagRec { tags: Vec<TagRecTags>, id: String, entries: Vec<(String, Vec<(String, Node)>)> },
    TopPragma { id: String, params: Vec<Node> },
    // Statements
    StatRet(Option<Box<Node>>),
    StatIf { cond: Box<Node>, expr: Box<Node>, else_: Option<Box<Node>> },
    /// A list of: (case expression [if None then this is the `else` case], is fall case, case code block)
    StatSwitch { switch: Box<Node>, cases: Vec<(Option<Box<Node>>, bool, Box<Node>)> },
    StatForCStyle { def: Box<Node>, cond: Box<Node>, inc: Box<Node>, expr: Box<Node> },
    StatForSingleExpr { cond: Box<Node>, expr: Box<Node> },
    StatForRange { var: Option<String>, from: Box<Node>, to: Box<Node>, expr: Box<Node> },
    StatExpr(Box<Node>),
    /// `break`: leaves the innermost loop.
    StatBreak,
    /// `continue`: goes on with the next turn of the innermost loop.
    StatContinue,
    // Expressions
    ExprGroup(Box<Node>),
    ExprNumber(String),
    ExprString(String),
    ExprCString(String),
    ExprChar(String),
    ExprTrue,
    ExprFalse,
    ExprIdentifier(String),
    ExprBlock(Vec<Node>),
    ExprNew { id: String, params: Vec<Node> },
    ExprUnaryOperator { kind: OperatorKind, value: Box<Node> },
    ExprBinaryOperator { kind: OperatorKind, left: Box<Node>, right: Box<Node> },
    ExprInvoke { left: Box<Node>, params: Vec<Node> },
    ExprMacInvoke { name: String, params: Vec<Node> },
    ExprList(Vec<Node>),
    ExprVar { name: String, typ: Option<Box<Node>>, value: Box<Node> },
    ExprLet { name: String, typ: Option<Box<Node>>, value: Box<Node> },
}

/// The mathematical value of a node.
pub struct SNode {
    pub line: int,
    pub column: int,
    pub node: SKind,
}

/// The mathematical value of a node's kind; texts are sequences of characters.
pub enum SKind {
    Program(Seq<SNode>),
    Raw(Seq<char>),
    Type {
        pointers: u8,
        name: Seq<char>,
        arrays: Seq<(Option<usize>, Option<Seq<char>>)>,
        funptr_args: Option<Seq<SNode>>,
        funptr_rets: Option<Box<SNode>>,
    },
    TopUse(Seq<Seq<char>>, Option<Seq<Seq<char>>>),
    TopFun {
        tags: Seq<FunTags>,
        id: Seq<char>,
        params: Seq<(Seq<char>, SNode)>,
        rets: Box<SNode>,
        expr: Box<SNode>,
    },
    TopRec { tags: Seq<RecTags>, id: Seq<char>, fields: Seq<(Seq<char>, SNode)> },
    TopDef { tags: Seq<DefTags>, id: Seq<char>, typ: Box<SNode> },
    TopTag { tags: Seq<TagTags>, id: Seq<char>, entries: Seq<(Seq<char>, Option<Box<SNode>>)> },
    TopTagRec {
        tags: Seq<TagRecTags>,
        id: Seq<char>,
        entries: Seq<(Seq<char>, Seq<(Seq<char>, SNode)>)>,
    },
    TopPragma { id: Seq<char>, params: Seq<SNode> },
    StatRet(Option<Box<SNode>>),
    StatIf { cond: Box<SNode>, expr: Box<SNode>, else_: Option<Box<SNode>> },
    StatSwitch { switch: Box<SNode>, cases: Seq<(Option<Box<SNode>>, bool, Box<SNode>)> },
    StatForCStyle { def: Box<SNode>, cond: Box<SNode>, inc: Box<SNode>, expr: Box<SNode> },
    StatForSingleExpr { cond: Box<SNode>, expr: Box<SNode> },
    StatForRange {
        var: Option<Seq<char>>,
        from: Box<SNode>,
        to: Box<SNode>,
        expr: Box<SNode>,
    },
    StatExpr(Box<SNode>),
    StatBreak,
    StatContinue,
    ExprGroup(Box<SNode>),
    ExprNumber(Seq<char>),
    ExprString(Seq<char>),
    ExprCString(Seq<char>),
    ExprChar(Seq<char>),
    ExprTrue,
    ExprFalse,
    ExprIdentifier(Seq<char>),
    ExprBlock(Seq<SNode>),
    ExprNew { id: Seq<char>, params: Seq<SNode> },
    ExprUnaryOperator { kind: OperatorKind, value: Box<SNode> },
    ExprBinaryOperator { kind: OperatorKind, left: Box<SNode>, right: Box<SNode> },
    ExprInvoke { left: Box<SNode>, params: Seq<SNode> },
    ExprMacInvoke { name: Seq<char>, params: Seq<SNode> },
    ExprList(Seq<SNode>),
    ExprVar { name: Seq<char>, typ: Option<Box<SNode>>, value: Box<SNode> },
    ExprLet { name: Seq<char>, typ: Option<Box<SNode>>, value: Box<SNode> },
}

pub open spec fn strings_view(s: Seq<String>) -> Seq<Seq<char>> {
    s.map_values(|x: String| x@)
}

pub open spec fn opt_string_view(o: Option<String>) -> Option<Seq<char>> {
    match o {
        Some(s) => Some(s@),
        None => None,
    }
}

pub open spec fn arrays_view(s: Seq<(Option<usize>, Option<String>)>) -> Seq<
    (Option<usize>, Option<Seq<char>>),
> {
    s.map_values(|a: (Option<usize>, Option<String>)| (a.0, opt_string_view(a.1)))
}

pub open spec fn nodes_view(s: Seq<Node>) -> Seq<SNode>
    decreases s,
{
    if s.len() == 0 {
        Seq::empty()
    } else {
        let n = s[s.len() - 1];
        nodes_view(s.subrange(0, s.len() - 1)).push(
            SNode { line: n.line as int, column: n.column as int, node: n.node.view_kind() },
        )
    }
}

pub open spec fn named_nodes_view(s: Seq<(String, Node)>) -> Seq<(Seq<char>, SNode)>
    decreases s,
{
    if s.len() == 0 {
        Seq::empty()
    } else {
        named_nodes_view(s.subrange(0, s.len() - 1)).push(
            (
                s[s.len() - 1].0@,
                SNode {
                    line: s[s.len() - 1].1.line as int,
                    column: s[s.len() - 1].1.column as int,
                    node: s[s.len() - 1].1.node.view_kind(),
                },
            ),
        )
    }
}

pub open spec fn opt_node_view(o: Option<Box<Node>>) -> Option<Box<SNode>>
    decreases o,
{
    match o {
        Some(n) => Some(Box::new(SNode { line: n.line as int, column: n.column as int, node: n.node.view_kind() })),
        None => None,
    }
}

pub open spec fn opt_nodes_view(o: Option<Vec<Node>>) -> Option<Seq<SNode>>
    decreases o,
{
    match o {
        Some(v) => Some(nodes_view(v@)),
        None => None,
    }
}

pub open spec fn cases_view(s: Seq<(Option<Box<Node>>, bool, Box<Node>)>) -> Seq<
    (Option<Box<SNode>>, bool, Box<SNode>),
>
    decreases s,
{
    if s.len() == 0 {
        Seq::empty()
    } else {
        let c = s[s.len() - 1];
        cases_view(s.subrange(0, s.len() - 1)).push(
            (opt_node_view(c.0), c.1, Box::new(SNode { line: c.2.line as int, column: c.2.column as int, node: c.2.node.view_kind() })),
        )
    }
}

pub open spec fn tag_entries_view(s: Seq<(String, Option<Box<Node>>)>) -> Seq<
    (Seq<char>, Option<Box<SNode>>),
>
    decreases s,
{
    if s.len() == 0 {
        Seq::empty()
    } else {
        let e = s[s.len() - 1];
        tag_entries_view(s.subrange(0, s.len() - 1)).push((e.0@, opt_node_view(e.1)))
    }
}

pub open spec fn tag_rec_entries_view(s: Seq<(String, Vec<(String, Node)>)>) -> Seq<
    (Seq<char>, Seq<(Seq<char>, SNode)>),
>
    decreases s,
{
    if s.len() == 0 {
        Seq::empty()
    } else {
        let e = s[s.len() - 1];
        tag_rec_entries_view(s.subrange(0, s.len() - 1)).push((e.0@, named_nodes_view(e.1@)))
    }
}

impl Node {
    pub open spec fn view_node(&self) -> SNode {
        SNode { line: self.line as int, column: self.column as int, node: self.node.view_kind() }
    }
}

impl NodeKind {
    pub open spec fn view_kind(&self) -> SKind
        decreases self,
    {
        match self {
            NodeKind::Program(v) => SKind::Program(nodes_view(v@)),
            NodeKind::Raw(s) => SKind::Raw(s@),
            NodeKind::Type { pointers, name, arrays, funptr_args, funptr_rets } => SKind::Type {
                pointers: *pointers,
                name: name@,
                arrays: arrays_view(arrays@),
                funptr_args: match funptr_args {
                    Some(v) => Some(nodes_view(v@)),
                    None => None,
                },
                funptr_rets: match funptr_rets {
                    Some(n) => Some(
                        Box::new(
                            SNode {
                                line: n.line as int,
                                column: n.column as int,
                                node: n.node.view_kind(),
                            },
                        ),
                    ),
                    None => None,
                },
            },
            NodeKind::TopUse(path, sel) => SKind::TopUse(
                strings_view(path@),
                match sel {
                    Some(v) => Some(strings_view(v@)),
                    None => None,
                },
            ),
            NodeKind::TopFun { tags, id, params, rets, expr } => SKind::TopFun {
                tags: tags@,
                id: id@,
                params: named_nodes_view(params@),
                rets: Box::new(SNode { line: rets.line as int, column: rets.column as int, node: rets.node.view_kind() }),
                expr: Box::new(SNode { line: expr.line as int, column: expr.column as int, node: expr.node.view_kind() }),
            },
            NodeKind::TopRec { tags, id, fields } => SKind::TopRec {
                tags: tags@,
                id: id@,
                fields: named_nodes_view(fields@),
            },
            NodeKind::TopDef { tags, id, typ } => SKind::TopDef {
                tags: tags@,
                id: id@,
                typ: Box::new(SNode { line: typ.line as int, column: typ.column as int, node: typ.node.view_kind() }),
            },
            NodeKind::TopTag { tags, id, entries } => SKind::TopTag {
                tags: tags@,
                id: id@,
                entries: tag_entries_view(entries@),
            },
            NodeKind::TopTagRec { tags, id, entries } => SKind::TopTagRec {
                tags: tags@,
                id: id@,
                entries: tag_rec_entries_view(entries@),
            },
            NodeKind::TopPragma { id, params } => SKind::TopPragma {
                id: id@,
                params: nodes_view(params@),
            },
            NodeKind::StatRet(o) => SKind::StatRet(match o {
                    Some(n) => Some(
                        Box::new(
                            SNode {
                                line: n.line as int,
                                column: n.column as int,
                                node: n.node.view_kind(),
                            },
                        ),
                    ),
                    None => None,
                }),
            NodeKind::StatIf { cond, expr, else_ } => SKind::StatIf {
                cond: Box::new(SNode { line: cond.line as int, column: cond.column as int, node: cond.node.view_kind() }),
                expr: Box::new(SNode { line: expr.line as int, column: expr.column as int, node: expr.node.view_kind() }),
                else_: match else_ {
                    Some(n) => Some(
                        Box::new(
                            SNode {
                                line: n.line as int,
                                column: n.column as int,
                                node: n.node.view_kind(),
                            },
                        ),
                    ),
                    None => None,
                },
            },
            NodeKind::StatSwitch { switch, cases } => SKind::StatSwitch {
                switch: Box::new(SNode { line: switch.line as int, column: switch.column as int, node: switch.node.view_kind() }),
                cases: cases_view(cases@),
            },
            NodeKind::StatForCStyle { def, cond, inc, expr } => SKind::StatForCStyle {
                def: Box::new(SNode { line: def.line as int, column: def.column as int, node: def.node.view_kind() }),
                cond: Box::new(SNode { line: cond.line as int, column: cond.column as int, node: cond.node.view_kind() }),
                inc: Box::new(SNode { line: inc.line as int, column: inc.column as int, node: inc.node.view_kind() }),
                expr: Box::new(SNode { line: expr.line as int, column: expr.column as int, node: expr.node.view_kind() }),
            },
            NodeKind::StatForSingleExpr { cond, expr } => SKind::StatForSingleExpr {
                cond: Box::new(SNode { line: cond.line as int, column: cond.column as int, node: cond.node.view_kind() }),
                expr: Box::new(SNode { line: expr.line as int, column: expr.column as int, node: expr.node.view_kind() }),
            },
            NodeKind::StatForRange { var, from, to, expr } => SKind::StatForRange {
                var: opt_string_view(*var),
                from: Box::new(SNode { line: from.line as int, column: from.column as int, node: from.node.view_kind() }),
                to: Box::new(SNode { line: to.line as int, column: to.column as int, node: to.node.view_kind() }),
                expr: Box::new(SNode { line: expr.line as int, column: expr.column as int, node: expr.node.view_kind() }),
            },
            NodeKind::StatExpr(n) => SKind::StatExpr(Box::new(SNode { line: n.line as int, column: n.column as int, node: n.node.view_kind() })),
            NodeKind::StatBreak => SKind::StatBreak,
            NodeKind::StatContinue => SKind::StatContinue,
            NodeKind::ExprGroup(n) => SKind::ExprGroup(Box::new(SNode { line: n.line as int, column: n.column as int, node: n.node.view_kind() })),
            NodeKind::ExprNumber(s) => SKind::ExprNumber(s@),
            NodeKind::ExprString(s) => SKind::ExprString(s@),
            NodeKind::ExprCString(s) => SKind::ExprCString(s@),
            NodeKind::ExprChar(s) => SKind::ExprChar(s@),
            NodeKind::ExprTrue => SKind::ExprTrue,
            NodeKind::ExprFalse => SKind::ExprFalse,
            NodeKind::ExprIdentifier(s) => SKind::ExprIdentifier(s@),
            NodeKind::ExprBlock(v) => SKind::ExprBlock(nodes_view(v@)),
            NodeKind::ExprNew { id, params } => SKind::ExprNew {
                id: id@,
                params: nodes_view(params@),
            },
            NodeKind::ExprUnaryOperator { kind, value } => SKind::ExprUnaryOperator {
                kind: *kind,
                value: Box::new(SNode { line: value.line as int, column: value.column as int, node: value.node.view_kind() }),
            },
            NodeKind::ExprBinaryOperator { kind, left, right } => SKind::ExprBinaryOperator {
                kind: *kind,
                left: Box::new(SNode { line: left.line as int, column: left.column as int, node: left.node.view_kind() }),
                right: Box::new(SNode { line: right.line as int, column: right.column as int, node: right.node.view_kind() }),
            },
            NodeKind::ExprInvoke { left, params } => SKind::ExprInvoke {
                left: Box::new(SNode { line: left.line as int, column: left.column as int, node: left.node.view_kind() }),
                params: nodes_view(params@),
            },
            NodeKind::ExprMacInvoke { name, params } => SKind::ExprMacInvoke {
                name: name@,
                params: nodes_view(params@),
            },
            NodeKind::ExprList(v) => SKind::ExprList(nodes_view(v@)),
            NodeKind::ExprVar { name, typ, value } => SKind::ExprVar {
                name: name@,
                typ: match typ {
                    Some(n) => Some(
                        Box::new(
                            SNode {
                                line: n.line as int,
                                column: n.column as int,
                                node: n.node.view_kind(),
                            },
                        ),
                    ),
                    None => None,
                },
                value: Box::new(SNode { line: value.line as int, column: value.column as int, node: value.node.view_kind() }),
            },
            NodeKind::ExprLet { name, typ, value } => SKind::ExprLet {
                name: name@,
                typ: match typ {
                    Some(n) => Some(
                        Box::new(
                            SNode {
                                line: n.line as int,
                                column: n.column as int,
                                node: n.node.view_kind(),
                            },
                        ),
                    ),
                    None => None,
                },
                value: Box::new(SNode { line: value.line as int, column: value.column as int, node: value.node.view_kind() }),
            },
        }
    }
}

pub open spec fn snode(line: int, column: int, node: SKind) -> SNode {
    SNode { line, column, node }
}

/// The `void` type at a position.
pub open spec fn void_type(line: int, column: int) -> SNode {
    snode(
        line,
        column,
        SKind::Type {
            pointers: 0,
            name: "void"@,
            arrays: Seq::empty(),
            funptr_args: None,
            funptr_rets: None,
        },
    )
}

/// A binary operator node; it starts where its left operand starts.
pub open spec fn spec_join(kind: OperatorKind, left: SNode, right: SNode) -> SNode {
    snode(
        left.line,
        left.column,
        SKind::ExprBinaryOperator { kind, left: Box::new(left), right: Box::new(right) },
    )
}

impl Node {
    /// The `void` type at a position.
    pub fn get_void_type(line: usize, column: usize) -> (r: Node)
        ensures
            r@ == void_type(line as int, column as int),
    {
        let r = Node {
            line,
            column,
            node: NodeKind::Type {
                pointers: 0,
                name: "void".to_owned(),
                arrays: Vec::new(),
                funptr_args: None,
                funptr_rets: None,
            },
        };
        proof {
            assert(r.node.view_kind()->arrays =~= Seq::empty());
            assert(r.node.view_kind() == void_type(line as int, column as int).node);
        }
        r
    }

    /// The binary operator node `left kind right`, placed where `left` starts.
    pub fn join(kind: OperatorKind, left: Node, right: Node) -> (r: Node)
        ensures
            r@ == spec_join(kind, left@, right@),
    {
        Node {
            line: left.line,
            column: left.column,
            node: NodeKind::ExprBinaryOperator { kind, left: Box::new(left), right: Box::new(right) },
        }
    }
}

#[verifier::spinoff_prover]
#[verifier::rlimit(50)]
pub proof fn lemma_nodes_view_index(s: Seq<Node>, i: int)
    requires
        0 <= i < s.len(),
    ensures
        nodes_view(s).len() == s.len(),
        nodes_view(s)[i] == s[i]@,
    decreases s.len(),
{
    if i < s.len() - 1 {
        lemma_nodes_view_index(s.subrange(0, s.len() - 1), i);
        assert(s.subrange(0, s.len() - 1)[i] == s[i]);
    } else {
        lemma_nodes_view_len(s.subrange(0, s.len() - 1));
    }
}

pub proof fn lemma_nodes_view_len(s: Seq<Node>)
    ensures
        nodes_view(s).len() == s.len(),
    decreases s.len(),
{
    if s.len() > 0 {
        lemma_nodes_view_len(s.subrange(0, s.len() - 1));
    }
}

pub proof fn lemma_named_nodes_view_len(s: Seq<(String, Node)>)
    ensures
        named_nodes_view(s).len() == s.len(),
    decreases s.len(),
{
    if s.len() > 0 {
        lemma_named_nodes_view_len(s.subrange(0, s.len() - 1));
    }
}

#[verifier::spinoff_prover]
#[verifier::rlimit(50)]
pub proof fn lemma_named_nodes_view_index(s: Seq<(String, Node)>, i: int)
    requires
        0 <= i < s.len(),
    ensures
        named_nodes_view(s)[i] == (s[i].0@, s[i].1@),
    decreases s.len(),
{
    if i < s.len() - 1 {
        lemma_named_nodes_view_index(s.subrange(0, s.len() - 1), i);
        assert(s.subrange(0, s.len() - 1)[i] == s[i]);
        lemma_named_nodes_view_len(s.subrange(0, s.len() - 1));
    } else {
        lemma_named_nodes_view_len(s.subrange(0, s.len() - 1));
        assert(s[i].1@ == SNode { line: s[i].1.line as int, column: s[i].1.column as int, node: s[i].1.node.view_kind() });
    }
}

pub proof fn lemma_cases_view_len(s: Seq<(Option<Box<Node>>, bool, Box<Node>)>)
    ensures
        cases_view(s).len() == s.len(),
    decreases s.len(),
{
    if s.len() > 0 {
        lemma_cases_view_len(s.subrange(0, s.len() - 1));
    }
}

#[verifier::spinoff_prover]
#[verifier::rlimit(50)]
pub proof fn lemma_cases_view_index(s: Seq<(Option<Box<Node>>, bool, Box<Node>)>, i: int)
    requires
        0 <= i < s.len(),
    ensures
        cases_view(s)[i] == (opt_node_view(s[i].0), s[i].1, Box::new(s[i].2.view_node())),
    decreases s.len(),
{
    if i < s.len() - 1 {
        lemma_cases_view_index(s.subrange(0, s.len() - 1), i);
        assert(s.subrange(0, s.len() - 1)[i] == s[i]);
        lemma_cases_view_len(s.subrange(0, s.len() - 1));
    } else {
        lemma_cases_view_len(s.subrange(0, s.len() - 1));
        assert(s[i].2.view_node() == SNode { line: s[i].2.line as int, column: s[i].2.column as int, node: s[i].2.node.view_kind() });
    }
}

pub proof fn lemma_tag_entries_view_len(s: Seq<(String, Option<Box<Node>>)>)
    ensures
        tag_entries_view(s).len() == s.len(),
        forall|i: int| 0 <= i < s.len() ==> #[trigger] tag_entries_view(s)[i].0 == s[i].0@,
    decreases s.len(),
{
    if s.len() > 0 {
        lemma_tag_entries_view_len(s.subrange(0, s.len() - 1));
        assert forall|i: int| 0 <= i < s.len() implies #[trigger] tag_entries_view(s)[i].0 == s[i].0@ by {
            if i < s.len() - 1 {
                assert(s.subrange(0, s.len() - 1)[i] == s[i]);
            }
        }
    }
}

#[verifier::spinoff_prover]
#[verifier::rlimit(50)]
pub proof fn lemma_tag_entries_view_index(s: Seq<(String, Option<Box<Node>>)>, i: int)
    requires
        0 <= i < s.len(),
    ensures
        tag_entries_view(s)[i] == (s[i].0@, opt_node_view(s[i].1)),
    decreases s.len(),
{
    lemma_tag_entries_view_len(s.subrange(0, s.len() - 1));
    if i < s.len() - 1 {
        lemma_tag_entries_view_index(s.subrange(0, s.len() - 1), i);
        assert(s.subrange(0, s.len() - 1)[i] == s[i]);
    }
}

pub proof fn lemma_tag_rec_entries_view_len(s: Seq<(String, Vec<(String, Node)>)>)
    ensures
        tag_rec_entries_view(s).len() == s.len(),
    decreases s.len(),
{
    if s.len() > 0 {
        lemma_tag_rec_entries_view_len(s.subrange(0, s.len() - 1));
    }
}

#[verifier::spinoff_prover]
#[verifier::rlimit(50)]
pub proof fn lemma_tag_rec_entries_view_index(s: Seq<(String, Vec<(String, Node)>)>, i: int)
    requires
        0 <= i < s.len(),
    ensures
        tag_rec_entries_view(s)[i] == (s[i].0@, named_nodes_view(s[i].1@)),
    decreases s.len(),
{
    if i < s.len() - 1 {
        lemma_tag_rec_entries_view_index(s.subrange(0, s.len() - 1), i);
        assert(s.subrange(0, s.len() - 1)[i] == s[i]);
        lemma_tag_rec_entries_view_len(s.subrange(0, s.len() - 1));
    } else {
        lemma_tag_rec_entries_view_len(s.subrange(0, s.len() - 1));
    }
    assert(tag_rec_entries_view(s) == tag_rec_entries_view(s.subrange(0, s.len() - 1)).push(
        (s[s.len() - 1].0@, named_nodes_view(s[s.len() - 1].1@)),
    ));
}

pub proof fn lemma_nodes_view_empty()
    ensures
        nodes_view(Seq::<Node>::empty()) == Seq::<SNode>::empty(),
{
    assert(nodes_view(Seq::<Node>::empty()) =~= Seq::<SNode>::empty());
}

pub proof fn lemma_nodes_view_push(s: Seq<Node>, n: Node)
    ensures
        nodes_view(s.push(n)) == nodes_view(s).push(n@),
{
    assert(s.push(n).subrange(0, s.len() as int) =~= s);
}

pub proof fn lemma_named_nodes_view_push(s: Seq<(String, Node)>, n: (String, Node))
    ensures
        named_nodes_view(s.push(n)) == named_nodes_view(s).push((n.0@, n.1@)),
{
    assert(s.push(n).subrange(0, s.len() as int) =~= s);
}

pub proof fn lemma_cases_view_push(
    s: Seq<(Option<Box<Node>>, bool, Box<Node>)>,
    c: (Option<Box<Node>>, bool, Box<Node>),
)
    ensures
        cases_view(s.push(c)) == cases_view(s).push((opt_node_view(c.0), c.1, Box::new(c.2.view_node()))),
{
    assert(s.push(c).subrange(0, s.len() as int) =~= s);
}

pub proof fn lemma_tag_entries_view_push(
    s: Seq<(String, Option<Box<Node>>)>,
    e: (String, Option<Box<Node>>),
)
    ensures
        tag_entries_view(s.push(e)) == tag_entries_view(s).push((e.0@, opt_node_view(e.1))),
{
    assert(s.push(e).subrange(0, s.len() as int) =~= s);
}

pub proof fn lemma_tag_rec_entries_view_push(
    s: Seq<(String, Vec<(String, Node)>)>,
    e: (String, Vec<(String, Node)>),
)
    ensures
        tag_rec_entries_view(s.push(e)) == tag_rec_entries_view(s).push(
            (e.0@, named_nodes_view(e.1@)),
        ),
{
    assert(s.push(e).subrange(0, s.len() as int) =~= s);
}

pub proof fn lemma_strings_view_len(s: Seq<String>)
    ensures
        strings_view(s).len() == s.len(),
        forall|i: int| 0 <= i < s.len() ==> #[trigger] strings_view(s)[i] == s[i]@,
{
}

pub proof fn lemma_strings_view_push(s: Seq<String>, x: String)
    ensures
        strings_view(s.push(x)) == strings_view(s).push(x@),
{
    assert(strings_view(s.push(x)) =~= strings_view(s).push(x@));
}

pub proof fn lemma_arrays_view_push(
    s: Seq<(Option<usize>, Option<String>)>,
    a: (Option<usize>, Option<String>),
)
    ensures
        arrays_view(s.push(a)) == arrays_view(s).push((a.0, opt_string_view(a.1))),
{
    assert(arrays_view(s.push(a)) =~= arrays_view(s).push((a.0, opt_string_view(a.1))));
}

impl View for Node {
    type V = SNode;

    open spec fn view(&self) -> SNode {
        self.view_node()
    }
}

} // verus!
