use vstd::prelude::*;

use crate::text::{chars_of, push_char};

use super::ast::{lemma_nodes_view_index, lemma_nodes_view_len, nodes_view, Node, NodeKind, SKind, SNode};
use super::operator::OperatorKind;

verus! {

/// An operator expression written in Polish notation, for debugging.
#[derive(Debug)]
pub enum PolishNodeTree {
    Leaf(String),
    Branch(String, Vec<PolishNodeTree>),
}

/// The mathematical value of a tree.
pub enum PTree {
    Leaf(Seq<char>),
    Branch(Seq<char>, Seq<PTree>),
}

pub open spec fn trees_view(s: Seq<PolishNodeTree>) -> Seq<PTree>
    decreases s,
{
    if s.len() == 0 {
        Seq::empty()
    } else {
        trees_view(s.subrange(0, s.len() - 1)).push(s[s.len() - 1].view_tree())
    }
}

impl PolishNodeTree {
    pub open spec fn view_tree(&self) -> PTree
        decreases self,
    {
        match self {
            PolishNodeTree::Leaf(v) => PTree::Leaf(v@),
            PolishNodeTree::Branch(t, c) => PTree::Branch(t@, trees_view(c@)),
        }
    }
}

impl View for PolishNodeTree {
    type V = PTree;

    open spec fn view(&self) -> PTree {
        self.view_tree()
    }
}

pub proof fn lemma_trees_view_push(s: Seq<PolishNodeTree>, t: PolishNodeTree)
    ensures
        trees_view(s.push(t)) == trees_view(s).push(t@),
{
    assert(s.push(t).subrange(0, s.len() as int) =~= s);
}

pub open spec fn reset() -> Seq<char> {
    seq!['\x1b', '[', '0', 'm']
}

pub open spec fn name_color() -> Seq<char> {
    seq!['\x1b', '[', '3', '4', 'm']
}

pub open spec fn value_color() -> Seq<char> {
    seq!['\x1b', '[', '3', '1', 'm']
}

/// The text of a tree: a coloured value, or `(name child ...)`.
pub open spec fn ptree_text(t: PTree) -> Seq<char>
    decreases t,
{
    match t {
        PTree::Leaf(v) => value_color() + v + reset(),
        PTree::Branch(name, children) => seq!['('] + name_color() + name + reset() + children_text(
            children,
        ) + seq![')'],
    }
}

/// Each child's text, after a space.
pub open spec fn children_text(c: Seq<PTree>) -> Seq<char>
    decreases c,
{
    if c.len() == 0 {
        Seq::empty()
    } else {
        children_text(c.subrange(0, c.len() - 1)) + seq![' '] + ptree_text(c[c.len() - 1])
    }
}

/// The name of a unary operator in the notation.
pub open spec fn unary_name(k: OperatorKind) -> Option<Seq<char>> {
    match k {
        OperatorKind::Ref => Some("ref"@),
        OperatorKind::Deref => Some("deref"@),
        OperatorKind::Not => Some("not"@),
        OperatorKind::Inc => Some("inc"@),
        OperatorKind::Dec => Some("dec"@),
        OperatorKind::Negate => Some("negate"@),
        _ => None,
    }
}

/// The name of a binary operator in the notation.
pub open spec fn binary_name(k: OperatorKind) -> Option<Seq<char>> {
    match k {
        OperatorKind::Dot => Some("."@),
        OperatorKind::As => Some("as"@),
        OperatorKind::Assign => Some("="@),
        OperatorKind::And => Some("and"@),
        OperatorKind::Or => Some("or"@),
        OperatorKind::Eq => Some("=="@),
        OperatorKind::Neq => Some("!="@),
        OperatorKind::Gt => Some(">"@),
        OperatorKind::GtEq => Some(">="@),
        OperatorKind::Lt => Some("<"@),
        OperatorKind::LtEq => Some("<="@),
        OperatorKind::Add => Some("+"@),
        OperatorKind::Sub => Some("-"@),
        OperatorKind::Mul => Some("*"@),
        OperatorKind::Div => Some("/"@),
        OperatorKind::Mod => Some("%"@),
        _ => None,
    }
}

/// The tree of an expression; `None` for what the notation has no form for.
pub open spec fn polish(n: SNode) -> Option<PTree>
    decreases n,
{
    match n.node {
        SKind::ExprGroup(b) => match polish(*b) {
            Some(t) => Some(PTree::Branch("group"@, seq![t])),
            None => None,
        },
        SKind::ExprNumber(v) => Some(PTree::Leaf(v)),
        SKind::ExprString(v) => Some(PTree::Leaf(v)),
        SKind::ExprChar(v) => Some(PTree::Leaf(v)),
        SKind::ExprTrue => Some(PTree::Leaf("true"@)),
        SKind::ExprFalse => Some(PTree::Leaf("false"@)),
        SKind::ExprIdentifier(v) => Some(PTree::Leaf(v)),
        SKind::ExprBlock(_) => Some(PTree::Leaf("block"@)),
        SKind::ExprNew { id, params } => match polish_all(params) {
            Some(v) => Some(PTree::Branch("new"@, seq![PTree::Leaf(id)] + v)),
            None => None,
        },
        SKind::ExprUnaryOperator { kind, value } => match (unary_name(kind), polish(*value)) {
            (Some(name), Some(t)) => Some(PTree::Branch(name, seq![t])),
            _ => None,
        },
        SKind::ExprBinaryOperator { kind, left, right } => match (
            binary_name(kind),
            polish(*left),
            polish(*right),
        ) {
            (Some(name), Some(l), Some(r)) => Some(PTree::Branch(name, seq![l, r])),
            _ => None,
        },
        SKind::ExprInvoke { left, params } => match (polish(*left), polish_all(params)) {
            (Some(l), Some(v)) => Some(PTree::Branch("invoke="@ + ptree_text(l), v)),
            _ => None,
        },
        SKind::ExprMacInvoke { name, params } => match polish_all(params) {
            Some(v) => Some(PTree::Branch("macinvoke="@ + name, v)),
            None => None,
        },
        SKind::ExprList(nodes) => match polish_all(nodes) {
            Some(v) => Some(PTree::Branch("list"@, v)),
            None => None,
        },
        SKind::ExprVar { name, value, .. } => match polish(*value) {
            Some(t) => Some(PTree::Branch("var"@, seq![PTree::Leaf(name), t])),
            None => None,
        },
        SKind::ExprLet { name, value, .. } => match polish(*value) {
            Some(t) => Some(PTree::Branch("let"@, seq![PTree::Leaf(name), t])),
            None => None,
        },
        _ => None,
    }
}

/// The trees of all expressions, if each has one.
pub open spec fn polish_all(ns: Seq<SNode>) -> Option<Seq<PTree>>
    decreases ns,
{
    if ns.len() == 0 {
        Some(Seq::empty())
    } else {
        match (polish_all(ns.subrange(0, ns.len() - 1)), polish(ns[ns.len() - 1])) {
            (Some(v), Some(t)) => Some(v.push(t)),
            _ => None,
        }
    }
}

/// The expressions that the conversion finishes on: wherever a part must have a
/// tree (the conversion stops otherwise), it has one.
pub open spec fn polish_defined(n: SNode) -> bool
    decreases n,
{
    match n.node {
        SKind::ExprGroup(b) => polish(*b) is Some && polish_defined(*b),
        SKind::ExprNew { params, .. } => polish_all(params) is Some && all_defined(params),
        SKind::ExprUnaryOperator { kind, value } => unary_name(kind) is Some ==> (polish(*value)
            is Some && polish_defined(*value)),
        SKind::ExprBinaryOperator { kind, left, right } => binary_name(kind) is Some ==> (polish(
            *left,
        ) is Some && polish_defined(*left) && polish(*right) is Some && polish_defined(*right)),
        SKind::ExprInvoke { left, params } => polish(*left) is Some && polish_defined(*left)
            && polish_all(params) is Some && all_defined(params),
        SKind::ExprMacInvoke { params, .. } => polish_all(params) is Some && all_defined(params),
        SKind::ExprList(nodes) => polish_all(nodes) is Some && all_defined(nodes),
        SKind::ExprVar { value, .. } => polish(*value) is Some && polish_defined(*value),
        SKind::ExprLet { value, .. } => polish(*value) is Some && polish_defined(*value),
        _ => true,
    }
}

/// The conversion of a list finishes: each expression before the first one without
/// a tree is one the conversion finishes on.
pub open spec fn all_defined(ns: Seq<SNode>) -> bool
    decreases ns,
{
    if ns.len() == 0 {
        true
    } else {
        all_defined(ns.subrange(0, ns.len() - 1)) && (polish_all(ns.subrange(0, ns.len() - 1))
            is Some ==> polish_defined(ns[ns.len() - 1]))
    }
}

pub open spec fn tree_out(r: Option<PolishNodeTree>) -> Option<PTree> {
    match r {
        Some(t) => Some(t@),
        None => None,
    }
}

pub open spec fn trees_out(r: Option<Vec<PolishNodeTree>>) -> Option<Seq<PTree>> {
    match r {
        Some(v) => Some(trees_view(v@)),
        None => None,
    }
}

fn append_str(s: &mut String, t: &str)
    ensures
        final(s)@ == old(s)@ + t@,
{
    let cs = chars_of(t);
    let mut i: usize = 0;
    while i < cs.len()
        invariant
            i <= cs.len(),
            cs@ == t@,
            s@ == old(s)@ + t@.take(i as int),
        decreases cs.len() - i,
    {
        push_char(s, cs[i]);
        proof {
            assert(t@.take(i + 1) =~= t@.take(i as int).push(cs@[i as int]));
        }
        i = i + 1;
    }
    proof {
        assert(t@.take(i as int) =~= t@);
    }
}

fn text(t: &str) -> (r: String)
    ensures
        r@ == t@,
{
    t.to_owned()
}

fn unary_text(k: OperatorKind) -> (r: Option<&'static str>)
    ensures
        match r {
            Some(s) => unary_name(k) == Some(s@),
            None => unary_name(k) is None,
        },
{
    match k {
        OperatorKind::Ref => Some("ref"),
        OperatorKind::Deref => Some("deref"),
        OperatorKind::Not => Some("not"),
        OperatorKind::Inc => Some("inc"),
        OperatorKind::Dec => Some("dec"),
        OperatorKind::Negate => Some("negate"),
        _ => None,
    }
}

fn binary_text(k: OperatorKind) -> (r: Option<&'static str>)
    ensures
        match r {
            Some(s) => binary_name(k) == Some(s@),
            None => binary_name(k) is None,
        },
{
    match k {
        OperatorKind::Dot => Some("."),
        OperatorKind::As => Some("as"),
        OperatorKind::Assign => Some("="),
        OperatorKind::And => Some("and"),
        OperatorKind::Or => Some("or"),
        OperatorKind::Eq => Some("=="),
        OperatorKind::Neq => Some("!="),
        OperatorKind::Gt => Some(">"),
        OperatorKind::GtEq => Some(">="),
        OperatorKind::Lt => Some("<"),
        OperatorKind::LtEq => Some("<="),
        OperatorKind::Add => Some("+"),
        OperatorKind::Sub => Some("-"),
        OperatorKind::Mul => Some("*"),
        OperatorKind::Div => Some("/"),
        OperatorKind::Mod => Some("%"),
        _ => None,
    }
}

fn one_tree(t: PolishNodeTree) -> (r: Vec<PolishNodeTree>)
    ensures
        trees_view(r@) == seq![t@],
{
    let mut v = Vec::new();
    proof {
        lemma_trees_view_push(v@, t);
        assert(trees_view(v@) =~= Seq::<PTree>::empty());
    }
    v.push(t);
    proof {
        assert(seq![t@] =~= Seq::<PTree>::empty().push(t@));
    }
    v
}

fn two_trees(a: PolishNodeTree, b: PolishNodeTree) -> (r: Vec<PolishNodeTree>)
    ensures
        trees_view(r@) == seq![a@, b@],
{
    let mut v = one_tree(a);
    proof {
        lemma_trees_view_push(v@, b);
    }
    v.push(b);
    proof {
        assert(seq![a@, b@] =~= seq![a@].push(b@));
    }
    v
}

impl PolishNodeTree {
    /// The trees of all expressions, if each has one.
    pub fn from_node_vec(nodes: Vec<Node>) -> (r: Option<Vec<PolishNodeTree>>)
        requires
            all_defined(nodes_view(nodes@)),
        ensures
            trees_out(r) == polish_all(nodes_view(nodes@)),
    {
        Self::of_nodes(&nodes)
    }

    /// The tree of an expression; `None` for what the notation has no form for.
    pub fn from_node(node: Node) -> (r: Option<PolishNodeTree>)
        requires
            polish_defined(node@),
        ensures
            tree_out(r) == polish(node@),
    {
        Self::of_node(&node)
    }

    fn of_nodes(nodes: &Vec<Node>) -> (r: Option<Vec<PolishNodeTree>>)
        requires
            all_defined(nodes_view(nodes@)),
        ensures
            trees_out(r) == polish_all(nodes_view(nodes@)),
        decreases nodes@, 0nat,
    {
        let ghost ns = nodes_view(nodes@);
        proof {
            lemma_nodes_view_len(nodes@);
        }
        let mut out: Vec<PolishNodeTree> = Vec::new();
        let mut i: usize = 0;
        proof {
            assert(ns.subrange(0, 0) =~= Seq::<SNode>::empty());
            assert(trees_view(out@) =~= Seq::<PTree>::empty());
        }
        while i < nodes.len()
            invariant
                i <= nodes.len(),
                ns == nodes_view(nodes@),
                ns.len() == nodes.len(),
                all_defined(ns),
                polish_all(ns.subrange(0, i as int)) == Some(trees_view(out@)),
            decreases nodes.len() - i,
        {
            proof {
                lemma_nodes_view_index(nodes@, i as int);
                assert(ns.subrange(0, i + 1).subrange(0, i as int) =~= ns.subrange(0, i as int));
                assert(ns.subrange(0, i + 1)[i as int] == ns[i as int]);
                lemma_all_defined_prefix(ns, i + 1);
                assert(decreases_to!(nodes@ => nodes@[i as int]));
            }
            match Self::of_node(&nodes[i]) {
                Some(t) => {
                    proof {
                        lemma_trees_view_push(out@, t);
                    }
                    out.push(t);
                },
                None => {
                    proof {
                        lemma_polish_all_none(ns, i + 1);
                    }
                    return None;
                },
            }
            i = i + 1;
        }
        proof {
            assert(ns.subrange(0, i as int) =~= ns);
        }
        Some(out)
    }

    fn of_node(node: &Node) -> (r: Option<PolishNodeTree>)
        requires
            polish_defined(node@),
        ensures
            tree_out(r) == polish(node@),
        decreases node, 1nat,
    {
        match &node.node {
            NodeKind::ExprGroup(inner) => match Self::of_node(inner) {
                Some(t) => {
                    Some(PolishNodeTree::Branch(text("group"), one_tree(t)))
                },
                None => None,
            },
            NodeKind::ExprNumber(v) => Some(PolishNodeTree::Leaf(v.clone())),
            NodeKind::ExprString(v) => Some(PolishNodeTree::Leaf(v.clone())),
            NodeKind::ExprChar(v) => Some(PolishNodeTree::Leaf(v.clone())),
            NodeKind::ExprTrue => Some(PolishNodeTree::Leaf(text("true"))),
            NodeKind::ExprFalse => Some(PolishNodeTree::Leaf(text("false"))),
            NodeKind::ExprIdentifier(v) => Some(PolishNodeTree::Leaf(v.clone())),
            NodeKind::ExprBlock(_) => Some(PolishNodeTree::Leaf(text("block"))),
            NodeKind::ExprNew { id, params } => match Self::of_nodes(params) {
                Some(v) => {
                    let mut nodes = v;
                    let ghost before = trees_view(nodes@);
                    nodes.insert(0, PolishNodeTree::Leaf(id.clone()));
                    proof {
                        lemma_trees_view_prepend(nodes@);
                        assert(nodes@.subrange(1, nodes@.len() as int) =~= v@);
                    }
                    Some(PolishNodeTree::Branch(text("new"), nodes))
                },
                None => None,
            },
            NodeKind::ExprUnaryOperator { kind, value } => match unary_text(*kind) {
                Some(name) => match Self::of_node(value) {
                    Some(t) => {
                        Some(PolishNodeTree::Branch(text(name), one_tree(t)))
                    },
                    None => None,
                },
                None => None,
            },
            NodeKind::ExprBinaryOperator { kind, left, right } => match binary_text(*kind) {
                Some(name) => {
                    let l = Self::of_node(left);
                    let r = Self::of_node(right);
                    match (l, r) {
                        (Some(l), Some(r)) => {
                            Some(PolishNodeTree::Branch(text(name), two_trees(l, r)))
                        },
                        _ => None,
                    }
                },
                None => None,
            },
            NodeKind::ExprInvoke { left, params } => {
                let l = Self::of_node(left);
                match l {
                    Some(l) => match Self::of_nodes(params) {
                        Some(v) => {
                            let mut name = text("invoke=");
                            let lt = l.to_string();
                            append_str(&mut name, lt.as_str());
                            Some(PolishNodeTree::Branch(name, v))
                        },
                        None => None,
                    },
                    None => None,
                }
            },
            NodeKind::ExprMacInvoke { name, params } => match Self::of_nodes(params) {
                Some(v) => {
                    let mut t = text("macinvoke=");
                    append_str(&mut t, name.as_str());
                    Some(PolishNodeTree::Branch(t, v))
                },
                None => None,
            },
            NodeKind::ExprList(nodes) => match Self::of_nodes(nodes) {
                Some(v) => Some(PolishNodeTree::Branch(text("list"), v)),
                None => None,
            },
            NodeKind::ExprVar { name, value, .. } => match Self::of_node(value) {
                Some(t) => {
                    Some(
                        PolishNodeTree::Branch(
                            text("var"),
                            two_trees(PolishNodeTree::Leaf(name.clone()), t),
                        ),
                    )
                },
                None => None,
            },
            NodeKind::ExprLet { name, value, .. } => match Self::of_node(value) {
                Some(t) => {
                    Some(
                        PolishNodeTree::Branch(
                            text("let"),
                            two_trees(PolishNodeTree::Leaf(name.clone()), t),
                        ),
                    )
                },
                None => None,
            },
            _ => None,
        }
    }

    /// The text of the tree: a coloured value, or `(name child ...)`.
    #[verifier::loop_isolation(false)]
    pub fn to_string(&self) -> (r: String)
        ensures
            r@ == ptree_text(self@),
        decreases self,
    {
        match self {
            PolishNodeTree::Leaf(v) => {
                let mut s = text("\x1b[31m");
                append_str(&mut s, v.as_str());
                append_str(&mut s, "\x1b[0m");
                proof {
                    reveal_strlit("\x1b[31m");
                    reveal_strlit("\x1b[0m");
                    assert(s@ =~= ptree_text(self@));
                }
                s
            },
            PolishNodeTree::Branch(name, children) => {
                let mut s = text("(");
                append_str(&mut s, "\x1b[34m");
                append_str(&mut s, name.as_str());
                append_str(&mut s, "\x1b[0m");
                let ghost head = s@;
                let mut i: usize = 0;
                proof {
                    assert(children@.subrange(0, 0) =~= Seq::<PolishNodeTree>::empty());
                    assert(trees_view(children@.subrange(0, 0)) =~= Seq::<PTree>::empty());
                    assert(s@ =~= head + children_text(trees_view(children@.subrange(0, 0))));
                }
                while i < children.len()
                    invariant
                        i <= children.len(),
                        s@ == head + children_text(trees_view(children@.subrange(0, i as int))),
                    decreases children.len() - i,
                {
                    proof {
                        assert(decreases_to!(self => children@[i as int]));
                        lemma_trees_view_push(children@.subrange(0, i as int), children@[i as int]);
                        assert(children@.subrange(0, i + 1) =~= children@.subrange(0, i as int).push(
                            children@[i as int],
                        ));
                        let tv = trees_view(children@.subrange(0, i + 1));
                        assert(tv.subrange(0, tv.len() - 1) =~= trees_view(
                            children@.subrange(0, i as int),
                        ));
                    }
                    push_char(&mut s, ' ');
                    let c = children[i].to_string();
                    append_str(&mut s, c.as_str());
                    i = i + 1;
                }
                push_char(&mut s, ')');
                proof {
                    reveal_strlit("(");
                    reveal_strlit("\x1b[34m");
                    reveal_strlit("\x1b[0m");
                    assert(children@.subrange(0, i as int) =~= children@);
                    assert(s@ =~= ptree_text(self@));
                }
                s
            },
        }
    }
}

proof fn lemma_trees_view_prepend(s: Seq<PolishNodeTree>)
    requires
        s.len() > 0,
    ensures
        trees_view(s) == seq![s[0]@] + trees_view(s.subrange(1, s.len() as int)),
    decreases s.len(),
{
    if s.len() > 1 {
        let p = s.subrange(0, s.len() - 1);
        lemma_trees_view_prepend(p);
        assert(p.subrange(1, p.len() as int) =~= s.subrange(1, s.len() as int).subrange(
            0,
            s.len() - 2,
        ));
        assert(s.subrange(1, s.len() as int)[s.len() - 2] == s[s.len() - 1]);
    } else {
        assert(s.subrange(1, s.len() as int) =~= Seq::<PolishNodeTree>::empty());
        assert(s.subrange(0, 0) =~= Seq::<PolishNodeTree>::empty());
    }
}

proof fn lemma_all_defined_prefix(ns: Seq<SNode>, j: int)
    requires
        0 <= j <= ns.len(),
        all_defined(ns),
    ensures
        all_defined(ns.subrange(0, j)),
    decreases ns.len() - j,
{
    if j < ns.len() {
        lemma_all_defined_prefix(ns, j + 1);
        assert(ns.subrange(0, j + 1).subrange(0, j) =~= ns.subrange(0, j));
    } else {
        assert(ns.subrange(0, j) =~= ns);
    }
}

proof fn lemma_polish_all_none(ns: Seq<SNode>, j: int)
    requires
        0 <= j <= ns.len(),
        polish_all(ns.subrange(0, j)) is None,
    ensures
        polish_all(ns) is None,
    decreases ns.len() - j,
{
    if j < ns.len() {
        assert(ns.subrange(0, j + 1).subrange(0, j) =~= ns.subrange(0, j));
        lemma_polish_all_none(ns, j + 1);
    } else {
        assert(ns.subrange(0, j) =~= ns);
    }
}

} // verus!
