use vstd::prelude::*;

use crate::parse::ast::{arrays_view, Node, NodeKind, SKind, SNode};

verus! {

/// A type as the compiler sees it.
#[derive(Debug, PartialEq, Eq)]
pub struct SeaType {
    pub pointers: u8,
    pub name: String,
    pub arrays: Vec<(Option<usize>, Option<String>)>,
    pub funptr_args: Option<Vec<SeaType>>,
    pub funptr_rets: Option<Box<SeaType>>,
}

/// The mathematical value of a type.
pub struct SType {
    pub pointers: u8,
    pub name: Seq<char>,
    pub arrays: Seq<(Option<usize>, Option<Seq<char>>)>,
    pub funptr_args: Option<Seq<SType>>,
    pub funptr_rets: Option<Box<SType>>,
}

pub open spec fn types_view(s: Seq<SeaType>) -> Seq<SType>
    decreases s,
{
    if s.len() == 0 {
        Seq::empty()
    } else {
        types_view(s.subrange(0, s.len() - 1)).push(s[s.len() - 1].view_type())
    }
}

impl SeaType {
    pub open spec fn view_type(&self) -> SType
        decreases self,
    {
        SType {
            pointers: self.pointers,
            name: self.name@,
            arrays: arrays_view(self.arrays@),
            funptr_args: match self.funptr_args {
                Some(v) => Some(types_view(v@)),
                None => None,
            },
            funptr_rets: match self.funptr_rets {
                Some(b) => Some(Box::new(b.view_type())),
                None => None,
            },
        }
    }
}

impl View for SeaType {
    type V = SType;

    open spec fn view(&self) -> SType {
        self.view_type()
    }
}

/// A type with a name and nothing else.
pub open spec fn named(name: Seq<char>) -> SType {
    SType { pointers: 0, name, arrays: Seq::empty(), funptr_args: None, funptr_rets: None }
}

/// Whether a node is a type whose function pointer parts are types too.
pub open spec fn is_type_tree(n: SNode) -> bool
    decreases n,
{
    match n.node {
        SKind::Type { funptr_args, funptr_rets, .. } => {
            &&& (funptr_args matches Some(v) ==> forall|i: int|
                0 <= i < v.len() ==> is_type_tree(#[trigger] v[i]))
            &&& (funptr_rets matches Some(b) ==> is_type_tree(*b))
        },
        _ => false,
    }
}

/// The type that a type node stands for.
pub open spec fn stype_of(n: SNode) -> SType
    decreases n,
{
    match n.node {
        SKind::Type { pointers, name, arrays, funptr_args, funptr_rets } => SType {
            pointers,
            name,
            arrays,
            funptr_args: match funptr_args {
                Some(v) => Some(stypes_of(v)),
                None => None,
            },
            funptr_rets: match funptr_rets {
                Some(b) => Some(Box::new(stype_of(*b))),
                None => None,
            },
        },
        _ => named(Seq::empty()),
    }
}

pub open spec fn stypes_of(v: Seq<SNode>) -> Seq<SType>
    decreases v,
{
    if v.len() == 0 {
        Seq::empty()
    } else {
        stypes_of(v.subrange(0, v.len() - 1)).push(stype_of(v[v.len() - 1]))
    }
}

pub proof fn lemma_types_view_push(s: Seq<SeaType>, t: SeaType)
    ensures
        types_view(s.push(t)) == types_view(s).push(t@),
{
    assert(s.push(t).subrange(0, s.len() as int) =~= s);
}

pub proof fn lemma_stypes_of_push(v: Seq<SNode>, i: int)
    requires
        0 <= i < v.len(),
    ensures
        stypes_of(v.take(i + 1)) == stypes_of(v.take(i)).push(stype_of(v[i])),
{
    assert(v.take(i + 1).subrange(0, i) =~= v.take(i));
}

/// A copy of array suffixes.
fn copy_arrays(a: &Vec<(Option<usize>, Option<String>)>) -> (r: Vec<(Option<usize>, Option<String>)>)
    ensures
        arrays_view(r@) == arrays_view(a@),
{
    let mut r: Vec<(Option<usize>, Option<String>)> = Vec::new();
    let mut i: usize = 0;
    while i < a.len()
        invariant
            i <= a.len(),
            arrays_view(r@) == arrays_view(a@.take(i as int)),
        decreases a.len() - i,
    {
        let e = (
            a[i].0,
            match &a[i].1 {
                Some(s) => Some(s.clone()),
                None => None,
            },
        );
        proof {
            crate::parse::ast::lemma_arrays_view_push(r@, e);
            crate::parse::ast::lemma_arrays_view_push(a@.take(i as int), a@[i as int]);
            assert(a@.take(i + 1) =~= a@.take(i as int).push(a@[i as int]));
        }
        r.push(e);
        i = i + 1;
    }
    proof {
        assert(a@.take(i as int) =~= a@);
    }
    r
}

impl SeaType {
    /// A copy of this type.
    #[verifier::loop_isolation(false)]
    pub fn duplicate(&self) -> (r: SeaType)
        ensures
            r@ == self@,
        decreases self,
    {
        let funptr_args = match &self.funptr_args {
            Some(v) => {
                let mut out: Vec<SeaType> = Vec::new();
                let mut i: usize = 0;
                while i < v.len()
                    invariant
                        i <= v.len(),
                        types_view(out@) == types_view(v@.take(i as int)),
                    decreases v.len() - i,
                {
                    proof {
                        assert(v@.take(i + 1).subrange(0, i as int) =~= v@.take(i as int));
                        assert(decreases_to!(self => v@[i as int]));
                    }
                    let t = v[i].duplicate();
                    proof {
                        lemma_types_view_push(out@, t);
                    }
                    out.push(t);
                    i = i + 1;
                }
                proof {
                    assert(v@.take(i as int) =~= v@);
                }
                Some(out)
            },
            None => None,
        };
        let funptr_rets = match &self.funptr_rets {
            Some(b) => Some(Box::new(b.duplicate())),
            None => None,
        };
        SeaType {
            pointers: self.pointers,
            name: self.name.clone(),
            arrays: copy_arrays(&self.arrays),
            funptr_args,
            funptr_rets,
        }
    }

    /// The type that a type node stands for; `None` for other nodes.
    pub fn from_node(node: Node) -> (r: Option<SeaType>)
        requires
            node@.node is Type ==> is_type_tree(node@),
        ensures
            r is Some <==> node@.node is Type,
            r is Some ==> r->0@ == stype_of(node@),
    {
        match node.node {
            NodeKind::Type { .. } => Some(SeaType::of_type_node(&node)),
            _ => None,
        }
    }

    /// The type that a type node stands for.
    #[verifier::loop_isolation(false)]
    pub fn of_type_node(node: &Node) -> (r: SeaType)
        requires
            is_type_tree(node@),
        ensures
            r@ == stype_of(node@),
        decreases node,
    {
        match &node.node {
            NodeKind::Type { pointers, name, arrays, funptr_args, funptr_rets } => {
                let args = match funptr_args {
                    Some(v) => {
                        let mut out: Vec<SeaType> = Vec::new();
                        let mut i: usize = 0;
                        let ghost sv = super::super::parse::ast::nodes_view(v@);
                        proof {
                            super::super::parse::ast::lemma_nodes_view_len(v@);
                        }
                        while i < v.len()
                            invariant
                                i <= v.len(),
                                node@.node is Type,
                                node@.node->funptr_args == Some(sv),
                                sv == super::super::parse::ast::nodes_view(v@),
                                sv.len() == v.len(),
                                is_type_tree(node@),
                                types_view(out@) == stypes_of(sv.take(i as int)),
                            decreases v.len() - i,
                        {
                            proof {
                                lemma_stypes_of_push(sv, i as int);
                                super::super::parse::ast::lemma_nodes_view_index(v@, i as int);
                                assert(is_type_tree(sv[i as int]));
                                assert(decreases_to!(node => v@[i as int]));
                            }
                            let t = SeaType::of_type_node(&v[i]);
                            proof {
                                lemma_types_view_push(out@, t);
                            }
                            out.push(t);
                            i = i + 1;
                        }
                        proof {
                            assert(sv.take(i as int) =~= sv);
                        }
                        Some(out)
                    },
                    None => None,
                };
                let rets = match funptr_rets {
                    Some(b) => Some(Box::new(SeaType::of_type_node(b))),
                    None => None,
                };
                SeaType {
                    pointers: *pointers,
                    name: name.clone(),
                    arrays: copy_arrays(arrays),
                    funptr_args: args,
                    funptr_rets: rets,
                }
            },
            _ => SeaType::named_type(""),
        }
    }

    /// A type with a name and nothing else.
    pub fn named_type(name: &str) -> (r: SeaType)
        ensures
            r@ == named(name@),
    {
        let r = SeaType {
            pointers: 0,
            name: name.to_owned(),
            arrays: Vec::new(),
            funptr_args: None,
            funptr_rets: None,
        };
        proof {
            assert(arrays_view(r.arrays@) =~= Seq::empty());
        }
        r
    }

    /// A pointer to this type.
    pub fn pointer(&self) -> (r: SeaType)
        requires
            self.pointers < 255,
        ensures
            r@ == (SType { pointers: (self.pointers + 1) as u8, ..self@ }),
    {
        let mut r = self.duplicate();
        r.pointers = self.pointers + 1;
        r
    }

    /// The type this pointer type points to.
    pub fn unpointer(&self) -> (r: SeaType)
        requires
            self.pointers > 0,
        ensures
            r@ == (SType { pointers: (self.pointers - 1) as u8, ..self@ }),
    {
        let mut r = self.duplicate();
        r.pointers = self.pointers - 1;
        r
    }

    /// An array of this type, of unknown size.
    pub fn array(&self) -> (r: SeaType)
        ensures
            r@ == (SType { arrays: self@.arrays.push((None, None)), ..self@ }),
    {
        let mut r = self.duplicate();
        proof {
            crate::parse::ast::lemma_arrays_view_push(r.arrays@, (None, None));
        }
        r.arrays.push((None, None));
        r
    }

    /// An array of `size` elements of this type.
    pub fn array_of_size(&self, size: usize) -> (r: SeaType)
        ensures
            r@ == (SType { arrays: self@.arrays.push((Some(size), None)), ..self@ }),
    {
        let mut r = self.duplicate();
        proof {
            crate::parse::ast::lemma_arrays_view_push(r.arrays@, (Some(size), None));
        }
        r.arrays.push((Some(size), None));
        r
    }
}

} // verus!
