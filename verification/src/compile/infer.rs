use vstd::prelude::*;

use crate::parse::ast::{Node, NodeKind, SKind, SNode};
use crate::parse::operator::OperatorKind;
use crate::text::{chars_of, push_char};

use super::symbol::{fields_view, SSymbol, Symbol, SymbolTable};
use super::type_::{is_type_tree, named, stype_of, SType, SeaType};

verus! {

/// Why the type of an expression could not be inferred.
#[derive(Debug)]
pub enum InferError {
    /// The name is declared, but not as a variable.
    NonVariableSymbol(String),
    UndefinedSymbol(String),
    BlockExpression,
    StructNotFound(String),
    /// A record (its name) without the field (its name).
    NoSuchField(String, String),
    /// The left side of `.` is neither a record nor a tagged record.
    NotAStruct,
    NotAFunctionPointer(String),
    /// The name is declared, but neither as a function nor as a variable.
    NotInvocable(String),
    NoSuchIdentifier(String),
    EmptyList,
    Uninferable,
}

pub enum SInferError {
    NonVariableSymbol(Seq<char>),
    UndefinedSymbol(Seq<char>),
    BlockExpression,
    StructNotFound(Seq<char>),
    NoSuchField(Seq<char>, Seq<char>),
    NotAStruct,
    NotAFunctionPointer(Seq<char>),
    NotInvocable(Seq<char>),
    NoSuchIdentifier(Seq<char>),
    EmptyList,
    Uninferable,
}

impl View for InferError {
    type V = SInferError;

    open spec fn view(&self) -> SInferError {
        match self {
            InferError::NonVariableSymbol(s) => SInferError::NonVariableSymbol(s@),
            InferError::UndefinedSymbol(s) => SInferError::UndefinedSymbol(s@),
            InferError::BlockExpression => SInferError::BlockExpression,
            InferError::StructNotFound(s) => SInferError::StructNotFound(s@),
            InferError::NoSuchField(a, b) => SInferError::NoSuchField(a@, b@),
            InferError::NotAStruct => SInferError::NotAStruct,
            InferError::NotAFunctionPointer(s) => SInferError::NotAFunctionPointer(s@),
            InferError::NotInvocable(s) => SInferError::NotInvocable(s@),
            InferError::NoSuchIdentifier(s) => SInferError::NoSuchIdentifier(s@),
            InferError::EmptyList => SInferError::EmptyList,
            InferError::Uninferable => SInferError::Uninferable,
        }
    }
}

pub type SymbolMap = Map<Seq<char>, (int, SSymbol)>;

/// The type of the first field named `id`.
pub open spec fn first_field(fields: Seq<(Seq<char>, SType)>, id: Seq<char>) -> Option<SType>
    decreases fields.len(),
{
    if fields.len() == 0 {
        None
    } else if fields[0].0 == id {
        Some(fields[0].1)
    } else {
        first_field(fields.drop_first(), id)
    }
}

/// The type of `.id` on a value of type `t`.
pub open spec fn dot_type(syms: SymbolMap, t: SType, id: Seq<char>) -> Result<SType, SInferError> {
    let name = t.name;
    if !syms.contains_key(name) {
        Err(SInferError::StructNotFound(name))
    } else {
        match syms[name].1 {
            SSymbol::Rec { fields, .. } => match first_field(fields, id) {
                Some(ft) => Ok(ft),
                None => Err(SInferError::NoSuchField(name, id)),
            },
            SSymbol::TagRec { .. } => Ok(named(seq!['_'] + name + seq!['_'] + id)),
            _ => Err(SInferError::NotAStruct),
        }
    }
}

/// The type of an expression, given the symbols in scope.
pub open spec fn spec_infer(syms: SymbolMap, n: SNode) -> Result<SType, SInferError>
    decreases n,
{
    match n.node {
        SKind::ExprGroup(b) => spec_infer(syms, *b),
        SKind::ExprNumber(v) => if v.contains('.') {
            Ok(named("f32"@))
        } else {
            Ok(named("i32"@))
        },
        SKind::ExprString(_) => Ok(named("String"@)),
        SKind::ExprCString(_) => Ok(SType { pointers: 1, ..named("char"@) }),
        SKind::ExprChar(_) => Ok(named("char"@)),
        SKind::ExprTrue => Ok(named("bool"@)),
        SKind::ExprFalse => Ok(named("bool"@)),
        SKind::ExprIdentifier(id) => if syms.contains_key(id) {
            match syms[id].1 {
                SSymbol::Var { typ, .. } => Ok(typ),
                _ => Err(SInferError::NonVariableSymbol(id)),
            }
        } else {
            Err(SInferError::UndefinedSymbol(id))
        },
        SKind::ExprBlock(_) => Err(SInferError::BlockExpression),
        SKind::ExprNew { id, .. } => Ok(named(id)),
        SKind::ExprUnaryOperator { kind, value } => match spec_infer(syms, *value) {
            Err(e) => Err(e),
            Ok(t) => if kind == OperatorKind::Ref {
                Ok(SType { pointers: (t.pointers + 1) as u8, ..t })
            } else if kind == OperatorKind::Deref {
                Ok(SType { pointers: (t.pointers - 1) as u8, ..t })
            } else {
                Ok(t)
            },
        },
        SKind::ExprBinaryOperator { kind, left, right } => if kind == OperatorKind::Dot {
            match spec_infer(syms, *left) {
                Err(e) => Err(e),
                Ok(t) => dot_type(syms, t, right.node->ExprIdentifier_0),
            }
        } else if kind == OperatorKind::As {
            Ok(stype_of(*right))
        } else if kind == OperatorKind::Assign {
            spec_infer(syms, *right)
        } else {
            spec_infer(syms, *left)
        },
        SKind::ExprInvoke { left, .. } => {
            let id = left.node->ExprIdentifier_0;
            if syms.contains_key(id) {
                match syms[id].1 {
                    SSymbol::Fun { rets, .. } => Ok(rets),
                    SSymbol::Var { typ, .. } => match typ.funptr_rets {
                        Some(r) => Ok(*r),
                        None => Err(SInferError::NotAFunctionPointer(id)),
                    },
                    _ => Err(SInferError::NotInvocable(id)),
                }
            } else {
                Err(SInferError::NoSuchIdentifier(id))
            }
        },
        SKind::ExprList(nodes) => if nodes.len() == 0 {
            Err(SInferError::EmptyList)
        } else {
            match spec_infer(syms, nodes[0]) {
                Err(e) => Err(e),
                Ok(t) => Ok(SType { arrays: t.arrays.push((None, None)), ..t }),
            }
        },
        _ => Err(SInferError::Uninferable),
    }
}

/// The expressions whose type inference runs to its end: no pointer count leaves
/// `u8`, the right side of `.` is a name, the right side of `as` a type, the callee
/// of a call a name, and no `var` or `let` is asked for.
pub open spec fn infer_defined(syms: SymbolMap, n: SNode) -> bool
    decreases n,
{
    match n.node {
        SKind::ExprGroup(b) => infer_defined(syms, *b),
        SKind::ExprUnaryOperator { kind, value } => {
            &&& infer_defined(syms, *value)
            &&& (spec_infer(syms, *value) matches Ok(t) ==> (kind == OperatorKind::Ref
                ==> t.pointers < 255) && (kind == OperatorKind::Deref ==> t.pointers > 0))
        },
        SKind::ExprBinaryOperator { kind, left, right } => if kind == OperatorKind::Dot {
            right.node is ExprIdentifier && infer_defined(syms, *left)
        } else if kind == OperatorKind::As {
            right.node is Type && is_type_tree(*right)
        } else if kind == OperatorKind::Assign {
            infer_defined(syms, *right)
        } else {
            infer_defined(syms, *left)
        },
        SKind::ExprInvoke { left, .. } => left.node is ExprIdentifier,
        SKind::ExprList(nodes) => nodes.len() > 0 ==> infer_defined(syms, nodes[0]),
        SKind::ExprVar { .. } => false,
        SKind::ExprLet { .. } => false,
        _ => true,
    }
}

pub open spec fn infer_out(r: Result<SeaType, InferError>) -> Result<SType, SInferError> {
    match r {
        Ok(t) => Ok(t@),
        Err(e) => Err(e@),
    }
}

fn append(s: &mut String, t: &String)
    ensures
        final(s)@ == old(s)@ + t@,
{
    let cs = chars_of(t.as_str());
    let mut i: usize = 0;
    while i < cs.len()
        invariant
            i <= cs.len(),
            cs@ == t@,
            s@ == old(s)@ + t@.take(i as int),
        decreases cs.len() - i,
    {
        push_char(s, cs[i]);
        proof {
            assert(t@.take(i + 1) =~= t@.take(i as int).push(cs@[i as int]));
        }
        i = i + 1;
    }
    proof {
        assert(t@.take(i as int) =~= t@);
    }
}

fn contains_dot(s: &String) -> (r: bool)
    ensures
        r == s@.contains('.'),
{
    let cs = chars_of(s.as_str());
    let mut i: usize = 0;
    while i < cs.len()
        invariant
            i <= cs.len(),
            cs@ == s@,
            forall|j: int| 0 <= j < i ==> cs@[j] != '.',
        decreases cs.len() - i,
    {
        if cs[i] == '.' {
            assert(s@[i as int] == '.');
            return true;
        }
        i = i + 1;
    }
    false
}

/// The type of `.id` on a value of type `t`.
#[verifier::loop_isolation(false)]
fn dot_type_of(symbols: &SymbolTable, t: &SeaType, id: &String) -> (r: Result<SeaType, InferError>)
    requires
        symbols.wf(),
    ensures
        infer_out(r) == dot_type(symbols@, t@, id@),
{
    match symbols.get_symbol(t.name.clone()) {
        None => Err(InferError::StructNotFound(t.name.clone())),
        Some(Symbol::Rec { fields, .. }) => {
            let ghost fv = fields_view(fields@);
            let mut i: usize = 0;
            assert(fv.skip(0) =~= fv);
            while i < fields.len()
                invariant
                    i <= fields.len(),
                    fv == fields_view(fields@),
                    first_field(fv, id@) == first_field(fv.skip(i as int), id@),
                decreases fields.len() - i,
            {
                proof {
                    assert(fv.skip(i as int).drop_first() =~= fv.skip(i + 1));
                }
                if fields[i].0 == *id {
                    assert(fv.skip(i as int)[0] == fv[i as int]);
                    return Ok(fields[i].1.duplicate());
                }
                i = i + 1;
            }
            Err(InferError::NoSuchField(t.name.clone(), id.clone()))
        },
        Some(Symbol::TagRec { .. }) => {
            let mut name = String::new();
            push_char(&mut name, '_');
            append(&mut name, &t.name);
            push_char(&mut name, '_');
            append(&mut name, id);
            proof {
                assert(name@ =~= seq!['_'] + t@.name + seq!['_'] + id@);
            }
            Ok(SeaType::named_type(name.as_str()))
        },
        Some(_) => Err(InferError::NotAStruct),
    }
}

/// The type of the expression `node`, given the symbols in scope.
pub fn infer_type_of_node(symbols: &SymbolTable, node: &Node) -> (r: Result<SeaType, InferError>)
    requires
        symbols.wf(),
        infer_defined(symbols@, node@),
    ensures
        infer_out(r) == spec_infer(symbols@, node@),
    decreases node,
{
    match &node.node {
        NodeKind::ExprGroup(inner) => {
            let r = infer_type_of_node(symbols, inner);
            assert(infer_out(r) == spec_infer(symbols@, node@));
            r
        },
        NodeKind::ExprNumber(value) => {
            let r = if contains_dot(value) {
                Ok(SeaType::named_type("f32"))
            } else {
                Ok(SeaType::named_type("i32"))
            };
            assert(infer_out(r) == spec_infer(symbols@, node@));
            r
        },
        NodeKind::ExprString(_) => {
            let r = Ok(SeaType::named_type("String"));
            assert(infer_out(r) == spec_infer(symbols@, node@));
            r
        },
        NodeKind::ExprCString(_) => {
            let r = Ok(SeaType::named_type("char").pointer());
            assert(infer_out(r) == spec_infer(symbols@, node@));
            r
        },
        NodeKind::ExprChar(_) => Ok(SeaType::named_type("char")),
        NodeKind::ExprTrue => Ok(SeaType::named_type("bool")),
        NodeKind::ExprFalse => Ok(SeaType::named_type("bool")),
        NodeKind::ExprIdentifier(id) => {
            let r = match symbols.get_symbol(id.clone()) {
                Some(Symbol::Var { typ, .. }) => Ok(typ.duplicate()),
                Some(_) => Err(InferError::NonVariableSymbol(id.clone())),
                None => Err(InferError::UndefinedSymbol(id.clone())),
            };
            assert(infer_out(r) == spec_infer(symbols@, node@));
            r
        },
        NodeKind::ExprBlock(_) => Err(InferError::BlockExpression),
        NodeKind::ExprNew { id, .. } => {
            let r = Ok(SeaType::named_type(id.as_str()));
            assert(infer_out(r) == spec_infer(symbols@, node@));
            r
        },
        NodeKind::ExprUnaryOperator { kind, value } => {
            let t = match infer_type_of_node(symbols, value) {
                Ok(t) => t,
                Err(e) => return Err(e),
            };
            let r = match kind {
                OperatorKind::Ref => Ok(t.pointer()),
                OperatorKind::Deref => Ok(t.unpointer()),
                _ => Ok(t),
            };
            assert(infer_out(r) == spec_infer(symbols@, node@));
            r
        },
        NodeKind::ExprBinaryOperator { kind, left, right } => match kind {
            OperatorKind::Dot => {
                let t = match infer_type_of_node(symbols, left) {
                    Ok(t) => t,
                    Err(e) => return Err(e),
                };
                let r = match &right.node {
                    NodeKind::ExprIdentifier(id) => {
                        assert(right@.node == SKind::ExprIdentifier(id@));
                        dot_type_of(symbols, &t, id)
                    },
                    _ => Err(InferError::Uninferable),
                };
                assert(infer_out(r) == spec_infer(symbols@, node@));
                r
            },
            OperatorKind::As => {
                let r = Ok(SeaType::of_type_node(right));
                assert(infer_out(r) == spec_infer(symbols@, node@));
                r
            },
            OperatorKind::Assign => infer_type_of_node(symbols, right),
            _ => infer_type_of_node(symbols, left),
        },
        NodeKind::ExprInvoke { left, .. } => match &left.node {
            NodeKind::ExprIdentifier(id) => {
                assert(left@.node == SKind::ExprIdentifier(id@));
                match symbols.get_symbol(id.clone()) {
                    Some(Symbol::Fun { rets, .. }) => Ok(rets.duplicate()),
                    Some(Symbol::Var { typ, .. }) => match &typ.funptr_rets {
                        Some(r) => Ok(r.duplicate()),
                        None => Err(InferError::NotAFunctionPointer(id.clone())),
                    },
                    Some(_) => Err(InferError::NotInvocable(id.clone())),
                    None => Err(InferError::NoSuchIdentifier(id.clone())),
                }
            },
            _ => Err(InferError::Uninferable),
        },
        NodeKind::ExprList(nodes) => {
            proof {
                crate::parse::ast::lemma_nodes_view_len(nodes@);
            }
            if nodes.len() == 0 {
                Err(InferError::EmptyList)
            } else {
                proof {
                    crate::parse::ast::lemma_nodes_view_index(nodes@, 0);
                    assert(decreases_to!(node => nodes@[0]));
                }
                let r = match infer_type_of_node(symbols, &nodes[0]) {
                    Ok(t) => Ok(t.array()),
                    Err(e) => Err(e),
                };
                assert(infer_out(r) == spec_infer(symbols@, node@));
                r
            }
        },
        _ => Err(InferError::Uninferable),
    }
}

} // verus!
