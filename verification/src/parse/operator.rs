use vstd::prelude::*;

use super::token::TokenKind;

verus! {

/// What an operator does.
#[derive(Debug, Clone, Copy, PartialEq, Eq, Structural)]
pub enum OperatorKind {
    Ref,
    Deref,
    Dot,
    Pkg,
    As,
    Assign,
    And,
    Or,
    Not,
    Eq,
    Neq,
    Gt,
    GtEq,
    Lt,
    LtEq,
    Add,
    Sub,
    Mul,
    Div,
    Mod,
    Inc,
    Dec,
    Negate,
    Index,
    Invoke,
}

/// How tightly an operator binds; larger binds tighter.
pub type Precedence = u32;

/// Where an operator stands relative to its operands.
#[derive(Debug, Clone, Copy, PartialEq, Eq, Structural)]
pub enum Position {
    Prefix,
    Infix,
    Postfix,
}

/// Which way operators of equal precedence group.
#[derive(Debug, Clone, Copy, PartialEq, Eq, Structural)]
pub enum Associativity {
    Left,
    Right,
}

/// An entry of the operator table.
#[derive(Debug, Clone, Copy, PartialEq, Eq, Structural)]
pub struct Operator {
    pub kind: OperatorKind,
    pub prec: Precedence,
    pub pos: Position,
    pub assoc: Associativity,
}

/// The operator kind a token stands for, if any.
pub open spec fn spec_operator_kind(k: TokenKind) -> Option<OperatorKind> {
    match k {
        TokenKind::OpDot => Some(OperatorKind::Dot),
        TokenKind::KwAs => Some(OperatorKind::As),
        TokenKind::Eq => Some(OperatorKind::Assign),
        TokenKind::OpAdd => Some(OperatorKind::Add),
        TokenKind::OpSub => Some(OperatorKind::Sub),
        TokenKind::OpMul => Some(OperatorKind::Mul),
        TokenKind::OpDiv => Some(OperatorKind::Div),
        TokenKind::OpMod => Some(OperatorKind::Mod),
        TokenKind::OpGt => Some(OperatorKind::Gt),
        TokenKind::OpGtEq => Some(OperatorKind::GtEq),
        TokenKind::OpLt => Some(OperatorKind::Lt),
        TokenKind::OpLtEq => Some(OperatorKind::LtEq),
        TokenKind::OpEq => Some(OperatorKind::Eq),
        TokenKind::OpNeq => Some(OperatorKind::Neq),
        TokenKind::OpAnd => Some(OperatorKind::And),
        TokenKind::OpOr => Some(OperatorKind::Or),
        TokenKind::OpNot => Some(OperatorKind::Not),
        TokenKind::KwRef => Some(OperatorKind::Ref),
        TokenKind::Pointer => Some(OperatorKind::Deref),
        TokenKind::OpenParen => Some(OperatorKind::Invoke),
        _ => None,
    }
}

/// A left associative infix operator of the token `k`.
pub open spec fn left_infix(k: TokenKind, prec: Precedence) -> Option<Operator> {
    Some(
        Operator {
            kind: spec_operator_kind(k)->0,
            prec,
            pos: Position::Infix,
            assoc: Associativity::Left,
        },
    )
}

/// A right associative infix operator of the token `k`.
pub open spec fn right_infix(k: TokenKind, prec: Precedence) -> Option<Operator> {
    Some(
        Operator {
            kind: spec_operator_kind(k)->0,
            prec,
            pos: Position::Infix,
            assoc: Associativity::Right,
        },
    )
}

/// The table of binary operators.
pub open spec fn spec_operator(k: TokenKind) -> Option<Operator> {
    match k {
        TokenKind::OpDot => left_infix(k, 1000),
        TokenKind::KwAs => right_infix(k, 1000),
        TokenKind::OpAnd => left_infix(k, 500),
        TokenKind::OpOr => left_infix(k, 500),
        TokenKind::OpGt => left_infix(k, 400),
        TokenKind::OpGtEq => left_infix(k, 400),
        TokenKind::OpLt => left_infix(k, 400),
        TokenKind::OpLtEq => left_infix(k, 400),
        TokenKind::OpEq => left_infix(k, 300),
        TokenKind::OpNeq => left_infix(k, 300),
        TokenKind::OpMul => left_infix(k, 200),
        TokenKind::OpDiv => left_infix(k, 200),
        TokenKind::OpMod => left_infix(k, 200),
        TokenKind::OpAdd => right_infix(k, 100),
        TokenKind::OpSub => left_infix(k, 100),
        TokenKind::Eq => right_infix(k, 0),
        _ => None,
    }
}

impl TokenKind {
    /// Whether this token is a binary operator of the table.
    pub fn is_operator(&self) -> (r: bool)
        ensures
            r == spec_operator(*self) is Some,
    {
        self.get_operator().is_some()
    }

    /// The table's entry for this token.
    pub fn get_operator(&self) -> (r: Option<Operator>)
        ensures
            r == spec_operator(*self),
    {
        match self {
            TokenKind::OpDot => Some(self.li(1000)),
            TokenKind::KwAs => Some(self.ri(1000)),
            TokenKind::OpAnd => Some(self.li(500)),
            TokenKind::OpOr => Some(self.li(500)),
            TokenKind::OpGt => Some(self.li(400)),
            TokenKind::OpGtEq => Some(self.li(400)),
            TokenKind::OpLt => Some(self.li(400)),
            TokenKind::OpLtEq => Some(self.li(400)),
            TokenKind::OpEq => Some(self.li(300)),
            TokenKind::OpNeq => Some(self.li(300)),
            TokenKind::OpMul => Some(self.li(200)),
            TokenKind::OpDiv => Some(self.li(200)),
            TokenKind::OpMod => Some(self.li(200)),
            TokenKind::OpAdd => Some(self.ri(100)),
            TokenKind::OpSub => Some(self.li(100)),
            TokenKind::Eq => Some(self.ri(0)),
            _ => None,
        }
    }

    /// The operator kind this token stands for, if any.
    pub fn get_operator_kind(&self) -> (r: Option<OperatorKind>)
        ensures
            r == spec_operator_kind(*self),
    {
        match self {
            TokenKind::OpDot => Some(OperatorKind::Dot),
            TokenKind::KwAs => Some(OperatorKind::As),
            TokenKind::Eq => Some(OperatorKind::Assign),
            TokenKind::OpAdd => Some(OperatorKind::Add),
            TokenKind::OpSub => Some(OperatorKind::Sub),
            TokenKind::OpMul => Some(OperatorKind::Mul),
            TokenKind::OpDiv => Some(OperatorKind::Div),
            TokenKind::OpMod => Some(OperatorKind::Mod),
            TokenKind::OpGt => Some(OperatorKind::Gt),
            TokenKind::OpGtEq => Some(OperatorKind::GtEq),
            TokenKind::OpLt => Some(OperatorKind::Lt),
            TokenKind::OpLtEq => Some(OperatorKind::LtEq),
            TokenKind::OpEq => Some(OperatorKind::Eq),
            TokenKind::OpNeq => Some(OperatorKind::Neq),
            TokenKind::OpAnd => Some(OperatorKind::And),
            TokenKind::OpOr => Some(OperatorKind::Or),
            TokenKind::OpNot => Some(OperatorKind::Not),
            TokenKind::KwRef => Some(OperatorKind::Ref),
            TokenKind::Pointer => Some(OperatorKind::Deref),
            TokenKind::OpenParen => Some(OperatorKind::Invoke),
            _ => None,
        }
    }

    /// The operator of this token with the given shape.
    fn op(&self, prec: Precedence, pos: Position, assoc: Associativity) -> (r: Operator)
        requires
            spec_operator_kind(*self) is Some,
        ensures
            r == (Operator { kind: spec_operator_kind(*self)->0, prec, pos, assoc }),
    {
        let kind = match self.get_operator_kind() {
            Some(k) => k,
            None => OperatorKind::Invoke,
        };
        Operator { kind, prec, pos, assoc }
    }

    /// A left associative infix operator.
    fn li(&self, prec: Precedence) -> (r: Operator)
        requires
            spec_operator_kind(*self) is Some,
        ensures
            Some(r) == left_infix(*self, prec),
    {
        self.op(prec, Position::Infix, Associativity::Left)
    }

    /// A right associative infix operator.
    fn ri(&self, prec: Precedence) -> (r: Operator)
        requires
            spec_operator_kind(*self) is Some,
        ensures
            Some(r) == right_infix(*self, prec),
    {
        self.op(prec, Position::Infix, Associativity::Right)
    }
}


/// The products `*`, `/`, `%`.
pub open spec fn is_product(k: OperatorKind) -> bool {
    k is Mul || k is Div || k is Mod
}

/// The sums `+`, `-`.
pub open spec fn is_sum(k: OperatorKind) -> bool {
    k is Add || k is Sub
}

/// The tokens `+`, `-`, `*`, `/` and `%` are the infix operators of those names,
/// and `-`, `*`, `/`, `%` group to the left.
pub proof fn law_arithmetic_operators()
    ensures
        spec_operator(TokenKind::OpAdd) matches Some(o) && o.kind is Add && o.pos is Infix,
        spec_operator(TokenKind::OpSub) matches Some(o) && o.kind is Sub && o.pos is Infix && o.assoc is Left,
        spec_operator(TokenKind::OpMul) matches Some(o) && o.kind is Mul && o.pos is Infix && o.assoc is Left,
        spec_operator(TokenKind::OpDiv) matches Some(o) && o.kind is Div && o.pos is Infix && o.assoc is Left,
        spec_operator(TokenKind::OpMod) matches Some(o) && o.kind is Mod && o.pos is Infix && o.assoc is Left,
{
}

/// Of any two operators of the table, a product (`*`, `/`, `%`) binds more
/// tightly than a sum (`+`, `-`), two products bind alike and two sums bind
/// alike: `a - b / c` is `a - (b / c)`.
pub proof fn law_products_bind_tighter_than_sums(j: TokenKind, k: TokenKind)
    requires
        spec_operator(j) is Some,
        spec_operator(k) is Some,
    ensures
        is_product(spec_operator(j)->0.kind) && is_sum(spec_operator(k)->0.kind) ==> spec_operator(j)->0.prec
            > spec_operator(k)->0.prec,
        is_product(spec_operator(j)->0.kind) && is_product(spec_operator(k)->0.kind) ==> spec_operator(j)->0.prec
            == spec_operator(k)->0.prec,
        is_sum(spec_operator(j)->0.kind) && is_sum(spec_operator(k)->0.kind) ==> spec_operator(j)->0.prec
            == spec_operator(k)->0.prec,
{
}

} // verus!
