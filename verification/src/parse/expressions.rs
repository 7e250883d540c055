use vstd::prelude::*;

use super::ast::{lemma_nodes_view_empty, lemma_nodes_view_push, nodes_view, opt_node_view, Node, NodeKind, SNode};
use super::error::ParseError;
use super::grammar::{atom_start, binds_at_least, PModel, SFailure};
use super::operator::{spec_operator, Associativity, OperatorKind, Precedence};
use super::parser::{nodes_out, out_view, ParseFailure, Parser};
use super::token::TokenKind;

verus! {

/// The view of the name, type and value of a binding.
pub open spec fn binding_out(r: Result<(String, Option<Box<Node>>, Node), ParseFailure>) -> Result<
    (Seq<char>, Option<Box<SNode>>, SNode),
    SFailure,
> {
    match r {
        Ok(b) => Ok((b.0@, opt_node_view(b.1), b.2@)),
        Err(e) => Err(e@),
    }
}

/// Whether the token kind `k` starts an atom.
pub fn is_atom_start(k: TokenKind) -> (r: bool)
    ensures
        r == atom_start(k),
{
    match k {
        TokenKind::OpenParen | TokenKind::Int | TokenKind::Float | TokenKind::Hex
        | TokenKind::Binary | TokenKind::String | TokenKind::CString | TokenKind::Character
        | TokenKind::True | TokenKind::False | TokenKind::Identifier | TokenKind::OpenBracket
        | TokenKind::OpenCurly | TokenKind::Arrow | TokenKind::KwNew | TokenKind::OpNot
        | TokenKind::OpSub | TokenKind::KwRef => true,
        _ => false,
    }
}

impl Parser {
    // Expressions

    /// A macro invocation, after `@`: `<id>(<params>)`.
    #[verifier::rlimit(40)]
    pub fn parse_mac_invoke(&mut self) -> (r: Result<Node, ParseFailure>)
        requires
            old(self)@.wf(),
        ensures
            (out_view(r), final(self)@) == old(self)@.parse_mac_invoke(),
            r is Ok ==> final(self)@.wf() && final(self)@.below(old(self)@),
        decreases old(self)@.measure(), 7nat,
    {
        proof {
            lemma_nodes_view_empty();
        }
        let line = self.prev.line;
        let column = self.prev.column;
        match self.expect(TokenKind::Identifier, "expected identifier after `@` to invoke a macro") {
            Ok(()) => {},
            Err(e) => return Err(e),
        }
        let name = self.prev.text.clone();
        match self.expect(
            TokenKind::OpenParen,
            "expected open parenthesis, macro syntax: `'@' <id> '(' <params> ')'`",
        ) {
            Ok(()) => {},
            Err(e) => return Err(e),
        }
        let close = match self.accept(TokenKind::CloseParen) {
            Ok(b) => b,
            Err(e) => return Err(e),
        };
        if close {
            return Ok(
                Node { line, column, node: NodeKind::ExprMacInvoke { name, params: Vec::new() } },
            );
        }
        let params = match self.parse_expression_list() {
            Ok(v) => v,
            Err(e) => return Err(e),
        };
        match self.expect(
            TokenKind::CloseParen,
            "expected closed parenthesis, macro syntax: `'@' <id> '(' <params> ')'`",
        ) {
            Ok(()) => {},
            Err(e) => return Err(e),
        }
        Ok(Node { line, column, node: NodeKind::ExprMacInvoke { name, params } })
    }

    /// Comma separated expressions, at least one.
    #[verifier::loop_isolation(false)]
    pub(crate) fn parse_expression_list(&mut self) -> (r: Result<Vec<Node>, ParseFailure>)
        requires
            old(self)@.wf(),
        ensures
            (nodes_out(r), final(self)@) == old(self)@.expr_list(Seq::empty()),
            r is Ok ==> final(self)@.wf() && final(self)@.below(old(self)@),
        decreases old(self)@.measure(), 7nat,
    {
        let ghost s0 = self@;
        let mut nodes: Vec<Node> = Vec::new();
        assert(nodes_view(nodes@) =~= Seq::empty());
        loop
            invariant
                self@.wf(),
                self@.within(s0),
                nodes@.len() > 0 ==> self@.below(s0),
                s0.expr_list(Seq::empty()) == self@.expr_list(nodes_view(nodes@)),
            decreases self@.measure(),
        {
            let e = match self.parse_expression() {
                Ok(e) => e,
                Err(e) => return Err(e),
            };
            proof {
                lemma_nodes_view_push(nodes@, e);
            }
            nodes.push(e);
            let more = match self.accept(TokenKind::Comma) {
                Ok(b) => b,
                Err(e) => return Err(e),
            };
            if !more {
                break;
            }
        }
        Ok(nodes)
    }

    /// A block: `{ <statements> }` or `-> <statement>`; with `advance`, its first
    /// token is the current one, else the previous one.
    #[verifier::loop_isolation(false)]
    pub fn parse_block(&mut self, advance: bool) -> (r: Result<Node, ParseFailure>)
        requires
            old(self)@.wf(),
        ensures
            (out_view(r), final(self)@) == old(self)@.parse_block(advance),
            r is Ok ==> final(self)@.wf() && final(self)@.below(old(self)@),
        decreases old(self)@.measure(), 10nat,
    {
        proof {
            lemma_nodes_view_empty();
        }
        let ghost s0 = self@;
        if advance {
            match self.advance() {
                Ok(_) => {},
                Err(e) => return Err(e),
            }
        }
        let line = self.prev.line;
        let column = self.prev.column;
        if self.prev.kind == TokenKind::OpenCurly {
            let close = match self.accept(TokenKind::CloseCurly) {
                Ok(b) => b,
                Err(e) => return Err(e),
            };
            if close {
                return Ok(Node { line, column, node: NodeKind::ExprBlock(Vec::new()) });
            }
            let ghost s1 = self@;
            let mut exprs: Vec<Node> = Vec::new();
            assert(nodes_view(exprs@) =~= Seq::empty());
            loop
                invariant
                    self@.wf(),
                    self@.within(s0),
                    exprs@.len() > 0 ==> self@.below(s0),
                    s1.block_loop(Seq::empty()) == self@.block_loop(nodes_view(exprs@)),
                decreases self@.measure(),
            {
                let st = match self.parse_statement() {
                    Ok(n) => n,
                    Err(e) => return Err(e),
                };
                proof {
                    lemma_nodes_view_push(exprs@, st);
                }
                exprs.push(st);
                let close = match self.accept(TokenKind::CloseCurly) {
                    Ok(b) => b,
                    Err(e) => return Err(e),
                };
                if close {
                    break;
                }
            }
            Ok(Node { line, column, node: NodeKind::ExprBlock(exprs) })
        } else if self.prev.kind == TokenKind::Arrow {
            let st = match self.parse_statement() {
                Ok(n) => n,
                Err(e) => return Err(e),
            };
            let mut exprs: Vec<Node> = Vec::new();
            proof {
                lemma_nodes_view_push(exprs@, st);
                assert(nodes_view(exprs@) =~= Seq::empty());
            }
            exprs.push(st);
            Ok(Node { line, column, node: NodeKind::ExprBlock(exprs) })
        } else {
            Err(
                ParseFailure {
                    error: ParseError::UnexpectedToken(self.prev.duplicate()),
                    help: None,
                    token: self.prev.duplicate(),
                },
            )
        }
    }

    /// `let <id> (: <type>)? = <expression>`, after `let`.
    pub fn parse_let(&mut self) -> (r: Result<Node, ParseFailure>)
        requires
            old(self)@.wf(),
        ensures
            (out_view(r), final(self)@) == old(self)@.parse_let(),
            r is Ok ==> final(self)@.wf() && final(self)@.below(old(self)@),
        decreases old(self)@.measure(), 7nat,
    {
        let line = self.prev.line;
        let column = self.prev.column;
        match self.binding("expected identifier after `let`", "expected `=` after `let <id>`") {
            Ok((name, typ, value)) => Ok(
                Node { line, column, node: NodeKind::ExprLet { name, typ, value: Box::new(value) } },
            ),
            Err(e) => Err(e),
        }
    }

    /// `var <id> (: <type>)? = <expression>`, after `var`.
    pub fn parse_var(&mut self) -> (r: Result<Node, ParseFailure>)
        requires
            old(self)@.wf(),
        ensures
            (out_view(r), final(self)@) == old(self)@.parse_var(),
            r is Ok ==> final(self)@.wf() && final(self)@.below(old(self)@),
        decreases old(self)@.measure(), 7nat,
    {
        let line = self.prev.line;
        let column = self.prev.column;
        match self.binding("expected identifier after `var`", "expected `=` after `var <id>`") {
            Ok((name, typ, value)) => Ok(
                Node { line, column, node: NodeKind::ExprVar { name, typ, value: Box::new(value) } },
            ),
            Err(e) => Err(e),
        }
    }

    /// The name, optional type and value of a `let` or `var`.
    fn binding(&mut self, id_msg: &'static str, eq_msg: &'static str) -> (r: Result<
        (String, Option<Box<Node>>, Node),
        ParseFailure,
    >)
        requires
            old(self)@.wf(),
        ensures
            (binding_out(r), final(self)@) == old(self)@.binding(id_msg@, eq_msg@),
            r is Ok ==> final(self)@.wf() && final(self)@.below(old(self)@),
        decreases old(self)@.measure(), 6nat,
    {
        match self.expect(TokenKind::Identifier, id_msg) {
            Ok(()) => {},
            Err(e) => return Err(e),
        }
        let name = self.prev.text.clone();
        let colon = match self.accept(TokenKind::Colon) {
            Ok(b) => b,
            Err(e) => return Err(e),
        };
        let typ: Option<Box<Node>> = if colon {
            match self.parse_type() {
                Ok(t) => Some(Box::new(t)),
                Err(e) => return Err(e),
            }
        } else {
            None
        };
        match self.expect(TokenKind::Eq, eq_msg) {
            Ok(()) => {},
            Err(e) => return Err(e),
        }
        match self.parse_expression() {
            Ok(value) => Ok((name, typ, value)),
            Err(e) => Err(e),
        }
    }

    /// An expression that uses no binary operator, with its postfix operators.
    pub fn parse_atom(&mut self) -> (r: Result<Node, ParseFailure>)
        requires
            old(self)@.wf(),
        ensures
            (out_view(r), final(self)@) == old(self)@.parse_atom(),
            r is Ok ==> final(self)@.wf() && final(self)@.below(old(self)@),
        decreases old(self)@.measure(), 4nat,
    {
        let line = self.token.line;
        let column = self.token.column;
        let k = self.token.kind;
        if !is_atom_start(k) {
            return self.fail(ParseError::ExpectedExpression(self.token.duplicate()), None);
        }
        match self.advance() {
            Ok(_) => {},
            Err(e) => return Err(e),
        }
        let atom = match self.atom_primary(k, line, column) {
            Ok(n) => n,
            Err(e) => return Err(e),
        };
        self.parse_postfix(atom)
    }

    /// The atom that the token of kind `k` (just consumed, at `line` and `column`) starts.
    fn atom_primary(&mut self, k: TokenKind, line: usize, column: usize) -> (r: Result<
        Node,
        ParseFailure,
    >)
        requires
            old(self)@.wf(),
        ensures
            (out_view(r), final(self)@) == old(self)@.atom_primary(k, line as int, column as int),
            r is Ok ==> final(self)@.wf() && final(self)@.within(old(self)@),
        decreases old(self)@.measure(), 11nat,
    {
        proof {
            lemma_nodes_view_empty();
        }
        if k == TokenKind::OpenParen {
            let e = match self.parse_expression() {
                Ok(e) => e,
                Err(e) => return Err(e),
            };
            match self.expect(
                TokenKind::CloseParen,
                "expected closed parenthesis to match open parenthesis in expression group",
            ) {
                Ok(()) => {},
                Err(e) => return Err(e),
            }
            Ok(Node { line, column, node: NodeKind::ExprGroup(Box::new(e)) })
        } else if k == TokenKind::Int || k == TokenKind::Float || k == TokenKind::Hex || k
            == TokenKind::Binary {
            Ok(Node { line, column, node: NodeKind::ExprNumber(self.prev.text.clone()) })
        } else if k == TokenKind::String {
            Ok(Node { line, column, node: NodeKind::ExprString(self.prev.text.clone()) })
        } else if k == TokenKind::CString {
            Ok(Node { line, column, node: NodeKind::ExprCString(self.prev.text.clone()) })
        } else if k == TokenKind::Character {
            Ok(Node { line, column, node: NodeKind::ExprChar(self.prev.text.clone()) })
        } else if k == TokenKind::True {
            Ok(Node { line, column, node: NodeKind::ExprTrue })
        } else if k == TokenKind::False {
            Ok(Node { line, column, node: NodeKind::ExprFalse })
        } else if k == TokenKind::Identifier {
            Ok(Node { line, column, node: NodeKind::ExprIdentifier(self.prev.text.clone()) })
        } else if k == TokenKind::OpenBracket {
            let close = match self.accept(TokenKind::CloseBracket) {
                Ok(b) => b,
                Err(e) => return Err(e),
            };
            if close {
                Ok(Node { line, column, node: NodeKind::ExprList(Vec::new()) })
            } else {
                let nodes = match self.parse_expression_list() {
                    Ok(v) => v,
                    Err(e) => return Err(e),
                };
                match self.expect(
                    TokenKind::CloseBracket,
                    "expected closed bracket (`]`) to end list expression.",
                ) {
                    Ok(()) => {},
                    Err(e) => return Err(e),
                }
                Ok(Node { line, column, node: NodeKind::ExprList(nodes) })
            }
        } else if k == TokenKind::OpenCurly || k == TokenKind::Arrow {
            self.parse_block(false)
        } else if k == TokenKind::KwNew {
            self.parse_new(line, column)
        } else {
            let kind = if k == TokenKind::OpNot {
                OperatorKind::Not
            } else if k == TokenKind::OpSub {
                OperatorKind::Negate
            } else {
                OperatorKind::Ref
            };
            match self.parse_atom() {
                Ok(value) => Ok(
                    Node {
                        line,
                        column,
                        node: NodeKind::ExprUnaryOperator { kind, value: Box::new(value) },
                    },
                ),
                Err(e) => Err(e),
            }
        }
    }

    /// `<id>(<params>)`, after `new`.
    fn parse_new(&mut self, line: usize, column: usize) -> (r: Result<Node, ParseFailure>)
        requires
            old(self)@.wf(),
        ensures
            (out_view(r), final(self)@) == old(self)@.parse_new(line as int, column as int),
            r is Ok ==> final(self)@.wf() && final(self)@.below(old(self)@),
        decreases old(self)@.measure(), 8nat,
    {
        proof {
            lemma_nodes_view_empty();
        }
        match self.expect(TokenKind::Identifier, "expected identifier after `new`") {
            Ok(()) => {},
            Err(e) => return Err(e),
        }
        let id = self.prev.text.clone();
        match self.expect(TokenKind::OpenParen, "expected open parenthesis in `new` expression") {
            Ok(()) => {},
            Err(e) => return Err(e),
        }
        let params = if self.token.kind != TokenKind::CloseParen {
            match self.parse_expression_list() {
                Ok(v) => v,
                Err(e) => return Err(e),
            }
        } else {
            Vec::new()
        };
        match self.expect(TokenKind::CloseParen, "expected closed parenthesis to end `new` expression") {
            Ok(()) => {},
            Err(e) => return Err(e),
        }
        Ok(Node { line, column, node: NodeKind::ExprNew { id, params } })
    }

    /// The postfix operators after `node`: `^`, calls, indexing and `as`.
    #[verifier::loop_isolation(false)]
    pub fn parse_postfix(&mut self, node: Node) -> (r: Result<Node, ParseFailure>)
        requires
            old(self)@.wf(),
        ensures
            (out_view(r), final(self)@) == old(self)@.parse_postfix(node@),
            r is Ok ==> final(self)@.wf() && final(self)@.within(old(self)@),
        decreases old(self)@.measure(), 1nat,
    {
        proof {
            lemma_nodes_view_empty();
        }
        let ghost s0 = self@;
        let ghost n0 = node@;
        let line = node.line;
        let column = node.column;
        let mut atom = node;
        loop
            invariant
                self@.wf(),
                self@.within(s0),
                atom.line == line,
                atom.column == column,
                s0.parse_postfix(n0) == self@.parse_postfix(atom@),
            decreases self@.measure(),
        {
            let k = self.token.kind;
            if !(k == TokenKind::Pointer || k == TokenKind::OpInc || k == TokenKind::OpDec
                || k == TokenKind::OpenParen || k == TokenKind::OpenBracket || k == TokenKind::KwAs) {
                break;
            }
            match self.advance() {
                Ok(_) => {},
                Err(e) => return Err(e),
            }
            if k == TokenKind::Pointer || k == TokenKind::OpInc || k == TokenKind::OpDec {
                let kind = if k == TokenKind::Pointer {
                    OperatorKind::Deref
                } else if k == TokenKind::OpInc {
                    OperatorKind::Inc
                } else {
                    OperatorKind::Dec
                };
                atom = Node {
                    line,
                    column,
                    node: NodeKind::ExprUnaryOperator { kind, value: Box::new(atom) },
                };
            } else if k == TokenKind::OpenParen {
                let close = match self.accept(TokenKind::CloseParen) {
                    Ok(b) => b,
                    Err(e) => return Err(e),
                };
                if close {
                    atom = Node {
                        line,
                        column,
                        node: NodeKind::ExprInvoke { left: Box::new(atom), params: Vec::new() },
                    };
                } else {
                    let params = match self.parse_expression_list() {
                        Ok(v) => v,
                        Err(e) => return Err(e),
                    };
                    match self.expect(
                        TokenKind::CloseParen,
                        "expected closed parenthesis to end parameter list",
                    ) {
                        Ok(()) => {},
                        Err(e) => return Err(e),
                    }
                    atom = Node {
                        line,
                        column,
                        node: NodeKind::ExprInvoke { left: Box::new(atom), params },
                    };
                }
            } else if k == TokenKind::OpenBracket {
                let right = match self.parse_expression() {
                    Ok(e) => e,
                    Err(e) => return Err(e),
                };
                match self.expect(
                    TokenKind::CloseBracket,
                    "expected closed bracket (`]`) to end index operator",
                ) {
                    Ok(()) => {},
                    Err(e) => return Err(e),
                }
                atom = Node {
                    line,
                    column,
                    node: NodeKind::ExprBinaryOperator {
                        kind: OperatorKind::Index,
                        left: Box::new(atom),
                        right: Box::new(right),
                    },
                };
            } else {
                let typ = match self.parse_type() {
                    Ok(t) => t,
                    Err(e) => return Err(e),
                };
                atom = Node {
                    line,
                    column,
                    node: NodeKind::ExprBinaryOperator {
                        kind: OperatorKind::As,
                        left: Box::new(atom),
                        right: Box::new(typ),
                    },
                };
            }
        }
        Ok(atom)
    }

    /// Operator precedence parsing: the binary operators that bind at least as
    /// tightly as `min_prec`, with `left_node` as the first operand.
    #[verifier::loop_isolation(false)]
    #[verifier::rlimit(60)]
    pub fn parse_expression_inner(&mut self, left_node: Node, min_prec: Precedence) -> (r: Result<
        Node,
        ParseFailure,
    >)
        requires
            old(self)@.wf(),
            spec_operator(old(self)@.token.kind) is Some,
        ensures
            (out_view(r), final(self)@) == old(self)@.parse_expression_inner(left_node@, min_prec),
            r is Ok ==> final(self)@.wf() && final(self)@.within(old(self)@),
            r is Ok && binds_at_least(old(self)@.token.kind, min_prec) ==> final(self)@.below(
                old(self)@,
            ),
        decreases old(self)@.measure(), 2nat,
    {
        let ghost s0 = self@;
        let ghost l0 = left_node@;
        let mut left_atom = left_node;
        loop
            invariant
                self@.wf(),
                self@.within(s0),
                self@ != s0 ==> self@.below(s0),
                s0.parse_expression_inner(l0, min_prec) == self@.parse_expression_inner(
                    left_atom@,
                    min_prec,
                ),
            decreases self@.measure(),
        {
            let op = match self.token.kind.get_operator() {
                Some(op) => op,
                None => break,
            };
            if op.prec < min_prec {
                break;
            }
            let ghost si = self@;
            match self.advance() {
                Ok(_) => {},
                Err(e) => return Err(e),
            }
            let right = if op.kind == OperatorKind::As {
                self.parse_type()
            } else {
                self.parse_atom()
            };
            let mut right_atom = match right {
                Ok(n) => n,
                Err(e) => return Err(e),
            };
            let ghost s1 = self@;
            let ghost r0 = right_atom@;
            loop
                invariant
                    self@.wf(),
                    self@.below(si),
                    s1.right_operand(op, r0) == self@.right_operand(op, right_atom@),
                decreases self@.measure(),
            {
                let la = match self.token.kind.get_operator() {
                    Some(la) => la,
                    None => break,
                };
                if !(la.prec > op.prec || (la.assoc == Associativity::Right && la.prec == op.prec)) {
                    break;
                }
                let next = if la.kind == OperatorKind::As {
                    self.parse_type()
                } else {
                    let p = if la.prec > op.prec {
                        op.prec + 1
                    } else {
                        op.prec
                    };
                    self.parse_expression_inner(right_atom, p)
                };
                right_atom = match next {
                    Ok(n) => n,
                    Err(e) => return Err(e),
                };
            }
            left_atom = Node::join(op.kind, left_atom, right_atom);
        }
        self.parse_postfix(left_atom)
    }

    /// An expression: a `let`, a `var`, or atoms joined by binary operators.
    pub fn parse_expression(&mut self) -> (r: Result<Node, ParseFailure>)
        requires
            old(self)@.wf(),
        ensures
            (out_view(r), final(self)@) == old(self)@.parse_expression(),
            r is Ok ==> final(self)@.wf() && final(self)@.below(old(self)@),
        decreases old(self)@.measure(), 6nat,
    {
        let k = self.token.kind;
        if k == TokenKind::KwLet || k == TokenKind::KwVar {
            match self.advance() {
                Ok(_) => {},
                Err(e) => return Err(e),
            }
            if k == TokenKind::KwLet {
                self.parse_let()
            } else {
                self.parse_var()
            }
        } else {
            let left = match self.parse_atom() {
                Ok(n) => n,
                Err(e) => return Err(e),
            };
            let it = if self.token.kind.is_operator() {
                match self.parse_expression_inner(left, 0) {
                    Ok(n) => n,
                    Err(e) => return Err(e),
                }
            } else {
                left
            };
            self.parse_postfix(it)
        }
    }
}

} // verus!
