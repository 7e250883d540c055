use vstd::prelude::*;

use super::ast::{cases_view, lemma_cases_view_push, Node, NodeKind};
use super::error::ParseError;
use super::grammar::{PModel};
use super::operator::{OperatorKind};
use super::parser::{out_view, ParseFailure, Parser};
use super::token::TokenKind;

verus! {

impl Parser {
    // Statements

    /// `ret <expression>`, after `ret`.
    pub fn parse_ret(&mut self) -> (r: Result<Node, ParseFailure>)
        requires
            old(self)@.wf(),
        ensures
            (out_view(r), final(self)@) == old(self)@.parse_ret(),
            r is Ok ==> final(self)@.wf() && final(self)@.below(old(self)@),
        decreases old(self)@.measure(), 7nat,
    {
        let line = self.prev.line;
        let column = self.prev.column;
        match self.parse_expression() {
            Ok(e) => Ok(Node { line, column, node: NodeKind::StatRet(Some(Box::new(e))) }),
            Err(e) => Err(e),
        }
    }

    /// `if <expression> <block> (else (if ... | <block>))?`, after `if`.
    pub fn parse_if(&mut self) -> (r: Result<Node, ParseFailure>)
        requires
            old(self)@.wf(),
        ensures
            (out_view(r), final(self)@) == old(self)@.parse_if(),
            r is Ok ==> final(self)@.wf() && final(self)@.below(old(self)@),
        decreases old(self)@.measure(), 7nat,
    {
        let line = self.token.line;
        let column = self.token.column;
        let cond = match self.parse_expression() {
            Ok(e) => e,
            Err(e) => return Err(e),
        };
        let expr = match self.parse_block(true) {
            Ok(b) => b,
            Err(e) => return Err(e),
        };
        let has_else = match self.accept(TokenKind::KwElse) {
            Ok(b) => b,
            Err(e) => return Err(e),
        };
        let mut else_: Option<Box<Node>> = None;
        if has_else {
            let is_if = match self.accept(TokenKind::KwIf) {
                Ok(b) => b,
                Err(e) => return Err(e),
            };
            let branch = if is_if {
                self.parse_if()
            } else {
                self.parse_block(true)
            };
            match branch {
                Ok(b) => {
                    else_ = Some(Box::new(b));
                },
                Err(e) => return Err(e),
            }
        }
        Ok(
            Node {
                line,
                column,
                node: NodeKind::StatIf { cond: Box::new(cond), expr: Box::new(expr), else_ },
            },
        )
    }

    /// `switch <expression> { <cases> }`, after `switch`.
    #[verifier::loop_isolation(false)]
    pub fn parse_switch(&mut self) -> (r: Result<Node, ParseFailure>)
        requires
            old(self)@.wf(),
        ensures
            (out_view(r), final(self)@) == old(self)@.parse_switch(),
            r is Ok ==> final(self)@.wf() && final(self)@.below(old(self)@),
        decreases old(self)@.measure(), 7nat,
    {
        let ghost s0 = self@;
        let line = self.token.line;
        let column = self.token.column;
        let switch = match self.parse_expression() {
            Ok(e) => e,
            Err(e) => return Err(e),
        };
        match self.expect(
            TokenKind::OpenCurly,
            "expected open curly brace (`{`) after `switch <expression>`",
        ) {
            Ok(()) => {},
            Err(e) => return Err(e),
        }
        let ghost s2 = self@;
        let mut cases: Vec<(Option<Box<Node>>, bool, Box<Node>)> = Vec::new();
        assert(cases_view(cases@) =~= Seq::empty());
        loop
            invariant
                self@.wf(),
                self@.below(s0),
                s2.switch_cases(Seq::empty()) == self@.switch_cases(cases_view(cases@)),
            decreases self@.measure(),
        {
            let is_fall_case = match self.accept(TokenKind::KwFall) {
                Ok(b) => b,
                Err(e) => return Err(e),
            };
            let is_else = match self.accept(TokenKind::KwElse) {
                Ok(b) => b,
                Err(e) => return Err(e),
            };
            if is_else {
                if is_fall_case {
                    return self.fail(
                        ParseError::UnexpectedToken(self.prev.duplicate()),
                        Some("`fall` cannot be used with `else`"),
                    );
                }
                let block = match self.parse_block(true) {
                    Ok(b) => b,
                    Err(e) => return Err(e),
                };
                let c = (None, is_fall_case, Box::new(block));
                proof {
                    lemma_cases_view_push(cases@, c);
                }
                cases.push(c);
                let close = match self.accept(TokenKind::CloseCurly) {
                    Ok(b) => b,
                    Err(e) => return Err(e),
                };
                if !close {
                    return self.fail(
                        ParseError::UnexpectedToken(self.prev.duplicate()),
                        Some("`else` must be the last case of a `switch` statement."),
                    );
                }
                break;
            } else {
                match self.expect(TokenKind::KwCase, "expected `case`") {
                    Ok(()) => {},
                    Err(e) => return Err(e),
                }
                let case = match self.parse_expression() {
                    Ok(e) => e,
                    Err(e) => return Err(e),
                };
                let block = match self.parse_block(true) {
                    Ok(b) => b,
                    Err(e) => return Err(e),
                };
                let c = (Some(Box::new(case)), is_fall_case, Box::new(block));
                proof {
                    lemma_cases_view_push(cases@, c);
                }
                cases.push(c);
                let close = match self.accept(TokenKind::CloseCurly) {
                    Ok(b) => b,
                    Err(e) => return Err(e),
                };
                if close {
                    break;
                }
            }
        }
        Ok(Node { line, column, node: NodeKind::StatSwitch { switch: Box::new(switch), cases } })
    }

    /// The three forms of `for`, after `for`.
    pub fn parse_for(&mut self) -> (r: Result<Node, ParseFailure>)
        requires
            old(self)@.wf(),
        ensures
            (out_view(r), final(self)@) == old(self)@.parse_for(),
            r is Ok ==> final(self)@.wf() && final(self)@.below(old(self)@),
        decreases old(self)@.measure(), 7nat,
    {
        let line = self.token.line;
        let column = self.token.column;
        let leftmost_expr = match self.parse_expression() {
            Ok(e) => e,
            Err(e) => return Err(e),
        };
        let semicolon = match self.accept(TokenKind::Semicolon) {
            Ok(b) => b,
            Err(e) => return Err(e),
        };
        if semicolon {
            return self.for_c_style(line, column, leftmost_expr);
        }
        let curly = match self.accept(TokenKind::OpenCurly) {
            Ok(b) => b,
            Err(e) => return Err(e),
        };
        let single = if curly {
            true
        } else {
            match self.accept(TokenKind::Arrow) {
                Ok(b) => b,
                Err(e) => return Err(e),
            }
        };
        if single {
            let expr = match self.parse_block(false) {
                Ok(b) => b,
                Err(e) => return Err(e),
            };
            Ok(
                Node {
                    line,
                    column,
                    node: NodeKind::StatForSingleExpr {
                        cond: Box::new(leftmost_expr),
                        expr: Box::new(expr),
                    },
                },
            )
        } else {
            self.for_range(line, column, leftmost_expr)
        }
    }

    /// `<expr> ; <expr> <block>`, after the first `;` of a C-style `for`.
    #[verifier::rlimit(80)]
    fn for_c_style(&mut self, line: usize, column: usize, def: Node) -> (r: Result<Node, ParseFailure>)
        requires
            old(self)@.wf(),
        ensures
            (out_view(r), final(self)@) == old(self)@.for_c_style(line as int, column as int, def@),
            r is Ok ==> final(self)@.wf() && final(self)@.below(old(self)@),
        decreases old(self)@.measure(), 7nat,
    {
        let cond = match self.parse_expression() {
            Ok(e) => e,
            Err(e) => return Err(e),
        };
        match self.expect(
            TokenKind::Semicolon,
            "C-style for loops require three expressions, separated by semicolons (i.e, `for <expr> ; <expr> ; <expr>`)",
        ) {
            Ok(()) => {},
            Err(e) => return Err(e),
        }
        let inc = match self.parse_expression() {
            Ok(e) => e,
            Err(e) => return Err(e),
        };
        let expr = match self.parse_block(true) {
            Ok(b) => b,
            Err(e) => return Err(e),
        };
        Ok(
            Node {
                line,
                column,
                node: NodeKind::StatForCStyle {
                    def: Box::new(def),
                    cond: Box::new(cond),
                    inc: Box::new(inc),
                    expr: Box::new(expr),
                },
            },
        )
    }

    /// `(in <expr>)? to <expr> <block>`: the rest of a range `for`.
    #[verifier::rlimit(80)]
    fn for_range(&mut self, line: usize, column: usize, first: Node) -> (r: Result<Node, ParseFailure>)
        requires
            old(self)@.wf(),
        ensures
            (out_view(r), final(self)@) == old(self)@.for_range(line as int, column as int, first@),
            r is Ok ==> final(self)@.wf() && final(self)@.below(old(self)@),
        decreases old(self)@.measure(), 7nat,
    {
        let potentially_id = self.prev.text.clone();
        let has_in = match self.accept(TokenKind::KwIn) {
            Ok(b) => b,
            Err(e) => return Err(e),
        };
        if has_in {
            let from = match self.parse_expression() {
                Ok(e) => e,
                Err(e) => return Err(e),
            };
            match self.expect(TokenKind::KwTo, "Range for loop syntax: `for (<id> in)? <expr> to <expr>`") {
                Ok(()) => {},
                Err(e) => return Err(e),
            }
            let to = match self.parse_expression() {
                Ok(e) => e,
                Err(e) => return Err(e),
            };
            let expr = match self.parse_block(true) {
                Ok(b) => b,
                Err(e) => return Err(e),
            };
            Ok(
                Node {
                    line,
                    column,
                    node: NodeKind::StatForRange {
                        var: Some(potentially_id),
                        from: Box::new(from),
                        to: Box::new(to),
                        expr: Box::new(expr),
                    },
                },
            )
        } else {
            match self.expect(TokenKind::KwTo, "Range for loop syntax: `for (<id> in)? <expr> to <expr>`") {
                Ok(()) => {},
                Err(e) => return Err(e),
            }
            let to = match self.parse_atom() {
                Ok(e) => e,
                Err(e) => return Err(e),
            };
            let expr = match self.parse_block(true) {
                Ok(b) => b,
                Err(e) => return Err(e),
            };
            Ok(
                Node {
                    line,
                    column,
                    node: NodeKind::StatForRange {
                        var: None,
                        from: Box::new(first),
                        to: Box::new(to),
                        expr: Box::new(expr),
                    },
                },
            )
        }
    }

    /// The text of a `raw[...]` block, after `raw`.
    pub(crate) fn parse_raw(&mut self) -> (r: Result<Node, ParseFailure>)
        requires
            old(self)@.wf(),
        ensures
            (out_view(r), final(self)@) == old(self)@.parse_raw(),
            r is Ok ==> final(self)@.wf() && final(self)@.below(old(self)@),
    {
        let line = self.token.line;
        let column = self.token.column;
        match self.expect(
            TokenKind::LiteralText,
            "internal error, literal text within raw[] block not found.",
        ) {
            Ok(()) => {},
            Err(e) => return Err(e),
        }
        Ok(Node { line, column, node: NodeKind::Raw(self.prev.text.clone()) })
    }

    /// A statement: one that starts with a keyword or `@`, or an expression.
    pub fn parse_statement(&mut self) -> (r: Result<Node, ParseFailure>)
        requires
            old(self)@.wf(),
        ensures
            (out_view(r), final(self)@) == old(self)@.parse_statement(),
            r is Ok ==> final(self)@.wf() && final(self)@.below(old(self)@),
        decreases old(self)@.measure(), 8nat,
    {
        let k = self.token.kind;
        if k == TokenKind::KwBreak || k == TokenKind::KwContinue {
            let line = self.token.line;
            let column = self.token.column;
            match self.advance() {
                Ok(_) => {},
                Err(e) => return Err(e),
            }
            let node = if k == TokenKind::KwBreak {
                NodeKind::StatBreak
            } else {
                NodeKind::StatContinue
            };
            return Ok(Node { line, column, node });
        }
        if k == TokenKind::KwRet || k == TokenKind::KwIf || k == TokenKind::KwSwitch || k
            == TokenKind::KwFor || k == TokenKind::KwRaw || k == TokenKind::At {
            match self.advance() {
                Ok(_) => {},
                Err(e) => return Err(e),
            }
            if k == TokenKind::KwRet {
                self.parse_ret()
            } else if k == TokenKind::KwIf {
                self.parse_if()
            } else if k == TokenKind::KwSwitch {
                self.parse_switch()
            } else if k == TokenKind::KwFor {
                self.parse_for()
            } else if k == TokenKind::KwRaw {
                self.parse_raw()
            } else {
                self.parse_mac_invoke()
            }
        } else {
            match self.parse_expression() {
                Ok(expr) => Ok(
                    Node {
                        line: expr.line,
                        column: expr.column,
                        node: NodeKind::StatExpr(Box::new(expr)),
                    },
                ),
                Err(e) => Err(e),
            }
        }
    }
}

} // verus!
