use vstd::prelude::*;

use crate::hashtags::{DefTags, FunTags, Hashtag, RecTags, TagRecTags, TagTags};
use crate::text::spec_parse_usize;

use super::ast::{snode, spec_join, void_type, SKind, SNode};
use super::error::SParseError;
use super::lexer::{lemma_get_next_token, LexModel};
use super::operator::{spec_operator, Associativity, Operator, OperatorKind};
use super::token::{SToken, TokenKind};

verus! {

/// Why parsing stopped: the error, an optional hint, and the token to point at.
pub struct SFailure {
    pub error: SParseError,
    pub help: Option<Seq<char>>,
    pub token: SToken,
}

/// The state of a parser: its lexer, the current and the previous token, and whether
/// the end of the input was reached.
pub struct PModel {
    pub lex: LexModel,
    pub token: SToken,
    pub prev: SToken,
    pub done: bool,
}

/// What a parsing step gives, and the state after it.
pub type PResult<T> = (Result<T, SFailure>, PModel);

/// The hashtags converted to modifiers, or the first one that names none.
pub open spec fn spec_cast_hashtags<T: Hashtag>(tags: Seq<Seq<char>>) -> Result<Seq<T>, Seq<char>>
    decreases tags.len(),
{
    if tags.len() == 0 {
        Ok(Seq::empty())
    } else {
        match spec_cast_hashtags::<T>(tags.drop_last()) {
            Err(t) => Err(t),
            Ok(done) => match T::spec_from_name(tags.last()) {
                Some(tag) => Ok(done.push(tag)),
                None => Err(tags.last()),
            },
        }
    }
}

/// Once a prefix of the hashtags names no modifier, so do all of them.
pub proof fn lemma_cast_err_extends<T: Hashtag>(s: Seq<Seq<char>>, j: int)
    requires
        0 <= j <= s.len(),
        spec_cast_hashtags::<T>(s.take(j)) is Err,
    ensures
        spec_cast_hashtags::<T>(s) == spec_cast_hashtags::<T>(s.take(j)),
    decreases s.len() - j,
{
    if j < s.len() {
        assert(s.take(j + 1).drop_last() =~= s.take(j));
        lemma_cast_err_extends::<T>(s, j + 1);
    } else {
        assert(s.take(j) =~= s);
    }
}

/// Tokens that start an atom.
pub open spec fn atom_start(k: TokenKind) -> bool {
    ||| k == TokenKind::OpenParen
    ||| k == TokenKind::Int
    ||| k == TokenKind::Float
    ||| k == TokenKind::Hex
    ||| k == TokenKind::Binary
    ||| k == TokenKind::String
    ||| k == TokenKind::CString
    ||| k == TokenKind::Character
    ||| k == TokenKind::True
    ||| k == TokenKind::False
    ||| k == TokenKind::Identifier
    ||| k == TokenKind::OpenBracket
    ||| k == TokenKind::OpenCurly
    ||| k == TokenKind::Arrow
    ||| k == TokenKind::KwNew
    ||| k == TokenKind::OpNot
    ||| k == TokenKind::OpSub
    ||| k == TokenKind::KwRef
}

/// Tokens that start a statement other than an expression statement.
pub open spec fn statement_keyword(k: TokenKind) -> bool {
    ||| k == TokenKind::KwRet
    ||| k == TokenKind::KwIf
    ||| k == TokenKind::KwSwitch
    ||| k == TokenKind::KwFor
    ||| k == TokenKind::KwRaw
    ||| k == TokenKind::At
}

/// Tokens that start a top level statement.
pub open spec fn top_level_start(k: TokenKind) -> bool {
    ||| k == TokenKind::KwUse
    ||| k == TokenKind::At
    ||| k == TokenKind::Hashtag
    ||| k == TokenKind::KwFun
    ||| k == TokenKind::KwRec
    ||| k == TokenKind::KwDef
    ||| k == TokenKind::KwTag
    ||| k == TokenKind::KwRaw
    ||| k == TokenKind::KwPragma
    ||| k == TokenKind::KwVar
    ||| k == TokenKind::KwLet
}

/// Tokens that a postfix operator starts with.
pub open spec fn postfix_start(k: TokenKind) -> bool {
    ||| k == TokenKind::Pointer
    ||| k == TokenKind::OpInc
    ||| k == TokenKind::OpDec
    ||| k == TokenKind::OpenParen
    ||| k == TokenKind::OpenBracket
    ||| k == TokenKind::KwAs
}

/// The operator of a one-token postfix: `^` dereferences, `++` and `--` step.
pub open spec fn postfix_kind(k: TokenKind) -> OperatorKind {
    if k == TokenKind::Pointer {
        OperatorKind::Deref
    } else if k == TokenKind::OpInc {
        OperatorKind::Inc
    } else {
        OperatorKind::Dec
    }
}

/// Whether the token `k` is a binary operator that binds at least as tightly as `min_prec`.
pub open spec fn binds_at_least(k: TokenKind, min_prec: u32) -> bool {
    spec_operator(k) is Some && spec_operator(k)->0.prec >= min_prec
}

/// Whether the operator after a right operand takes that operand away from `op`.
pub open spec fn takes_right_operand(k: TokenKind, op: Operator) -> bool {
    &&& spec_operator(k) is Some
    &&& (spec_operator(k)->0.prec > op.prec || (spec_operator(k)->0.assoc == Associativity::Right
        && spec_operator(k)->0.prec == op.prec))
}

/// The precedence floor for the operand on the right of `op` when `la` follows it.
pub open spec fn next_min_prec(op: Operator, la: Operator) -> u32 {
    if la.prec > op.prec {
        (op.prec + 1) as u32
    } else {
        op.prec
    }
}

impl PModel {
    /// The invariant of a parser between steps.
    pub open spec fn wf(self) -> bool {
        &&& self.lex.wf()
        &&& self.lex.pos <= self.lex.src.len() + 1
        &&& (self.done <==> self.token.kind == TokenKind::Eof)
        &&& (!self.done ==> self.lex.pos <= self.lex.src.len())
    }

    /// How much input is left; every step that consumes a token lowers it.
    pub open spec fn measure(self) -> nat {
        let m = self.lex.src.len() + 2 - self.lex.pos + if self.done {
            0int
        } else {
            1int
        };
        if m >= 0 {
            m as nat
        } else {
            0
        }
    }

    pub open spec fn below(self, other: PModel) -> bool {
        self.measure() < other.measure()
    }

    pub open spec fn fail<T>(self, error: SParseError, help: Option<Seq<char>>) -> PResult<T> {
        (Err(SFailure { error, help, token: self.token }), self)
    }

    /// Moves to the next token; `Ok(false)` once the input is exhausted.
    #[verifier::opaque]
    pub open spec fn advance(self) -> PResult<bool> {
        if self.done {
            (Ok(false), PModel { prev: self.token, ..self })
        } else {
            let (r, lex) = self.lex.next_token();
            match r {
                Err(e) => (
                    Err(
                        SFailure {
                            error: SParseError::AdvanceError(e),
                            help: None,
                            token: self.token,
                        },
                    ),
                    PModel { lex, prev: self.token, ..self },
                ),
                Ok(t) => (
                    Ok(t.kind != TokenKind::Eof),
                    PModel { lex, token: t, prev: self.token, done: t.kind == TokenKind::Eof },
                ),
            }
        }
    }

    /// Moves past the current token if it is of kind `kind`.
    pub open spec fn accept(self, kind: TokenKind) -> PResult<bool> {
        if self.token.kind == kind {
            let (r, s) = self.advance();
            match r {
                Ok(_) => (Ok(true), s),
                Err(f) => (Err(f), s),
            }
        } else {
            (Ok(false), self)
        }
    }

    /// Moves past the current token, which must be of kind `kind`.
    pub open spec fn expect(self, kind: TokenKind, msg: Seq<char>) -> PResult<()> {
        if self.token.kind == kind {
            let (r, s) = self.advance();
            match r {
                Ok(_) => (Ok(()), s),
                Err(f) => (Err(f), s),
            }
        } else {
            self.fail(SParseError::ExpectedToken(self.token), Some(msg))
        }
    }

    // Types

    /// Counts the leading `^`s (a count that wraps as a `u8` does).
    pub open spec fn pointer_loop(self, n: u8) -> PResult<u8>
        decreases self.measure(),
    {
        let (r, s) = self.accept(TokenKind::Pointer);
        match r {
            Err(f) => (Err(f), s),
            Ok(false) => (Ok(n), s),
            Ok(true) => if s.below(self) {
                s.pointer_loop(if n == 255 { 0 } else { (n + 1) as u8 })
            } else {
                arbitrary()
            },
        }
    }

    pub open spec fn parse_type(self) -> PResult<SNode>
        decreases self.measure(), 1nat,
    {
        let line = self.token.line;
        let column = self.token.column;
        let (rp, s1) = self.pointer_loop(0);
        match rp {
            Err(f) => (Err(f), s1),
            Ok(pointers) => {
                let (rf, s2) = s1.accept(TokenKind::KwFun);
                match rf {
                    Err(f) => (Err(f), s2),
                    Ok(true) => if s2.below(self) {
                        s2.fun_type(line, column, pointers)
                    } else {
                        arbitrary()
                    },
                    Ok(false) => s2.named_type(line, column, pointers),
                }
            },
        }
    }

    /// A function pointer type, after `fun`: `(<types>)` and an optional `: <type>`.
    pub open spec fn fun_type(self, line: int, column: int, pointers: u8) -> PResult<SNode>
        decreases self.measure(), 0nat,
    {
        let (r3, s3) = self.expect(
            TokenKind::OpenParen,
            "expected open parenthesis after `fun` type"@,
        );
        if r3 is Err {
            (Err(r3->Err_0), s3)
        } else if !s3.below(self) {
            arbitrary()
        } else {
            let (ra, s4) = if s3.token.kind != TokenKind::CloseParen {
                s3.type_args(Seq::empty())
            } else {
                (Ok(Seq::empty()), s3)
            };
            match ra {
                Err(f) => (Err(f), s4),
                Ok(args) => {
                    let (r5, s5) = s4.expect(
                        TokenKind::CloseParen,
                        "expected closing parenthesis for funptr"@,
                    );
                    if r5 is Err {
                        (Err(r5->Err_0), s5)
                    } else {
                        let (rc, s6) = s5.accept(TokenKind::Colon);
                        match rc {
                            Err(f) => (Err(f), s6),
                            Ok(c) => {
                                let (rr, s7) = if !c {
                                    (Ok(void_type(line, column)), s6)
                                } else if s6.below(self) {
                                    s6.parse_type()
                                } else {
                                    arbitrary()
                                };
                                match rr {
                                    Err(f) => (Err(f), s7),
                                    Ok(rets) => {
                                        let (rb, s8) = s7.accept(TokenKind::OpenBracket);
                                        match rb {
                                            Err(f) => (Err(f), s8),
                                            Ok(true) => s8.fail(SParseError::FunPtrWithArrays, None),
                                            Ok(false) => (
                                                Ok(
                                                    snode(
                                                        line,
                                                        column,
                                                        SKind::Type {
                                                            pointers,
                                                            name: "fun"@,
                                                            arrays: Seq::empty(),
                                                            funptr_args: Some(args),
                                                            funptr_rets: Some(Box::new(rets)),
                                                        },
                                                    ),
                                                ),
                                                s8,
                                            ),
                                        }
                                    },
                                }
                            },
                        }
                    }
                },
            }
        }
    }

    /// A named type: its name and its `[...]` suffixes.
    pub open spec fn named_type(self, line: int, column: int, pointers: u8) -> PResult<SNode> {
        let (r3, s3) = self.expect(TokenKind::Identifier, "expected type identifier"@);
        if r3 is Err {
            (Err(r3->Err_0), s3)
        } else {
            let name = s3.prev.text;
            let (ra, s4) = s3.array_dims(Seq::empty());
            match ra {
                Err(f) => (Err(f), s4),
                Ok(arrays) => (
                    Ok(
                        snode(
                            line,
                            column,
                            SKind::Type { pointers, name, arrays, funptr_args: None, funptr_rets: None },
                        ),
                    ),
                    s4,
                ),
            }
        }
    }

    /// The comma separated argument types of a function pointer type.
    pub open spec fn type_args(self, acc: Seq<SNode>) -> PResult<Seq<SNode>>
        decreases self.measure(), 2nat,
    {
        let (r, s1) = self.parse_type();
        match r {
            Err(f) => (Err(f), s1),
            Ok(t) => {
                let acc2 = acc.push(t);
                let (rc, s2) = s1.accept(TokenKind::Comma);
                match rc {
                    Err(f) => (Err(f), s2),
                    Ok(false) => (Ok(acc2), s2),
                    Ok(true) => if s2.below(self) {
                        s2.type_args(acc2)
                    } else {
                        arbitrary()
                    },
                }
            },
        }
    }

    /// The `[...]` suffixes of a named type.
    pub open spec fn array_dims(self, acc: Seq<(Option<usize>, Option<Seq<char>>)>) -> PResult<
        Seq<(Option<usize>, Option<Seq<char>>)>,
    >
        decreases self.measure(),
    {
        let (r, s1) = self.accept(TokenKind::OpenBracket);
        match r {
            Err(f) => (Err(f), s1),
            Ok(false) => (Ok(acc), s1),
            Ok(true) => {
                let (ri, s2) = s1.accept(TokenKind::Int);
                match ri {
                    Err(f) => (Err(f), s2),
                    Ok(is_int) => {
                        let (rid, s3) = if is_int {
                            (Ok(false), s2)
                        } else {
                            s2.accept(TokenKind::Identifier)
                        };
                        match rid {
                            Err(f) => (Err(f), s3),
                            Ok(is_id) => {
                                if is_int && spec_parse_usize(s3.prev.text) is None {
                                    (
                                        Err(
                                            SFailure {
                                                error: SParseError::InvalidArraySize(s3.prev.text),
                                                help: None,
                                                token: s3.prev,
                                            },
                                        ),
                                        s3,
                                    )
                                } else {
                                    let acc2 = if is_int {
                                        acc.push((spec_parse_usize(s3.prev.text), None))
                                    } else if is_id {
                                        acc.push((None, Some(s3.prev.text)))
                                    } else if s3.token.kind == TokenKind::CloseBracket {
                                        acc.push((None, None))
                                    } else {
                                        acc
                                    };
                                    let (rc, s4) = s3.expect(
                                        TokenKind::CloseBracket,
                                        "expected closed bracket to match open bracket"@,
                                    );
                                    if rc is Err {
                                        (Err(rc->Err_0), s4)
                                    } else if s4.below(self) {
                                        s4.array_dims(acc2)
                                    } else {
                                        arbitrary()
                                    }
                                }
                            },
                        }
                    },
                }
            },
        }
    }
}

impl PModel {
    pub open spec fn within(self, other: PModel) -> bool {
        self.measure() <= other.measure()
    }

    // Expressions

    /// A macro invocation, after `@`: `<id>(<params>)`.
    pub open spec fn parse_mac_invoke(self) -> PResult<SNode>
        decreases self.measure(), 7nat,
    {
        let line = self.prev.line;
        let column = self.prev.column;
        let (r1, s1) = self.expect(
            TokenKind::Identifier,
            "expected identifier after `@` to invoke a macro"@,
        );
        if r1 is Err {
            (Err(r1->Err_0), s1)
        } else {
            let name = s1.prev.text;
            let (r2, s2) = s1.expect(
                TokenKind::OpenParen,
                "expected open parenthesis, macro syntax: `'@' <id> '(' <params> ')'`"@,
            );
            if r2 is Err {
                (Err(r2->Err_0), s2)
            } else {
                let (r3, s3) = s2.accept(TokenKind::CloseParen);
                if r3 is Err {
                    (Err(r3->Err_0), s3)
                } else if r3->Ok_0 {
                    (Ok(snode(line, column, SKind::ExprMacInvoke { name, params: Seq::empty() })), s3)
                } else if !s3.below(self) {
                    arbitrary()
                } else {
                    let (r4, s4) = s3.expr_list(Seq::empty());
                    if r4 is Err {
                        (Err(r4->Err_0), s4)
                    } else {
                        let (r5, s5) = s4.expect(
                            TokenKind::CloseParen,
                            "expected closed parenthesis, macro syntax: `'@' <id> '(' <params> ')'`"@,
                        );
                        if r5 is Err {
                            (Err(r5->Err_0), s5)
                        } else {
                            (
                                Ok(
                                    snode(
                                        line,
                                        column,
                                        SKind::ExprMacInvoke { name, params: r4->Ok_0 },
                                    ),
                                ),
                                s5,
                            )
                        }
                    }
                }
            }
        }
    }

    /// A block: `{ <statements> }` or `-> <statement>`; with `advance`, its first
    /// token is the current one, else the previous one.
    pub open spec fn parse_block(self, advance: bool) -> PResult<SNode>
        decreases self.measure(), 10nat,
    {
        let (r0, s0) = if advance {
            self.advance()
        } else {
            (Ok(true), self)
        };
        if r0 is Err {
            (Err(r0->Err_0), s0)
        } else {
            let line = s0.prev.line;
            let column = s0.prev.column;
            if s0.prev.kind == TokenKind::OpenCurly {
                let (r1, s1) = s0.accept(TokenKind::CloseCurly);
                if r1 is Err {
                    (Err(r1->Err_0), s1)
                } else if r1->Ok_0 {
                    (Ok(snode(line, column, SKind::ExprBlock(Seq::empty()))), s1)
                } else if !s1.within(self) {
                    arbitrary()
                } else {
                    let (r2, s2) = s1.block_loop(Seq::empty());
                    if r2 is Err {
                        (Err(r2->Err_0), s2)
                    } else {
                        (Ok(snode(line, column, SKind::ExprBlock(r2->Ok_0))), s2)
                    }
                }
            } else if s0.prev.kind == TokenKind::Arrow {
                if !s0.within(self) {
                    arbitrary()
                } else {
                    let (r1, s1) = s0.parse_statement();
                    if r1 is Err {
                        (Err(r1->Err_0), s1)
                    } else {
                        (Ok(snode(line, column, SKind::ExprBlock(seq![r1->Ok_0]))), s1)
                    }
                }
            } else {
                (
                    Err(
                        SFailure {
                            error: SParseError::UnexpectedToken(s0.prev),
                            help: None,
                            token: s0.prev,
                        },
                    ),
                    s0,
                )
            }
        }
    }

    /// The statements of a block up to its closing `}`.
    pub open spec fn block_loop(self, acc: Seq<SNode>) -> PResult<Seq<SNode>>
        decreases self.measure(), 9nat,
    {
        let (r1, s1) = self.parse_statement();
        if r1 is Err {
            (Err(r1->Err_0), s1)
        } else {
            let acc2 = acc.push(r1->Ok_0);
            let (r2, s2) = s1.accept(TokenKind::CloseCurly);
            if r2 is Err {
                (Err(r2->Err_0), s2)
            } else if r2->Ok_0 {
                (Ok(acc2), s2)
            } else if !s2.below(self) {
                arbitrary()
            } else {
                s2.block_loop(acc2)
            }
        }
    }

    /// `let <id> (: <type>)? = <expression>`, after `let`.
    pub open spec fn parse_let(self) -> PResult<SNode>
        decreases self.measure(), 7nat,
    {
        let (r, s) = self.binding("expected identifier after `let`"@, "expected `=` after `let <id>`"@);
        if r is Err {
            (Err(r->Err_0), s)
        } else {
            let (name, typ, value) = r->Ok_0;
            (
                Ok(
                    snode(
                        self.prev.line,
                        self.prev.column,
                        SKind::ExprLet { name, typ, value: Box::new(value) },
                    ),
                ),
                s,
            )
        }
    }

    /// `var <id> (: <type>)? = <expression>`, after `var`.
    pub open spec fn parse_var(self) -> PResult<SNode>
        decreases self.measure(), 7nat,
    {
        let (r, s) = self.binding("expected identifier after `var`"@, "expected `=` after `var <id>`"@);
        if r is Err {
            (Err(r->Err_0), s)
        } else {
            let (name, typ, value) = r->Ok_0;
            (
                Ok(
                    snode(
                        self.prev.line,
                        self.prev.column,
                        SKind::ExprVar { name, typ, value: Box::new(value) },
                    ),
                ),
                s,
            )
        }
    }

    /// The name, optional type and value of a `let` or `var`.
    pub open spec fn binding(self, id_msg: Seq<char>, eq_msg: Seq<char>) -> PResult<
        (Seq<char>, Option<Box<SNode>>, SNode),
    >
        decreases self.measure(), 6nat,
    {
        let (r1, s1) = self.expect(TokenKind::Identifier, id_msg);
        if r1 is Err {
            (Err(r1->Err_0), s1)
        } else {
            let name = s1.prev.text;
            let (r2, s2) = s1.accept(TokenKind::Colon);
            if r2 is Err {
                (Err(r2->Err_0), s2)
            } else {
                let (r3, s3) = if r2->Ok_0 {
                    s2.parse_type()
                } else {
                    (Ok(void_type(0, 0)), s2)
                };
                if r3 is Err {
                    (Err(r3->Err_0), s3)
                } else {
                    let typ = if r2->Ok_0 {
                        Some(Box::new(r3->Ok_0))
                    } else {
                        None
                    };
                    let (r4, s4) = s3.expect(TokenKind::Eq, eq_msg);
                    if r4 is Err {
                        (Err(r4->Err_0), s4)
                    } else if !s4.below(self) {
                        arbitrary()
                    } else {
                        let (r5, s5) = s4.parse_expression();
                        if r5 is Err {
                            (Err(r5->Err_0), s5)
                        } else {
                            (Ok((name, typ, r5->Ok_0)), s5)
                        }
                    }
                }
            }
        }
    }

    /// An expression that uses no binary operator, with its postfix operators.
    pub open spec fn parse_atom(self) -> PResult<SNode>
        decreases self.measure(), 4nat,
    {
        let line = self.token.line;
        let column = self.token.column;
        let k = self.token.kind;
        let (r0, s0) = self.advance();
        if !atom_start(k) {
            self.fail(SParseError::ExpectedExpression(self.token), None)
        } else if r0 is Err {
            (Err(r0->Err_0), s0)
        } else if !s0.below(self) {
            arbitrary()
        } else {
            let (r1, s1) = s0.atom_primary(k, line, column);
            if r1 is Err {
                (Err(r1->Err_0), s1)
            } else if !s1.below(self) {
                arbitrary()
            } else {
                s1.parse_postfix(r1->Ok_0)
            }
        }
    }

    /// The atom that the token of kind `k` (just consumed, at `line` and `column`) starts.
    pub open spec fn atom_primary(self, k: TokenKind, line: int, column: int) -> PResult<SNode>
        decreases self.measure(), 11nat,
    {
        let text = self.prev.text;
        if k == TokenKind::OpenParen {
            let (ra, sa) = self.parse_expression();
            if ra is Err {
                (Err(ra->Err_0), sa)
            } else {
                let (rb, sb) = sa.expect(
                    TokenKind::CloseParen,
                    "expected closed parenthesis to match open parenthesis in expression group"@,
                );
                if rb is Err {
                    (Err(rb->Err_0), sb)
                } else {
                    (Ok(snode(line, column, SKind::ExprGroup(Box::new(ra->Ok_0)))), sb)
                }
            }
        } else if k == TokenKind::Int || k == TokenKind::Float || k == TokenKind::Hex || k
            == TokenKind::Binary {
            (Ok(snode(line, column, SKind::ExprNumber(text))), self)
        } else if k == TokenKind::String {
            (Ok(snode(line, column, SKind::ExprString(text))), self)
        } else if k == TokenKind::CString {
            (Ok(snode(line, column, SKind::ExprCString(text))), self)
        } else if k == TokenKind::Character {
            (Ok(snode(line, column, SKind::ExprChar(text))), self)
        } else if k == TokenKind::True {
            (Ok(snode(line, column, SKind::ExprTrue)), self)
        } else if k == TokenKind::False {
            (Ok(snode(line, column, SKind::ExprFalse)), self)
        } else if k == TokenKind::Identifier {
            (Ok(snode(line, column, SKind::ExprIdentifier(text))), self)
        } else if k == TokenKind::OpenBracket {
            let (ra, sa) = self.accept(TokenKind::CloseBracket);
            if ra is Err {
                (Err(ra->Err_0), sa)
            } else if ra->Ok_0 {
                (Ok(snode(line, column, SKind::ExprList(Seq::empty()))), sa)
            } else if !sa.within(self) {
                arbitrary()
            } else {
                let (rb, sb) = sa.expr_list(Seq::empty());
                if rb is Err {
                    (Err(rb->Err_0), sb)
                } else {
                    let (rc, sc) = sb.expect(
                        TokenKind::CloseBracket,
                        "expected closed bracket (`]`) to end list expression."@,
                    );
                    if rc is Err {
                        (Err(rc->Err_0), sc)
                    } else {
                        (Ok(snode(line, column, SKind::ExprList(rb->Ok_0))), sc)
                    }
                }
            }
        } else if k == TokenKind::OpenCurly || k == TokenKind::Arrow {
            self.parse_block(false)
        } else if k == TokenKind::KwNew {
            self.parse_new(line, column)
        } else {
            let kind = if k == TokenKind::OpNot {
                OperatorKind::Not
            } else if k == TokenKind::OpSub {
                OperatorKind::Negate
            } else {
                OperatorKind::Ref
            };
            let (ra, sa) = self.parse_atom();
            if ra is Err {
                (Err(ra->Err_0), sa)
            } else {
                (
                    Ok(
                        snode(
                            line,
                            column,
                            SKind::ExprUnaryOperator { kind, value: Box::new(ra->Ok_0) },
                        ),
                    ),
                    sa,
                )
            }
        }
    }

    /// `<id>(<params>)`, after `new`.
    pub open spec fn parse_new(self, line: int, column: int) -> PResult<SNode>
        decreases self.measure(), 8nat,
    {
        let (r1, s1) = self.expect(TokenKind::Identifier, "expected identifier after `new`"@);
        if r1 is Err {
            (Err(r1->Err_0), s1)
        } else {
            let id = s1.prev.text;
            let (r2, s2) = s1.expect(
                TokenKind::OpenParen,
                "expected open parenthesis in `new` expression"@,
            );
            if r2 is Err {
                (Err(r2->Err_0), s2)
            } else if !s2.below(self) {
                arbitrary()
            } else {
                let (r3, s3) = if s2.token.kind != TokenKind::CloseParen {
                    s2.expr_list(Seq::empty())
                } else {
                    (Ok(Seq::empty()), s2)
                };
                if r3 is Err {
                    (Err(r3->Err_0), s3)
                } else {
                    let (r4, s4) = s3.expect(
                        TokenKind::CloseParen,
                        "expected closed parenthesis to end `new` expression"@,
                    );
                    if r4 is Err {
                        (Err(r4->Err_0), s4)
                    } else {
                        (Ok(snode(line, column, SKind::ExprNew { id, params: r3->Ok_0 })), s4)
                    }
                }
            }
        }
    }

    /// The postfix operators after `node`: `^`, calls, indexing and `as`.
    pub open spec fn parse_postfix(self, node: SNode) -> PResult<SNode>
        decreases self.measure(), 1nat,
    {
        let line = node.line;
        let column = node.column;
        let k = self.token.kind;
        if !postfix_start(k) {
            (Ok(node), self)
        } else {
            let (r0, s0) = self.advance();
            if r0 is Err {
                (Err(r0->Err_0), s0)
            } else if !s0.below(self) {
                arbitrary()
            } else {
                let (r1, s1): PResult<SNode> = if k == TokenKind::Pointer || k == TokenKind::OpInc
                    || k == TokenKind::OpDec {
                    (
                        Ok(
                            snode(
                                line,
                                column,
                                SKind::ExprUnaryOperator {
                                    kind: postfix_kind(k),
                                    value: Box::new(node),
                                },
                            ),
                        ),
                        s0,
                    )
                } else if k == TokenKind::OpenParen {
                    let (ra, sa) = s0.accept(TokenKind::CloseParen);
                    if ra is Err {
                        (Err(ra->Err_0), sa)
                    } else if ra->Ok_0 {
                        (
                            Ok(
                                snode(
                                    line,
                                    column,
                                    SKind::ExprInvoke { left: Box::new(node), params: Seq::empty() },
                                ),
                            ),
                            sa,
                        )
                    } else if !sa.below(self) {
                        arbitrary()
                    } else {
                        let (rb, sb) = sa.expr_list(Seq::empty());
                        if rb is Err {
                            (Err(rb->Err_0), sb)
                        } else {
                            let (rc, sc) = sb.expect(
                                TokenKind::CloseParen,
                                "expected closed parenthesis to end parameter list"@,
                            );
                            if rc is Err {
                                (Err(rc->Err_0), sc)
                            } else {
                                (
                                    Ok(
                                        snode(
                                            line,
                                            column,
                                            SKind::ExprInvoke {
                                                left: Box::new(node),
                                                params: rb->Ok_0,
                                            },
                                        ),
                                    ),
                                    sc,
                                )
                            }
                        }
                    }
                } else if k == TokenKind::OpenBracket {
                    let (ra, sa) = s0.parse_expression();
                    if ra is Err {
                        (Err(ra->Err_0), sa)
                    } else {
                        let (rb, sb) = sa.expect(
                            TokenKind::CloseBracket,
                            "expected closed bracket (`]`) to end index operator"@,
                        );
                        if rb is Err {
                            (Err(rb->Err_0), sb)
                        } else {
                            (
                                Ok(
                                    snode(
                                        line,
                                        column,
                                        SKind::ExprBinaryOperator {
                                            kind: OperatorKind::Index,
                                            left: Box::new(node),
                                            right: Box::new(ra->Ok_0),
                                        },
                                    ),
                                ),
                                sb,
                            )
                        }
                    }
                } else {
                    let (ra, sa) = s0.parse_type();
                    if ra is Err {
                        (Err(ra->Err_0), sa)
                    } else {
                        (
                            Ok(
                                snode(
                                    line,
                                    column,
                                    SKind::ExprBinaryOperator {
                                        kind: OperatorKind::As,
                                        left: Box::new(node),
                                        right: Box::new(ra->Ok_0),
                                    },
                                ),
                            ),
                            sa,
                        )
                    }
                };
                if r1 is Err {
                    (Err(r1->Err_0), s1)
                } else if !s1.below(self) {
                    arbitrary()
                } else {
                    s1.parse_postfix(r1->Ok_0)
                }
            }
        }
    }

    /// Operator precedence parsing: the binary operators that bind at least as
    /// tightly as `min_prec`, with `left` as the first operand.
    pub open spec fn parse_expression_inner(self, left: SNode, min_prec: u32) -> PResult<SNode>
        decreases self.measure(), 2nat,
    {
        if !binds_at_least(self.token.kind, min_prec) {
            self.parse_postfix(left)
        } else {
            let op = spec_operator(self.token.kind)->0;
            let (r0, s0) = self.advance();
            if r0 is Err {
                (Err(r0->Err_0), s0)
            } else if !s0.below(self) {
                arbitrary()
            } else {
                let (r1, s1) = if op.kind == OperatorKind::As {
                    s0.parse_type()
                } else {
                    s0.parse_atom()
                };
                if r1 is Err {
                    (Err(r1->Err_0), s1)
                } else if !s1.below(self) {
                    arbitrary()
                } else {
                    let (r2, s2) = s1.right_operand(op, r1->Ok_0);
                    if r2 is Err {
                        (Err(r2->Err_0), s2)
                    } else if !s2.below(self) {
                        arbitrary()
                    } else {
                        s2.parse_expression_inner(spec_join(op.kind, left, r2->Ok_0), min_prec)
                    }
                }
            }
        }
    }

    /// Grows the right operand of `op` while the operators after it bind tighter.
    pub open spec fn right_operand(self, op: Operator, right: SNode) -> PResult<SNode>
        decreases self.measure(), 3nat,
    {
        if !takes_right_operand(self.token.kind, op) {
            (Ok(right), self)
        } else {
            let la = spec_operator(self.token.kind)->0;
            let (r1, s1) = if la.kind == OperatorKind::As {
                self.parse_type()
            } else {
                self.parse_expression_inner(right, next_min_prec(op, la))
            };
            if r1 is Err {
                (Err(r1->Err_0), s1)
            } else if !s1.below(self) {
                arbitrary()
            } else {
                s1.right_operand(op, r1->Ok_0)
            }
        }
    }

    /// An expression: a `let`, a `var`, or atoms joined by binary operators.
    pub open spec fn parse_expression(self) -> PResult<SNode>
        decreases self.measure(), 6nat,
    {
        let k = self.token.kind;
        if k == TokenKind::KwLet || k == TokenKind::KwVar {
            let (r0, s0) = self.advance();
            if r0 is Err {
                (Err(r0->Err_0), s0)
            } else if !s0.below(self) {
                arbitrary()
            } else if k == TokenKind::KwLet {
                s0.parse_let()
            } else {
                s0.parse_var()
            }
        } else {
            let (r1, s1) = self.parse_atom();
            if r1 is Err {
                (Err(r1->Err_0), s1)
            } else if !s1.below(self) {
                arbitrary()
            } else {
                let (r2, s2) = if spec_operator(s1.token.kind) is Some {
                    s1.parse_expression_inner(r1->Ok_0, 0)
                } else {
                    (Ok(r1->Ok_0), s1)
                };
                if r2 is Err {
                    (Err(r2->Err_0), s2)
                } else if !s2.below(self) {
                    arbitrary()
                } else {
                    s2.parse_postfix(r2->Ok_0)
                }
            }
        }
    }

    /// Comma separated expressions, at least one.
    pub open spec fn expr_list(self, acc: Seq<SNode>) -> PResult<Seq<SNode>>
        decreases self.measure(), 7nat,
    {
        let (r1, s1) = self.parse_expression();
        if r1 is Err {
            (Err(r1->Err_0), s1)
        } else {
            let acc2 = acc.push(r1->Ok_0);
            let (r2, s2) = s1.accept(TokenKind::Comma);
            if r2 is Err {
                (Err(r2->Err_0), s2)
            } else if !r2->Ok_0 {
                (Ok(acc2), s2)
            } else if !s2.below(self) {
                arbitrary()
            } else {
                s2.expr_list(acc2)
            }
        }
    }
}

impl PModel {
    // Statements

    /// `ret <expression>`, after `ret`.
    pub open spec fn parse_ret(self) -> PResult<SNode>
        decreases self.measure(), 7nat,
    {
        let (r, s) = self.parse_expression();
        if r is Err {
            (Err(r->Err_0), s)
        } else {
            (
                Ok(
                    snode(
                        self.prev.line,
                        self.prev.column,
                        SKind::StatRet(Some(Box::new(r->Ok_0))),
                    ),
                ),
                s,
            )
        }
    }

    /// `if <expression> <block> (else (if ... | <block>))?`, after `if`.
    pub open spec fn parse_if(self) -> PResult<SNode>
        decreases self.measure(), 7nat,
    {
        let line = self.token.line;
        let column = self.token.column;
        let (r1, s1) = self.parse_expression();
        if r1 is Err {
            (Err(r1->Err_0), s1)
        } else if !s1.below(self) {
            arbitrary()
        } else {
            let (r2, s2) = s1.parse_block(true);
            if r2 is Err {
                (Err(r2->Err_0), s2)
            } else {
                let (r3, s3) = s2.accept(TokenKind::KwElse);
                if r3 is Err {
                    (Err(r3->Err_0), s3)
                } else {
                    let (r4, s4): PResult<Option<Box<SNode>>> = if !r3->Ok_0 {
                        (Ok(None), s3)
                    } else {
                        let (ra, sa) = s3.accept(TokenKind::KwIf);
                        if ra is Err {
                            (Err(ra->Err_0), sa)
                        } else if !sa.below(self) {
                            arbitrary()
                        } else {
                            let (rb, sb) = if ra->Ok_0 {
                                sa.parse_if()
                            } else {
                                sa.parse_block(true)
                            };
                            if rb is Err {
                                (Err(rb->Err_0), sb)
                            } else {
                                (Ok(Some(Box::new(rb->Ok_0))), sb)
                            }
                        }
                    };
                    if r4 is Err {
                        (Err(r4->Err_0), s4)
                    } else {
                        (
                            Ok(
                                snode(
                                    line,
                                    column,
                                    SKind::StatIf {
                                        cond: Box::new(r1->Ok_0),
                                        expr: Box::new(r2->Ok_0),
                                        else_: r4->Ok_0,
                                    },
                                ),
                            ),
                            s4,
                        )
                    }
                }
            }
        }
    }

    /// `switch <expression> { <cases> }`, after `switch`.
    pub open spec fn parse_switch(self) -> PResult<SNode>
        decreases self.measure(), 7nat,
    {
        let line = self.token.line;
        let column = self.token.column;
        let (r1, s1) = self.parse_expression();
        if r1 is Err {
            (Err(r1->Err_0), s1)
        } else {
            let (r2, s2) = s1.expect(
                TokenKind::OpenCurly,
                "expected open curly brace (`{`) after `switch <expression>`"@,
            );
            if r2 is Err {
                (Err(r2->Err_0), s2)
            } else if !s2.below(self) {
                arbitrary()
            } else {
                let (r3, s3) = s2.switch_cases(Seq::empty());
                if r3 is Err {
                    (Err(r3->Err_0), s3)
                } else {
                    (
                        Ok(
                            snode(
                                line,
                                column,
                                SKind::StatSwitch { switch: Box::new(r1->Ok_0), cases: r3->Ok_0 },
                            ),
                        ),
                        s3,
                    )
                }
            }
        }
    }

    /// The cases of a `switch` up to its closing `}`; an `else` case comes last.
    pub open spec fn switch_cases(self, acc: Seq<(Option<Box<SNode>>, bool, Box<SNode>)>) -> PResult<
        Seq<(Option<Box<SNode>>, bool, Box<SNode>)>,
    >
        decreases self.measure(), 7nat,
    {
        let (r1, s1) = self.accept(TokenKind::KwFall);
        if r1 is Err {
            (Err(r1->Err_0), s1)
        } else {
            let is_fall = r1->Ok_0;
            let (r2, s2) = s1.accept(TokenKind::KwElse);
            if r2 is Err {
                (Err(r2->Err_0), s2)
            } else if r2->Ok_0 {
                if is_fall {
                    s2.fail(
                        SParseError::UnexpectedToken(s2.prev),
                        Some("`fall` cannot be used with `else`"@),
                    )
                } else if !s2.below(self) {
                    arbitrary()
                } else {
                    let (r3, s3) = s2.parse_block(true);
                    if r3 is Err {
                        (Err(r3->Err_0), s3)
                    } else {
                        let acc2 = acc.push((None, is_fall, Box::new(r3->Ok_0)));
                        let (r4, s4) = s3.accept(TokenKind::CloseCurly);
                        if r4 is Err {
                            (Err(r4->Err_0), s4)
                        } else if !r4->Ok_0 {
                            s4.fail(
                                SParseError::UnexpectedToken(s4.prev),
                                Some("`else` must be the last case of a `switch` statement."@),
                            )
                        } else {
                            (Ok(acc2), s4)
                        }
                    }
                }
            } else {
                let (r3, s3) = s2.expect(TokenKind::KwCase, "expected `case`"@);
                if r3 is Err {
                    (Err(r3->Err_0), s3)
                } else if !s3.below(self) {
                    arbitrary()
                } else {
                    let (r4, s4) = s3.parse_expression();
                    if r4 is Err {
                        (Err(r4->Err_0), s4)
                    } else if !s4.below(self) {
                        arbitrary()
                    } else {
                        let (r5, s5) = s4.parse_block(true);
                        if r5 is Err {
                            (Err(r5->Err_0), s5)
                        } else {
                            let acc2 = acc.push(
                                (Some(Box::new(r4->Ok_0)), is_fall, Box::new(r5->Ok_0)),
                            );
                            let (r6, s6) = s5.accept(TokenKind::CloseCurly);
                            if r6 is Err {
                                (Err(r6->Err_0), s6)
                            } else if r6->Ok_0 {
                                (Ok(acc2), s6)
                            } else if !s6.below(self) {
                                arbitrary()
                            } else {
                                s6.switch_cases(acc2)
                            }
                        }
                    }
                }
            }
        }
    }

    /// The three forms of `for`, after `for`.
    pub open spec fn parse_for(self) -> PResult<SNode>
        decreases self.measure(), 7nat,
    {
        let line = self.token.line;
        let column = self.token.column;
        let (r1, s1) = self.parse_expression();
        if r1 is Err {
            (Err(r1->Err_0), s1)
        } else {
            let first = r1->Ok_0;
            let (r2, s2) = s1.accept(TokenKind::Semicolon);
            if r2 is Err {
                (Err(r2->Err_0), s2)
            } else if r2->Ok_0 {
                if !s2.below(self) {
                    arbitrary()
                } else {
                    s2.for_c_style(line, column, first)
                }
            } else {
                let (r3, s3) = s2.accept(TokenKind::OpenCurly);
                if r3 is Err {
                    (Err(r3->Err_0), s3)
                } else {
                    let (r4, s4) = if r3->Ok_0 {
                        (Ok(true), s3)
                    } else {
                        s3.accept(TokenKind::Arrow)
                    };
                    if r4 is Err {
                        (Err(r4->Err_0), s4)
                    } else if !s4.below(self) {
                        arbitrary()
                    } else if r4->Ok_0 {
                        let (r5, s5) = s4.parse_block(false);
                        if r5 is Err {
                            (Err(r5->Err_0), s5)
                        } else {
                            (
                                Ok(
                                    snode(
                                        line,
                                        column,
                                        SKind::StatForSingleExpr {
                                            cond: Box::new(first),
                                            expr: Box::new(r5->Ok_0),
                                        },
                                    ),
                                ),
                                s5,
                            )
                        }
                    } else {
                        s4.for_range(line, column, first)
                    }
                }
            }
        }
    }

    /// `<expr> ; <expr> <block>`, after the first `;` of a C-style `for`.
    pub open spec fn for_c_style(self, line: int, column: int, def: SNode) -> PResult<SNode>
        decreases self.measure(), 7nat,
    {
        let (r1, s1) = self.parse_expression();
        if r1 is Err {
            (Err(r1->Err_0), s1)
        } else {
            let (r2, s2) = s1.expect(
                TokenKind::Semicolon,
                "C-style for loops require three expressions, separated by semicolons (i.e, `for <expr> ; <expr> ; <expr>`)"@,
            );
            if r2 is Err {
                (Err(r2->Err_0), s2)
            } else if !s2.below(self) {
                arbitrary()
            } else {
                let (r3, s3) = s2.parse_expression();
                if r3 is Err {
                    (Err(r3->Err_0), s3)
                } else if !s3.below(self) {
                    arbitrary()
                } else {
                    let (r4, s4) = s3.parse_block(true);
                    if r4 is Err {
                        (Err(r4->Err_0), s4)
                    } else {
                        (
                            Ok(
                                snode(
                                    line,
                                    column,
                                    SKind::StatForCStyle {
                                        def: Box::new(def),
                                        cond: Box::new(r1->Ok_0),
                                        inc: Box::new(r3->Ok_0),
                                        expr: Box::new(r4->Ok_0),
                                    },
                                ),
                            ),
                            s4,
                        )
                    }
                }
            }
        }
    }

    /// `(in <expr>)? to <expr> <block>`: the rest of a range `for`.
    pub open spec fn for_range(self, line: int, column: int, first: SNode) -> PResult<SNode>
        decreases self.measure(), 7nat,
    {
        let potentially_id = self.prev.text;
        let (r1, s1) = self.accept(TokenKind::KwIn);
        let msg = "Range for loop syntax: `for (<id> in)? <expr> to <expr>`"@;
        if r1 is Err {
            (Err(r1->Err_0), s1)
        } else if r1->Ok_0 {
            if !s1.below(self) {
                arbitrary()
            } else {
                let (r2, s2) = s1.parse_expression();
                if r2 is Err {
                    (Err(r2->Err_0), s2)
                } else {
                    let (r3, s3) = s2.expect(TokenKind::KwTo, msg);
                    if r3 is Err {
                        (Err(r3->Err_0), s3)
                    } else if !s3.below(self) {
                        arbitrary()
                    } else {
                        let (r4, s4) = s3.parse_expression();
                        if r4 is Err {
                            (Err(r4->Err_0), s4)
                        } else if !s4.below(self) {
                            arbitrary()
                        } else {
                            let (r5, s5) = s4.parse_block(true);
                            if r5 is Err {
                                (Err(r5->Err_0), s5)
                            } else {
                                (
                                    Ok(
                                        snode(
                                            line,
                                            column,
                                            SKind::StatForRange {
                                                var: Some(potentially_id),
                                                from: Box::new(r2->Ok_0),
                                                to: Box::new(r4->Ok_0),
                                                expr: Box::new(r5->Ok_0),
                                            },
                                        ),
                                    ),
                                    s5,
                                )
                            }
                        }
                    }
                }
            }
        } else {
            let (r3, s3) = s1.expect(TokenKind::KwTo, msg);
            if r3 is Err {
                (Err(r3->Err_0), s3)
            } else if !s3.below(self) {
                arbitrary()
            } else {
                let (r4, s4) = s3.parse_atom();
                if r4 is Err {
                    (Err(r4->Err_0), s4)
                } else if !s4.below(self) {
                    arbitrary()
                } else {
                    let (r5, s5) = s4.parse_block(true);
                    if r5 is Err {
                        (Err(r5->Err_0), s5)
                    } else {
                        (
                            Ok(
                                snode(
                                    line,
                                    column,
                                    SKind::StatForRange {
                                        var: None,
                                        from: Box::new(first),
                                        to: Box::new(r4->Ok_0),
                                        expr: Box::new(r5->Ok_0),
                                    },
                                ),
                            ),
                            s5,
                        )
                    }
                }
            }
        }
    }

    /// The text of a `raw[...]` block, after `raw`.
    pub open spec fn parse_raw(self) -> PResult<SNode> {
        let line = self.token.line;
        let column = self.token.column;
        let (r, s) = self.expect(
            TokenKind::LiteralText,
            "internal error, literal text within raw[] block not found."@,
        );
        if r is Err {
            (Err(r->Err_0), s)
        } else {
            (Ok(snode(line, column, SKind::Raw(s.prev.text))), s)
        }
    }

    /// A statement: one that starts with a keyword or `@`, or an expression.
    pub open spec fn parse_statement(self) -> PResult<SNode>
        decreases self.measure(), 8nat,
    {
        let k = self.token.kind;
        if k == TokenKind::KwBreak || k == TokenKind::KwContinue {
            let (r0, s0) = self.advance();
            if r0 is Err {
                (Err(r0->Err_0), s0)
            } else if !s0.below(self) {
                arbitrary()
            } else {
                (
                    Ok(
                        snode(
                            self.token.line as int,
                            self.token.column as int,
                            if k == TokenKind::KwBreak {
                                SKind::StatBreak
                            } else {
                                SKind::StatContinue
                            },
                        ),
                    ),
                    s0,
                )
            }
        } else if statement_keyword(k) {
            let (r0, s0) = self.advance();
            if r0 is Err {
                (Err(r0->Err_0), s0)
            } else if !s0.below(self) {
                arbitrary()
            } else if k == TokenKind::KwRet {
                s0.parse_ret()
            } else if k == TokenKind::KwIf {
                s0.parse_if()
            } else if k == TokenKind::KwSwitch {
                s0.parse_switch()
            } else if k == TokenKind::KwFor {
                s0.parse_for()
            } else if k == TokenKind::KwRaw {
                s0.parse_raw()
            } else {
                s0.parse_mac_invoke()
            }
        } else {
            let (r1, s1) = self.parse_expression();
            if r1 is Err {
                (Err(r1->Err_0), s1)
            } else {
                let e = r1->Ok_0;
                (Ok(snode(e.line, e.column, SKind::StatExpr(Box::new(e)))), s1)
            }
        }
    }
}

impl PModel {
    // Top level statements

    /// The hashtags before a top level statement, after `#`: one name or a
    /// parenthesized list.
    pub open spec fn parse_hashtags(self) -> PResult<Seq<Seq<char>>> {
        let (r1, s1) = self.accept(TokenKind::OpenParen);
        if r1 is Err {
            (Err(r1->Err_0), s1)
        } else if r1->Ok_0 {
            s1.hashtag_list(Seq::empty())
        } else {
            let (r2, s2) = s1.expect(
                TokenKind::Identifier,
                "expected identifier or parenthesis after hashtag (#)"@,
            );
            if r2 is Err {
                (Err(r2->Err_0), s2)
            } else {
                (Ok(seq![s2.prev.text]), s2)
            }
        }
    }

    /// The names of a parenthesized hashtag list up to its `)`.
    pub open spec fn hashtag_list(self, acc: Seq<Seq<char>>) -> PResult<Seq<Seq<char>>>
        decreases self.measure(),
    {
        let (r1, s1) = self.accept(TokenKind::Identifier);
        if r1 is Err {
            (Err(r1->Err_0), s1)
        } else {
            let acc2 = acc.push(s1.prev.text);
            let (r2, s2) = s1.accept(TokenKind::CloseParen);
            if r2 is Err {
                (Err(r2->Err_0), s2)
            } else if r2->Ok_0 {
                (Ok(acc2), s2)
            } else {
                let (r3, s3) = s2.expect(
                    TokenKind::Comma,
                    "expected comma or closed parenthesis after identifier in hashtag list"@,
                );
                if r3 is Err {
                    (Err(r3->Err_0), s3)
                } else if !s3.below(self) {
                    arbitrary()
                } else {
                    s3.hashtag_list(acc2)
                }
            }
        }
    }

    /// `use <id>(/<id>)* ([<id>, ...])?`, after `use`.
    pub open spec fn parse_use(self) -> PResult<SNode> {
        let line = self.prev.line;
        let column = self.prev.column;
        let (r1, s1) = self.expect(TokenKind::Identifier, "expected identifier after `use`"@);
        if r1 is Err {
            (Err(r1->Err_0), s1)
        } else {
            let (r2, s2) = s1.use_path(seq![s1.prev.text]);
            if r2 is Err {
                (Err(r2->Err_0), s2)
            } else {
                let (r3, s3) = s2.accept(TokenKind::OpenBracket);
                if r3 is Err {
                    (Err(r3->Err_0), s3)
                } else if !r3->Ok_0 {
                    (Ok(snode(line, column, SKind::TopUse(r2->Ok_0, None))), s3)
                } else {
                    let (r4, s4) = s3.use_selection(Seq::empty());
                    if r4 is Err {
                        (Err(r4->Err_0), s4)
                    } else {
                        let (r5, s5) = s4.expect(
                            TokenKind::CloseBracket,
                            "expected closed bracket (`]`) to end selective `use` statement"@,
                        );
                        if r5 is Err {
                            (Err(r5->Err_0), s5)
                        } else {
                            (
                                Ok(snode(line, column, SKind::TopUse(r2->Ok_0, Some(r4->Ok_0)))),
                                s5,
                            )
                        }
                    }
                }
            }
        }
    }

    /// The `/<id>` segments of a `use` path.
    pub open spec fn use_path(self, acc: Seq<Seq<char>>) -> PResult<Seq<Seq<char>>>
        decreases self.measure(),
    {
        let (r1, s1) = self.accept(TokenKind::OpDiv);
        if r1 is Err {
            (Err(r1->Err_0), s1)
        } else if !r1->Ok_0 {
            (Ok(acc), s1)
        } else {
            let (r2, s2) = s1.expect(
                TokenKind::Identifier,
                "expected identifier after `/` in `use`"@,
            );
            if r2 is Err {
                (Err(r2->Err_0), s2)
            } else if !s2.below(self) {
                arbitrary()
            } else {
                s2.use_path(acc.push(s2.prev.text))
            }
        }
    }

    /// The comma separated names of a selective `use`.
    pub open spec fn use_selection(self, acc: Seq<Seq<char>>) -> PResult<Seq<Seq<char>>>
        decreases self.measure(),
    {
        let (r1, s1) = self.expect(
            TokenKind::Identifier,
            "expected identifier in selective `use` statement"@,
        );
        if r1 is Err {
            (Err(r1->Err_0), s1)
        } else {
            let acc2 = acc.push(s1.prev.text);
            let (r2, s2) = s1.accept(TokenKind::Comma);
            if r2 is Err {
                (Err(r2->Err_0), s2)
            } else if !r2->Ok_0 {
                (Ok(acc2), s2)
            } else if !s2.below(self) {
                arbitrary()
            } else {
                s2.use_selection(acc2)
            }
        }
    }

    /// `<id>: <type>` pairs separated by commas, as long as an identifier comes;
    /// `msg` explains a missing colon.
    pub open spec fn named_types(self, acc: Seq<(Seq<char>, SNode)>, msg: Seq<char>) -> PResult<
        Seq<(Seq<char>, SNode)>,
    >
        decreases self.measure(),
    {
        let (r1, s1) = self.accept(TokenKind::Identifier);
        if r1 is Err {
            (Err(r1->Err_0), s1)
        } else if !r1->Ok_0 {
            (Ok(acc), s1)
        } else {
            let id = s1.prev.text;
            let (r2, s2) = s1.expect(TokenKind::Colon, msg);
            if r2 is Err {
                (Err(r2->Err_0), s2)
            } else {
                let (r3, s3) = s2.parse_type();
                if r3 is Err {
                    (Err(r3->Err_0), s3)
                } else {
                    let acc2 = acc.push((id, r3->Ok_0));
                    let (r4, s4) = s3.accept(TokenKind::Comma);
                    if r4 is Err {
                        (Err(r4->Err_0), s4)
                    } else if !r4->Ok_0 {
                        (Ok(acc2), s4)
                    } else if !s4.below(self) {
                        arbitrary()
                    } else {
                        s4.named_types(acc2, msg)
                    }
                }
            }
        }
    }

    /// `<id>(<params>)(: <type>)? <block>`, after `fun`.
    pub open spec fn parse_fun(self, tags: Seq<FunTags>) -> PResult<SNode> {
        let line = self.prev.line;
        let column = self.prev.column;
        let (r1, s1) = self.expect(TokenKind::Identifier, "expected identifier after `fun`"@);
        if r1 is Err {
            (Err(r1->Err_0), s1)
        } else {
            let id = s1.prev.text;
            let (r2, s2) = s1.expect(
                TokenKind::OpenParen,
                "expected open parenthesis after function name"@,
            );
            if r2 is Err {
                (Err(r2->Err_0), s2)
            } else {
                let (r3, s3) = s2.named_types(
                    Seq::empty(),
                    "expected colon in between parameter ID and its type"@,
                );
                if r3 is Err {
                    (Err(r3->Err_0), s3)
                } else {
                    let (r4, s4) = s3.expect(
                        TokenKind::CloseParen,
                        "expected closed parenthesis after function parameter list"@,
                    );
                    if r4 is Err {
                        (Err(r4->Err_0), s4)
                    } else {
                        let (r5, s5) = s4.accept(TokenKind::Colon);
                        if r5 is Err {
                            (Err(r5->Err_0), s5)
                        } else {
                            let (r6, s6) = if r5->Ok_0 {
                                s5.parse_type()
                            } else {
                                (Ok(void_type(line, column)), s5)
                            };
                            if r6 is Err {
                                (Err(r6->Err_0), s6)
                            } else {
                                let (r7, s7) = s6.parse_block(true);
                                if r7 is Err {
                                    (Err(r7->Err_0), s7)
                                } else {
                                    (
                                        Ok(
                                            snode(
                                                line,
                                                column,
                                                SKind::TopFun {
                                                    tags,
                                                    id,
                                                    params: r3->Ok_0,
                                                    rets: Box::new(r6->Ok_0),
                                                    expr: Box::new(r7->Ok_0),
                                                },
                                            ),
                                        ),
                                        s7,
                                    )
                                }
                            }
                        }
                    }
                }
            }
        }
    }

    /// `<id>(<fields>)`, after `rec`.
    pub open spec fn parse_rec(self, tags: Seq<RecTags>) -> PResult<SNode> {
        let line = self.prev.line;
        let column = self.prev.column;
        let (r1, s1) = self.expect(TokenKind::Identifier, "expected identifier after `rec`"@);
        if r1 is Err {
            (Err(r1->Err_0), s1)
        } else {
            let id = s1.prev.text;
            let (r2, s2) = s1.expect(
                TokenKind::OpenParen,
                "expected open parenthesis after record name"@,
            );
            if r2 is Err {
                (Err(r2->Err_0), s2)
            } else {
                let (r3, s3) = s2.named_types(
                    Seq::empty(),
                    "expected colon in between field ID and its type"@,
                );
                if r3 is Err {
                    (Err(r3->Err_0), s3)
                } else {
                    let (r4, s4) = s3.expect(
                        TokenKind::CloseParen,
                        "expected closed parenthesis after record field list"@,
                    );
                    if r4 is Err {
                        (Err(r4->Err_0), s4)
                    } else {
                        (Ok(snode(line, column, SKind::TopRec { tags, id, fields: r3->Ok_0 })), s4)
                    }
                }
            }
        }
    }

    /// `<id> = <type>`, after `def`.
    pub open spec fn parse_def(self, tags: Seq<DefTags>) -> PResult<SNode> {
        let line = self.prev.line;
        let column = self.prev.column;
        let (r1, s1) = self.expect(TokenKind::Identifier, "expected identifier after `def`"@);
        if r1 is Err {
            (Err(r1->Err_0), s1)
        } else {
            let id = s1.prev.text;
            let (r2, s2) = s1.expect(TokenKind::Eq, "expected `=` after `def <identifier>`"@);
            if r2 is Err {
                (Err(r2->Err_0), s2)
            } else {
                let (r3, s3) = s2.parse_type();
                if r3 is Err {
                    (Err(r3->Err_0), s3)
                } else {
                    (
                        Ok(snode(line, column, SKind::TopDef { tags, id, typ: Box::new(r3->Ok_0) })),
                        s3,
                    )
                }
            }
        }
    }

    /// `<id>(<entries>)`, after `tag`.
    pub open spec fn parse_tag(self, tags: Seq<TagTags>) -> PResult<SNode> {
        let line = self.prev.line;
        let column = self.prev.column;
        let (r1, s1) = self.expect(TokenKind::Identifier, "expected identifier after `tag`"@);
        if r1 is Err {
            (Err(r1->Err_0), s1)
        } else {
            let id = s1.prev.text;
            let (r2, s2) = s1.expect(TokenKind::OpenParen, "expected open parenthesis after tag name"@);
            if r2 is Err {
                (Err(r2->Err_0), s2)
            } else {
                let (r3, s3) = s2.tag_entries(Seq::empty());
                if r3 is Err {
                    (Err(r3->Err_0), s3)
                } else {
                    let (r4, s4) = s3.expect(
                        TokenKind::CloseParen,
                        "expected closed parenthesis after tag entry list"@,
                    );
                    if r4 is Err {
                        (Err(r4->Err_0), s4)
                    } else {
                        (Ok(snode(line, column, SKind::TopTag { tags, id, entries: r3->Ok_0 })), s4)
                    }
                }
            }
        }
    }

    /// The entries of a tag: names, each with an optional `= <number>`, and optional commas.
    pub open spec fn tag_entries(self, acc: Seq<(Seq<char>, Option<Box<SNode>>)>) -> PResult<
        Seq<(Seq<char>, Option<Box<SNode>>)>,
    >
        decreases self.measure(),
    {
        let (r1, s1) = self.accept(TokenKind::Identifier);
        if r1 is Err {
            (Err(r1->Err_0), s1)
        } else if !r1->Ok_0 {
            (Ok(acc), s1)
        } else {
            let id = s1.prev.text;
            let (r2, s2) = s1.accept(TokenKind::Eq);
            if r2 is Err {
                (Err(r2->Err_0), s2)
            } else {
                let (r3, s3): PResult<Option<Box<SNode>>> = if !r2->Ok_0 {
                    (Ok(None), s2)
                } else {
                    let (ra, sa) = s2.parse_atom();
                    if ra is Err {
                        (Err(ra->Err_0), sa)
                    } else if ra->Ok_0.node is ExprNumber {
                        (Ok(Some(Box::new(ra->Ok_0))), sa)
                    } else {
                        sa.fail(SParseError::ExpectedTokenOfKind(TokenKind::Int), None)
                    }
                };
                if r3 is Err {
                    (Err(r3->Err_0), s3)
                } else {
                    let acc2 = acc.push((id, r3->Ok_0));
                    let (r4, s4) = s3.accept(TokenKind::Comma);
                    if r4 is Err {
                        (Err(r4->Err_0), s4)
                    } else if !s4.below(self) {
                        arbitrary()
                    } else {
                        s4.tag_entries(acc2)
                    }
                }
            }
        }
    }

    /// `<id>(<entries>)`, after `tag rec`.
    pub open spec fn parse_tagrec(self, tags: Seq<TagRecTags>) -> PResult<SNode> {
        let line = self.prev.line;
        let column = self.prev.column;
        let (r1, s1) = self.expect(TokenKind::Identifier, "expected identifier after `tag`"@);
        if r1 is Err {
            (Err(r1->Err_0), s1)
        } else {
            let id = s1.prev.text;
            let (r2, s2) = s1.expect(TokenKind::OpenParen, "expected open parenthesis after tag name"@);
            if r2 is Err {
                (Err(r2->Err_0), s2)
            } else {
                let (r3, s3) = s2.tagrec_entries(Seq::empty());
                if r3 is Err {
                    (Err(r3->Err_0), s3)
                } else {
                    let (r4, s4) = s3.expect(
                        TokenKind::CloseParen,
                        "expected closed parenthesis after tag entry list"@,
                    );
                    if r4 is Err {
                        (Err(r4->Err_0), s4)
                    } else {
                        (
                            Ok(snode(line, column, SKind::TopTagRec { tags, id, entries: r3->Ok_0 })),
                            s4,
                        )
                    }
                }
            }
        }
    }

    /// The entries of a tagged record: names, each with optional `(<fields>)`, and
    /// optional commas.
    pub open spec fn tagrec_entries(self, acc: Seq<(Seq<char>, Seq<(Seq<char>, SNode)>)>) -> PResult<
        Seq<(Seq<char>, Seq<(Seq<char>, SNode)>)>,
    >
        decreases self.measure(),
    {
        let (r1, s1) = self.accept(TokenKind::Identifier);
        if r1 is Err {
            (Err(r1->Err_0), s1)
        } else if !r1->Ok_0 {
            (Ok(acc), s1)
        } else {
            let id = s1.prev.text;
            let (r2, s2) = s1.accept(TokenKind::OpenParen);
            if r2 is Err {
                (Err(r2->Err_0), s2)
            } else {
                let (r3, s3): PResult<Seq<(Seq<char>, SNode)>> = if !r2->Ok_0 {
                    (Ok(Seq::empty()), s2)
                } else {
                    let (ra, sa) = s2.named_types(
                        Seq::empty(),
                        "expected colon in between field ID and its type"@,
                    );
                    if ra is Err {
                        (Err(ra->Err_0), sa)
                    } else {
                        let (rb, sb) = sa.expect(
                            TokenKind::CloseParen,
                            "expected closed parenthesis after `tag rec` entry list"@,
                        );
                        if rb is Err {
                            (Err(rb->Err_0), sb)
                        } else {
                            (Ok(ra->Ok_0), sb)
                        }
                    }
                };
                if r3 is Err {
                    (Err(r3->Err_0), s3)
                } else {
                    let acc2 = acc.push((id, r3->Ok_0));
                    let (r4, s4) = s3.accept(TokenKind::Comma);
                    if r4 is Err {
                        (Err(r4->Err_0), s4)
                    } else if !s4.below(self) {
                        arbitrary()
                    } else {
                        s4.tagrec_entries(acc2)
                    }
                }
            }
        }
    }

    /// `<id>(<params>)`, after `pragma`.
    pub open spec fn parse_pragma(self) -> PResult<SNode> {
        let line = self.prev.line;
        let column = self.prev.column;
        let (r1, s1) = self.expect(TokenKind::Identifier, "expected identifier after `pragma`"@);
        if r1 is Err {
            (Err(r1->Err_0), s1)
        } else {
            let id = s1.prev.text;
            let (r2, s2) = s1.expect(
                TokenKind::OpenParen,
                "expected open parenthesis after pragma identifier"@,
            );
            if r2 is Err {
                (Err(r2->Err_0), s2)
            } else {
                let (r3, s3) = s2.accept(TokenKind::CloseParen);
                if r3 is Err {
                    (Err(r3->Err_0), s3)
                } else {
                    let (r4, s4) = if r3->Ok_0 {
                        (Ok(Seq::empty()), s3)
                    } else {
                        s3.expr_list(Seq::empty())
                    };
                    if r4 is Err {
                        (Err(r4->Err_0), s4)
                    } else {
                        let (r5, s5) = s4.expect(
                            TokenKind::CloseParen,
                            "expected closed parenthesis after pragma argument list"@,
                        );
                        if r5 is Err {
                            (Err(r5->Err_0), s5)
                        } else {
                            (Ok(snode(line, column, SKind::TopPragma { id, params: r4->Ok_0 })), s5)
                        }
                    }
                }
            }
        }
    }

    /// What follows the hashtags `tags`: a `fun`, `rec`, `def`, `tag` or `tag rec`
    /// whose modifiers they name.
    pub open spec fn tagged_item(self, tags: Seq<Seq<char>>) -> PResult<SNode> {
        let k = self.token.kind;
        if k == TokenKind::KwFun || k == TokenKind::KwRec || k == TokenKind::KwDef || k
            == TokenKind::KwTag {
            let (r0, s0) = self.advance();
            if r0 is Err {
                (Err(r0->Err_0), s0)
            } else if k == TokenKind::KwFun {
                match spec_cast_hashtags::<FunTags>(tags) {
                    Err(t) => s0.fail(SParseError::UnknownHashtag(t), None),
                    Ok(ts) => s0.parse_fun(ts),
                }
            } else if k == TokenKind::KwRec {
                match spec_cast_hashtags::<RecTags>(tags) {
                    Err(t) => s0.fail(SParseError::UnknownHashtag(t), None),
                    Ok(ts) => s0.parse_rec(ts),
                }
            } else if k == TokenKind::KwDef {
                match spec_cast_hashtags::<DefTags>(tags) {
                    Err(t) => s0.fail(SParseError::UnknownHashtag(t), None),
                    Ok(ts) => s0.parse_def(ts),
                }
            } else {
                let (r1, s1) = s0.accept(TokenKind::KwRec);
                if r1 is Err {
                    (Err(r1->Err_0), s1)
                } else if r1->Ok_0 {
                    match spec_cast_hashtags::<TagRecTags>(tags) {
                        Err(t) => s1.fail(SParseError::UnknownHashtag(t), None),
                        Ok(ts) => s1.parse_tagrec(ts),
                    }
                } else {
                    match spec_cast_hashtags::<TagTags>(tags) {
                        Err(t) => s1.fail(SParseError::UnknownHashtag(t), None),
                        Ok(ts) => s1.parse_tag(ts),
                    }
                }
            }
        } else {
            self.fail(
                SParseError::UnexpectedToken(self.token),
                Some("hashtags can only be applied to [fun, rec, def, mac, tag, tag rec]"@),
            )
        }
    }

    /// A `tag` or a `tag rec`, after `tag`.
    pub open spec fn tag_or_tagrec(self) -> PResult<SNode> {
        let (r1, s1) = self.accept(TokenKind::KwRec);
        if r1 is Err {
            (Err(r1->Err_0), s1)
        } else if r1->Ok_0 {
            s1.parse_tagrec(Seq::empty())
        } else {
            s1.parse_tag(Seq::empty())
        }
    }

    /// A `var` or `let` at the top level, as an expression statement.
    pub open spec fn top_binding(self, is_let: bool) -> PResult<SNode> {
        let (r, s) = if is_let {
            self.parse_let()
        } else {
            self.parse_var()
        };
        if r is Err {
            (Err(r->Err_0), s)
        } else {
            let it = r->Ok_0;
            (Ok(snode(it.line, it.line, SKind::StatExpr(Box::new(it)))), s)
        }
    }

    /// A top level statement.
    pub open spec fn parse_top_level_statement(self) -> PResult<SNode> {
        let k = self.token.kind;
        if top_level_start(k) {
            let (r0, s0) = self.advance();
            if r0 is Err {
                (Err(r0->Err_0), s0)
            } else if k == TokenKind::KwUse {
                s0.parse_use()
            } else if k == TokenKind::At {
                s0.parse_mac_invoke()
            } else if k == TokenKind::Hashtag {
                let (r1, s1) = s0.parse_hashtags();
                if r1 is Err {
                    (Err(r1->Err_0), s1)
                } else {
                    s1.tagged_item(r1->Ok_0)
                }
            } else if k == TokenKind::KwFun {
                s0.parse_fun(Seq::empty())
            } else if k == TokenKind::KwRec {
                s0.parse_rec(Seq::empty())
            } else if k == TokenKind::KwDef {
                s0.parse_def(Seq::empty())
            } else if k == TokenKind::KwTag {
                s0.tag_or_tagrec()
            } else if k == TokenKind::KwRaw {
                s0.parse_raw()
            } else if k == TokenKind::KwPragma {
                s0.parse_pragma()
            } else {
                s0.top_binding(k == TokenKind::KwLet)
            }
        } else {
            self.fail(SParseError::UnexpectedToken(self.token), None)
        }
    }

    /// Top level statements up to the end of the input.
    pub open spec fn program_loop(self, acc: Seq<SNode>) -> PResult<Seq<SNode>>
        decreases self.measure(),
    {
        if self.done {
            (Ok(acc), self)
        } else {
            let (r, s) = self.parse_top_level_statement();
            if r is Err {
                (Err(r->Err_0), s)
            } else if !s.below(self) {
                arbitrary()
            } else {
                s.program_loop(acc.push(r->Ok_0))
            }
        }
    }

    /// A whole program; with `add_implicit_use_std` it starts with `use std`.
    pub open spec fn parse(self, add_implicit_use_std: bool) -> PResult<SNode> {
        let first = if add_implicit_use_std {
            seq![snode(0, 0, SKind::TopUse(seq!["std"@], None))]
        } else {
            Seq::empty()
        };
        let (r0, s0) = self.advance();
        if r0 is Err {
            (Err(r0->Err_0), s0)
        } else {
            let (r1, s1) = s0.program_loop(first);
            if r1 is Err {
                (Err(r1->Err_0), s1)
            } else {
                (Ok(snode(0, 0, SKind::Program(r1->Ok_0))), s1)
            }
        }
    }
}

/// Each step of the parser keeps its invariant and never moves backwards; a step
/// before the end of the input moves forwards.
pub proof fn lemma_advance(s: PModel)
    requires
        s.wf(),
    ensures
        s.advance().0 is Ok ==> s.advance().1.wf(),
        s.advance().1.measure() <= s.measure(),
        !s.done ==> s.advance().1.below(s),
        s.advance().1.lex.src == s.lex.src,
{
    reveal(PModel::advance);
    if !s.done {
        lemma_get_next_token(s.lex);
    }
}

/// `-> S` wraps the statement `S` in braces: after `->`, and after a `{` whose
/// only statement is `S` and is closed by `}`, the block holds `S` alone.
pub proof fn law_arrow_is_braces(a: PModel, b: PModel)
    requires
        a.prev.kind == TokenKind::Arrow,
        b.prev.kind == TokenKind::OpenCurly,
        b.token.kind != TokenKind::CloseCurly,
        a.parse_statement().0 is Ok,
        b.parse_statement().0 == a.parse_statement().0,
        b.parse_statement().1.token.kind == TokenKind::CloseCurly,
        b.parse_statement().1.accept(TokenKind::CloseCurly).0 is Ok,
    ensures
        a.parse_block(false).0 == Ok::<SNode, SFailure>(
            snode(a.prev.line, a.prev.column, SKind::ExprBlock(seq![a.parse_statement().0->Ok_0])),
        ),
        b.parse_block(false).0 == Ok::<SNode, SFailure>(
            snode(b.prev.line, b.prev.column, SKind::ExprBlock(seq![a.parse_statement().0->Ok_0])),
        ),
{
    let st = a.parse_statement().0->Ok_0;
    assert(Seq::<SNode>::empty().push(st) =~= seq![st]);
    assert(b.accept(TokenKind::CloseCurly) == (Ok::<bool, SFailure>(false), b));
    assert(b.block_loop(Seq::empty()).0 == Ok::<Seq<SNode>, SFailure>(seq![st]));
}

/// `{` directly followed by `}` is the empty block.
pub proof fn law_empty_block(b: PModel)
    requires
        b.prev.kind == TokenKind::OpenCurly,
        b.token.kind == TokenKind::CloseCurly,
        b.accept(TokenKind::CloseCurly).0 is Ok,
    ensures
        b.parse_block(false).0 == Ok::<SNode, SFailure>(snode(b.prev.line, b.prev.column, SKind::ExprBlock(Seq::empty()))),
{
}

} // verus!
