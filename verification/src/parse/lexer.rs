use vstd::prelude::*;

use crate::chars::{
    char_is_alphabetic, char_is_alphanumeric, char_is_numeric, char_is_whitespace, is_alphabetic,
    is_alphanumeric, is_numeric, is_whitespace,
};
use crate::text::{chars_of, push_char, remove_first_char};

use super::error::{LexError, LexErrorKind, SLexError};
use super::token::{empty_stoken, SToken, Token, TokenKind};

verus! {

/// The character at `pos`, or `'\0'` past the end of the input.
pub open spec fn peek_at(src: Seq<char>, pos: int) -> char {
    if 0 <= pos < src.len() {
        src[pos]
    } else {
        '\0'
    }
}

/// Characters that may start an identifier.
pub open spec fn spec_is_valid_id_start(ch: char) -> bool {
    char_is_alphabetic(ch) || ch == '_' || ch == '$'
}

/// Characters that may continue an identifier.
pub open spec fn spec_is_valid_id(ch: char) -> bool {
    spec_is_valid_id_start(ch) || char_is_numeric(ch)
}

/// The token kind of a keyword, if `word` is one.
pub open spec fn spec_keyword_kind(word: Seq<char>) -> Option<TokenKind> {
    if word == "use"@ { Some(TokenKind::KwUse) }
    else if word == "pkg"@ { Some(TokenKind::KwPkg) }
    else if word == "rec"@ { Some(TokenKind::KwRec) }
    else if word == "fun"@ { Some(TokenKind::KwFun) }
    else if word == "var"@ { Some(TokenKind::KwVar) }
    else if word == "let"@ { Some(TokenKind::KwLet) }
    else if word == "ret"@ { Some(TokenKind::KwRet) }
    else if word == "raw"@ { Some(TokenKind::KwRaw) }
    else if word == "if"@ { Some(TokenKind::KwIf) }
    else if word == "else"@ { Some(TokenKind::KwElse) }
    else if word == "for"@ { Some(TokenKind::KwFor) }
    else if word == "each"@ { Some(TokenKind::KwEach) }
    else if word == "of"@ { Some(TokenKind::KwOf) }
    else if word == "continue"@ { Some(TokenKind::KwContinue) }
    else if word == "break"@ { Some(TokenKind::KwBreak) }
    else if word == "defer"@ { Some(TokenKind::KwDefer) }
    else if word == "new"@ { Some(TokenKind::KwNew) }
    else if word == "ref"@ { Some(TokenKind::KwRef) }
    else if word == "as"@ { Some(TokenKind::KwAs) }
    else if word == "to"@ { Some(TokenKind::KwTo) }
    else if word == "in"@ { Some(TokenKind::KwIn) }
    else if word == "def"@ { Some(TokenKind::KwDef) }
    else if word == "tag"@ { Some(TokenKind::KwTag) }
    else if word == "pragma"@ { Some(TokenKind::KwPragma) }
    else if word == "switch"@ { Some(TokenKind::KwSwitch) }
    else if word == "case"@ { Some(TokenKind::KwCase) }
    else if word == "fall"@ { Some(TokenKind::KwFall) }
    else if word == "not"@ { Some(TokenKind::OpNot) }
    else if word == "and"@ { Some(TokenKind::OpAnd) }
    else if word == "or"@ { Some(TokenKind::OpOr) }
    else if word == "true"@ { Some(TokenKind::True) }
    else if word == "false"@ { Some(TokenKind::False) }
    else { None }
}

/// What one lexing step gives: a token or an error.
pub type LexResult = Result<SToken, SLexError>;

/// Where the lexer stands, as mathematical values.
pub struct LexModel {
    pub file: Seq<char>,
    pub src: Seq<char>,
    pub start: int,
    pub column: int,
    pub pos: int,
    pub line: int,
    pub prev_token: SToken,
    pub cur: char,
    pub prev: char,
    pub buffer: Seq<char>,
}

/// The state of the scan over a `raw[...]` block.
pub struct RawScan {
    pub depth: int,
    pub in_string: bool,
    pub in_char: bool,
    pub in_single_line_comment: bool,
    pub in_multiline_comment: bool,
}

impl RawScan {
    /// Outside strings, character literals and comments of the embedded C code.
    pub open spec fn free(self) -> bool {
        !self.in_single_line_comment && !self.in_multiline_comment && !self.in_string
            && !self.in_char
    }

    /// How the scan state changes on seeing `ch` after `cur`.
    pub open spec fn step(self, ch: char, cur: char) -> RawScan {
        if ch == '"' && !self.in_single_line_comment && !self.in_multiline_comment
            && !self.in_char && cur != '\\' {
            RawScan { in_string: !self.in_string, ..self }
        } else if ch == '\'' && !self.in_single_line_comment && !self.in_multiline_comment
            && !self.in_string && cur != '\\' {
            RawScan { in_char: !self.in_char, ..self }
        } else if ch == '/' && !self.in_string && !self.in_char {
            if cur == '/' && !self.in_multiline_comment {
                RawScan { in_single_line_comment: true, ..self }
            } else if cur == '*' && !self.in_single_line_comment {
                RawScan { in_multiline_comment: false, ..self }
            } else {
                self
            }
        } else if ch == '*' && cur == '/' && !self.in_string && !self.in_char
            && !self.in_single_line_comment {
            RawScan { in_multiline_comment: true, ..self }
        } else if ch == '[' && self.free() {
            RawScan { depth: self.depth + 1, ..self }
        } else if ch == ']' && self.free() {
            RawScan { depth: self.depth - 1, ..self }
        } else if ch == '\n' {
            RawScan { in_single_line_comment: false, ..self }
        } else {
            self
        }
    }
}

impl LexModel {
    /// The invariant of a lexer between (and within) steps.
    pub open spec fn wf(self) -> bool {
        &&& self.src.len() + 8 < usize::MAX / 2
        &&& 0 <= self.start <= self.pos
        &&& 1 <= self.column <= self.pos + 1
        &&& 1 <= self.line <= self.pos + 1
        &&& (self.cur != '\0' ==> self.pos <= self.src.len())
    }

    /// The lexer may take a step without its counters leaving `usize`.
    pub open spec fn ready(self) -> bool {
        self.wf() && self.pos < usize::MAX / 2
    }

    pub open spec fn peek(self) -> char {
        peek_at(self.src, self.pos)
    }

    pub open spec fn skip_no_buffer(self) -> LexModel {
        LexModel {
            prev: self.cur,
            cur: self.peek(),
            pos: self.pos + 1,
            column: self.column + 1,
            ..self
        }
    }

    pub open spec fn skip(self) -> LexModel {
        let m = self.skip_no_buffer();
        LexModel { buffer: m.buffer.push(m.cur), ..m }
    }

    /// Consumes the next character into the buffer (the character is `self.peek()`).
    pub open spec fn advance(self) -> LexModel {
        LexModel { buffer: self.buffer.push(self.peek()), ..self }.skip_no_buffer()
    }

    pub open spec fn is_done(self) -> bool {
        self.cur == '\0'
    }

    pub open spec fn newline(self) -> LexModel {
        LexModel { line: self.line + 1, column: 1, ..self }
    }

    pub open spec fn make_token(self, kind: TokenKind) -> SToken {
        SToken {
            kind,
            start: self.start,
            column: self.column,
            len: self.pos - self.start,
            text: self.buffer,
            line: self.line,
        }
    }

    pub open spec fn make_error_token(self) -> SToken {
        SToken {
            kind: TokenKind::Error,
            start: self.start,
            column: self.column,
            len: 1,
            text: Seq::empty(),
            line: self.line,
        }
    }

    pub open spec fn make_error(self, error: LexErrorKind) -> SLexError {
        SLexError { error, token: self.make_error_token() }
    }

    /// Skips blanks; a newline moves to column 1 of the next line.
    pub open spec fn skip_whitespace(self) -> LexModel
        decreases self.src.len() - self.pos,
    {
        if 0 <= self.pos < self.src.len() {
            let ch = self.peek();
            if ch == '\n' {
                self.skip_no_buffer().newline().skip_whitespace()
            } else if char_is_whitespace(ch) {
                self.skip().skip_whitespace()
            } else {
                self
            }
        } else {
            self
        }
    }

    /// The body of a string literal, up to (not including) the closing quote.
    pub open spec fn string_loop(self) -> LexModel
        decreases self.src.len() + 2 - self.pos,
    {
        if self.peek() != '"' && !self.is_done() && self.pos <= self.src.len() {
            let m1 = if self.peek() == '\\' {
                self.skip()
            } else {
                self
            };
            let m2 = if m1.cur == '\n' {
                m1.newline()
            } else {
                m1
            };
            m2.skip().string_loop()
        } else {
            self
        }
    }

    /// A string literal whose opening quote was just consumed.
    pub open spec fn lex_string(self) -> (LexResult, LexModel) {
        let m0 = LexModel { start: self.start + 1, buffer: self.buffer.drop_first(), ..self };
        let m = m0.string_loop();
        if m.is_done() {
            (
                Err(
                    SLexError {
                        error: LexErrorKind::UnterminatedString,
                        token: SToken {
                            kind: TokenKind::String,
                            start: m.start,
                            column: self.column - 1,
                            len: 1,
                            text: Seq::empty(),
                            line: self.line,
                        },
                    },
                ),
                m,
            )
        } else {
            let m1 = m.skip_no_buffer();
            (Ok(m1.make_token(TokenKind::String)), m1)
        }
    }

    /// A C string literal whose `c` was just consumed.
    pub open spec fn lex_c_string(self) -> (LexResult, LexModel) {
        let m0 = LexModel { start: self.start + 1, ..self }.advance();
        let m1 = LexModel { buffer: m0.buffer.drop_first(), ..m0 };
        let (r, m2) = m1.lex_string();
        (
            match r {
                Ok(t) => Ok(SToken { kind: TokenKind::CString, ..t }),
                Err(e) => Err(e),
            },
            m2,
        )
    }

    pub open spec fn char_loop(self) -> LexModel
        decreases self.src.len() + 2 - self.pos,
    {
        if self.peek() != '`' && !self.is_done() && self.pos <= self.src.len() {
            self.skip().char_loop()
        } else {
            self
        }
    }

    /// A character literal whose opening backtick was just consumed.
    pub open spec fn lex_char(self) -> (LexResult, LexModel) {
        let m0 = LexModel { start: self.start + 1, ..self };
        let m1 = m0.advance();
        let m2 = LexModel { buffer: m1.buffer.drop_first(), ..m1 };
        let m = m2.char_loop();
        if m.is_done() {
            (
                Err(
                    SLexError {
                        error: LexErrorKind::UnterminatedChar,
                        token: SToken {
                            kind: TokenKind::String,
                            start: m.start,
                            column: self.column - 1,
                            len: 1,
                            text: Seq::empty(),
                            line: self.line,
                        },
                    },
                ),
                m,
            )
        } else {
            let m3 = m.skip_no_buffer();
            (Ok(m3.make_token(TokenKind::Character)), m3)
        }
    }

    /// The rest of a number literal; a second `.` is an error.
    pub open spec fn number_loop(self, is_float: bool) -> (LexResult, LexModel)
        decreases self.src.len() - self.pos,
    {
        let ch = self.peek();
        if 0 <= self.pos < self.src.len() && (char_is_alphanumeric(ch) || ch == '_' || ch
            == '.') {
            if ch == '.' && is_float {
                (Err(self.make_error(LexErrorKind::UnexpectedCharacter('.'))), self)
            } else {
                self.skip().number_loop(is_float || ch == '.')
            }
        } else {
            (
                Ok(
                    self.make_token(
                        if is_float {
                            TokenKind::Float
                        } else {
                            TokenKind::Int
                        },
                    ),
                ),
                self,
            )
        }
    }

    pub open spec fn id_loop(self) -> LexModel
        decreases self.src.len() - self.pos,
    {
        if 0 <= self.pos < self.src.len() && spec_is_valid_id(self.peek()) {
            self.skip().id_loop()
        } else {
            self
        }
    }

    /// The identifier parts after a namespace separator `'`.
    pub open spec fn namespace_loop(self) -> Result<LexModel, (SLexError, LexModel)>
        decreases self.src.len() - self.pos,
    {
        if 0 <= self.pos < self.src.len() && spec_is_valid_id(self.peek()) {
            let m = self.skip();
            if m.peek() == '\'' {
                let m2 = m.advance();
                if m2.peek() == '\'' {
                    Err((m2.make_error(LexErrorKind::UnexpectedCharacter('\'')), m2))
                } else {
                    m2.namespace_loop()
                }
            } else {
                m.namespace_loop()
            }
        } else {
            Ok(self)
        }
    }

    /// An identifier (with namespaces) or a keyword.
    pub open spec fn lex_id_or_keyword(self) -> (LexResult, LexModel) {
        let m1 = self.id_loop();
        let r = if m1.peek() == '\'' {
            let m2 = m1.advance();
            if m2.peek() == '\'' {
                Err((m2.make_error(LexErrorKind::UnexpectedCharacter('\'')), m2))
            } else {
                m2.namespace_loop()
            }
        } else {
            Ok(m1)
        };
        match r {
            Err((e, m)) => (Err(e), m),
            Ok(m) => match spec_keyword_kind(m.buffer) {
                Some(k) => (Ok(m.make_token(k)), m),
                None => (Ok(m.make_token(TokenKind::Identifier)), m),
            },
        }
    }

    /// The scan over a raw block: `true` with the state after its closing `]`, or
    /// `false` where the input ends first.
    pub open spec fn raw_loop(self, st: RawScan) -> (bool, LexModel)
        decreases self.src.len() - self.pos,
    {
        let ch = self.peek();
        if ch == '\0' {
            (false, self)
        } else if ch == ']' && st.free() && st.depth - 1 == 0 {
            (true, self.skip_no_buffer())
        } else {
            let m = if ch == '\n' {
                LexModel { line: self.line + 1, ..self }
            } else {
                self
            };
            m.skip().raw_loop(st.step(ch, self.cur))
        }
    }

    /// The C code of a `raw[...]` block whose opening `[` was just consumed.
    pub open spec fn lex_raw_block(self) -> (LexResult, LexModel) {
        let m0 = LexModel { buffer: Seq::empty(), ..self };
        let (ok, m) = m0.raw_loop(
            RawScan {
                depth: 1,
                in_string: false,
                in_char: false,
                in_single_line_comment: false,
                in_multiline_comment: false,
            },
        );
        if ok {
            (Ok(m.make_token(TokenKind::LiteralText)), m)
        } else {
            (Err(m.make_error(LexErrorKind::UnterminatedRawBlock)), m)
        }
    }

    /// A `//` comment, which ends with its line or with the input: `true` with the
    /// state before its newline or at the end of the input.
    pub open spec fn line_comment(self) -> (bool, LexModel)
        decreases self.src.len() - self.pos,
    {
        if self.pos >= self.src.len() {
            (true, self)
        } else if self.peek() == '\n' {
            (true, self)
        } else {
            self.skip_no_buffer().line_comment()
        }
    }

    /// A (nestable) block comment at nesting `depth`: `true` with the state on its
    /// closing `*`, or `false` where the input ends first.
    pub open spec fn block_comment(self, depth: int) -> (bool, LexModel)
        decreases self.src.len() - self.pos,
    {
        if depth <= 0 {
            (true, self)
        } else if self.pos >= self.src.len() {
            (false, self)
        } else {
            let m = self.skip_no_buffer();
            if m.cur == '\n' {
                m.newline().block_comment(depth)
            } else if m.cur == '*' && m.peek() == '/' {
                m.block_comment(depth - 1)
            } else if m.cur == '/' && m.peek() == '*' {
                m.block_comment(depth + 1)
            } else {
                m.block_comment(depth)
            }
        }
    }

    /// A token made of the character just consumed and, if the next one is `second`,
    /// that one too.
    pub open spec fn one_or_two(self, second: char, one: TokenKind, two: TokenKind) -> (
        LexResult,
        LexModel,
    ) {
        if self.peek() == second {
            let m = self.skip();
            (Ok(m.make_token(two)), m)
        } else {
            (Ok(self.make_token(one)), self)
        }
    }

    /// The kind of a token of one symbol character.
    pub open spec fn symbol_kind(cur: char) -> Option<TokenKind> {
        if cur == ',' { Some(TokenKind::Comma) }
        else if cur == ':' { Some(TokenKind::Colon) }
        else if cur == ';' { Some(TokenKind::Semicolon) }
        else if cur == '^' { Some(TokenKind::Pointer) }
        else if cur == '(' { Some(TokenKind::OpenParen) }
        else if cur == ')' { Some(TokenKind::CloseParen) }
        else if cur == '[' { Some(TokenKind::OpenBracket) }
        else if cur == ']' { Some(TokenKind::CloseBracket) }
        else if cur == '{' { Some(TokenKind::OpenCurly) }
        else if cur == '}' { Some(TokenKind::CloseCurly) }
        else if cur == '\\' { Some(TokenKind::Backslash) }
        else if cur == '#' { Some(TokenKind::Hashtag) }
        else if cur == '@' { Some(TokenKind::At) }
        else if cur == '.' { Some(TokenKind::OpDot) }
        else if cur == '*' { Some(TokenKind::OpMul) }
        else if cur == '%' { Some(TokenKind::OpMod) }
        else { None }
    }

    /// The next token (or error), and the state after it.
    pub open spec fn get_next_token(self) -> (LexResult, LexModel)
        decreases self.src.len() + 2 - self.pos,
    {
        let m0 = self.skip_whitespace();
        let m1 = LexModel { buffer: Seq::empty(), start: m0.pos, ..m0 };
        let cur = m1.peek();
        let m = m1.advance();
        if self.prev_token.kind == TokenKind::KwRaw {
            if cur != '[' {
                (Err(m.make_error(LexErrorKind::ExpectedCharacter('[', cur))), m)
            } else {
                m.lex_raw_block()
            }
        } else if cur == '/' && m.peek() == '/' {
            let (ok, m2) = m.line_comment();
            if !ok {
                (Err(m2.make_error(LexErrorKind::UnterminatedComment)), m2)
            } else {
                proof {
                    lemma_skip_whitespace(self);
                    lemma_line_comment(m);
                }
                m2.get_next_token()
            }
        } else if cur == '/' && m.peek() == '*' {
            let (ok, m2) = m.block_comment(1);
            if !ok {
                (Err(m2.make_error(LexErrorKind::UnterminatedComment)), m2)
            } else {
                proof {
                    lemma_skip_whitespace(self);
                    lemma_block_comment(m, 1);
                }
                m2.skip_no_buffer().get_next_token()
            }
        } else {
            m.lex_token_after(cur)
        }
    }

    /// The token that starts with `cur`, just consumed, where `cur` starts no comment.
    pub open spec fn lex_token_after(self, cur: char) -> (LexResult, LexModel) {
        let m = self;
        if LexModel::symbol_kind(cur) is Some {
            (Ok(m.make_token(LexModel::symbol_kind(cur)->0)), m)
        } else if cur == '=' {
            m.one_or_two('=', TokenKind::Eq, TokenKind::OpEq)
        } else if cur == '!' {
            if m.peek() == '=' {
                let m2 = m.skip();
                (Ok(m2.make_token(TokenKind::OpNeq)), m2)
            } else {
                (Err(m.make_error(LexErrorKind::UnexpectedCharacter(cur))), m)
            }
        } else if cur == '>' {
            m.one_or_two('=', TokenKind::OpGt, TokenKind::OpGtEq)
        } else if cur == '<' {
            m.one_or_two('=', TokenKind::OpLt, TokenKind::OpLtEq)
        } else if cur == '+' {
            m.one_or_two('+', TokenKind::OpAdd, TokenKind::OpInc)
        } else if cur == '-' {
            if m.peek() == '-' {
                let m2 = m.skip();
                (Ok(m2.make_token(TokenKind::OpDec)), m2)
            } else if m.peek() == '>' {
                let m2 = m.skip();
                (Ok(m2.make_token(TokenKind::Arrow)), m2)
            } else {
                (Ok(m.make_token(TokenKind::OpSub)), m)
            }
        } else if cur == '/' {
            (Ok(m.make_token(TokenKind::OpDiv)), m)
        } else if cur == '|' && m.peek() == '>' {
            let m2 = m.skip();
            (Ok(m2.make_token(TokenKind::OpPipe)), m2)
        } else if cur == '"' {
            m.lex_string()
        } else if cur == 'c' && m.peek() == '"' {
            m.lex_c_string()
        } else if cur == '`' {
            m.lex_char()
        } else if cur != '\0' && spec_is_valid_id_start(cur) {
            m.lex_id_or_keyword()
        } else if '0' <= cur <= '9' {
            m.number_loop(false)
        } else if cur == '\0' {
            (Ok(m.make_token(TokenKind::Eof)), m)
        } else {
            (Err(m.make_error(LexErrorKind::UnexpectedCharacter(cur))), m)
        }
    }

    /// One step of the lexer: the next token, which then becomes the previous token.
    pub open spec fn next_token(self) -> (LexResult, LexModel) {
        let (r, m) = self.get_next_token();
        match r {
            Ok(t) => (r, LexModel { prev_token: t, ..m }),
            Err(_) => (r, m),
        }
    }
}

pub proof fn lemma_skip_whitespace(m: LexModel)
    ensures
        m.skip_whitespace().pos >= m.pos,
        m.skip_whitespace().pos == m.pos || m.skip_whitespace().pos <= m.src.len(),
        m.wf() ==> m.skip_whitespace().wf(),
        m.skip_whitespace().src == m.src,
        m.skip_whitespace().prev_token == m.prev_token,
        m.skip_whitespace().file == m.file,
    decreases m.src.len() - m.pos,
{
    if 0 <= m.pos < m.src.len() {
        let ch = m.peek();
        if ch == '\n' {
            lemma_skip_whitespace(m.skip_no_buffer().newline());
        } else if char_is_whitespace(ch) {
            lemma_skip_whitespace(m.skip());
        }
    }
}

pub proof fn lemma_line_comment(m: LexModel)
    ensures
        m.line_comment().1.pos >= m.pos,
        m.line_comment().0,
        m.pos <= m.src.len() ==> m.line_comment().1.pos <= m.src.len(),
        m.line_comment().1.src == m.src,
        m.wf() ==> m.line_comment().1.wf(),
        m.line_comment().1.prev_token == m.prev_token,
        m.line_comment().1.file == m.file,
        m.line_comment().1.start == m.start,
    decreases m.src.len() - m.pos,
{
    if m.pos < m.src.len() && m.peek() != '\n' {
        lemma_line_comment(m.skip_no_buffer());
    }
}

pub proof fn lemma_block_comment(m: LexModel, depth: int)
    requires
        depth > 0,
        m.pos <= m.src.len(),
    ensures
        m.block_comment(depth).1.pos >= m.pos,
        m.block_comment(depth).1.pos <= m.src.len(),
        m.block_comment(depth).1.src == m.src,
        m.wf() ==> m.block_comment(depth).1.wf(),
        m.block_comment(depth).1.prev_token == m.prev_token,
        m.block_comment(depth).1.file == m.file,
        m.block_comment(depth).1.start == m.start,
        depth > 0 && m.block_comment(depth).0 ==> m.block_comment(depth).1.peek() == '/'
            && m.block_comment(depth).1.pos < m.src.len(),
    decreases m.src.len() - m.pos, 0int,
{
    if m.pos < m.src.len() {
        let m1 = m.skip_no_buffer();
        if m1.cur == '\n' {
            lemma_block_comment_any(m1.newline(), depth);
        } else if m1.cur == '*' && m1.peek() == '/' {
            lemma_block_comment_any(m1, depth - 1);
        } else if m1.cur == '/' && m1.peek() == '*' {
            lemma_block_comment_any(m1, depth + 1);
        } else {
            lemma_block_comment_any(m1, depth);
        }
    }
}

pub proof fn lemma_block_comment_any(m: LexModel, depth: int)
    requires
        m.pos <= m.src.len(),
    ensures
        m.block_comment(depth).1.pos >= m.pos,
        m.block_comment(depth).1.pos <= m.src.len(),
        m.block_comment(depth).1.src == m.src,
        m.wf() ==> m.block_comment(depth).1.wf(),
        m.block_comment(depth).1.prev_token == m.prev_token,
        m.block_comment(depth).1.file == m.file,
        m.block_comment(depth).1.start == m.start,
        depth > 0 && m.block_comment(depth).0 ==> m.block_comment(depth).1.peek() == '/'
            && m.block_comment(depth).1.pos < m.src.len(),
    decreases m.src.len() - m.pos, 1int,
{
    if depth > 0 {
        lemma_block_comment(m, depth);
    }
}


/// `b` lexes the same input as `a`, after the same previous token, in the same token.
pub open spec fn same_frame(a: LexModel, b: LexModel) -> bool {
    &&& b.src == a.src
    &&& b.file == a.file
    &&& b.prev_token == a.prev_token
    &&& b.start == a.start
}

proof fn lemma_string_loop(m: LexModel)
    requires
        m.wf(),
        m.pos <= m.src.len() + 1,
    ensures
        m.string_loop().wf(),
        same_frame(m, m.string_loop()),
        m.string_loop().pos >= m.pos,
        m.string_loop().pos <= m.src.len() + 1,
        !m.string_loop().is_done() ==> m.string_loop().peek() == '"' && m.string_loop().pos
            < m.src.len(),
    decreases m.src.len() + 2 - m.pos,
{
    if m.peek() != '"' && !m.is_done() && m.pos <= m.src.len() {
        let m1 = if m.peek() == '\\' {
            m.skip()
        } else {
            m
        };
        let m2 = if m1.cur == '\n' {
            m1.newline()
        } else {
            m1
        };
        lemma_string_loop(m2.skip());
    }
}

proof fn lemma_char_loop(m: LexModel)
    requires
        m.wf(),
        m.pos <= m.src.len() + 1,
    ensures
        m.char_loop().wf(),
        same_frame(m, m.char_loop()),
        m.char_loop().pos >= m.pos,
        m.char_loop().pos <= m.src.len() + 1,
        !m.char_loop().is_done() ==> m.char_loop().peek() == '`' && m.char_loop().pos
            < m.src.len(),
    decreases m.src.len() + 2 - m.pos,
{
    if m.peek() != '`' && !m.is_done() && m.pos <= m.src.len() {
        lemma_char_loop(m.skip());
    }
}

proof fn lemma_number_loop(m: LexModel, is_float: bool)
    requires
        m.wf(),
        m.pos <= m.src.len(),
    ensures
        m.number_loop(is_float).1.wf(),
        same_frame(m, m.number_loop(is_float).1),
        m.number_loop(is_float).1.pos >= m.pos,
        m.number_loop(is_float).1.pos <= m.src.len(),
    decreases m.src.len() - m.pos,
{
    let ch = m.peek();
    if 0 <= m.pos < m.src.len() && (char_is_alphanumeric(ch) || ch == '_' || ch == '.') {
        if !(ch == '.' && is_float) {
            lemma_number_loop(m.skip(), is_float || ch == '.');
        }
    }
}

proof fn lemma_id_loop(m: LexModel)
    requires
        m.wf(),
        m.pos <= m.src.len(),
    ensures
        m.id_loop().wf(),
        same_frame(m, m.id_loop()),
        m.id_loop().pos >= m.pos,
        m.id_loop().pos <= m.src.len(),
    decreases m.src.len() - m.pos,
{
    if 0 <= m.pos < m.src.len() && spec_is_valid_id(m.peek()) {
        lemma_id_loop(m.skip());
    }
}

proof fn lemma_namespace_loop(m: LexModel)
    requires
        m.wf(),
        m.pos <= m.src.len(),
    ensures
        ({
            let r = match m.namespace_loop() {
                Ok(x) => x,
                Err((_, x)) => x,
            };
            &&& r.wf()
            &&& same_frame(m, r)
            &&& r.pos >= m.pos
            &&& r.pos <= m.src.len()
        }),
    decreases m.src.len() - m.pos,
{
    if 0 <= m.pos < m.src.len() && spec_is_valid_id(m.peek()) {
        let m1 = m.skip();
        if m1.peek() == '\'' {
            let m2 = m1.advance();
            if m2.peek() != '\'' {
                lemma_namespace_loop(m2);
            }
        } else {
            lemma_namespace_loop(m1);
        }
    }
}

proof fn lemma_raw_loop(m: LexModel, st: RawScan)
    requires
        m.wf(),
        m.pos <= m.src.len(),
    ensures
        m.raw_loop(st).1.wf(),
        same_frame(m, m.raw_loop(st).1),
        m.raw_loop(st).1.pos >= m.pos,
        m.raw_loop(st).1.pos <= m.src.len(),
    decreases m.src.len() - m.pos,
{
    let ch = m.peek();
    if ch != '\0' && !(ch == ']' && st.free() && st.depth - 1 == 0) {
        let m1 = if ch == '\n' {
            LexModel { line: m.line + 1, ..m }
        } else {
            m
        };
        lemma_raw_loop(m1.skip(), st.step(ch, m.cur));
    }
}

/// What a lexing step keeps and how far it moves.
pub open spec fn step_bounds(m: LexModel, r: LexResult, m2: LexModel) -> bool {
    &&& m2.wf()
    &&& m2.src == m.src
    &&& m2.file == m.file
    &&& m2.pos > m.pos
    &&& m2.pos <= m.src.len() + 1
    &&& (r is Ok && r->Ok_0.kind != TokenKind::Eof ==> m2.pos <= m.src.len())
}

proof fn lemma_token_after(m: LexModel, cur: char)
    requires
        m.wf(),
        m.pos <= m.src.len() + 1,
        m.pos >= 1,
        m.start < m.pos,
        cur != '\0' ==> m.pos <= m.src.len(),
        cur == m.cur,
    ensures
        ({
            let (r, m2) = m.lex_token_after(cur);
            &&& m2.wf()
            &&& m2.src == m.src
            &&& m2.file == m.file
            &&& m2.prev_token == m.prev_token
            &&& m2.pos >= m.pos
            &&& m2.pos <= m.src.len() + 1
            &&& (r is Ok && r->Ok_0.kind != TokenKind::Eof ==> m2.pos <= m.src.len())
        }),
{
    if LexModel::symbol_kind(cur) is Some {
    } else if cur == '"' {
        let m0 = LexModel { start: m.start + 1, buffer: m.buffer.drop_first(), ..m };
        lemma_string_loop(m0);
    } else if cur == 'c' && m.peek() == '"' {
        let m0 = LexModel { start: m.start + 1, ..m }.advance();
        let m1 = LexModel { buffer: m0.buffer.drop_first(), ..m0 };
        let m2 = LexModel { start: m1.start + 1, buffer: m1.buffer.drop_first(), ..m1 };
        lemma_string_loop(m2);
    } else if cur == '`' {
        let m0 = LexModel { start: m.start + 1, ..m };
        let m1 = m0.advance();
        let m2 = LexModel { buffer: m1.buffer.drop_first(), ..m1 };
        lemma_char_loop(m2);
    } else if cur != '\0' && spec_is_valid_id_start(cur) {
        lemma_id_loop(m);
        let m1 = m.id_loop();
        if m1.peek() == '\'' {
            let m2 = m1.advance();
            if m2.peek() != '\'' {
                lemma_namespace_loop(m2);
            }
        }
    } else if '0' <= cur <= '9' {
        lemma_number_loop(m, false);
    }
}

/// Each lexing step moves forward, keeps the invariant, and stops within the input
/// (a token other than `Eof` stops before its end).
pub proof fn lemma_get_next_token(m: LexModel)
    requires
        m.wf(),
        m.pos <= m.src.len(),
    ensures
        step_bounds(m, m.get_next_token().0, m.get_next_token().1),
        m.get_next_token().1.prev_token == m.prev_token,
    decreases m.src.len() + 2 - m.pos,
{
    lemma_skip_whitespace(m);
    let m0 = m.skip_whitespace();
    let m1 = LexModel { buffer: Seq::empty(), start: m0.pos, ..m0 };
    let cur = m1.peek();
    let mm = m1.advance();
    if m.prev_token.kind == TokenKind::KwRaw {
        if cur == '[' {
            let mr = LexModel { buffer: Seq::empty(), ..mm };
            lemma_raw_loop(
                mr,
                RawScan {
                    depth: 1,
                    in_string: false,
                    in_char: false,
                    in_single_line_comment: false,
                    in_multiline_comment: false,
                },
            );
        }
    } else if cur == '/' && mm.peek() == '/' {
        lemma_line_comment(mm);
        let (ok, m2) = mm.line_comment();
        if ok {
            lemma_get_next_token(m2);
        }
    } else if cur == '/' && mm.peek() == '*' {
        lemma_block_comment(mm, 1);
        let (ok, m2) = mm.block_comment(1);
        if ok {
            lemma_get_next_token(m2.skip_no_buffer());
        }
    } else {
        lemma_token_after(mm, cur);
        assert(m.get_next_token() == mm.lex_token_after(cur));
    }
}

/// The view of a lexing step's result.
pub open spec fn lex_result_view(r: Result<Token, LexError>) -> LexResult {
    match r {
        Ok(t) => Ok(t@),
        Err(e) => Err(e@),
    }
}

/// The model of a freshly made lexer over `src`.
pub open spec fn initial_lex_model(file: Seq<char>, src: Seq<char>) -> LexModel {
    LexModel {
        file,
        src,
        start: 0,
        column: 1,
        pos: 0,
        line: 1,
        prev_token: empty_stoken(),
        cur: ' ',
        prev: ' ',
        buffer: Seq::empty(),
    }
}

pub fn is_valid_id_start(ch: char) -> (r: bool)
    ensures
        r == spec_is_valid_id_start(ch),
{
    is_alphabetic(ch) || ch == '_' || ch == '$'
}

pub fn is_valid_id(ch: char) -> (r: bool)
    ensures
        r == spec_is_valid_id(ch),
{
    is_valid_id_start(ch) || is_numeric(ch)
}

/// Whether `w` holds exactly the characters of `lit`.
pub fn chars_eq(w: &Vec<char>, lit: &str) -> (r: bool)
    ensures
        r == (w@ == lit@),
{
    let l = chars_of(lit);
    if l.len() != w.len() {
        return false;
    }
    let mut i: usize = 0;
    while i < l.len()
        invariant
            l@ == lit@,
            l.len() == w.len(),
            0 <= i <= l.len(),
            forall|j: int| 0 <= j < i ==> l@[j] == w@[j],
        decreases l.len() - i,
    {
        if l[i] != w[i] {
            return false;
        }
        i = i + 1;
    }
    assert(w@ =~= lit@);
    true
}

/// The token kind of a keyword, if `word` is one.
pub fn keyword_kind(word: &String) -> (r: Option<TokenKind>)
    ensures
        r == spec_keyword_kind(word@),
{
    let w = chars_of(word.as_str());
    if chars_eq(&w, "use") { Some(TokenKind::KwUse) }
    else if chars_eq(&w, "pkg") { Some(TokenKind::KwPkg) }
    else if chars_eq(&w, "rec") { Some(TokenKind::KwRec) }
    else if chars_eq(&w, "fun") { Some(TokenKind::KwFun) }
    else if chars_eq(&w, "var") { Some(TokenKind::KwVar) }
    else if chars_eq(&w, "let") { Some(TokenKind::KwLet) }
    else if chars_eq(&w, "ret") { Some(TokenKind::KwRet) }
    else if chars_eq(&w, "raw") { Some(TokenKind::KwRaw) }
    else if chars_eq(&w, "if") { Some(TokenKind::KwIf) }
    else if chars_eq(&w, "else") { Some(TokenKind::KwElse) }
    else if chars_eq(&w, "for") { Some(TokenKind::KwFor) }
    else if chars_eq(&w, "each") { Some(TokenKind::KwEach) }
    else if chars_eq(&w, "of") { Some(TokenKind::KwOf) }
    else if chars_eq(&w, "continue") { Some(TokenKind::KwContinue) }
    else if chars_eq(&w, "break") { Some(TokenKind::KwBreak) }
    else if chars_eq(&w, "defer") { Some(TokenKind::KwDefer) }
    else if chars_eq(&w, "new") { Some(TokenKind::KwNew) }
    else if chars_eq(&w, "ref") { Some(TokenKind::KwRef) }
    else if chars_eq(&w, "as") { Some(TokenKind::KwAs) }
    else if chars_eq(&w, "to") { Some(TokenKind::KwTo) }
    else if chars_eq(&w, "in") { Some(TokenKind::KwIn) }
    else if chars_eq(&w, "def") { Some(TokenKind::KwDef) }
    else if chars_eq(&w, "tag") { Some(TokenKind::KwTag) }
    else if chars_eq(&w, "pragma") { Some(TokenKind::KwPragma) }
    else if chars_eq(&w, "switch") { Some(TokenKind::KwSwitch) }
    else if chars_eq(&w, "case") { Some(TokenKind::KwCase) }
    else if chars_eq(&w, "fall") { Some(TokenKind::KwFall) }
    else if chars_eq(&w, "not") { Some(TokenKind::OpNot) }
    else if chars_eq(&w, "and") { Some(TokenKind::OpAnd) }
    else if chars_eq(&w, "or") { Some(TokenKind::OpOr) }
    else if chars_eq(&w, "true") { Some(TokenKind::True) }
    else if chars_eq(&w, "false") { Some(TokenKind::False) }
    else { None }
}

fn symbol_kind(cur: char) -> (r: Option<TokenKind>)
    ensures
        r == LexModel::symbol_kind(cur),
{
    match cur {
        ',' => Some(TokenKind::Comma),
        ':' => Some(TokenKind::Colon),
        ';' => Some(TokenKind::Semicolon),
        '^' => Some(TokenKind::Pointer),
        '(' => Some(TokenKind::OpenParen),
        ')' => Some(TokenKind::CloseParen),
        '[' => Some(TokenKind::OpenBracket),
        ']' => Some(TokenKind::CloseBracket),
        '{' => Some(TokenKind::OpenCurly),
        '}' => Some(TokenKind::CloseCurly),
        '\\' => Some(TokenKind::Backslash),
        '#' => Some(TokenKind::Hashtag),
        '@' => Some(TokenKind::At),
        '.' => Some(TokenKind::OpDot),
        '*' => Some(TokenKind::OpMul),
        '%' => Some(TokenKind::OpMod),
        _ => None,
    }
}

/// Turns source code into tokens, one at a time.
pub struct Lexer {
    /// path to the file being lexed
    pub file: String,
    /// source code
    pub source: Vec<char>,
    /// index at which the current token started
    pub start: usize,
    /// column of the current token
    pub column: usize,
    /// index to the current character
    pub pos: usize,
    /// current line that the lexer is on
    pub line: usize,
    /// the previous token emitted
    pub prev_token: Token,
    /// current character
    pub cur: char,
    /// previous character
    pub prev: char,
    /// all characters since `start`
    pub buffer: String,
}

impl View for Lexer {
    type V = LexModel;

    open spec fn view(&self) -> LexModel {
        LexModel {
            file: self.file@,
            src: self.source@,
            start: self.start as int,
            column: self.column as int,
            pos: self.pos as int,
            line: self.line as int,
            prev_token: self.prev_token@,
            cur: self.cur,
            prev: self.prev,
            buffer: self.buffer@,
        }
    }
}

impl Lexer {
    /// A lexer at the start of `code`, which was read from `file`.
    pub fn new(file: String, code: &str) -> (r: Lexer)
        requires
            code@.len() + 8 < usize::MAX / 2,
        ensures
            r@ == initial_lex_model(file@, code@),
            r@.wf(),
    {
        Lexer {
            file,
            source: chars_of(code),
            start: 0,
            column: 1,
            pos: 0,
            line: 1,
            prev_token: Token::empty(),
            cur: ' ',
            prev: ' ',
            buffer: String::new(),
        }
    }

    /// The lines around `line` of the source: the one before, it, and the one after,
    /// as far as they exist, each with its 1-based number.
    pub fn get_lines(&self, line: usize) -> (r: Vec<(usize, String)>)
        ensures
            crate::util::numbered_view(r@) == crate::util::lines_around(self@.src, line as int),
    {
        crate::util::get_lines_from_chars(&self.source, line)
    }

    /// The counters can grow by a step without leaving `usize`.
    pub open spec fn room(&self) -> bool {
        &&& self.pos < usize::MAX - 8
        &&& self.column <= self.pos + 1
        &&& self.start <= self.pos
    }

    fn skip_no_buffer(&mut self)
        requires
            old(self).room(),
        ensures
            final(self)@ == old(self)@.skip_no_buffer(),
    {
        self.prev = self.cur;
        self.cur = self.peek();
        self.pos = self.pos + 1;
        self.column = self.column + 1;
    }

    fn skip(&mut self)
        requires
            old(self).room(),
        ensures
            final(self)@ == old(self)@.skip(),
    {
        self.skip_no_buffer();
        let c = self.cur;
        push_char(&mut self.buffer, c);
    }

    fn advance(&mut self) -> (r: char)
        requires
            old(self).room(),
        ensures
            r == old(self)@.peek(),
            final(self)@ == old(self)@.advance(),
    {
        let it = self.peek();
        push_char(&mut self.buffer, it);
        self.skip_no_buffer();
        it
    }

    fn peek(&self) -> (r: char)
        ensures
            r == self@.peek(),
    {
        if self.pos < self.source.len() {
            self.source[self.pos]
        } else {
            '\0'
        }
    }

    fn is_done(&self) -> (r: bool)
        ensures
            r == self@.is_done(),
    {
        self.cur == '\0'
    }

    fn make_token(&self, kind: TokenKind) -> (r: Token)
        requires
            self.start <= self.pos,
        ensures
            r@ == self@.make_token(kind),
    {
        Token {
            kind,
            start: self.start,
            column: self.column,
            len: self.pos - self.start,
            text: self.buffer.clone(),
            line: self.line,
        }
    }

    fn make_error_token(&self) -> (r: Token)
        ensures
            r@ == self@.make_error_token(),
    {
        Token {
            kind: TokenKind::Error,
            start: self.start,
            column: self.column,
            len: 1,
            text: String::new(),
            line: self.line,
        }
    }

    fn make_error(&self, error: LexErrorKind) -> (r: LexError)
        ensures
            r@ == self@.make_error(error),
    {
        LexError { error, token: self.make_error_token() }
    }

    fn make_error_with_token(&self, error: LexErrorKind, token: Token) -> (r: LexError)
        ensures
            r@ == (SLexError { error, token: token@ }),
    {
        LexError { error, token }
    }

    fn skip_whitespace(&mut self)
        requires
            old(self)@.ready(),
        ensures
            final(self)@ == old(self)@.skip_whitespace(),
    {
        loop
            invariant
                self@.wf(),
                self@.src == old(self)@.src,
                self.pos == old(self).pos || self.pos <= old(self).source.len(),
                self.pos >= old(self).pos,
                self@.skip_whitespace() == old(self)@.skip_whitespace(),
            decreases self.source.len() - self.pos,
        {
            if self.pos >= self.source.len() {
                return ;
            }
            let ch = self.peek();
            if ch == '\n' {
                self.skip_no_buffer();
                self.line = self.line + 1;
                self.column = 1;
            } else if is_whitespace(ch) {
                self.skip();
            } else {
                return ;
            }
        }
    }

    fn lex_string(&mut self) -> (r: Result<Token, LexError>)
        requires
            old(self)@.wf(),
            old(self).pos <= old(self).source.len(),
            old(self).start < old(self).pos,
            old(self)@.buffer.len() > 0,
        ensures
            (lex_result_view(r), final(self)@) == old(self)@.lex_string(),
    {
        self.start = self.start + 1;
        let start_line = self.line;
        let start_column = self.column;
        remove_first_char(&mut self.buffer);
        let ghost m0 = self@;
        while self.peek() != '"' && !self.is_done()
            invariant
                self@.wf(),
                self@.src == old(self)@.src,
                self.pos <= old(self).source.len() + 2,
                self@.string_loop() == m0.string_loop(),
            decreases self.source.len() + 2 - self.pos,
        {
            if self.peek() == '\\' {
                self.skip();
            }
            if self.cur == '\n' {
                self.line = self.line + 1;
                self.column = 1;
            }
            self.skip();
        }
        if self.is_done() {
            Err(
                self.make_error_with_token(
                    LexErrorKind::UnterminatedString,
                    Token {
                        kind: TokenKind::String,
                        start: self.start,
                        column: start_column - 1,
                        len: 1,
                        text: String::new(),
                        line: start_line,
                    },
                ),
            )
        } else {
            self.skip_no_buffer();
            Ok(self.make_token(TokenKind::String))
        }
    }

    fn lex_c_string(&mut self) -> (r: Result<Token, LexError>)
        requires
            old(self)@.wf(),
            old(self).pos < old(self).source.len(),
            old(self).start < old(self).pos,
            old(self)@.peek() == '"',
            old(self)@.buffer.len() > 0,
        ensures
            (lex_result_view(r), final(self)@) == old(self)@.lex_c_string(),
    {
        self.start = self.start + 1;
        self.advance();
        remove_first_char(&mut self.buffer);
        match self.lex_string() {
            Ok(it) => Ok(
                Token {
                    kind: TokenKind::CString,
                    start: it.start,
                    column: it.column,
                    len: it.len,
                    text: it.text,
                    line: it.line,
                },
            ),
            Err(it) => Err(it),
        }
    }

    fn lex_char(&mut self) -> (r: Result<Token, LexError>)
        requires
            old(self)@.wf(),
            old(self).pos <= old(self).source.len(),
            old(self).start < old(self).pos,
        ensures
            (lex_result_view(r), final(self)@) == old(self)@.lex_char(),
    {
        self.start = self.start + 1;
        let start_line = self.line;
        let start_column = self.column;
        self.advance();
        remove_first_char(&mut self.buffer);
        let ghost m0 = self@;
        while self.peek() != '`' && !self.is_done()
            invariant
                self@.wf(),
                self@.src == old(self)@.src,
                self.pos <= old(self).source.len() + 1,
                self@.char_loop() == m0.char_loop(),
            decreases self.source.len() + 2 - self.pos,
        {
            self.skip();
        }
        if self.is_done() {
            Err(
                self.make_error_with_token(
                    LexErrorKind::UnterminatedChar,
                    Token {
                        kind: TokenKind::String,
                        start: self.start,
                        column: start_column - 1,
                        len: 1,
                        text: String::new(),
                        line: start_line,
                    },
                ),
            )
        } else {
            self.skip_no_buffer();
            Ok(self.make_token(TokenKind::Character))
        }
    }

    fn lex_number(&mut self) -> (r: Result<Token, LexError>)
        requires
            old(self)@.wf(),
            old(self).pos <= old(self).source.len(),
        ensures
            (lex_result_view(r), final(self)@) == old(self)@.number_loop(false),
    {
        let mut is_float = false;
        while self.pos < self.source.len() && (is_alphanumeric(self.peek()) || self.peek() == '_'
            || self.peek() == '.')
            invariant
                self@.wf(),
                self@.src == old(self)@.src,
                self.pos <= old(self).source.len(),
                self@.number_loop(is_float) == old(self)@.number_loop(false),
            decreases self.source.len() - self.pos,
        {
            if self.peek() == '.' {
                if is_float {
                    return Err(self.make_error(LexErrorKind::UnexpectedCharacter('.')));
                }
                is_float = true;
            }
            self.skip();
        }
        Ok(
            self.make_token(
                if is_float {
                    TokenKind::Float
                } else {
                    TokenKind::Int
                },
            ),
        )
    }

    #[verifier::loop_isolation(false)]
    fn lex_id_or_keyword(&mut self) -> (r: Result<Token, LexError>)
        requires
            old(self)@.wf(),
            old(self).pos <= old(self).source.len(),
        ensures
            (lex_result_view(r), final(self)@) == old(self)@.lex_id_or_keyword(),
    {
        while self.pos < self.source.len() && is_valid_id(self.peek())
            invariant
                self@.wf(),
                self@.src == old(self)@.src,
                self.pos <= old(self).source.len(),
                self@.id_loop() == old(self)@.id_loop(),
            decreases self.source.len() - self.pos,
        {
            self.skip();
        }
        // Namespaces
        if self.peek() == '\'' {
            self.advance();
            if self.peek() == '\'' {
                return Err(self.make_error(LexErrorKind::UnexpectedCharacter('\'')));
            }
            let ghost m2 = self@;
            while self.pos < self.source.len() && is_valid_id(self.peek())
                invariant
                    self@.wf(),
                    self@.src == old(self)@.src,
                    self.pos <= old(self).source.len(),
                    self@.namespace_loop() == m2.namespace_loop(),
                decreases self.source.len() - self.pos,
            {
                let ghost s0 = self@;
                self.skip();
                if self.peek() == '\'' {
                    self.advance();
                    if self.peek() == '\'' {
                        assert(s0.namespace_loop() == Err::<LexModel, (SLexError, LexModel)>(
                            (self@.make_error(LexErrorKind::UnexpectedCharacter('\'')), self@),
                        ));
                        return Err(self.make_error(LexErrorKind::UnexpectedCharacter('\'')));
                    }
                }
            }
        }
        match keyword_kind(&self.buffer) {
            Some(k) => Ok(self.make_token(k)),
            None => Ok(self.make_token(TokenKind::Identifier)),
        }
    }

    #[verifier::loop_isolation(false)]
    fn lex_raw_block(&mut self) -> (r: Result<Token, LexError>)
        requires
            old(self)@.wf(),
            old(self).pos <= old(self).source.len(),
        ensures
            (lex_result_view(r), final(self)@) == old(self)@.lex_raw_block(),
    {
        let mut depth: usize = 1;
        let mut in_string = false;
        let mut in_char = false;
        let mut in_single_line_comment = false;
        let mut in_multiline_comment = false;
        self.buffer = String::new();
        let ghost m0 = self@;
        loop
            invariant
                self@.wf(),
                self@.src == old(self)@.src,
                self.pos <= old(self).source.len(),
                1 <= depth <= self.pos + 1,
                self@.raw_loop(
                    RawScan {
                        depth: depth as int,
                        in_string,
                        in_char,
                        in_single_line_comment,
                        in_multiline_comment,
                    },
                ) == m0.raw_loop(
                    RawScan {
                        depth: 1,
                        in_string: false,
                        in_char: false,
                        in_single_line_comment: false,
                        in_multiline_comment: false,
                    },
                ),
            decreases self.source.len() - self.pos,
        {
            let ch = self.peek();
            let cur = self.cur;
            let free = !in_single_line_comment && !in_multiline_comment && !in_string && !in_char;
            let ghost s0 = self@;
            if ch == '\0' {
                assert(s0.raw_loop(
                    RawScan {
                        depth: depth as int,
                        in_string,
                        in_char,
                        in_single_line_comment,
                        in_multiline_comment,
                    },
                ) == (false, s0));
                return Err(self.make_error(LexErrorKind::UnterminatedRawBlock));
            }
            if ch == ']' && free && depth == 1 {
                self.skip_no_buffer();
                return Ok(self.make_token(TokenKind::LiteralText));
            }
            if ch == '"' && !in_single_line_comment && !in_multiline_comment && !in_char && cur
                != '\\' {
                in_string = !in_string;
            } else if ch == '\'' && !in_single_line_comment && !in_multiline_comment && !in_string
                && cur != '\\' {
                in_char = !in_char;
            } else if ch == '/' && !in_string && !in_char {
                if cur == '/' && !in_multiline_comment {
                    in_single_line_comment = true;
                } else if cur == '*' && !in_single_line_comment {
                    in_multiline_comment = false;
                }
            } else if ch == '*' && cur == '/' && !in_string && !in_char && !in_single_line_comment {
                in_multiline_comment = true;
            } else if ch == '[' && free {
                depth = depth + 1;
            } else if ch == ']' && free {
                depth = depth - 1;
            } else if ch == '\n' {
                in_single_line_comment = false;
            }
            if ch == '\n' {
                self.line = self.line + 1;
            }
            self.skip();
        }
    }

    fn line_comment(&mut self) -> (ok: bool)
        requires
            old(self)@.wf(),
            old(self).pos <= old(self).source.len(),
            old(self).start <= old(self).pos,
        ensures
            (ok, final(self)@) == old(self)@.line_comment(),
    {
        while self.peek() != '\n'
            invariant
                self@.wf(),
                self@.src == old(self)@.src,
                self.start <= self.pos,
                self.pos <= old(self).source.len(),
                self@.line_comment() == old(self)@.line_comment(),
            decreases self.source.len() - self.pos,
        {
            if self.pos >= self.source.len() {
                return true;
            }
            self.skip_no_buffer();
        }
        true
    }

    fn block_comment(&mut self) -> (ok: bool)
        requires
            old(self)@.wf(),
            old(self).pos <= old(self).source.len(),
            old(self).start <= old(self).pos,
            old(self).pos >= 1,
        ensures
            (ok, final(self)@) == old(self)@.block_comment(1),
    {
        let mut depth: usize = 1;
        while depth > 0
            invariant
                self@.wf(),
                self@.src == old(self)@.src,
                self.start <= self.pos,
                self.pos <= old(self).source.len(),
                depth <= self.pos,
                self@.block_comment(depth as int) == old(self)@.block_comment(1),
            decreases self.source.len() - self.pos,
        {
            if self.pos >= self.source.len() {
                return false;
            }
            self.skip_no_buffer();
            if self.cur == '\n' {
                self.line = self.line + 1;
                self.column = 1;
            } else if self.cur == '*' && self.peek() == '/' {
                depth = depth - 1;
            } else if self.cur == '/' && self.peek() == '*' {
                depth = depth + 1;
            }
        }
        true
    }

    fn lex_token_after(&mut self, cur: char) -> (r: Result<Token, LexError>)
        requires
            old(self)@.wf(),
            old(self).start < old(self).pos,
            old(self)@.buffer.len() > 0,
            old(self).pos < usize::MAX / 2 + 2,
            cur != '\0' ==> old(self).pos <= old(self).source.len(),
            cur == old(self)@.cur,
        ensures
            (lex_result_view(r), final(self)@) == old(self)@.lex_token_after(cur),
    {
        if let Some(kind) = symbol_kind(cur) {
            return Ok(self.make_token(kind));
        }
        match cur {
            '=' => if self.peek() == '=' {
                self.skip();
                Ok(self.make_token(TokenKind::OpEq))
            } else {
                Ok(self.make_token(TokenKind::Eq))
            },
            '!' => if self.peek() == '=' {
                self.skip();
                Ok(self.make_token(TokenKind::OpNeq))
            } else {
                Err(self.make_error(LexErrorKind::UnexpectedCharacter(cur)))
            },
            '>' => if self.peek() == '=' {
                self.skip();
                Ok(self.make_token(TokenKind::OpGtEq))
            } else {
                Ok(self.make_token(TokenKind::OpGt))
            },
            '<' => if self.peek() == '=' {
                self.skip();
                Ok(self.make_token(TokenKind::OpLtEq))
            } else {
                Ok(self.make_token(TokenKind::OpLt))
            },
            '+' => if self.peek() == '+' {
                self.skip();
                Ok(self.make_token(TokenKind::OpInc))
            } else {
                Ok(self.make_token(TokenKind::OpAdd))
            },
            '-' => if self.peek() == '-' {
                self.skip();
                Ok(self.make_token(TokenKind::OpDec))
            } else if self.peek() == '>' {
                self.skip();
                Ok(self.make_token(TokenKind::Arrow))
            } else {
                Ok(self.make_token(TokenKind::OpSub))
            },
            '/' => Ok(self.make_token(TokenKind::OpDiv)),
            '|' if self.peek() == '>' => {
                self.skip();
                Ok(self.make_token(TokenKind::OpPipe))
            },
            '"' => self.lex_string(),
            'c' if self.peek() == '"' => self.lex_c_string(),
            '`' => self.lex_char(),
            c if c != '\0' && is_valid_id_start(c) => self.lex_id_or_keyword(),
            '0'..='9' => self.lex_number(),
            '\0' => Ok(self.make_token(TokenKind::Eof)),
            _ => Err(self.make_error(LexErrorKind::UnexpectedCharacter(cur))),
        }
    }

    fn get_next_token(&mut self) -> (r: Result<Token, LexError>)
        requires
            old(self)@.ready(),
        ensures
            (lex_result_view(r), final(self)@) == old(self)@.get_next_token(),
        decreases old(self).source.len() + 2 - old(self).pos,
    {
        self.skip_whitespace();
        proof {
            lemma_skip_whitespace(old(self)@);
        }
        self.buffer = String::new();
        self.start = self.pos;
        let cur = self.advance();
        if self.prev_token.kind == TokenKind::KwRaw {
            if cur != '[' {
                return Err(self.make_error(LexErrorKind::ExpectedCharacter('[', cur)));
            } else {
                return self.lex_raw_block();
            }
        }
        if cur == '/' && self.peek() == '/' {
            let ghost m = self@;
            if !self.line_comment() {
                return Err(self.make_error(LexErrorKind::UnterminatedComment));
            }
            proof {
                lemma_line_comment(m);
            }
            self.get_next_token()
        } else if cur == '/' && self.peek() == '*' {
            let ghost m = self@;
            if !self.block_comment() {
                return Err(self.make_error(LexErrorKind::UnterminatedComment));
            }
            proof {
                lemma_block_comment(m, 1);
            }
            self.skip_no_buffer();
            self.get_next_token()
        } else {
            self.lex_token_after(cur)
        }
    }

    /// Lexes the next token; a token (not an error) becomes the previous token.
    pub fn next_token(&mut self) -> (r: Result<Token, LexError>)
        requires
            old(self)@.ready(),
        ensures
            (lex_result_view(r), final(self)@) == old(self)@.next_token(),
    {
        let tok = self.get_next_token();
        match &tok {
            Ok(t) => {
                self.prev_token = t.duplicate();
            },
            Err(_) => {},
        }
        tok
    }
}


/// `and` and `or` are the logical operators: the word `and` is the token `OpAnd`,
/// the word `or` is the token `OpOr`, and no other word is either of them.
pub proof fn law_logical_keywords(word: Seq<char>)
    ensures
        spec_keyword_kind(word) == Some(TokenKind::OpAnd) <==> word == seq!['a', 'n', 'd'],
        spec_keyword_kind(word) == Some(TokenKind::OpOr) <==> word == seq!['o', 'r'],
{
    reveal_strlit("use");
    reveal_strlit("pkg");
    reveal_strlit("rec");
    reveal_strlit("fun");
    reveal_strlit("var");
    reveal_strlit("let");
    reveal_strlit("ret");
    reveal_strlit("raw");
    reveal_strlit("if");
    reveal_strlit("else");
    reveal_strlit("for");
    reveal_strlit("each");
    reveal_strlit("of");
    reveal_strlit("continue");
    reveal_strlit("break");
    reveal_strlit("defer");
    reveal_strlit("new");
    reveal_strlit("ref");
    reveal_strlit("as");
    reveal_strlit("to");
    reveal_strlit("in");
    reveal_strlit("def");
    reveal_strlit("tag");
    reveal_strlit("pragma");
    reveal_strlit("switch");
    reveal_strlit("case");
    reveal_strlit("fall");
    reveal_strlit("not");
    reveal_strlit("and");
    reveal_strlit("or");
    reveal_strlit("true");
    reveal_strlit("false");
    assert("use"@.len() == 3);
    assert("pkg"@.len() == 3);
    assert("rec"@.len() == 3);
    assert("fun"@.len() == 3);
    assert("var"@.len() == 3);
    assert("let"@.len() == 3);
    assert("ret"@.len() == 3);
    assert("raw"@.len() == 3);
    assert("if"@.len() == 2);
    assert("else"@.len() == 4);
    assert("for"@.len() == 3);
    assert("each"@.len() == 4);
    assert("of"@.len() == 2);
    assert("continue"@.len() == 8);
    assert("break"@.len() == 5);
    assert("defer"@.len() == 5);
    assert("new"@.len() == 3);
    assert("ref"@.len() == 3);
    assert("as"@.len() == 2);
    assert("to"@.len() == 2);
    assert("in"@.len() == 2);
    assert("def"@.len() == 3);
    assert("tag"@.len() == 3);
    assert("pragma"@.len() == 6);
    assert("switch"@.len() == 6);
    assert("case"@.len() == 4);
    assert("fall"@.len() == 4);
    assert("not"@.len() == 3);
    assert("and"@.len() == 3);
    assert("or"@.len() == 2);
    assert("true"@.len() == 4);
    assert("false"@.len() == 5);
    assert("and"@ =~= seq!['a', 'n', 'd']);
    assert("or"@ =~= seq!['o', 'r']);
    if word == seq!['a', 'n', 'd'] || word == seq!['o', 'r'] {
        assert(word[0] == 'a' || word[0] == 'o');
        assert("use"@[0] == 'u' && "pkg"@[0] == 'p' && "rec"@[0] == 'r' && "fun"@[0] == 'f');
        assert("var"@[0] == 'v' && "let"@[0] == 'l' && "ret"@[0] == 'r' && "raw"@[0] == 'r');
        assert("if"@[0] == 'i' && "else"@[0] == 'e' && "for"@[0] == 'f' && "each"@[0] == 'e');
        assert("of"@[0] == 'o' && "of"@[1] == 'f' && "continue"@[0] == 'c' && "break"@[0] == 'b');
        assert("defer"@[0] == 'd' && "new"@[0] == 'n' && "ref"@[0] == 'r' && "as"@[0] == 'a' && "as"@[1] == 's');
        assert("to"@[0] == 't' && "in"@[0] == 'i' && "def"@[0] == 'd' && "tag"@[0] == 't');
        assert("pragma"@[0] == 'p' && "switch"@[0] == 's' && "case"@[0] == 'c' && "fall"@[0] == 'f');
        assert("not"@[0] == 'n');
    }
}

} // verus!
