use vstd::prelude::*;

verus! {

/// The kinds of tokens the lexer emits.
#[derive(Debug, Clone, Copy, PartialEq, Eq, Hash, Structural)]
pub enum TokenKind {
    Nothing,
    Eof,
    Error,
    LiteralText,
    // Common/misc symbols
    Comma,
    Colon,
    Semicolon,
    Pointer,
    OpenParen,
    CloseParen,
    OpenBracket,
    CloseBracket,
    OpenCurly,
    CloseCurly,
    Backslash,
    Hashtag,
    At,
    Eq,
    Arrow,
    // Operators
    OpDot,
    OpNot,
    OpAnd,
    OpOr,
    OpEq,
    OpNeq,
    OpGt,
    OpGtEq,
    OpLt,
    OpLtEq,
    OpInc,
    OpDec,
    OpAdd,
    OpSub,
    OpMul,
    OpDiv,
    OpMod,
    OpPipe,
    // Keywords
    KwUse,
    KwPkg,
    KwRec,
    KwFun,
    KwVar,
    KwLet,
    KwRet,
    KwRaw,
    KwIf,
    KwElse,
    KwFor,
    KwEach,
    KwOf,
    KwContinue,
    KwBreak,
    KwDefer,
    KwNew,
    KwRef,
    KwAs,
    KwTo,
    KwIn,
    KwDef,
    KwTag,
    KwPragma,
    KwSwitch,
    KwCase,
    KwFall,
    // Literals
    True,
    False,
    Float,
    Int,
    Hex,
    Binary,
    Identifier,
    String,
    CString,
    Character,
}

impl Default for TokenKind {
    fn default() -> (r: TokenKind)
        ensures
            r == TokenKind::Nothing,
    {
        TokenKind::Nothing
    }
}

/// A token together with where it was found in the source.
#[derive(Debug, Clone)]
pub struct Token {
    pub kind: TokenKind,
    pub start: usize,
    pub column: usize,
    pub len: usize,
    pub text: String,
    pub line: usize,
}

/// The mathematical value of a token: its text as a sequence of characters.
pub struct SToken {
    pub kind: TokenKind,
    pub start: int,
    pub column: int,
    pub len: int,
    pub text: Seq<char>,
    pub line: int,
}

impl View for Token {
    type V = SToken;

    open spec fn view(&self) -> SToken {
        SToken {
            kind: self.kind,
            start: self.start as int,
            column: self.column as int,
            len: self.len as int,
            text: self.text@,
            line: self.line as int,
        }
    }
}

pub open spec fn empty_stoken() -> SToken {
    SToken { kind: TokenKind::Nothing, start: 0, column: 0, len: 0, text: Seq::empty(), line: 0 }
}

impl Token {
    /// The default token: kind `None`, everything else zero or empty.
    pub fn empty() -> (r: Token)
        ensures
            r@ == empty_stoken(),
    {
        Token { kind: TokenKind::Nothing, start: 0, column: 0, len: 0, text: String::new(), line: 0 }
    }

    /// A copy of this token.
    pub fn duplicate(&self) -> (r: Token)
        ensures
            r@ == self@,
    {
        Token {
            kind: self.kind,
            start: self.start,
            column: self.column,
            len: self.len,
            text: self.text.clone(),
            line: self.line,
        }
    }
}

} // verus!
