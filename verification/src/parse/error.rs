use vstd::prelude::*;

use super::token::{SToken, Token, TokenKind};

verus! {

/// What went wrong while lexing.
#[derive(Debug, Clone, Copy, PartialEq, Eq, Structural)]
pub enum LexErrorKind {
    UnexpectedCharacter(char),
    ExpectedCharacter(char, char),
    UnterminatedString,
    UnterminatedChar,
    UnterminatedRawBlock,
    /// A comment that the end of the input cuts off.
    UnterminatedComment,
}

/// A lexer error with a fake token to indicate where the error occurred at.
#[derive(Debug, Clone)]
pub struct LexError {
    pub error: LexErrorKind,
    pub token: Token,
}

pub struct SLexError {
    pub error: LexErrorKind,
    pub token: SToken,
}

impl View for LexError {
    type V = SLexError;

    open spec fn view(&self) -> SLexError {
        SLexError { error: self.error, token: self.token@ }
    }
}

impl LexError {
    pub fn duplicate(&self) -> (r: LexError)
        ensures
            r@ == self@,
    {
        LexError { error: self.error, token: self.token.duplicate() }
    }
}

/// What went wrong while parsing.
#[derive(Debug, Clone)]
pub enum ParseError {
    FunPtrMissingParenthesis,
    FunPtrWithArrays,
    UnexpectedToken(Token),
    ExpectedToken(Token),
    ExpectedExpression(Token),
    ExpectedStatement(Token),
    LexError(LexErrorKind),
    ExpectedTokenOfKind(TokenKind),
    ReachedEOFBeforeClosingBrace,
    /// The lexer failed while the parser asked for the next token.
    AdvanceError(LexError),
    /// A hashtag that names no modifier of the statement it stands on.
    UnknownHashtag(String),
    /// An array size that is not a decimal number that fits in a `usize`.
    InvalidArraySize(String),
}

pub enum SParseError {
    FunPtrMissingParenthesis,
    FunPtrWithArrays,
    UnexpectedToken(SToken),
    ExpectedToken(SToken),
    ExpectedExpression(SToken),
    ExpectedStatement(SToken),
    LexError(LexErrorKind),
    ExpectedTokenOfKind(TokenKind),
    ReachedEOFBeforeClosingBrace,
    AdvanceError(SLexError),
    UnknownHashtag(Seq<char>),
    InvalidArraySize(Seq<char>),
}

impl View for ParseError {
    type V = SParseError;

    open spec fn view(&self) -> SParseError {
        match self {
            ParseError::FunPtrMissingParenthesis => SParseError::FunPtrMissingParenthesis,
            ParseError::FunPtrWithArrays => SParseError::FunPtrWithArrays,
            ParseError::UnexpectedToken(t) => SParseError::UnexpectedToken(t@),
            ParseError::ExpectedToken(t) => SParseError::ExpectedToken(t@),
            ParseError::ExpectedExpression(t) => SParseError::ExpectedExpression(t@),
            ParseError::ExpectedStatement(t) => SParseError::ExpectedStatement(t@),
            ParseError::LexError(k) => SParseError::LexError(*k),
            ParseError::ExpectedTokenOfKind(k) => SParseError::ExpectedTokenOfKind(*k),
            ParseError::ReachedEOFBeforeClosingBrace => SParseError::ReachedEOFBeforeClosingBrace,
            ParseError::AdvanceError(e) => SParseError::AdvanceError(e@),
            ParseError::UnknownHashtag(s) => SParseError::UnknownHashtag(s@),
            ParseError::InvalidArraySize(s) => SParseError::InvalidArraySize(s@),
        }
    }
}

} // verus!
