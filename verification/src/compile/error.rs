use vstd::prelude::*;

use super::symbol::{SSymbol, Symbol};

verus! {

/// What went wrong while compiling.
#[derive(Debug)]
pub enum CompilerError {
    UnknownSymbol(String),
    Uninstantiatable(String, Symbol),
    TagRecInstantiateWithoutKind,
    ImportError(String),
    NoSuchPragma(String),
    NotEnoughOrTooManyPragmaArguments(usize, usize),
    InvalidPragmaArguments(String, usize),
}

pub enum SCompilerError {
    UnknownSymbol(Seq<char>),
    Uninstantiatable(Seq<char>, SSymbol),
    TagRecInstantiateWithoutKind,
    ImportError(Seq<char>),
    NoSuchPragma(Seq<char>),
    NotEnoughOrTooManyPragmaArguments(usize, usize),
    InvalidPragmaArguments(Seq<char>, usize),
}

impl View for CompilerError {
    type V = SCompilerError;

    open spec fn view(&self) -> SCompilerError {
        match self {
            CompilerError::UnknownSymbol(s) => SCompilerError::UnknownSymbol(s@),
            CompilerError::Uninstantiatable(s, sym) => SCompilerError::Uninstantiatable(s@, sym@),
            CompilerError::TagRecInstantiateWithoutKind => SCompilerError::TagRecInstantiateWithoutKind,
            CompilerError::ImportError(s) => SCompilerError::ImportError(s@),
            CompilerError::NoSuchPragma(s) => SCompilerError::NoSuchPragma(s@),
            CompilerError::NotEnoughOrTooManyPragmaArguments(a, b) => {
                SCompilerError::NotEnoughOrTooManyPragmaArguments(*a, *b)
            },
            CompilerError::InvalidPragmaArguments(s, i) => SCompilerError::InvalidPragmaArguments(
                s@,
                *i,
            ),
        }
    }
}

} // verus!
