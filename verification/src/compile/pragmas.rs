use vstd::prelude::*;

use crate::parse::ast::{Node, NodeKind, SKind, SNode};
use crate::parse::lexer::chars_eq;
use crate::text::chars_of;

use super::error::{CompilerError, SCompilerError};

verus! {

/// A directive to the C compiler, given with `pragma`.
#[derive(Debug, Clone, PartialEq, Eq)]
pub enum Pragma {
    AddCCFlag(String),
    AddLibrary(String),
    AddIncludeDir(String),
}

pub enum SPragma {
    AddCCFlag(Seq<char>),
    AddLibrary(Seq<char>),
    AddIncludeDir(Seq<char>),
}

impl View for Pragma {
    type V = SPragma;

    open spec fn view(&self) -> SPragma {
        match self {
            Pragma::AddCCFlag(s) => SPragma::AddCCFlag(s@),
            Pragma::AddLibrary(s) => SPragma::AddLibrary(s@),
            Pragma::AddIncludeDir(s) => SPragma::AddIncludeDir(s@),
        }
    }
}

/// The one string argument of a pragma.
pub open spec fn single_string(params: Seq<SNode>) -> Result<Seq<char>, SCompilerError> {
    if params.len() != 1 {
        Err(SCompilerError::NotEnoughOrTooManyPragmaArguments(1, params.len() as usize))
    } else {
        match params[0].node {
            SKind::ExprString(s) => Ok(s),
            _ => Err(SCompilerError::InvalidPragmaArguments("String"@, 0)),
        }
    }
}

/// The pragma named `id` with the arguments `params`.
pub open spec fn spec_pragma(id: Seq<char>, params: Seq<SNode>) -> Result<SPragma, SCompilerError> {
    if id == "add_cc_flag"@ {
        match single_string(params) {
            Ok(s) => Ok(SPragma::AddCCFlag(s)),
            Err(e) => Err(e),
        }
    } else if id == "add_library"@ {
        match single_string(params) {
            Ok(s) => Ok(SPragma::AddLibrary(s)),
            Err(e) => Err(e),
        }
    } else if id == "add_include_dir"@ {
        match single_string(params) {
            Ok(s) => Ok(SPragma::AddIncludeDir(s)),
            Err(e) => Err(e),
        }
    } else {
        Err(SCompilerError::NoSuchPragma(id))
    }
}

pub open spec fn pragma_out<T: View>(r: Result<T, CompilerError>) -> Result<T::V, SCompilerError> {
    match r {
        Ok(v) => Ok(v@),
        Err(e) => Err(e@),
    }
}

impl Pragma {
    fn get_single_string_pragma(params: &Vec<Node>) -> (r: Result<String, CompilerError>)
        ensures
            pragma_out(r) == single_string(crate::parse::ast::nodes_view(params@)),
    {
        proof {
            crate::parse::ast::lemma_nodes_view_len(params@);
        }
        if params.len() != 1 {
            return Err(CompilerError::NotEnoughOrTooManyPragmaArguments(1, params.len()));
        }
        proof {
            crate::parse::ast::lemma_nodes_view_index(params@, 0);
        }
        match &params[0].node {
            NodeKind::ExprString(it) => Ok(it.clone()),
            _ => Err(CompilerError::InvalidPragmaArguments("String".to_owned(), 0)),
        }
    }

    /// The pragma named `id` with the arguments `params`.
    pub fn from(id: &String, params: &Vec<Node>) -> (r: Result<Pragma, CompilerError>)
        ensures
            pragma_out(r) == spec_pragma(id@, crate::parse::ast::nodes_view(params@)),
    {
        let w = chars_of(id.as_str());
        if chars_eq(&w, "add_cc_flag") {
            match Self::get_single_string_pragma(params) {
                Ok(s) => Ok(Pragma::AddCCFlag(s)),
                Err(e) => Err(e),
            }
        } else if chars_eq(&w, "add_library") {
            match Self::get_single_string_pragma(params) {
                Ok(s) => Ok(Pragma::AddLibrary(s)),
                Err(e) => Err(e),
            }
        } else if chars_eq(&w, "add_include_dir") {
            match Self::get_single_string_pragma(params) {
                Ok(s) => Ok(Pragma::AddIncludeDir(s)),
                Err(e) => Err(e),
            }
        } else {
            Err(CompilerError::NoSuchPragma(id.clone()))
        }
    }

    /// The pragma that a `pragma` statement gives.
    pub fn from_node(node: &Node) -> (r: Result<Pragma, CompilerError>)
        requires
            node@.node is TopPragma,
        ensures
            pragma_out(r) == spec_pragma(node@.node->TopPragma_id, node@.node->TopPragma_params),
    {
        match &node.node {
            NodeKind::TopPragma { id, params } => Pragma::from(id, params),
            _ => Err(CompilerError::NoSuchPragma(String::new())),
        }
    }
}

} // verus!
