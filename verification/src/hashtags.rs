use vstd::prelude::*;

use crate::parse::lexer::chars_eq;
use crate::text::chars_of;

verus! {

/// A modifier that a hashtag names, parsed from the hashtag's text.
pub trait Hashtag: Sized {
    /// The modifier that `name` names, if any.
    spec fn spec_from_name(name: Seq<char>) -> Option<Self>;

    fn from_name(name: &String) -> (r: Option<Self>)
        ensures
            r == Self::spec_from_name(name@),
    ;

    /// The name of the modifier as `Debug` writes it.
    spec fn spec_debug_name(self) -> Seq<char>;

    fn debug_name(&self) -> (r: &'static str)
        ensures
            r@ == self.spec_debug_name(),
    ;
}

/// Hashtags of functions.
#[derive(Debug, Clone, Copy, PartialEq, Eq, Structural)]
pub enum FunTags {
    NoRet,
    Inline,
    Extern,
    Static,
}

/// Hashtags of records.
#[derive(Debug, Clone, Copy, PartialEq, Eq, Structural)]
pub enum RecTags {
    Union,
    Static,
}

/// Hashtags of type aliases.
#[derive(Debug, Clone, Copy, PartialEq, Eq, Structural)]
pub enum DefTags {
    Static,
}

/// Hashtags of tags.
#[derive(Debug, Clone, Copy, PartialEq, Eq, Structural)]
pub enum TagTags {
    Static,
    NoHelpers,
}

/// Hashtags of tagged records.
#[derive(Debug, Clone, Copy, PartialEq, Eq, Structural)]
pub enum TagRecTags {
    Static,
}

impl Hashtag for FunTags {
    open spec fn spec_debug_name(self) -> Seq<char> {
        match self {
            FunTags::NoRet => "NoRet"@,
            FunTags::Inline => "Inline"@,
            FunTags::Extern => "Extern"@,
            FunTags::Static => "Static"@,
        }
    }

    fn debug_name(&self) -> (r: &'static str) {
        match self {
            FunTags::NoRet => "NoRet",
            FunTags::Inline => "Inline",
            FunTags::Extern => "Extern",
            FunTags::Static => "Static",
        }
    }

    open spec fn spec_from_name(name: Seq<char>) -> Option<FunTags> {
        if name == "noret"@ {
            Some(FunTags::NoRet)
        } else if name == "inline"@ {
            Some(FunTags::Inline)
        } else if name == "extern"@ {
            Some(FunTags::Extern)
        } else if name == "static"@ {
            Some(FunTags::Static)
        } else {
            None
        }
    }

    fn from_name(name: &String) -> (r: Option<FunTags>) {
        let w = chars_of(name.as_str());
        if chars_eq(&w, "noret") {
            Some(FunTags::NoRet)
        } else if chars_eq(&w, "inline") {
            Some(FunTags::Inline)
        } else if chars_eq(&w, "extern") {
            Some(FunTags::Extern)
        } else if chars_eq(&w, "static") {
            Some(FunTags::Static)
        } else {
            None
        }
    }
}

impl Hashtag for RecTags {
    open spec fn spec_debug_name(self) -> Seq<char> {
        match self {
            RecTags::Union => "Union"@,
            RecTags::Static => "Static"@,
        }
    }

    fn debug_name(&self) -> (r: &'static str) {
        match self {
            RecTags::Union => "Union",
            RecTags::Static => "Static",
        }
    }

    open spec fn spec_from_name(name: Seq<char>) -> Option<RecTags> {
        if name == "union"@ {
            Some(RecTags::Union)
        } else if name == "static"@ {
            Some(RecTags::Static)
        } else {
            None
        }
    }

    fn from_name(name: &String) -> (r: Option<RecTags>) {
        let w = chars_of(name.as_str());
        if chars_eq(&w, "union") {
            Some(RecTags::Union)
        } else if chars_eq(&w, "static") {
            Some(RecTags::Static)
        } else {
            None
        }
    }
}

impl Hashtag for DefTags {
    open spec fn spec_debug_name(self) -> Seq<char> {
        match self {
            DefTags::Static => "Static"@,
        }
    }

    fn debug_name(&self) -> (r: &'static str) {
        match self {
            DefTags::Static => "Static",
        }
    }

    open spec fn spec_from_name(name: Seq<char>) -> Option<DefTags> {
        if name == "static"@ {
            Some(DefTags::Static)
        } else {
            None
        }
    }

    fn from_name(name: &String) -> (r: Option<DefTags>) {
        let w = chars_of(name.as_str());
        if chars_eq(&w, "static") {
            Some(DefTags::Static)
        } else {
            None
        }
    }
}

impl Hashtag for TagTags {
    open spec fn spec_debug_name(self) -> Seq<char> {
        match self {
            TagTags::Static => "Static"@,
            TagTags::NoHelpers => "NoHelpers"@,
        }
    }

    fn debug_name(&self) -> (r: &'static str) {
        match self {
            TagTags::Static => "Static",
            TagTags::NoHelpers => "NoHelpers",
        }
    }

    open spec fn spec_from_name(name: Seq<char>) -> Option<TagTags> {
        if name == "static"@ {
            Some(TagTags::Static)
        } else if name == "nohelpers"@ {
            Some(TagTags::NoHelpers)
        } else {
            None
        }
    }

    fn from_name(name: &String) -> (r: Option<TagTags>) {
        let w = chars_of(name.as_str());
        if chars_eq(&w, "static") {
            Some(TagTags::Static)
        } else if chars_eq(&w, "nohelpers") {
            Some(TagTags::NoHelpers)
        } else {
            None
        }
    }
}

impl Hashtag for TagRecTags {
    open spec fn spec_debug_name(self) -> Seq<char> {
        match self {
            TagRecTags::Static => "Static"@,
        }
    }

    fn debug_name(&self) -> (r: &'static str) {
        match self {
            TagRecTags::Static => "Static",
        }
    }

    open spec fn spec_from_name(name: Seq<char>) -> Option<TagRecTags> {
        if name == "static"@ {
            Some(TagRecTags::Static)
        } else {
            None
        }
    }

    fn from_name(name: &String) -> (r: Option<TagRecTags>) {
        let w = chars_of(name.as_str());
        if chars_eq(&w, "static") {
            Some(TagRecTags::Static)
        } else {
            None
        }
    }
}

} // verus!
