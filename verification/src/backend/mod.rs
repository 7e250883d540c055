pub mod c_text;
pub mod c;

use vstd::prelude::*;

use crate::parse::ast::Node;
use c::{CBackend, CodegenError};

verus! {

/// A code generator: it writes the code of one node after another into `out`.
pub trait Backend {
    /// Whether the generator is in a state to write.
    spec fn ready(&self) -> bool;

    /// Writes the code of `node` at the end of `out`.
    fn write(&mut self, out: &mut String, node: &Node) -> (r: Result<(), CodegenError>)
        requires
            old(self).ready(),
    ;
}

impl Backend for CBackend {
    open spec fn ready(&self) -> bool {
        self.wf()
    }

    fn write(&mut self, out: &mut String, node: &Node) -> (r: Result<(), CodegenError>)
        ensures
            CBackend::stepped(
                *old(self),
                *final(self),
                c_text::gen(old(self).file(), c::path_parent(old(self).file()), old(self).state(), node@),
                r,
                old(out)@,
                final(out)@,
            ),
    {
        CBackend::write(self, out, node)
    }
}

} // verus!
