pub mod type_;
pub mod symbol;
pub mod error;
pub mod pragmas;
pub mod infer;
pub mod compiler;
pub mod modules;
