pub mod backend;
pub mod chars;
pub mod compile;
pub mod hashtags;
pub mod parse;
pub mod reef;
pub mod sandbox;
pub mod text;
pub mod util;
