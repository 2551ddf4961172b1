//! Script records: parsing a source text, compiling it once, running it in a
//! realm, and handing the compiled code on to other realms.

pub mod context;
pub mod effects;
pub mod evaluation;
pub mod heap;
pub mod laws;
pub mod outside;
pub mod script;
pub mod value;
