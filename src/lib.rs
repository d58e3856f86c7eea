//! Pseudo-terminal sessions whose traffic runs through an ordered chain of
//! byte-transforming stages.
pub mod middleware;
pub mod text;
pub mod session;
