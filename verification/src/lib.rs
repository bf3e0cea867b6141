//! Lock-free-style LIFO stack primitive and the typed error vocabulary of a
//! page-cache storage engine core: the stack is the substrate for optimistic
//! compare-and-swap update protocols, and the error type is the uniform
//! result channel that distinguishes a lost race from a genuine fault.

pub mod errors;
pub mod stack;
pub mod render;
