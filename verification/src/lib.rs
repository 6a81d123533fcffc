//! An interactive-fiction engine: a compiler from story scripts to a flat
//! scene graph, and the state machine that walks a session through it.

pub mod compile;
pub mod distinct;
pub mod engine;
pub mod expression;
pub mod filter;
pub mod grammar;
pub mod laws;
pub mod lexer;
pub mod parser;
pub mod resolve;
pub mod script;
pub mod session;
pub mod state;
pub mod table;
pub mod target;
pub mod text;
pub mod zone;
