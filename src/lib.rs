//! Markdown workflows: a parser from a constrained markdown dialect to a typed
//! list of steps, and an engine that runs those steps with mode-gated branching.

pub mod document;
pub mod execution_mode;
pub mod markdown;
pub mod models;
pub mod parser;
pub mod runner;
pub mod text;
