//! Compiles a parsed command-line invocation tree into shell code: an
//! ordered sequence of variable assignments, correctly escaped for one of
//! five shell dialects, with every synthesized identifier checked against
//! the dialect's identifier rules.

pub mod config_checker;
pub mod dependencies;
pub mod error;
pub mod ident_type;
pub mod invocation;
pub mod laws;
pub mod roundtrip;
pub mod shell;
pub mod text;

pub use dependencies::Dependencies;
pub use shell::Shell;
