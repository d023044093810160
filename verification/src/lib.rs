//! Verified core of the Hale toolchain pieces: the topic desugaring passes
//! over the syntax tree, the interpreter's builtin table, the argument
//! checks of the `std::*` path-call lowerings and the `lotus` CLI's
//! command dispatch.
pub mod ast;
pub mod model;
pub mod strmap;
pub mod topic_table;
pub mod desugar;
pub mod intra_locus;
pub mod decimal;
pub mod builtins;
pub mod lowering;
pub mod cli;
