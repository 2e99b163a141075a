pub mod prim;
pub mod ast;
pub mod desugar;
pub mod hir;
pub mod ast2hir;
pub mod runtime;
