//! Citation graphs of academic works: the document model, its integrity
//! check, and the emission of a directed-graph description.

pub mod cli;
pub mod graph;
pub mod types;
pub mod validate;
