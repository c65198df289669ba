//! Validation support for a web framework: schema constraints derived from
//! validation attributes, problem-details mapping of request rejections,
//! runtime validation context storage, and grouped route collection.

pub mod text;
pub mod seqs;
pub mod rename;
pub mod meta;
pub mod literal;
pub mod constraints;
pub mod naming;
pub mod patched_schema;
pub mod flat_schema;
pub mod problem;
pub mod rejection;
pub mod handler;
pub mod context;
pub mod extract;
