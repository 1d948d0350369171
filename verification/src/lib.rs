//! A small imperative language core: the syntax tree, the static alias
//! checker that rejects writes through read-only references, a bounded-depth
//! evaluator, and the driver that sequences the two.

pub mod ast;
pub mod alias;
pub mod alias_laws;
pub mod value;
pub mod stack;
pub mod eval;
pub mod eval_laws;
pub mod machine;
pub mod driver;
pub mod samples;
pub mod factorial;
