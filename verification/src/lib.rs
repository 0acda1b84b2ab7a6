//! The decision core of a declarative rule engine: predicates over dynamically
//! typed values, conditions and their logical combination, quantified
//! constraints over lists, numeric reductions, and the merge of dotted-path
//! results into one nested document.

pub mod condition;
pub mod error;
pub mod function;
pub mod number;
pub mod output;
pub mod text;
pub mod value;
