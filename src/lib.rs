//! An interpreter for a small stack language.
//!
//! Source text is parsed into one statement per line (`parser`), the
//! executable statements are kept in order (`eval::program`), and a
//! `Machine` runs them against a stack of arbitrary-precision integers.
//! Jump targets count executable statements from 0: blank and comment
//! lines are not counted.
use vstd::prelude::*;

pub mod ast;
pub mod eval;
pub mod linked_list;
pub mod num;
pub mod parser;

verus! {

} // verus!
