//! A mutation-testing engine for programs of a dynamic language: it walks a
//! syntax tree in a fixed pre-order, proposes small syntactic changes for
//! some node shapes, applies one change by traversal index, and classifies
//! how a mutant's test run ended.
use vstd::prelude::*;

pub mod syntax;
pub mod layout;
pub mod traversal;
pub mod mutation;
pub mod literal;
pub mod catalog;
pub mod digest;
pub mod explore;
pub mod execute;
pub mod sandbox;

verus! {

} // verus!
