//! Validation of RDF graphs produced by expanding JSON Linked Data documents.
//!
//! A graph is an unordered collection of subject–predicate–object statements.
//! The assertion functions in [`rdf`] locate a statement for a given subject
//! and predicate, compare its object against an expected value, walk
//! RDF-encoded linked lists, and consume every matched statement, so that a
//! caller can confirm by exhaustion that no unexpected statement remains.

use vstd::prelude::*;

pub mod error;
pub mod rdf;

pub use error::Error;
pub use error::SpecError;

verus! {

} // verus!
