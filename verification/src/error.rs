//! Errors reported when a graph does not match an expectation.

use vstd::prelude::*;

verus! {

/// Mathematical model of an [`Error`]: the same variants, with each
/// stringified payload seen as a sequence of characters.
#[verifier::ext_equal]
pub enum SpecError {
    /// A statement exists but its object differs from the expectation:
    /// predicate, expected rendering, actual rendering.
    GraphObjectMismatch(Seq<char>, Seq<char>, Seq<char>),
    /// The expectation requires a statement that is absent:
    /// predicate, expected rendering.
    GraphExpectedObject(Seq<char>, Seq<char>),
    /// A statement exists where none was expected:
    /// predicate, actual rendering.
    GraphUnexpectedObject(Seq<char>, Seq<char>),
    /// An element of an RDF list differs from the expectation:
    /// actual rendering, expected rendering.
    GraphListItemMismatch(Seq<char>, Seq<char>),
    /// A list node is missing its `first` or `rest` statement,
    /// or continues with a literal.
    GraphInvalidList,
    /// The list terminates before all expected items are consumed.
    GraphUnexpectedEndOfList,
    /// The list continues past the last expected item.
    GraphExpectedEndOfList,
}

/// Error enumeration: every way a graph assertion can fail.
///
/// Each variant carries enough stringified context (predicate IRI,
/// expected and actual renderings) to pinpoint the failing statement
/// without access to the original graph.
#[derive(Debug, Clone, PartialEq, Eq)]
pub enum Error {
    /// Graph inconsistency: a statement exists but its object differs
    /// from the expectation (predicate, expected, actual).
    GraphObjectMismatch(String, String, String),
    /// Graph inconsistency: the expectation requires a statement that is
    /// absent (predicate, expected).
    GraphExpectedObject(String, String),
    /// Graph inconsistency: a statement exists where none was expected
    /// (predicate, actual).
    GraphUnexpectedObject(String, String),
    /// Graph inconsistency: an RDF list element differs from the
    /// expectation (actual, expected).
    GraphListItemMismatch(String, String),
    /// Graph inconsistency: a list node is missing its `first` or `rest`
    /// statement, or continues with a literal.
    GraphInvalidList,
    /// Graph inconsistency: the list ends before the expected sequence does.
    GraphUnexpectedEndOfList,
    /// Graph inconsistency: the list continues past the expected sequence.
    GraphExpectedEndOfList,
}

impl View for Error {
    type V = SpecError;

    open spec fn view(&self) -> SpecError {
        match self {
            Error::GraphObjectMismatch(p, e, a) => SpecError::GraphObjectMismatch(p@, e@, a@),
            Error::GraphExpectedObject(p, e) => SpecError::GraphExpectedObject(p@, e@),
            Error::GraphUnexpectedObject(p, a) => SpecError::GraphUnexpectedObject(p@, a@),
            Error::GraphListItemMismatch(a, e) => SpecError::GraphListItemMismatch(a@, e@),
            Error::GraphInvalidList => SpecError::GraphInvalidList,
            Error::GraphUnexpectedEndOfList => SpecError::GraphUnexpectedEndOfList,
            Error::GraphExpectedEndOfList => SpecError::GraphExpectedEndOfList,
        }
    }
}

impl DeepView for Error {
    type V = SpecError;

    open spec fn deep_view(&self) -> SpecError {
        self.view()
    }
}

} // verus!
