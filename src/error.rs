//! The errors the reader reports.
use vstd::prelude::*;

verus! {

/// An error that occurred while reading Amark markup.
#[derive(Debug, Clone, PartialEq, Eq)]
pub enum AmarkError {
    /// Got input that wasn't expected in this context
    UnexpectedInput {
        /// Description of the expected input
        expected: Vec<u8>,
        /// The input we actually got
        got: Vec<u8>,
    },
    /// Unexpected end of line; no construct of the grammar reports it at present
    UnexpectedEol {
        /// Description of what was expected before the end of the line
        expected: Vec<u8>,
    },
    /// Unexpected end of input
    UnexpectedEof {
        /// Description of what was expected before the end of the input
        expected: Vec<u8>,
    },
}

/// The mathematical value of an error.
pub enum ErrorView {
    UnexpectedInput { expected: Seq<u8>, got: Seq<u8> },
    UnexpectedEol { expected: Seq<u8> },
    UnexpectedEof { expected: Seq<u8> },
}

impl View for AmarkError {
    type V = ErrorView;

    open spec fn view(&self) -> ErrorView {
        match self {
            AmarkError::UnexpectedInput { expected, got } => ErrorView::UnexpectedInput {
                expected: expected@,
                got: got@,
            },
            AmarkError::UnexpectedEol { expected } => ErrorView::UnexpectedEol {
                expected: expected@,
            },
            AmarkError::UnexpectedEof { expected } => ErrorView::UnexpectedEof {
                expected: expected@,
            },
        }
    }
}

impl AmarkError {
    /// Convert the error into a value that owns all of its data. Every error of this
    /// library already does, so this hands the same error back.
    pub fn to_owned(self) -> (r: AmarkError)
        ensures
            r@ == self@,
    {
        self
    }
}

} // verus!
