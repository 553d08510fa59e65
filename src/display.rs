//! Human-readable rendering of bytes and errors.
use crate::error::{AmarkError, ErrorView};
use vstd::prelude::*;
use vstd::slice::slice_to_vec;
use vstd::string::StringSliceAdditionalSpecFns;

verus! {

/// What `{:?}` prints for a string: the string quoted, with its special characters escaped.
/// A string is its UTF-8 bytes, so they are what this depends on.
pub uninterp spec fn debug_str_of(b: Seq<u8>) -> Seq<u8>;

/// What `{:?}` prints for a byte slice: the list of its bytes as decimal numbers.
pub uninterp spec fn debug_bytes_of(b: Seq<u8>) -> Seq<u8>;

/// Relies on `std::str::from_utf8`: the bytes as a string when they are valid UTF-8, that
/// is when some string has exactly these bytes.
#[verifier::external_body]
fn utf8_of(b: &[u8]) -> (r: Option<&str>)
    ensures
        match r {
            Some(s) => s.spec_bytes() == b@,
            None => forall|s: &str| #[trigger] s.spec_bytes() != b@,
        },
{
    std::str::from_utf8(b).ok()
}

/// Relies on the `Debug` impl of `str` through `format!("{:?}")`, returned as bytes.
#[verifier::external_body]
fn debug_str(s: &str) -> (r: Vec<u8>)
    ensures
        r@ == debug_str_of(s.spec_bytes()),
{
    format!("{:?}", s).into_bytes()
}

/// Relies on the `Debug` impl of `[u8]` through `format!("{:?}")`, returned as bytes.
#[verifier::external_body]
fn debug_bytes(b: &[u8]) -> (r: Vec<u8>)
    ensures
        r@ == debug_bytes_of(b@),
{
    format!("{:?}", b).into_bytes()
}

/// How bytes are shown in a message: as a quoted string when they are valid UTF-8, else
/// as a list of numbers.
pub open spec fn shown(b: Seq<u8>) -> Seq<u8> {
    if exists|s: &str| #[trigger] s.spec_bytes() == b {
        debug_str_of(b)
    } else {
        debug_bytes_of(b)
    }
}

/// Helper to display bytes as a string if possible.
pub struct ByteDisp<'a>(pub &'a [u8]);

impl<'a> ByteDisp<'a> {
    /// The bytes as a message shows them.
    pub fn render(&self) -> (r: Vec<u8>)
        ensures
            r@ == shown(self.0@),
    {
        match utf8_of(self.0) {
            Some(s) => debug_str(s),
            None => debug_bytes(self.0),
        }
    }
}

/// The message that describes an error.
pub open spec fn message_text(e: ErrorView) -> Seq<u8> {
    match e {
        ErrorView::UnexpectedInput { expected, got } => "Unexpected input:\nexpected: ".spec_bytes()
            + shown(expected) + "\ngot: ".spec_bytes() + shown(got),
        ErrorView::UnexpectedEol { expected } => "Unexpected end of line, expected ".spec_bytes()
            + shown(expected) + " before end of line".spec_bytes(),
        ErrorView::UnexpectedEof { expected } => "Unexpected end of file:\nexpected: ".spec_bytes()
            + shown(expected) + "\ngot: End of File".spec_bytes(),
    }
}

/// `a` followed by `b`.
fn joined(a: Vec<u8>, b: Vec<u8>) -> (r: Vec<u8>)
    ensures
        r@ == a@ + b@,
{
    let mut a = a;
    let mut b = b;
    a.append(&mut b);
    a
}

impl AmarkError {
    /// The message that describes the error, the bytes it names shown as strings where
    /// they are valid UTF-8.
    pub fn message(&self) -> (r: Vec<u8>)
        ensures
            r@ == message_text(self@),
    {
        match self {
            AmarkError::UnexpectedInput { expected, got } => {
                let head = slice_to_vec("Unexpected input:\nexpected: ".as_bytes());
                let e = ByteDisp(expected.as_slice()).render();
                let mid = slice_to_vec("\ngot: ".as_bytes());
                let g = ByteDisp(got.as_slice()).render();
                joined(joined(joined(head, e), mid), g)
            },
            AmarkError::UnexpectedEol { expected } => {
                let head = slice_to_vec("Unexpected end of line, expected ".as_bytes());
                let e = ByteDisp(expected.as_slice()).render();
                let tail = slice_to_vec(" before end of line".as_bytes());
                joined(joined(head, e), tail)
            },
            AmarkError::UnexpectedEof { expected } => {
                let head = slice_to_vec("Unexpected end of file:\nexpected: ".as_bytes());
                let e = ByteDisp(expected.as_slice()).render();
                let tail = slice_to_vec("\ngot: End of File".as_bytes());
                joined(joined(head, e), tail)
            },
        }
    }
}

} // verus!
