//! The closed set of failures that the streaming pipeline can raise. Each
//! variant carries the offending raw line or payload for diagnostics.

use vstd::prelude::*;

verus! {

/// Ghost image of an [`Error`]: the same variants over mathematical sequences.
pub enum ErrorView {
    /// A complete line was extracted from the buffer but its bytes are not
    /// valid UTF-8. Carries the raw bytes of the line, terminator stripped.
    Utf8(Seq<u8>),
    /// An event declaration named a type other than `update`, `delete` or
    /// `notification`. Carries the unrecognized name.
    EventType(Seq<char>),
    /// A line arrived that fits no rule for the current decoder state.
    /// Carries the kind of line that was expected (`event` or `data`) and
    /// the line that actually arrived.
    StreamingState(Seq<char>, Seq<char>),
    /// A payload failed to decode under its declared event type. Carries the
    /// raw payload text.
    Deserialize(Seq<char>),
}

/// A failure of the line splitter or the event decoder.
///
/// The pipeline is fail-fast: none of these is retried or resynchronized; a
/// consumer wanting resilience recreates the pipeline from a fresh transport.
#[derive(Debug, PartialEq)]
pub enum Error {
    /// A complete line was extracted from the buffer but its bytes are not
    /// valid UTF-8. Carries the raw bytes of the line, terminator stripped.
    Utf8(Vec<u8>),
    /// An event declaration named a type other than `update`, `delete` or
    /// `notification`. Carries the unrecognized name.
    EventType(String),
    /// A line arrived that fits no rule for the current decoder state.
    /// Carries the kind of line that was expected (`event` or `data`) and
    /// the line that actually arrived.
    StreamingState(String, String),
    /// A payload failed to decode under its declared event type. Carries the
    /// raw payload text.
    Deserialize(String),
}

impl View for Error {
    type V = ErrorView;

    open spec fn view(&self) -> ErrorView {
        match self {
            Error::Utf8(raw) => ErrorView::Utf8(raw@),
            Error::EventType(name) => ErrorView::EventType(name@),
            Error::StreamingState(expected, actual) => ErrorView::StreamingState(
                expected@,
                actual@,
            ),
            Error::Deserialize(payload) => ErrorView::Deserialize(payload@),
        }
    }
}

} // verus!
