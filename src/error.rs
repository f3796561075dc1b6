use vstd::prelude::*;
use vstd::string::*;

verus! {

/// The kind of value that failed to decode.
#[derive(Debug, Clone, Copy, PartialEq, Eq, Structural)]
pub enum ValueKind {
    /// An `HH:MM:SS` duration.
    Duration,
    /// A `0`/`1` flag.
    Bool,
    /// A decimal integer, or one out of the range of its type.
    Integer,
    /// A play mode name.
    PlayMode,
}

/// The failures that decoding protocol data can produce.
#[derive(Debug)]
pub enum DecodeError {
    /// A required field or element is absent: the context, then the missing name.
    MissingElement(String, String),
    /// A value that is present but does not decode.
    InvalidValue(ValueKind),
    /// A document that is not well-formed XML.
    Xml(roxmltree::Error),
    /// A group whose coordinator is not among its own members; holds the coordinator.
    MalformedTopology(String),
}

/// What a [`DecodeError`] says, as plain values.
pub enum DecodeErrorView {
    MissingElement(Seq<char>, Seq<char>),
    InvalidValue(ValueKind),
    Xml,
    MalformedTopology(Seq<char>),
}

impl View for DecodeError {
    type V = DecodeErrorView;

    open spec fn view(&self) -> DecodeErrorView {
        match self {
            DecodeError::MissingElement(context, element) => DecodeErrorView::MissingElement(
                context@,
                element@,
            ),
            DecodeError::InvalidValue(kind) => DecodeErrorView::InvalidValue(*kind),
            DecodeError::Xml(_) => DecodeErrorView::Xml,
            DecodeError::MalformedTopology(uuid) => DecodeErrorView::MalformedTopology(uuid@),
        }
    }
}

/// The error for a missing `element` in `context`.
pub fn missing(context: &str, element: &str) -> (r: DecodeError)
    ensures
        r@ == DecodeErrorView::MissingElement(context@, element@),
{
    DecodeError::MissingElement(String::from_str(context), String::from_str(element))
}

/// The view of a result whose success value is plain.
pub open spec fn plain_result<T>(r: Result<T, DecodeError>) -> Result<T, DecodeErrorView> {
    match r {
        Ok(v) => Ok(v),
        Err(e) => Err(e@),
    }
}

} // verus!
