//! Request identifiers, error responses and the message envelope.
use crate::lsps2::msgs::{LSPS2Message, LSPS2MessageView};
use vstd::prelude::*;

verus! {

/// The identifier that a client chose for a request. A response carries the
/// identifier of the request it answers.
#[derive(Debug, PartialEq, Eq, Hash)]
pub struct RequestId(pub String);

impl View for RequestId {
    type V = Seq<char>;

    open spec fn view(&self) -> Seq<char> {
        self.0@
    }
}

impl Clone for RequestId {
    fn clone(&self) -> (copy: RequestId)
        ensures
            copy == *self,
    {
        RequestId(self.0.clone())
    }
}

impl RequestId {
    /// Whether two identifiers are spelled the same.
    pub fn matches(&self, other: &RequestId) -> (same: bool)
        ensures
            same == (self@ == other@),
    {
        self.0 == other.0
    }
}

/// An error response: a numeric code and a message for a human reader.
#[derive(Debug, PartialEq, Eq)]
pub struct ResponseError {
    /// The code that tells the kinds of error apart.
    pub code: i32,
    /// A short description of the error.
    pub message: String,
}

/// The mathematical content of a [`ResponseError`].
pub struct ResponseErrorView {
    pub code: i32,
    pub message: Seq<char>,
}

impl View for ResponseError {
    type V = ResponseErrorView;

    open spec fn view(&self) -> ResponseErrorView {
        ResponseErrorView { code: self.code, message: self.message@ }
    }
}

impl Clone for ResponseError {
    fn clone(&self) -> (copy: ResponseError)
        ensures
            copy == *self,
    {
        ResponseError { code: self.code, message: self.message.clone() }
    }
}

/// A message on its way to a peer.
#[derive(Debug, Clone, PartialEq, Eq)]
pub enum LSPSMessage {
    /// A message of the just-in-time channel protocol.
    LSPS2(LSPS2Message),
}

/// The mathematical content of an [`LSPSMessage`].
pub enum LSPSMessageView {
    LSPS2(LSPS2MessageView),
}

impl View for LSPSMessage {
    type V = LSPSMessageView;

    open spec fn view(&self) -> LSPSMessageView {
        match self {
            LSPSMessage::LSPS2(message) => LSPSMessageView::LSPS2(message@),
        }
    }
}

} // verus!
