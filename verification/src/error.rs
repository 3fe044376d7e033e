//! The errors that a client or a responder can report.
use vstd::prelude::*;

verus! {

/// Represents errors that can occur during the operation of the client or responder.
#[derive(Debug, Clone, PartialEq, Eq)]
pub enum Error {
    /// The request could not be handed to the responder.
    SendFailed(String),
    /// The waiting side of the request was closed before a response came.
    ReceiveFailed(String),
    /// No response arrived within the timeout.
    Timeout,
    /// The responder could not send its response back.
    SendResponseFailed(String),
    /// The client could not keep track of the request.
    InternalError(String),
}

/// The text that describes an error: the variant's prefix followed by its detail.
pub open spec fn error_message(e: Error) -> Seq<char> {
    match e {
        Error::SendFailed(d) => "Send failed: "@ + d@,
        Error::ReceiveFailed(d) => "Receive failed: "@ + d@,
        Error::Timeout => "Response timeout"@,
        Error::SendResponseFailed(d) => "Send response failed: "@ + d@,
        Error::InternalError(d) => "Internal error: "@ + d@,
    }
}

impl Error {
    /// Describes the error in words, as its `Display` text does.
    pub fn message(&self) -> (text: String)
        ensures
            text@ == error_message(*self),
    {
        match self {
            Error::SendFailed(d) => String::from_str("Send failed: ").concat(d.as_str()),
            Error::ReceiveFailed(d) => String::from_str("Receive failed: ").concat(d.as_str()),
            Error::Timeout => String::from_str("Response timeout"),
            Error::SendResponseFailed(d) => String::from_str("Send response failed: ").concat(
                d.as_str(),
            ),
            Error::InternalError(d) => String::from_str("Internal error: ").concat(d.as_str()),
        }
    }
}

/// Each error describes itself by the text of its variant followed by its detail.
pub proof fn lemma_error_texts(d: String)
    ensures
        error_message(Error::SendFailed(d)) == "Send failed: "@ + d@,
        error_message(Error::ReceiveFailed(d)) == "Receive failed: "@ + d@,
        error_message(Error::Timeout) == "Response timeout"@,
        error_message(Error::SendResponseFailed(d)) == "Send response failed: "@ + d@,
        error_message(Error::InternalError(d)) == "Internal error: "@ + d@,
{
}

} // verus!
