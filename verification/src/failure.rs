//! The failures that a caller is told of.
use vstd::prelude::*;

verus! {

/// What went wrong, with the reason that was given for it.
#[derive(Debug, PartialEq, Eq)]
pub enum Failure {
    /// The text of a proxy is not one.
    Proxy(String),
    /// The request could not be sent, or the server did not answer it.
    Request(String),
    /// The body could not be read as text.
    TextDecoding(String),
    /// The file to hash could not be opened.
    OpenFile(String),
    /// The file to hash could not be read.
    ReadFile(String),
}

/// What a message starts with.
pub open spec fn prefix_of(failure: Failure) -> Seq<char> {
    match failure {
        Failure::Proxy(_) => "Proxy error: "@,
        Failure::Request(_) => "Request failed: "@,
        Failure::TextDecoding(_) => "Text decoding failed: "@,
        Failure::OpenFile(_) => "Failed to open file: "@,
        Failure::ReadFile(_) => "Failed to read file: "@,
    }
}

/// The reason that a failure has.
pub open spec fn reason_of(failure: Failure) -> Seq<char> {
    match failure {
        Failure::Proxy(reason) => reason@,
        Failure::Request(reason) => reason@,
        Failure::TextDecoding(reason) => reason@,
        Failure::OpenFile(reason) => reason@,
        Failure::ReadFile(reason) => reason@,
    }
}

impl Failure {
    /// The message for the caller.
    pub fn message(&self) -> (message: String)
        ensures
            message@ == prefix_of(*self) + reason_of(*self),
    {
        let (prefix, reason): (&str, &String) = match self {
            Failure::Proxy(reason) => ("Proxy error: ", reason),
            Failure::Request(reason) => ("Request failed: ", reason),
            Failure::TextDecoding(reason) => ("Text decoding failed: ", reason),
            Failure::OpenFile(reason) => ("Failed to open file: ", reason),
            Failure::ReadFile(reason) => ("Failed to read file: ", reason),
        };
        let mut message: String = prefix.to_owned();
        message.append(reason.as_str());
        message
    }

    /// Whether the failure is one of file access.
    pub fn is_file_failure(&self) -> (is: bool)
        ensures
            is == (*self is OpenFile || *self is ReadFile),
    {
        match self {
            Failure::OpenFile(_) => true,
            Failure::ReadFile(_) => true,
            _ => false,
        }
    }
}

/// A message says what failed, then gives the reason as it is, whole and unchanged.
pub proof fn law_message_names_the_failure(failure: Failure, message: String)
    requires
        call_ensures(Failure::message, (&failure,), message),
    ensures
        failure matches Failure::Proxy(reason) ==> message@ == "Proxy error: "@ + reason@,
        failure matches Failure::Request(reason) ==> message@ == "Request failed: "@ + reason@,
        failure matches Failure::TextDecoding(reason) ==> message@ == "Text decoding failed: "@
            + reason@,
        failure matches Failure::OpenFile(reason) ==> message@ == "Failed to open file: "@ + reason@,
        failure matches Failure::ReadFile(reason) ==> message@ == "Failed to read file: "@ + reason@,
{
}

} // verus!
