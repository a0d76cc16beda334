//! The ways in which talking to the listing can fail.

use vstd::prelude::*;
use vstd::string::*;

verus! {

/// A failure of the transport, by the stage at which it struck. Each kind
/// carries the transport's own account of what went wrong.
#[derive(Debug, PartialEq, Eq)]
pub enum Error {
    /// The transport could not be set up.
    ClientBuildError(String),
    /// The request could not be sent, or no answer came.
    ClientSendError(String),
    /// An answer came, but its body is not a page of the listing.
    ClientJsonError(String),
}

impl Error {
    /// The text that describes this kind of failure.
    pub open spec fn text(self) -> Seq<char> {
        match self {
            Error::ClientBuildError(_) => "Unable to build client"@,
            Error::ClientSendError(_) => "Unable to send request"@,
            Error::ClientJsonError(_) => "Unable to parse request"@,
        }
    }

    /// The transport's account that this failure carries.
    pub open spec fn detail(self) -> String {
        match self {
            Error::ClientBuildError(cause) => cause,
            Error::ClientSendError(cause) => cause,
            Error::ClientJsonError(cause) => cause,
        }
    }

    /// The text that describes this kind of failure.
    pub fn message(&self) -> (text: String)
        ensures
            text@ == self.text(),
    {
        match self {
            Error::ClientBuildError(_) => String::from_str("Unable to build client"),
            Error::ClientSendError(_) => String::from_str("Unable to send request"),
            Error::ClientJsonError(_) => String::from_str("Unable to parse request"),
        }
    }

    /// The transport's account of what went wrong.
    pub fn cause(&self) -> (cause: &String)
        ensures
            *cause == self.detail(),
    {
        match self {
            Error::ClientBuildError(cause) => cause,
            Error::ClientSendError(cause) => cause,
            Error::ClientJsonError(cause) => cause,
        }
    }
}

} // verus!
