//! Why an exchange with a server failed.
use vstd::prelude::*;

verus! {

/// Why an exchange failed.
#[derive(Clone, Copy, Debug, PartialEq, Eq, Structural)]
pub enum Failure {
    /// The last thing asked for failed; its error is passed on as it is.
    Passed,
    /// The server's name has no address.
    NoAddress,
    /// The Tor proxy did not connect.
    Tor,
    /// A selector names no file to download to.
    Filename,
    /// The user cancelled the download.
    Cancelled,
}

/// The text of the error that a failure is reported as. `cause` is the text of the
/// error that the last thing asked for gave, or, for `Filename`, the selector.
pub open spec fn message_of(failure: Failure, cause: Seq<char>) -> Seq<char> {
    match failure {
        Failure::Passed => cause,
        Failure::NoAddress => "Can't create socket"@,
        Failure::Tor => "Tor error: "@ + cause,
        Failure::Filename => "Bad download filename: "@ + cause,
        Failure::Cancelled => "Download cancelled"@,
    }
}

impl Failure {
    /// The text of the error that the failure is reported as.
    pub fn message(self, cause: &str) -> (text: String)
        ensures
            text@ == message_of(self, cause@),
    {
        match self {
            Failure::Passed => cause.to_string(),
            Failure::NoAddress => "Can't create socket".to_string(),
            Failure::Tor => {
                let mut text = "Tor error: ".to_string();
                text.append(cause);
                text
            },
            Failure::Filename => {
                let mut text = "Bad download filename: ".to_string();
                text.append(cause);
                text
            },
            Failure::Cancelled => "Download cancelled".to_string(),
        }
    }
}

/// A failure that is passed on is reported in the words of its cause. One of Tor, or
/// of a file name, ends in those words, behind what failed. The others are reported
/// in words of their own, whatever the cause.
pub proof fn law_messages(cause: Seq<char>, other: Seq<char>)
    ensures
        message_of(Failure::Passed, cause) == cause,
        message_of(Failure::Tor, cause) == "Tor error: "@ + cause,
        message_of(Failure::Filename, cause) == "Bad download filename: "@ + cause,
        message_of(Failure::NoAddress, cause) == message_of(Failure::NoAddress, other),
        message_of(Failure::NoAddress, cause) == "Can't create socket"@,
        message_of(Failure::Cancelled, cause) == message_of(Failure::Cancelled, other),
        message_of(Failure::Cancelled, cause) == "Download cancelled"@,
{
}

} // verus!
