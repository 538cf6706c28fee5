//! Reasons for which a relay leg drops a single datagram.

use vstd::prelude::*;
use vstd::string::StringExecFns;

verus! {

/// Why a datagram was dropped. Each of these is confined to the datagram that
/// caused it: the relay goes on with the next one.
#[derive(Clone, Copy, Debug, PartialEq, Eq, Structural)]
pub enum RelayError {
    /// A tunnel datagram too short to hold the address header.
    MalformedFrame,
    /// A player datagram whose sender is not an IPv4 endpoint.
    UnexpectedAddressFamily,
}

impl RelayError {
    /// The text of this error as a string literal would spell it.
    pub open spec fn message_spec(self) -> Seq<char> {
        match self {
            RelayError::MalformedFrame => "tunnel datagram shorter than the address header"@,
            RelayError::UnexpectedAddressFamily => "player datagram from a non-IPv4 sender"@,
        }
    }

    /// A line for the operator's log.
    pub fn message(&self) -> (text: String)
        ensures
            text@ == self.message_spec(),
    {
        match self {
            RelayError::MalformedFrame => String::from_str(
                "tunnel datagram shorter than the address header",
            ),
            RelayError::UnexpectedAddressFamily => String::from_str(
                "player datagram from a non-IPv4 sender",
            ),
        }
    }
}

} // verus!
