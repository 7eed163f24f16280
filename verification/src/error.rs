//! What can go wrong.
use vstd::prelude::*;

verus! {

/// Why a request to the TV has no result.
#[derive(Debug)]
pub enum TvError {
    /// The TV's answer lacks what was asked for.
    InvalidResponse,
    /// The connection ended while the command waited for its answer.
    ConnectionClosed,
    /// There is no connection to send the command on.
    NotConnected,
    /// The command was dropped without an answer. Holds what the channel said.
    Canceled(String),
    /// No answer came in time. Holds what the timer said.
    TimedOut(String),
    /// The address of the TV is no URL. Holds what is wrong with it.
    InvalidUrl(String),
}

impl TvError {
    /// The text that the error is reported with.
    pub open spec fn text(self) -> Seq<char> {
        match self {
            TvError::InvalidResponse => "Invalid response"@,
            TvError::ConnectionClosed => "Connection closed"@,
            TvError::NotConnected => "Not connected"@,
            TvError::Canceled(reason) => "Canceled channel: "@ + reason@,
            TvError::TimedOut(reason) => reason@,
            TvError::InvalidUrl(reason) => reason@,
        }
    }

    /// The text that the error is reported with.
    pub fn message(&self) -> (message: String)
        ensures
            message@ == self.text(),
    {
        match self {
            TvError::InvalidResponse => String::from_str("Invalid response"),
            TvError::ConnectionClosed => String::from_str("Connection closed"),
            TvError::NotConnected => String::from_str("Not connected"),
            TvError::Canceled(reason) => {
                String::from_str("Canceled channel: ").concat(reason.as_str())
            },
            TvError::TimedOut(reason) => reason.clone(),
            TvError::InvalidUrl(reason) => reason.clone(),
        }
    }
}

} // verus!
