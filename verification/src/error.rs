//! Errors that reach the caller.

use vstd::prelude::*;

verus! {

/// What can go wrong at the library's surface. Failed connects, failed
/// handshakes and failed forwards are not among them: the supervisor recovers
/// from those by itself.
#[derive(Clone, Copy, Debug, PartialEq, Eq, Structural)]
pub enum LoquiError {
    /// The supervisor's background loop is gone: the event cannot be queued.
    ConnectionSupervisorDead,
    /// The server's listen address does not parse.
    InvalidAddress,
    /// The server could not bind its listen address.
    BindFailed,
}

impl LoquiError {
    /// The text of each error.
    pub open spec fn message_text(self) -> Seq<char> {
        match self {
            LoquiError::ConnectionSupervisorDead => "connection supervisor dead"@,
            LoquiError::InvalidAddress => "invalid listen address"@,
            LoquiError::BindFailed => "could not bind the listen address"@,
        }
    }

    /// A line for logs and error reports.
    pub fn message(&self) -> (text: String)
        ensures
            text@ == self.message_text(),
    {
        match self {
            LoquiError::ConnectionSupervisorDead => "connection supervisor dead".to_owned(),
            LoquiError::InvalidAddress => "invalid listen address".to_owned(),
            LoquiError::BindFailed => "could not bind the listen address".to_owned(),
        }
    }
}

} // verus!
