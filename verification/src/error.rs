use vstd::prelude::*;

verus! {

/// Every way a gateway call can fail. All errors are fatal to the enclosing
/// call: the call aborts and (with the single exception of the replay-set
/// insertion made before receiver validation) discards its mutations.
#[derive(Clone, Copy, Debug, PartialEq, Eq, Structural)]
pub enum Error {
    /// The destination chain is not allow-listed.
    UnsupportedChain,
    /// The inbound message's digest is already in the replay set.
    AlreadyExecuted,
    /// The receiver identity does not have the expected fixed byte length.
    InvalidReceiver,
    /// A required storage slot is absent (a corrupted or not-yet-installed
    /// instance).
    MissingKey,
    /// Signature verification failed, or the installed or presented key
    /// material is malformed.
    InvalidSignature,
}

impl Error {
    /// The numeric user error code under which the host reports this error.
    pub open spec fn spec_code(self) -> u16 {
        match self {
            Error::UnsupportedChain => 1,
            Error::AlreadyExecuted => 2,
            Error::InvalidReceiver => 3,
            Error::MissingKey => 4,
            Error::InvalidSignature => 5,
        }
    }

    /// The numeric user error code under which the host reports this error.
    pub fn code(self) -> (c: u16)
        ensures
            c == self.spec_code(),
    {
        match self {
            Error::UnsupportedChain => 1,
            Error::AlreadyExecuted => 2,
            Error::InvalidReceiver => 3,
            Error::MissingKey => 4,
            Error::InvalidSignature => 5,
        }
    }
}

} // verus!
