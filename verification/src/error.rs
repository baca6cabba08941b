//! What can go wrong.

use vstd::prelude::*;

verus! {

/// The failures of the synchronisation protocol. None of them is fatal: a
/// failed exchange is dropped and the chain and the peers stay as they were.
#[derive(Clone, Copy, Debug, PartialEq, Eq, Structural)]
pub enum SyncError {
    /// The peer did not answer the connection attempt in time.
    ConnectTimeout,
    /// The peer refused the connection.
    ConnectRefused,
    /// The bytes received are not one whole frame holding one message.
    FrameDecodeError,
    /// The operator gave an address that is not a host address.
    InvalidAddressFormat,
    /// A chain offered by a peer breaks the linkage invariant.
    InvalidChain,
}

impl SyncError {
    /// What to tell the operator, as a specification.
    pub open spec fn spec_message(self) -> Seq<char> {
        match self {
            SyncError::ConnectTimeout => "The peer did not answer in time."@,
            SyncError::ConnectRefused => "The peer cannot be joined."@,
            SyncError::FrameDecodeError => "The received message cannot be decoded."@,
            SyncError::InvalidAddressFormat => "Incorrect address format."@,
            SyncError::InvalidChain => "The remote chain is not linked."@,
        }
    }

    /// What to tell the operator.
    pub fn message(&self) -> (text: &'static str)
        ensures
            text@ == self.spec_message(),
    {
        match self {
            SyncError::ConnectTimeout => "The peer did not answer in time.",
            SyncError::ConnectRefused => "The peer cannot be joined.",
            SyncError::FrameDecodeError => "The received message cannot be decoded.",
            SyncError::InvalidAddressFormat => "Incorrect address format.",
            SyncError::InvalidChain => "The remote chain is not linked.",
        }
    }
}

} // verus!
