use vstd::prelude::*;
use crate::ban_manager::Key;

verus! {

/// What can go wrong on one connection; no error reaches past it.
#[derive(Debug)]
pub enum Error {
    /// The peer is banned under this key.
    ConnectionBanned(Key),
    /// Every session index of this server is in use.
    SessionIDsExhausted,
    /// The stream ended in the middle of a line.
    PeerResetConnection,
    /// The PROXY preface could not be read.
    BrokenProxyPreface,
    /// The writer of the session is gone, or the session is closed.
    WriterSendFailure,
}

} // verus!
