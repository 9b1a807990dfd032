use vstd::prelude::*;
use std::sync::atomic::{AtomicBool, Ordering};
use std::sync::Arc;

verus! {

#[verifier::external_type_specification]
#[verifier::external_body]
pub struct ExUuid(uuid::Uuid);

/// Relies on uuid::Uuid::new_v4: a fresh random identifier, of which
/// nothing is promised.
#[verifier::external_body]
pub(crate) fn new_uuid() -> uuid::Uuid {
    uuid::Uuid::new_v4()
}

/// Identifies one accepted connection in logs.
#[derive(Clone, Copy, Debug)]
pub struct ConnectionID(uuid::Uuid);

impl ConnectionID {
    pub fn new() -> ConnectionID {
        ConnectionID(new_uuid())
    }

    pub fn uuid(&self) -> uuid::Uuid {
        self.0
    }
}

/// Values every request handler may read.
#[derive(Clone, Copy, Debug)]
pub struct GlobalVars {
    pub server_id: u8,
}

impl GlobalVars {
    pub fn new(server_id: u8) -> (r: GlobalVars)
        ensures
            r.server_id == server_id,
    {
        GlobalVars { server_id }
    }
}

/// A readiness flag shared between handles: every handle made by
/// `create_new` reads and writes the same flag.
#[derive(Clone, Debug)]
pub struct ReadyIndicator(Arc<AtomicBool>);

impl ReadyIndicator {
    pub fn new(ready: bool) -> ReadyIndicator {
        ReadyIndicator(Arc::new(AtomicBool::new(ready)))
    }

    /// Another handle on the same flag.
    pub fn create_new(&self) -> ReadyIndicator {
        ReadyIndicator(self.0.clone())
    }

    pub fn ready(&self) {
        self.0.store(true, Ordering::Relaxed);
    }

    pub fn not_ready(&self) {
        self.0.store(false, Ordering::Relaxed);
    }

    /// The flag as it stands; another handle may change it at any time.
    pub fn status(&self) -> bool {
        self.0.load(Ordering::Relaxed)
    }
}

} // verus!
