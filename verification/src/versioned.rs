//! A monotonically increasing revision counter. Send-side caches read the
//! revision before reusing cached state and rebuild on a mismatch; ingress
//! bumps it whenever a topology change could invalidate such caches.

use vstd::prelude::*;

verus! {

/// The revision counter guarding send-side caches.
#[derive(Clone, Copy, PartialEq, Eq, Structural, Debug)]
pub struct VersionedTx {
    pub revision: u64,
}

impl VersionedTx {
    /// A fresh counter at revision zero.
    pub fn new() -> (r: VersionedTx)
        ensures
            r.revision == 0,
    {
        VersionedTx { revision: 0 }
    }

    /// The current revision.
    pub fn current(&self) -> (r: u64)
        ensures
            r == self.revision,
    {
        self.revision
    }

    /// Bumps the revision by exactly one.
    pub fn inc(&mut self)
        requires
            old(self).revision < u64::MAX,
        ensures
            final(self).revision == old(self).revision + 1,
    {
        self.revision = self.revision + 1;
    }
}

} // verus!
