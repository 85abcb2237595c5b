//! The consensus facade's epoch counter. The facade keeps no trust graph and no
//! RandomX hasher in this library; trust and weights live in `consensus_pro_v2`.
use vstd::prelude::*;

verus! {

/// The consensus facade: it tracks the current epoch.
pub struct ConsensusPro {
    current_epoch: u64,
}

impl ConsensusPro {
    /// The current epoch.
    pub closed spec fn spec_epoch(&self) -> u64 {
        self.current_epoch
    }

    /// A facade at epoch 0.
    pub fn new() -> (c: Self)
        ensures
            c.spec_epoch() == 0,
    {
        Self { current_epoch: 0 }
    }

    /// Moves to the next epoch.
    pub fn advance_epoch(&mut self)
        requires
            old(self).spec_epoch() < u64::MAX,
        ensures
            final(self).spec_epoch() == old(self).spec_epoch() + 1,
    {
        self.current_epoch = self.current_epoch + 1;
    }

    /// The current epoch.
    pub fn current_epoch(&self) -> (e: u64)
        ensures
            e == self.spec_epoch(),
    {
        self.current_epoch
    }
}

impl Default for ConsensusPro {
    fn default() -> (c: Self)
        ensures
            c.spec_epoch() == 0,
    {
        Self::new()
    }
}

} // verus!
