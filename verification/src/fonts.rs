//! One-time font registration, as a state machine.
//!
//! The three embedded font faces must be handed to the host toolkit's text
//! subsystem exactly once per process. The decision — whether a call is
//! the first and must perform the registration — is modelled and verified
//! here; the caller performs the registration work when told to.

use vstd::prelude::*;

verus! {

/// Whether the embedded font faces have been registered yet.
pub struct FontLoader {
    pub loaded: bool,
}

/// One call to the load routine: afterwards the fonts are always loaded,
/// and the registration work is performed exactly when they were not
/// loaded before.
pub open spec fn load_step(pre: FontLoader, post: FontLoader, performed: bool) -> bool {
    post.loaded && performed == !pre.loaded
}

impl FontLoader {
    /// A fresh process: nothing registered yet.
    pub fn new() -> (r: FontLoader)
        ensures
            !r.loaded,
    {
        FontLoader { loaded: false }
    }

    /// Records one call to the load routine. Returns true exactly when
    /// the caller must perform the registration now.
    pub fn begin_load(&mut self) -> (performed: bool)
        ensures
            load_step(*old(self), *final(self), performed),
    {
        let performed = !self.loaded;
        self.loaded = true;
        performed
    }
}

/// In any run of calls that starts from a fresh state, the first call
/// performs the registration and no later call does: the load routine is
/// idempotent, and the registration happens exactly once.
pub proof fn lemma_load_once(states: Seq<FontLoader>, performed: Seq<bool>)
    requires
        states.len() == performed.len() + 1,
        performed.len() >= 1,
        !states[0].loaded,
        forall|k: int|
            0 <= k < performed.len() ==> #[trigger] load_step(
                states[k],
                states[k + 1],
                performed[k],
            ),
    ensures
        performed[0],
        forall|k: int| 1 <= k < performed.len() ==> !performed[k],
{
    let z: int = 0;
    assert(load_step(states[z], states[z + 1], performed[z]));
    assert forall|k: int| 1 <= k < performed.len() implies !performed[k] by {
        let p = k - 1;
        assert(load_step(states[p], states[p + 1], performed[p]));
        assert(load_step(states[k], states[k + 1], performed[k]));
    }
}

} // verus!
