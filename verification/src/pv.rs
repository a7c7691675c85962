//! Handles to the physical volumes of a session.
//!
//! Like a logical-volume handle, a physical-volume handle borrows its
//! session and context and carries the session's generation token; a
//! removal or a close revokes it.

use vstd::prelude::*;

use crate::vg::{PvView, VgView};

verus! {

/// A handle to one physical volume of a volume-group session.
#[derive(Clone, Copy, Debug)]
pub struct PhysicalVolume {
    pub(crate) index: usize,
    pub(crate) generation: u64,
}

impl PhysicalVolume {
    /// The position of the volume in the session's list.
    pub closed spec fn spec_index(self) -> int {
        self.index as int
    }

    /// The revocation token the handle was minted with.
    pub closed spec fn spec_generation(self) -> nat {
        self.generation as nat
    }

    /// Whether the handle is still valid for this session state.
    pub open spec fn valid_for(self, v: VgView) -> bool {
        self.spec_generation() == v.generation && 0 <= self.spec_index() < v.pvs.len()
    }

    /// The volume this handle stands for, in this session state.
    pub open spec fn pv_of(self, v: VgView) -> PvView
        recommends
            self.valid_for(v),
    {
        v.pvs[self.spec_index()]
    }

    /// How the spec-level position and token relate to the stored fields.
    pub(crate) proof fn reveal_parts(self)
        ensures
            self.spec_index() == self.index as int,
            self.spec_generation() == self.generation as nat,
    {
    }

    /// Hand out a handle for the volume at this position, under the
    /// session's current revocation token.
    pub(crate) fn mint(index: usize, generation: u64) -> (r: PhysicalVolume)
        ensures
            r.spec_index() == index as int,
            r.spec_generation() == generation as nat,
    {
        PhysicalVolume { index, generation }
    }
}

} // verus!
