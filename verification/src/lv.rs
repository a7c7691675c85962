//! Handles to the logical volumes of a session.
//!
//! A logical-volume handle is subordinate to the session it came from: it
//! has no destructor of its own, and it carries the session's generation
//! token from the moment it was handed out.  Whenever a removal or a close
//! revokes the session's derived handles, the token no longer matches and
//! every operation through the handle fails its validity check instead of
//! reaching data that is gone.

use vstd::prelude::*;

use crate::vg::{LvView, VgView};

verus! {

/// A handle to one logical volume of a volume-group session.
#[derive(Clone, Copy, Debug)]
pub struct LogicalVolume {
    pub(crate) index: usize,
    pub(crate) generation: u64,
}

impl LogicalVolume {
    /// The position of the volume in the session's list.
    pub closed spec fn spec_index(self) -> int {
        self.index as int
    }

    /// The revocation token the handle was minted with.
    pub closed spec fn spec_generation(self) -> nat {
        self.generation as nat
    }

    /// Whether the handle is still valid for this session state: the
    /// session has not revoked its handles since the mint, and the
    /// position still exists.
    pub open spec fn valid_for(self, v: VgView) -> bool {
        self.spec_generation() == v.generation && 0 <= self.spec_index() < v.lvs.len()
    }

    /// The volume this handle stands for, in this session state.
    pub open spec fn lv_of(self, v: VgView) -> LvView
        recommends
            self.valid_for(v),
    {
        v.lvs[self.spec_index()]
    }

    /// How the spec-level position and token relate to the stored fields.
    pub(crate) proof fn reveal_parts(self)
        ensures
            self.spec_index() == self.index as int,
            self.spec_generation() == self.generation as nat,
    {
    }

    /// Hand out a handle for the volume at this position, under the
    /// session's current revocation token.
    pub(crate) fn mint(index: usize, generation: u64) -> (r: LogicalVolume)
        ensures
            r.spec_index() == index as int,
            r.spec_generation() == generation as nat,
    {
        LogicalVolume { index, generation }
    }
}

} // verus!
