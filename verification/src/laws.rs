//! The protocol laws of the session layer, stated and proved once, over
//! the spec-level images that every operation's contract speaks of.
//!
//! Each law here relates several operations: what two closes in a row do,
//! how the sequence number moves across commits, what a creation
//! guarantees to a later lookup, how enumeration counts extensions, and
//! what two sessions opened from the same on-disk state must agree on.
//! The round-trip laws of tag lists live with the tag theory in
//! [`crate::tags`].

use vstd::prelude::*;

use crate::mode::OpenMode;
use crate::vg::{
    close_step, commit_step, create_lv_step, lv_names, opened_from, spec_round_up, vg_view_wf,
    PvView, SnapshotView, VgView,
};

verus! {

/// Closing a session twice neither fails nor releases the handle again:
/// the first close gives the handle up, and from a closed session every
/// further close is a no-op, so the state after the second close is
/// exactly the state after the first.
pub proof fn lemma_close_idempotent(s0: VgView, s1: VgView, s2: VgView)
    requires
        close_step(s0, s1),
        close_step(s1, s2),
    ensures
        !s1.is_open,
        s2 == s1,
{
}

/// Whenever a committing operation succeeds, the metadata sequence number
/// observed afterwards is strictly greater than the one observed before:
/// the monotonicity that the optimistic-concurrency convention rests on.
pub proof fn lemma_commit_increases_seqno(pre: VgView, post: VgView)
    requires
        commit_step(pre, post),
    ensures
        post.seqno == pre.seqno + 1,
        post.seqno > pre.seqno,
{
}

/// After creating a volume under a fresh name, that name denotes exactly
/// one volume of the group, and its size is the requested size rounded up
/// to the next extent — equal to the request whenever the extent size
/// divides it.  Looking the name up therefore finds the volume just
/// created, with the size just requested, up to the documented
/// quantization.
pub proof fn lemma_create_then_lookup(
    pre: VgView,
    post: VgView,
    name: Seq<char>,
    size: nat,
    uuid: Seq<char>,
    attrs: Seq<char>,
)
    requires
        vg_view_wf(pre),
        !lv_names(pre.lvs).contains(name),
        create_lv_step(pre, post, name, size, uuid, attrs),
    ensures
        exists|i: int| 0 <= i < post.lvs.len() && (#[trigger] post.lvs[i]).name == name,
        forall|i: int|
            0 <= i < post.lvs.len() && (#[trigger] post.lvs[i]).name == name ==> post.lvs[i].size
                == spec_round_up(size, pre.extent_size),
        size % pre.extent_size == 0 ==> spec_round_up(size, pre.extent_size) == size,
{
    let at = post.lvs.len() - 1;
    assert(post.lvs[at].name == name);
    assert forall|i: int|
        0 <= i < post.lvs.len() && (#[trigger] post.lvs[i]).name == name implies post.lvs[i].size
        == spec_round_up(size, pre.extent_size) by {
        if i < at {
            assert(post.lvs[i] == pre.lvs[i]);
            assert(lv_names(pre.lvs)[i] == name);
            assert(lv_names(pre.lvs).contains(name));
        }
    }
}

/// One successful extension, commit included: the device's volume is
/// appended and the change is committed.
pub open spec fn extend_commit_step(pre: VgView, post: VgView, pv: PvView) -> bool {
    post == (VgView { pvs: pre.pvs.push(pv), seqno: pre.seqno + 1, ..pre })
}

/// A run of successful extensions, one volume per step.
pub open spec fn extend_chain(states: Seq<VgView>, added: Seq<PvView>) -> bool {
    &&& states.len() == added.len() + 1
    &&& forall|i: int|
        0 <= i < added.len() ==> extend_commit_step(states[i], states[i + 1], #[trigger] added[i])
}

/// After any run of successful extensions, the group holds exactly as
/// many physical volumes more than it started with as there were
/// extensions — so an enumeration, whose length the listing contract ties
/// to the group's volumes, counts the devices added.
pub proof fn lemma_enumeration_counts_extends(states: Seq<VgView>, added: Seq<PvView>)
    requires
        extend_chain(states, added),
    ensures
        states.last().pvs.len() == states.first().pvs.len() + added.len(),
    decreases added.len(),
{
    if added.len() > 0 {
        let shorter = states.drop_last();
        let fewer = added.drop_last();
        assert(extend_chain(shorter, fewer)) by {
            assert(forall|i: int|
                0 <= i < fewer.len() ==> shorter[i] == states[i] && shorter[i + 1] == states[i + 1]
                    && #[trigger] fewer[i] == added[i]);
        }
        lemma_enumeration_counts_extends(shorter, fewer);
        let k = added.len() - 1;
        assert(extend_commit_step(states[k], states[k + 1], added[k]));
        assert(states.last() == states[k + 1]);
        assert(shorter.last() == states[k]);
    }
}

/// Two sessions opened from the same on-disk state observe the same
/// sequence number, whatever their names or modes: the numbers seen
/// across a close-and-reopen pair differ only if another writer committed
/// in between.
pub proof fn lemma_reopen_preserves_seqno(
    snap: SnapshotView,
    name1: Seq<char>,
    name2: Seq<char>,
    mode1: OpenMode,
    mode2: OpenMode,
    v1: VgView,
    v2: VgView,
)
    requires
        opened_from(v1, name1, mode1, snap),
        opened_from(v2, name2, mode2, snap),
    ensures
        v1.seqno == v2.seqno,
{
}

} // verus!
