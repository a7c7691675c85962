//! A safe, structured access layer for a handle-based volume-management
//! engine.
//!
//! The engine manages physical volumes, volume groups and logical volumes
//! behind opaque native handles that must be acquired in a strict hierarchy:
//! an engine context first, then a mode-qualified volume-group session, then
//! member handles for the volumes inside the group.  Mutations need write
//! permission, errors travel out of band through a per-context channel, and
//! enumerations arrive as intrusive linked lists that the caller walks
//! without freeing.
//!
//! This crate verifies the protocols layered on top of that engine: the
//! handle lifecycle with its revocation of derived handles, the permission
//! state machine of a session, the optimistic-concurrency convention built
//! on the metadata sequence number, the traversal of intrusive lists, and
//! the adapter that turns the error channel into typed results.  The native
//! calls themselves stay outside: every operation that the engine answers
//! takes that answer as a plain value and is verified for every value the
//! engine could produce.

pub mod context;
pub mod errors;
pub mod ids;
pub mod laws;
pub mod list;
pub mod lv;
pub mod mode;
pub mod names;
pub mod params;
pub mod pv;
pub mod tags;
pub mod vg;
pub(crate) mod util;

pub use context::{engine_error_view, Lvm, LvmView};
pub use errors::{ErrorView, LvmError, LvmResult};
pub use ids::{uuid_parse, Uuid};
pub use laws::{
    extend_chain, extend_commit_step, lemma_close_idempotent, lemma_commit_increases_seqno,
    lemma_create_then_lookup, lemma_enumeration_counts_extends, lemma_reopen_preserves_seqno,
};
pub use list::{IntrusiveList, ListCursor};
pub use lv::LogicalVolume;
pub use mode::{LvmPropertyValue, LvmThinPolicy, OpenMode, Property};
pub use params::{ParamsView, PhysicalVolumeCreateParameters};
pub use pv::PhysicalVolume;
pub use tags::{
    count_of, distinct_seqs, lemma_tag_add_round_trip, lemma_tag_remove_round_trip, spec_add_tag,
    spec_remove_tag,
};
pub use vg::{
    close_step, commit_step, create_lv_step, created_lv_view, lv_name_free, lv_names, lv_views,
    opened_from, pv_names, pv_uuid_matches, pv_views, snapshot_ok, snapshot_size, snapshot_wf,
    spec_round_up, update_tags_view, vg_can_mutate, vg_view_wf, LvCreated, LvRecord, LvView,
    PvRecord, PvView, SnapshotView, VgSnapshot, VgView, VolumeGroup,
};
