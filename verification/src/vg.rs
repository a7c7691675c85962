//! The volume-group session: the unit of write permission and commit.
//!
//! A session wraps one native volume-group handle together with the access
//! mode it was opened with.  The mode is the single source of truth for
//! permission: every mutating operation checks it locally and fails with a
//! permission error before anything could reach the engine — mirroring the
//! engine's own enforcement, but without depending on engine-reported
//! error codes for something this layer already knows.
//!
//! The session also carries the in-memory image of the group — its names,
//! identifiers, tags, member volumes and counters — exactly as the engine
//! reported them when the session was opened, and keeps that image in step
//! with every mutation it performs.  The metadata sequence number grows by
//! one with every committed change; comparing the numbers seen by two
//! sessions opened at different times is the optimistic-concurrency
//! convention that detects a concurrent writer.
//!
//! Member handles derived from a session carry the session's generation
//! token.  Closing the session, or removing a group, volume or device,
//! bumps the generation and thereby revokes every outstanding member
//! handle at once; a revoked handle fails its next check instead of
//! touching data that is no longer there.

use vstd::prelude::*;

use crate::context::{engine_error_view, Lvm};
use crate::errors::{LvmError, LvmResult};
use crate::lv::LogicalVolume;
use crate::mode::{LvmThinPolicy, OpenMode};
use crate::names;
use crate::pv::PhysicalVolume;
use crate::tags::{distinct_seqs, spec_add_tag, spec_remove_tag};
use crate::util;

verus! {

/// Spec-level image of one logical volume inside a session.
#[verifier::ext_equal]
pub ghost struct LvView {
    pub name: Seq<char>,
    pub uuid: Seq<char>,
    pub size: nat,
    pub attrs: Seq<char>,
    pub active: bool,
    pub suspended: bool,
    pub origin: Option<Seq<char>>,
    pub tags: Seq<Seq<char>>,
}

/// Spec-level image of one physical volume inside a session.
#[verifier::ext_equal]
pub ghost struct PvView {
    pub name: Seq<char>,
    pub uuid: Seq<char>,
    pub size: nat,
    pub dev_size: nat,
    pub free: nat,
    pub mda_count: nat,
}

/// Spec-level image of a volume-group session.
#[verifier::ext_equal]
pub ghost struct VgView {
    /// Whether the native group handle is still held.
    pub is_open: bool,
    /// The access mode the session was opened with.
    pub mode: OpenMode,
    /// The revocation token shared with derived member handles; bumped
    /// whenever those handles must stop working.
    pub generation: nat,
    pub name: Seq<char>,
    pub uuid: Seq<char>,
    /// The metadata sequence number: grows with every committed change.
    pub seqno: nat,
    pub tags: Seq<Seq<char>>,
    pub lvs: Seq<LvView>,
    pub pvs: Seq<PvView>,
    pub extent_size: nat,
    pub extent_count: nat,
    pub free_extents: nat,
    pub size: nat,
    pub free_size: nat,
    pub max_lv: nat,
    pub max_pv: nat,
    pub clustered: bool,
    pub exported: bool,
    pub partial: bool,
}

/// One logical volume as the engine reports it.
#[derive(Debug)]
pub struct LvRecord {
    pub name: String,
    pub uuid: String,
    pub size: u64,
    pub attrs: String,
    pub active: bool,
    pub suspended: bool,
    pub origin: Option<String>,
    pub tags: Vec<String>,
}

impl View for LvRecord {
    type V = LvView;

    open spec fn view(&self) -> LvView {
        LvView {
            name: self.name@,
            uuid: self.uuid@,
            size: self.size as nat,
            attrs: self.attrs@,
            active: self.active,
            suspended: self.suspended,
            origin: self.origin.deep_view(),
            tags: self.tags.deep_view(),
        }
    }
}

/// One physical volume as the engine reports it.
#[derive(Debug)]
pub struct PvRecord {
    pub name: String,
    pub uuid: String,
    pub size: u64,
    pub dev_size: u64,
    pub free: u64,
    pub mda_count: u64,
}

impl View for PvRecord {
    type V = PvView;

    open spec fn view(&self) -> PvView {
        PvView {
            name: self.name@,
            uuid: self.uuid@,
            size: self.size as nat,
            dev_size: self.dev_size as nat,
            free: self.free as nat,
            mda_count: self.mda_count as nat,
        }
    }
}

/// What the engine answers when a new logical volume is created: the
/// identifier and attribute string it assigned.
#[derive(Debug)]
pub struct LvCreated {
    pub uuid: String,
    pub attrs: String,
}

/// Everything the engine reports about a volume group at the moment a
/// session is opened: the in-memory image the session starts from.
#[derive(Debug)]
pub struct VgSnapshot {
    pub uuid: String,
    pub seqno: u64,
    pub tags: Vec<String>,
    pub lvs: Vec<LvRecord>,
    pub pvs: Vec<PvRecord>,
    pub extent_size: u64,
    pub extent_count: u64,
    pub free_extents: u64,
    pub size: u64,
    pub free_size: u64,
    pub max_lv: u64,
    pub max_pv: u64,
    pub clustered: bool,
    pub exported: bool,
    pub partial: bool,
}

/// Spec-level image of a [`VgSnapshot`].
#[verifier::ext_equal]
pub ghost struct SnapshotView {
    pub uuid: Seq<char>,
    pub seqno: nat,
    pub tags: Seq<Seq<char>>,
    pub lvs: Seq<LvView>,
    pub pvs: Seq<PvView>,
    pub extent_size: nat,
    pub extent_count: nat,
    pub free_extents: nat,
    pub size: nat,
    pub free_size: nat,
    pub max_lv: nat,
    pub max_pv: nat,
    pub clustered: bool,
    pub exported: bool,
    pub partial: bool,
}

impl View for VgSnapshot {
    type V = SnapshotView;

    open spec fn view(&self) -> SnapshotView {
        SnapshotView {
            uuid: self.uuid@,
            seqno: self.seqno as nat,
            tags: self.tags.deep_view(),
            lvs: lv_views(self.lvs@),
            pvs: pv_views(self.pvs@),
            extent_size: self.extent_size as nat,
            extent_count: self.extent_count as nat,
            free_extents: self.free_extents as nat,
            size: self.size as nat,
            free_size: self.free_size as nat,
            max_lv: self.max_lv as nat,
            max_pv: self.max_pv as nat,
            clustered: self.clustered,
            exported: self.exported,
            partial: self.partial,
        }
    }
}

/// The views of a sequence of logical-volume records.
pub open spec fn lv_views(s: Seq<LvRecord>) -> Seq<LvView> {
    s.map_values(|r: LvRecord| r@)
}

/// The views of a sequence of physical-volume records.
pub open spec fn pv_views(s: Seq<PvRecord>) -> Seq<PvView> {
    s.map_values(|r: PvRecord| r@)
}

/// The names of the logical volumes, in list order.
pub open spec fn lv_names(s: Seq<LvView>) -> Seq<Seq<char>> {
    s.map_values(|l: LvView| l.name)
}

/// The names of the physical volumes, in list order.
pub open spec fn pv_names(s: Seq<PvView>) -> Seq<Seq<char>> {
    s.map_values(|p: PvView| p.name)
}

/// The invariant of a session's image: a positive extent size and no
/// duplicate tag, volume name or device name anywhere.
pub open spec fn vg_view_wf(v: VgView) -> bool {
    &&& v.extent_size > 0
    &&& distinct_seqs(v.tags)
    &&& distinct_seqs(lv_names(v.lvs))
    &&& distinct_seqs(pv_names(v.pvs))
    &&& forall|i: int| 0 <= i < v.lvs.len() ==> distinct_seqs((#[trigger] v.lvs[i]).tags)
}

/// The same soundness conditions, asked of an engine-reported snapshot
/// before a session is built from it.
pub open spec fn snapshot_wf(s: SnapshotView) -> bool {
    &&& s.extent_size > 0
    &&& distinct_seqs(s.tags)
    &&& distinct_seqs(lv_names(s.lvs))
    &&& distinct_seqs(pv_names(s.pvs))
    &&& forall|i: int| 0 <= i < s.lvs.len() ==> distinct_seqs((#[trigger] s.lvs[i]).tags)
}

/// Whether a session may mutate: its handle is held and it was opened for
/// writing.
pub open spec fn vg_can_mutate(v: VgView) -> bool {
    v.is_open && v.mode is Write
}

/// How a fresh session relates to the name it was opened under, the mode
/// it was requested with, and the snapshot the engine reported.
pub open spec fn opened_from(v: VgView, name: Seq<char>, mode: OpenMode, s: SnapshotView) -> bool {
    &&& v.is_open
    &&& v.mode == mode
    &&& v.generation == 0
    &&& v.name == name
    &&& v.uuid == s.uuid
    &&& v.seqno == s.seqno
    &&& v.tags == s.tags
    &&& v.lvs == s.lvs
    &&& v.pvs == s.pvs
    &&& v.extent_size == s.extent_size
    &&& v.extent_count == s.extent_count
    &&& v.free_extents == s.free_extents
    &&& v.size == s.size
    &&& v.free_size == s.free_size
    &&& v.max_lv == s.max_lv
    &&& v.max_pv == s.max_pv
    &&& v.clustered == s.clustered
    &&& v.exported == s.exported
    &&& v.partial == s.partial
}

/// What an explicit or implicit close does to a session: a held handle is
/// given up and every derived handle is revoked; a session already closed
/// is left exactly as it is, so the handle is never released twice.
pub open spec fn close_step(pre: VgView, post: VgView) -> bool {
    if pre.is_open {
        post == (VgView { is_open: false, generation: pre.generation + 1, ..pre })
    } else {
        post == pre
    }
}

/// What one successful commit does to a session: the sequence number grows
/// by exactly one and nothing else moves.
pub open spec fn commit_step(pre: VgView, post: VgView) -> bool {
    post == (VgView { seqno: pre.seqno + 1, ..pre })
}

/// The size the engine allocates for a request of `size` bytes: the next
/// multiple of the extent size.  This quantization is a documented
/// property of the engine, not an error.
pub open spec fn spec_round_up(size: nat, extent: nat) -> nat
    recommends
        extent > 0,
{
    if size % extent == 0 {
        size
    } else {
        (size + (extent - size % extent)) as nat
    }
}

/// A volume-group session: one native group handle plus the access mode it
/// was opened with, and the in-memory image of the group.
#[derive(Debug)]
pub struct VolumeGroup {
    pub(crate) is_open: bool,
    pub(crate) mode: OpenMode,
    pub(crate) generation: u64,
    pub(crate) name: String,
    pub(crate) uuid: String,
    pub(crate) seqno: u64,
    pub(crate) tags: Vec<String>,
    pub(crate) lvs: Vec<LvRecord>,
    pub(crate) pvs: Vec<PvRecord>,
    pub(crate) extent_size: u64,
    pub(crate) extent_count: u64,
    pub(crate) free_extents: u64,
    pub(crate) size: u64,
    pub(crate) free_size: u64,
    pub(crate) max_lv: u64,
    pub(crate) max_pv: u64,
    pub(crate) clustered: bool,
    pub(crate) exported: bool,
    pub(crate) partial: bool,
}

impl View for VolumeGroup {
    type V = VgView;

    closed spec fn view(&self) -> VgView {
        VgView {
            is_open: self.is_open,
            mode: self.mode,
            generation: self.generation as nat,
            name: self.name@,
            uuid: self.uuid@,
            seqno: self.seqno as nat,
            tags: self.tags.deep_view(),
            lvs: lv_views(self.lvs@),
            pvs: pv_views(self.pvs@),
            extent_size: self.extent_size as nat,
            extent_count: self.extent_count as nat,
            free_extents: self.free_extents as nat,
            size: self.size as nat,
            free_size: self.free_size as nat,
            max_lv: self.max_lv as nat,
            max_pv: self.max_pv as nat,
            clustered: self.clustered,
            exported: self.exported,
            partial: self.partial,
        }
    }
}

impl VolumeGroup {
    /// The session invariant: see [`vg_view_wf`].
    pub open spec fn wf(self) -> bool {
        vg_view_wf(self@)
    }

    /// Build a session from the name it was opened under, the requested
    /// mode and the snapshot the engine reported.
    pub(crate) fn materialize(name: String, mode: OpenMode, snap: VgSnapshot) -> (r: VolumeGroup)
        requires
            snapshot_wf(snap@),
        ensures
            r.wf(),
            opened_from(r@, name@, mode, snap@),
    {
        VolumeGroup {
            is_open: true,
            mode,
            generation: 0,
            name,
            uuid: snap.uuid,
            seqno: snap.seqno,
            tags: snap.tags,
            lvs: snap.lvs,
            pvs: snap.pvs,
            extent_size: snap.extent_size,
            extent_count: snap.extent_count,
            free_extents: snap.free_extents,
            size: snap.size,
            free_size: snap.free_size,
            max_lv: snap.max_lv,
            max_pv: snap.max_pv,
            clustered: snap.clustered,
            exported: snap.exported,
            partial: snap.partial,
        }
    }

    /// Whether the native group handle is still held.
    pub fn is_open(&self) -> (r: bool)
        ensures
            r == self@.is_open,
    {
        self.is_open
    }

    /// Whether this session may mutate the group.
    pub fn can_mutate(&self) -> (r: bool)
        ensures
            r == vg_can_mutate(self@),
    {
        self.is_open && self.mode.allows_write()
    }

    /// Give up the native group handle.
    ///
    /// A session that is already closed is left untouched and the call
    /// succeeds, so the underlying handle is never released twice; on a
    /// held handle, `status` is the native close's verdict.
    pub fn close(&mut self, lvm: &Lvm, status: i32) -> (r: LvmResult<()>)
        requires
            old(self).wf(),
            old(self)@.generation < u64::MAX,
        ensures
            final(self).wf(),
            !old(self)@.is_open ==> r is Ok && final(self)@ == old(self)@,
            old(self)@.is_open && status >= 0 ==> r is Ok && close_step(old(self)@, final(self)@),
            old(self)@.is_open && status < 0 ==> r is Err && r->Err_0@ == engine_error_view(lvm@)
                && final(self)@ == old(self)@,
    {
        if !self.is_open {
            return Ok(());
        }
        if status < 0 {
            return Err(lvm.engine_error());
        }
        self.is_open = false;
        self.generation = self.generation + 1;
        Ok(())
    }

    /// Commit the in-memory image of the group to persistent storage.
    ///
    /// On success the metadata sequence number grows by exactly one.  Most
    /// mutating operations commit implicitly, to keep the on-disk state
    /// and the in-memory image consistent after each atomic change.
    pub fn write(&mut self, lvm: &Lvm, status: i32) -> (r: LvmResult<()>)
        requires
            old(self).wf(),
            old(self)@.seqno < u64::MAX,
        ensures
            final(self).wf(),
            !vg_can_mutate(old(self)@) ==> r is Err && r->Err_0@ is Permission && final(self)@
                == old(self)@,
            vg_can_mutate(old(self)@) && status < 0 ==> r is Err && r->Err_0@ == engine_error_view(
                lvm@,
            ) && final(self)@ == old(self)@,
            vg_can_mutate(old(self)@) && status >= 0 ==> r is Ok && commit_step(
                old(self)@,
                final(self)@,
            ),
    {
        if !self.can_mutate() {
            return Err(LvmError::Permission);
        }
        if status < 0 {
            return Err(lvm.engine_error());
        }
        self.seqno = self.seqno + 1;
        proof {
            assert(final(self)@ =~= (VgView { seqno: old(self)@.seqno + 1, ..old(self)@ }));
        }
        Ok(())
    }

    /// The metadata sequence number last observed through this session.
    pub fn get_seq_number(&self) -> (r: u64)
        requires
            self@.is_open,
        ensures
            r as nat == self@.seqno,
    {
        self.seqno
    }

    /// The name of the volume group.
    pub fn get_name(&self) -> (r: LvmResult<String>)
        requires
            self@.is_open,
        ensures
            r is Ok && r->Ok_0@ == self@.name,
    {
        Ok(self.name.clone())
    }

    /// The UUID of the volume group, as the engine reported it.
    pub fn get_uuid(&self) -> (r: String)
        requires
            self@.is_open,
        ensures
            r@ == self@.uuid,
    {
        self.uuid.clone()
    }

    /// The total number of extents, as of the engine's last report.
    pub fn get_extent_count(&self) -> (r: u64)
        requires
            self@.is_open,
        ensures
            r as nat == self@.extent_count,
    {
        self.extent_count
    }

    /// The extent size in bytes.
    pub fn get_extent_size(&self) -> (r: u64)
        requires
            self@.is_open,
        ensures
            r as nat == self@.extent_size,
    {
        self.extent_size
    }

    /// The number of free extents, as of the engine's last report.
    pub fn get_free_extents(&self) -> (r: u64)
        requires
            self@.is_open,
        ensures
            r as nat == self@.free_extents,
    {
        self.free_extents
    }

    /// The unallocated space in bytes, as of the engine's last report.
    pub fn get_free_size(&self) -> (r: u64)
        requires
            self@.is_open,
        ensures
            r as nat == self@.free_size,
    {
        self.free_size
    }

    /// The most logical volumes the group allows.
    pub fn get_max_lv(&self) -> (r: u64)
        requires
            self@.is_open,
        ensures
            r as nat == self@.max_lv,
    {
        self.max_lv
    }

    /// The most physical volumes the group allows.
    pub fn get_max_pv(&self) -> (r: u64)
        requires
            self@.is_open,
        ensures
            r as nat == self@.max_pv,
    {
        self.max_pv
    }

    /// The number of physical volumes in the group.
    pub fn get_pv_count(&self) -> (r: u64)
        requires
            self@.is_open,
        ensures
            r as nat == self@.pvs.len(),
    {
        self.pvs.len() as u64
    }

    /// The size of the group in bytes, as of the engine's last report.
    pub fn get_size(&self) -> (r: u64)
        requires
            self@.is_open,
        ensures
            r as nat == self@.size,
    {
        self.size
    }

    /// The tags of the group, in insertion order.
    pub fn get_tags(&self) -> (r: LvmResult<Vec<String>>)
        requires
            self@.is_open,
        ensures
            r is Ok && r->Ok_0.deep_view() == self@.tags,
    {
        Ok(util::clone_strings(&self.tags))
    }

    /// Whether the group is clustered.
    pub fn is_clustered(&self) -> (r: bool)
        requires
            self@.is_open,
        ensures
            r == self@.clustered,
    {
        self.clustered
    }

    /// Whether the group is exported.
    pub fn is_exported(&self) -> (r: bool)
        requires
            self@.is_open,
        ensures
            r == self@.exported,
    {
        self.exported
    }

    /// Whether a physical volume of the group is missing from the system.
    pub fn is_partial(&self) -> (r: bool)
        requires
            self@.is_open,
        ensures
            r == self@.partial,
    {
        self.partial
    }

    /// The position of the logical volume with this name, if any.
    fn find_lv(&self, name: &str) -> (r: Option<usize>)
        ensures
            r matches Some(i) ==> (i as int) < self@.lvs.len() && self@.lvs[i as int].name
                == name@,
            r is Some <==> lv_names(self@.lvs).contains(name@),
    {
        let needle: String = name.to_owned();
        let n = self.lvs.len();
        let mut i: usize = 0;
        while i < n
            invariant
                n == self@.lvs.len(),
                0 <= i <= n,
                needle@ == name@,
                forall|j: int| 0 <= j < i ==> (#[trigger] self@.lvs[j]).name != name@,
            decreases n - i,
        {
            if self.lvs[i].name.eq(&needle) {
                proof {
                    assert(lv_names(self@.lvs)[i as int] == name@);
                }
                return Some(i);
            }
            i = i + 1;
        }
        proof {
            if lv_names(self@.lvs).contains(name@) {
                let j = choose|j: int|
                    0 <= j < lv_names(self@.lvs).len() && lv_names(self@.lvs)[j] == name@;
                assert(self@.lvs[j].name == name@);
            }
        }
        None
    }

    /// The position of the physical volume with this device name, if any.
    fn find_pv(&self, name: &str) -> (r: Option<usize>)
        ensures
            r matches Some(i) ==> (i as int) < self@.pvs.len() && self@.pvs[i as int].name
                == name@,
            r is Some <==> pv_names(self@.pvs).contains(name@),
    {
        let needle: String = name.to_owned();
        let n = self.pvs.len();
        let mut i: usize = 0;
        while i < n
            invariant
                n == self@.pvs.len(),
                0 <= i <= n,
                needle@ == name@,
                forall|j: int| 0 <= j < i ==> (#[trigger] self@.pvs[j]).name != name@,
            decreases n - i,
        {
            if self.pvs[i].name.eq(&needle) {
                proof {
                    assert(pv_names(self@.pvs)[i as int] == name@);
                }
                return Some(i);
            }
            i = i + 1;
        }
        proof {
            if pv_names(self@.pvs).contains(name@) {
                let j = choose|j: int|
                    0 <= j < pv_names(self@.pvs).len() && pv_names(self@.pvs)[j] == name@;
                assert(self@.pvs[j].name == name@);
            }
        }
        None
    }

    /// Add a tag to the group; a tag that is already present is left as
    /// it is.  Commits immediately: `status` is the engine's verdict on
    /// the tagging call, `commit_status` on the implicit commit.
    pub fn add_tag(&mut self, lvm: &Lvm, tag: &str, status: i32, commit_status: i32) -> (r:
        LvmResult<()>)
        requires
            old(self).wf(),
            old(self)@.seqno < u64::MAX,
        ensures
            final(self).wf(),
            !vg_can_mutate(old(self)@) ==> r is Err && r->Err_0@ is Permission && final(self)@
                == old(self)@,
            vg_can_mutate(old(self)@) && names::has_nul(tag@) ==> r is Err && r->Err_0@
                is Validation && final(self)@ == old(self)@,
            vg_can_mutate(old(self)@) && !names::has_nul(tag@) && status < 0 ==> r is Err
                && r->Err_0@ == engine_error_view(lvm@) && final(self)@ == old(self)@,
            vg_can_mutate(old(self)@) && !names::has_nul(tag@) && status >= 0 ==> final(self)@
                == (VgView {
                tags: spec_add_tag(old(self)@.tags, tag@),
                seqno: if commit_status >= 0 {
                    old(self)@.seqno + 1
                } else {
                    old(self)@.seqno
                },
                ..old(self)@
            }) && (r is Ok <==> commit_status >= 0) && (commit_status < 0 ==> r->Err_0@
                == engine_error_view(lvm@)),
    {
        if !self.can_mutate() {
            return Err(LvmError::Permission);
        }
        if names::str_has_nul(tag) {
            return Err(LvmError::Validation("the tag holds an embedded NUL".to_owned()));
        }
        if status < 0 {
            return Err(lvm.engine_error());
        }
        let already = util::contains_str(&self.tags, tag);
        if !already {
            self.tags.push(tag.to_owned());
        }
        proof {
            crate::tags::lemma_tag_add_round_trip(old(self)@.tags, tag@);
            assert(self.tags.deep_view() =~= spec_add_tag(old(self)@.tags, tag@));
        }
        if commit_status < 0 {
            proof {
                assert(self@ =~= (VgView {
                    tags: spec_add_tag(old(self)@.tags, tag@),
                    ..old(self)@
                }));
            }
            return Err(lvm.engine_error());
        }
        self.seqno = self.seqno + 1;
        proof {
            assert(self@ =~= (VgView {
                tags: spec_add_tag(old(self)@.tags, tag@),
                seqno: old(self)@.seqno + 1,
                ..old(self)@
            }));
        }
        Ok(())
    }

    /// Remove a tag from the group; every occurrence of it is dropped.
    /// Commits immediately, like [`VolumeGroup::add_tag`].
    pub fn remove_tag(&mut self, lvm: &Lvm, tag: &str, status: i32, commit_status: i32) -> (r:
        LvmResult<()>)
        requires
            old(self).wf(),
            old(self)@.seqno < u64::MAX,
        ensures
            final(self).wf(),
            !vg_can_mutate(old(self)@) ==> r is Err && r->Err_0@ is Permission && final(self)@
                == old(self)@,
            vg_can_mutate(old(self)@) && names::has_nul(tag@) ==> r is Err && r->Err_0@
                is Validation && final(self)@ == old(self)@,
            vg_can_mutate(old(self)@) && !names::has_nul(tag@) && status < 0 ==> r is Err
                && r->Err_0@ == engine_error_view(lvm@) && final(self)@ == old(self)@,
            vg_can_mutate(old(self)@) && !names::has_nul(tag@) && status >= 0 ==> final(self)@
                == (VgView {
                tags: spec_remove_tag(old(self)@.tags, tag@),
                seqno: if commit_status >= 0 {
                    old(self)@.seqno + 1
                } else {
                    old(self)@.seqno
                },
                ..old(self)@
            }) && (r is Ok <==> commit_status >= 0) && (commit_status < 0 ==> r->Err_0@
                == engine_error_view(lvm@)),
    {
        if !self.can_mutate() {
            return Err(LvmError::Permission);
        }
        if names::str_has_nul(tag) {
            return Err(LvmError::Validation("the tag holds an embedded NUL".to_owned()));
        }
        if status < 0 {
            return Err(lvm.engine_error());
        }
        let kept = remove_tag_entries(&self.tags, tag);
        self.tags = kept;
        proof {
            crate::tags::lemma_tag_remove_round_trip(old(self)@.tags, tag@);
        }
        if commit_status < 0 {
            proof {
                assert(self@ =~= (VgView {
                    tags: spec_remove_tag(old(self)@.tags, tag@),
                    ..old(self)@
                }));
            }
            return Err(lvm.engine_error());
        }
        self.seqno = self.seqno + 1;
        proof {
            assert(self@ =~= (VgView {
                tags: spec_remove_tag(old(self)@.tags, tag@),
                seqno: old(self)@.seqno + 1,
                ..old(self)@
            }));
        }
        Ok(())
    }

    /// Extend the group by adding a device.  `pv` is what the engine
    /// reports about the added volume; commits immediately.
    pub fn extend(&mut self, lvm: &Lvm, device: &str, pv: PvRecord, status: i32, commit_status:
        i32) -> (r: LvmResult<()>)
        requires
            old(self).wf(),
            old(self)@.seqno < u64::MAX,
        ensures
            final(self).wf(),
            !vg_can_mutate(old(self)@) ==> r is Err && r->Err_0@ is Permission && final(self)@
                == old(self)@,
            vg_can_mutate(old(self)@) && (names::has_nul(device@) || pv_names(
                old(self)@.pvs,
            ).contains(device@)) ==> r is Err && r->Err_0@ is Validation && final(self)@ == old(self)@,
            vg_can_mutate(old(self)@) && !names::has_nul(device@) && !pv_names(
                old(self)@.pvs,
            ).contains(device@) && status < 0 ==> r is Err && r->Err_0@ == engine_error_view(lvm@)
                && final(self)@ == old(self)@,
            vg_can_mutate(old(self)@) && !names::has_nul(device@) && !pv_names(
                old(self)@.pvs,
            ).contains(device@) && status >= 0 ==> final(self)@ == (VgView {
                pvs: old(self)@.pvs.push(PvView { name: device@, ..pv@ }),
                seqno: if commit_status >= 0 {
                    old(self)@.seqno + 1
                } else {
                    old(self)@.seqno
                },
                ..old(self)@
            }) && (r is Ok <==> commit_status >= 0) && (commit_status < 0 ==> r->Err_0@
                == engine_error_view(lvm@)),
    {
        if !self.can_mutate() {
            return Err(LvmError::Permission);
        }
        if names::str_has_nul(device) {
            return Err(LvmError::Validation("the device name holds an embedded NUL".to_owned()));
        }
        if self.find_pv(device).is_some() {
            return Err(
                LvmError::Validation("the device already belongs to the volume group".to_owned()),
            );
        }
        if status < 0 {
            return Err(lvm.engine_error());
        }
        let added = PvRecord {
            name: device.to_owned(),
            uuid: pv.uuid,
            size: pv.size,
            dev_size: pv.dev_size,
            free: pv.free,
            mda_count: pv.mda_count,
        };
        proof {
            assert(added@ == (PvView { name: device@, ..pv@ }));
        }
        self.pvs.push(added);
        proof {
            assert(pv_views(self.pvs@) =~= old(self)@.pvs.push(PvView { name: device@, ..pv@ }));
            assert(pv_names(pv_views(self.pvs@)) =~= pv_names(old(self)@.pvs).push(device@));
            lemma_distinct_push(pv_names(old(self)@.pvs), device@);
        }
        if commit_status < 0 {
            proof {
                assert(self@ =~= (VgView {
                    pvs: old(self)@.pvs.push(PvView { name: device@, ..pv@ }),
                    ..old(self)@
                }));
            }
            return Err(lvm.engine_error());
        }
        self.seqno = self.seqno + 1;
        proof {
            assert(self@ =~= (VgView {
                pvs: old(self)@.pvs.push(PvView { name: device@, ..pv@ }),
                seqno: old(self)@.seqno + 1,
                ..old(self)@
            }));
        }
        Ok(())
    }

    /// Reduce the group by removing an unused device.  Revokes every
    /// derived member handle; commits immediately.
    pub fn reduce(&mut self, lvm: &Lvm, device: &str, status: i32, commit_status: i32) -> (r:
        LvmResult<()>)
        requires
            old(self).wf(),
            old(self)@.seqno < u64::MAX,
            old(self)@.generation < u64::MAX,
        ensures
            final(self).wf(),
            !vg_can_mutate(old(self)@) ==> r is Err && r->Err_0@ is Permission && final(self)@
                == old(self)@,
            vg_can_mutate(old(self)@) && (names::has_nul(device@) || !pv_names(
                old(self)@.pvs,
            ).contains(device@)) ==> r is Err && r->Err_0@ is Validation && final(self)@ == old(self)@,
            vg_can_mutate(old(self)@) && !names::has_nul(device@) && pv_names(
                old(self)@.pvs,
            ).contains(device@) && status < 0 ==> r is Err && r->Err_0@ == engine_error_view(lvm@)
                && final(self)@ == old(self)@,
            vg_can_mutate(old(self)@) && !names::has_nul(device@) && pv_names(
                old(self)@.pvs,
            ).contains(device@) && status >= 0 ==> (exists|i: int|
                0 <= i < old(self)@.pvs.len() && (#[trigger] old(self)@.pvs[i]).name == device@
                    && final(self)@ == (VgView {
                    pvs: old(self)@.pvs.remove(i),
                    generation: old(self)@.generation + 1,
                    seqno: if commit_status >= 0 {
                        old(self)@.seqno + 1
                    } else {
                        old(self)@.seqno
                    },
                    ..old(self)@
                })) && (r is Ok <==> commit_status >= 0) && (commit_status < 0 ==> r->Err_0@
                == engine_error_view(lvm@)),
    {
        if !self.can_mutate() {
            return Err(LvmError::Permission);
        }
        if names::str_has_nul(device) {
            return Err(LvmError::Validation("the device name holds an embedded NUL".to_owned()));
        }
        let idx = match self.find_pv(device) {
            None => {
                return Err(
                    LvmError::Validation(
                        "the device does not belong to the volume group".to_owned(),
                    ),
                );
            },
            Some(idx) => idx,
        };
        if status < 0 {
            return Err(lvm.engine_error());
        }
        self.pvs.remove(idx);
        self.generation = self.generation + 1;
        proof {
            assert(pv_views(self.pvs@) =~= old(self)@.pvs.remove(idx as int));
            assert(pv_names(pv_views(self.pvs@)) =~= pv_names(old(self)@.pvs).remove(idx as int));
            lemma_distinct_remove(pv_names(old(self)@.pvs), idx as int);
        }
        if commit_status < 0 {
            proof {
                assert(self@ =~= (VgView {
                    pvs: old(self)@.pvs.remove(idx as int),
                    generation: old(self)@.generation + 1,
                    ..old(self)@
                }));
            }
            return Err(lvm.engine_error());
        }
        self.seqno = self.seqno + 1;
        proof {
            assert(self@ =~= (VgView {
                pvs: old(self)@.pvs.remove(idx as int),
                generation: old(self)@.generation + 1,
                seqno: old(self)@.seqno + 1,
                ..old(self)@
            }));
        }
        Ok(())
    }

    /// Destroy the volume group.  Every member volume of the image is
    /// dropped and every derived handle is revoked; the session itself
    /// stays open until it is closed.  Commits immediately.
    pub fn remove(&mut self, lvm: &Lvm, status: i32, commit_status: i32) -> (r: LvmResult<()>)
        requires
            old(self).wf(),
            old(self)@.seqno < u64::MAX,
            old(self)@.generation < u64::MAX,
        ensures
            final(self).wf(),
            !vg_can_mutate(old(self)@) ==> r is Err && r->Err_0@ is Permission && final(self)@
                == old(self)@,
            vg_can_mutate(old(self)@) && status < 0 ==> r is Err && r->Err_0@ == engine_error_view(
                lvm@,
            ) && final(self)@ == old(self)@,
            vg_can_mutate(old(self)@) && status >= 0 ==> final(self)@ == (VgView {
                lvs: Seq::empty(),
                pvs: Seq::empty(),
                generation: old(self)@.generation + 1,
                seqno: if commit_status >= 0 {
                    old(self)@.seqno + 1
                } else {
                    old(self)@.seqno
                },
                ..old(self)@
            }) && (r is Ok <==> commit_status >= 0) && (commit_status < 0 ==> r->Err_0@
                == engine_error_view(lvm@)),
    {
        if !self.can_mutate() {
            return Err(LvmError::Permission);
        }
        if status < 0 {
            return Err(lvm.engine_error());
        }
        self.lvs.clear();
        self.pvs.clear();
        self.generation = self.generation + 1;
        if commit_status < 0 {
            proof {
                assert(self@ =~= (VgView {
                    lvs: Seq::empty(),
                    pvs: Seq::empty(),
                    generation: old(self)@.generation + 1,
                    ..old(self)@
                }));
            }
            return Err(lvm.engine_error());
        }
        self.seqno = self.seqno + 1;
        proof {
            assert(self@ =~= (VgView {
                lvs: Seq::empty(),
                pvs: Seq::empty(),
                generation: old(self)@.generation + 1,
                seqno: old(self)@.seqno + 1,
                ..old(self)@
            }));
        }
        Ok(())
    }

    /// Set the extent size of the group, in bytes.  A zero size is
    /// rejected locally; commits immediately.
    pub fn set_extent_size(&mut self, lvm: &Lvm, size: u32, status: i32, commit_status: i32) -> (r:
        LvmResult<()>)
        requires
            old(self).wf(),
            old(self)@.seqno < u64::MAX,
        ensures
            final(self).wf(),
            !vg_can_mutate(old(self)@) ==> r is Err && r->Err_0@ is Permission && final(self)@
                == old(self)@,
            vg_can_mutate(old(self)@) && size == 0 ==> r is Err && r->Err_0@ is Validation && final(self)@ == old(self)@,
            vg_can_mutate(old(self)@) && size > 0 && status < 0 ==> r is Err && r->Err_0@
                == engine_error_view(lvm@) && final(self)@ == old(self)@,
            vg_can_mutate(old(self)@) && size > 0 && status >= 0 ==> final(self)@ == (VgView {
                extent_size: size as nat,
                seqno: if commit_status >= 0 {
                    old(self)@.seqno + 1
                } else {
                    old(self)@.seqno
                },
                ..old(self)@
            }) && (r is Ok <==> commit_status >= 0) && (commit_status < 0 ==> r->Err_0@
                == engine_error_view(lvm@)),
    {
        if !self.can_mutate() {
            return Err(LvmError::Permission);
        }
        if size == 0 {
            return Err(LvmError::Validation("the extent size must not be zero".to_owned()));
        }
        if status < 0 {
            return Err(lvm.engine_error());
        }
        self.extent_size = size as u64;
        if commit_status < 0 {
            proof {
                assert(self@ =~= (VgView { extent_size: size as nat, ..old(self)@ }));
            }
            return Err(lvm.engine_error());
        }
        self.seqno = self.seqno + 1;
        proof {
            assert(self@ =~= (VgView {
                extent_size: size as nat,
                seqno: old(self)@.seqno + 1,
                ..old(self)@
            }));
        }
        Ok(())
    }
}

/// The image of a freshly created logical volume: the engine rounds the
/// requested size up to the next extent, assigns the identifier and the
/// attribute string, and starts the volume inactive, with no tags and no
/// snapshot origin.
pub open spec fn created_lv_view(
    name: Seq<char>,
    uuid: Seq<char>,
    attrs: Seq<char>,
    size: nat,
    extent: nat,
) -> LvView {
    LvView {
        name,
        uuid,
        size: spec_round_up(size, extent),
        attrs,
        active: false,
        suspended: false,
        origin: None,
        tags: Seq::empty(),
    }
}

/// What a successful volume creation does to a session: the new volume is
/// appended and the change is committed.
pub open spec fn create_lv_step(
    pre: VgView,
    post: VgView,
    name: Seq<char>,
    size: nat,
    uuid: Seq<char>,
    attrs: Seq<char>,
) -> bool {
    post == (VgView {
        lvs: pre.lvs.push(created_lv_view(name, uuid, attrs, size, pre.extent_size)),
        seqno: pre.seqno + 1,
        ..pre
    })
}

/// Whether a name may be given to a new logical volume in this session:
/// free of NUL, within the naming rules, and not yet taken.
pub open spec fn lv_name_free(v: VgView, name: Seq<char>) -> bool {
    !names::has_nul(name) && names::valid_name(name) && !lv_names(v.lvs).contains(name)
}

/// Whether a physical volume's engine-reported identifier parses to
/// exactly these bytes.
pub open spec fn pv_uuid_matches(p: PvView, id: Seq<u8>) -> bool {
    crate::ids::uuid_parse(p.uuid) == Some(id)
}

impl VolumeGroup {
    /// The engine's allocation size for a request, or `None` where the
    /// rounded size does not fit the machine word.
    fn round_to_extent(&self, size: u64) -> (r: Option<u64>)
        requires
            self@.extent_size > 0,
            size > 0,
        ensures
            r matches Some(v) ==> v as nat == spec_round_up(size as nat, self@.extent_size),
            r is Some <==> spec_round_up(size as nat, self@.extent_size) <= u64::MAX,
    {
        let extent = self.extent_size;
        let rem = size % extent;
        if rem == 0 {
            Some(size)
        } else {
            let pad = extent - rem;
            if size > u64::MAX - pad {
                None
            } else {
                Some(size + pad)
            }
        }
    }

    /// Create a linear logical volume of `size` bytes.
    ///
    /// The name is validated locally — rules, NUL and uniqueness — before
    /// anything reaches the engine; `created` is the engine's answer, with
    /// the identifier and attribute string it assigned, or `None` where it
    /// produced no volume.  The recorded size is the requested size
    /// rounded up to the next extent: a documented quantization of the
    /// engine, not an error.  Commits immediately.
    pub fn create_lv_linear(&mut self, lvm: &Lvm, name: &str, size: u64, created: Option<
        LvCreated,
    >) -> (r: LvmResult<LogicalVolume>)
        requires
            old(self).wf(),
            old(self)@.seqno < u64::MAX,
        ensures
            final(self).wf(),
            !vg_can_mutate(old(self)@) ==> r is Err && r->Err_0@ is Permission && final(self)@
                == old(self)@,
            vg_can_mutate(old(self)@) && !lv_name_free(old(self)@, name@) ==> r is Err && r->Err_0@
                is Validation && final(self)@ == old(self)@,
            vg_can_mutate(old(self)@) && lv_name_free(old(self)@, name@) && (size == 0
                || spec_round_up(size as nat, old(self)@.extent_size) > u64::MAX) ==> r is Err
                && r->Err_0@ is Validation && final(self)@ == old(self)@,
            vg_can_mutate(old(self)@) && lv_name_free(old(self)@, name@) && size > 0
                && spec_round_up(size as nat, old(self)@.extent_size) <= u64::MAX && created
                is None ==> r is Err && r->Err_0@ == engine_error_view(lvm@) && final(self)@ == old(
                self,
            )@,
            vg_can_mutate(old(self)@) && lv_name_free(old(self)@, name@) && size > 0
                && spec_round_up(size as nat, old(self)@.extent_size) <= u64::MAX && created
                is Some ==> r is Ok && create_lv_step(
                old(self)@,
                final(self)@,
                name@,
                size as nat,
                created.unwrap().uuid@,
                created.unwrap().attrs@,
            ) && r->Ok_0.valid_for(final(self)@) && r->Ok_0.spec_index() == old(self)@.lvs.len(),
    {
        if !self.can_mutate() {
            return Err(LvmError::Permission);
        }
        if names::str_has_nul(name) {
            return Err(LvmError::Validation("the volume name holds an embedded NUL".to_owned()));
        }
        if !names::is_valid_name(name) {
            return Err(LvmError::Validation("the volume name breaks the naming rules".to_owned()));
        }
        if self.find_lv(name).is_some() {
            return Err(
                LvmError::Validation("a logical volume with this name already exists".to_owned()),
            );
        }
        if size == 0 {
            return Err(LvmError::Validation("the volume size must not be zero".to_owned()));
        }
        let rounded = match self.round_to_extent(size) {
            None => {
                return Err(
                    LvmError::Validation("the rounded volume size is out of range".to_owned()),
                );
            },
            Some(rounded) => rounded,
        };
        let info = match created {
            None => {
                return Err(lvm.engine_error());
            },
            Some(info) => info,
        };
        let index = self.lvs.len();
        let record = LvRecord {
            name: name.to_owned(),
            uuid: info.uuid,
            size: rounded,
            attrs: info.attrs,
            active: false,
            suspended: false,
            origin: None,
            tags: Vec::new(),
        };
        self.lvs.push(record);
        self.seqno = self.seqno + 1;
        proof {
            let added = created_lv_view(
                name@,
                created.unwrap().uuid@,
                created.unwrap().attrs@,
                size as nat,
                old(self)@.extent_size,
            );
            assert(lv_views(self.lvs@) =~~= old(self)@.lvs.push(added));
            assert(self@ =~= (VgView {
                lvs: old(self)@.lvs.push(added),
                seqno: old(self)@.seqno + 1,
                ..old(self)@
            }));
            assert(lv_names(lv_views(self.lvs@)) =~= lv_names(old(self)@.lvs).push(name@));
            lemma_distinct_push(lv_names(old(self)@.lvs), name@);
        }
        Ok(LogicalVolume::mint(index, self.generation))
    }

    /// Ask the engine for a thin-pool parameter set for this group.
    ///
    /// A `chunk_size` of zero requests the engine's default block size and
    /// a `metadata_size` of zero its sizing heuristic; the discard policy
    /// says whether block-discard requests propagate to the underlying
    /// device-mapper target.  `created_ok` is the engine's answer.  The
    /// session's image does not change: no volume is recorded until the
    /// engine reports one.
    pub fn create_thin_pool(
        &self,
        lvm: &Lvm,
        pool_name: &str,
        size: u64,
        chunk_size: u32,
        metadata_size: u64,
        discard_policy: &LvmThinPolicy,
        created_ok: bool,
    ) -> (r: LvmResult<()>)
        requires
            self.wf(),
        ensures
            !vg_can_mutate(self@) ==> r is Err && r->Err_0@ is Permission,
            vg_can_mutate(self@) && !lv_name_free(self@, pool_name@) ==> r is Err && r->Err_0@
                is Validation,
            vg_can_mutate(self@) && lv_name_free(self@, pool_name@) && size == 0 ==> r is Err
                && r->Err_0@ is Validation,
            vg_can_mutate(self@) && lv_name_free(self@, pool_name@) && size > 0 ==> (r is Ok <==> created_ok)
                && (!created_ok ==> r->Err_0@ == engine_error_view(lvm@)),
    {
        let _ = chunk_size;
        let _ = metadata_size;
        let _ = discard_policy;
        if !self.can_mutate() {
            return Err(LvmError::Permission);
        }
        if names::str_has_nul(pool_name) {
            return Err(LvmError::Validation("the pool name holds an embedded NUL".to_owned()));
        }
        if !names::is_valid_name(pool_name) {
            return Err(LvmError::Validation("the pool name breaks the naming rules".to_owned()));
        }
        if self.find_lv(pool_name).is_some() {
            return Err(
                LvmError::Validation("a logical volume with this name already exists".to_owned()),
            );
        }
        if size == 0 {
            return Err(LvmError::Validation("the pool size must not be zero".to_owned()));
        }
        if !created_ok {
            return Err(lvm.engine_error());
        }
        Ok(())
    }

    /// Look up a logical volume of this group by name.
    pub fn lv_from_name(&self, lvm: &Lvm, name: &str) -> (r: LvmResult<LogicalVolume>)
        requires
            self.wf(),
        ensures
            !self@.is_open ==> r is Err && r->Err_0@ is Permission,
            self@.is_open && names::has_nul(name@) ==> r is Err && r->Err_0@ is Validation,
            self@.is_open && !names::has_nul(name@) ==> (r is Ok <==> lv_names(self@.lvs).contains(
                name@,
            )) && (r is Err ==> r->Err_0@ == engine_error_view(lvm@)),
            r is Ok ==> r->Ok_0.valid_for(self@) && r->Ok_0.lv_of(self@).name == name@,
    {
        if !self.is_open {
            return Err(LvmError::Permission);
        }
        if names::str_has_nul(name) {
            return Err(LvmError::Validation("the volume name holds an embedded NUL".to_owned()));
        }
        match self.find_lv(name) {
            None => Err(lvm.engine_error()),
            Some(index) => Ok(LogicalVolume::mint(index, self.generation)),
        }
    }

    /// Look up a physical volume of this group by device name.
    pub fn pv_from_name(&self, lvm: &Lvm, name: &str) -> (r: LvmResult<PhysicalVolume>)
        requires
            self.wf(),
        ensures
            !self@.is_open ==> r is Err && r->Err_0@ is Permission,
            self@.is_open && names::has_nul(name@) ==> r is Err && r->Err_0@ is Validation,
            self@.is_open && !names::has_nul(name@) ==> (r is Ok <==> pv_names(self@.pvs).contains(
                name@,
            )) && (r is Err ==> r->Err_0@ == engine_error_view(lvm@)),
            r is Ok ==> r->Ok_0.valid_for(self@) && r->Ok_0.pv_of(self@).name == name@,
    {
        if !self.is_open {
            return Err(LvmError::Permission);
        }
        if names::str_has_nul(name) {
            return Err(LvmError::Validation("the device name holds an embedded NUL".to_owned()));
        }
        match self.find_pv(name) {
            None => Err(lvm.engine_error()),
            Some(index) => Ok(PhysicalVolume::mint(index, self.generation)),
        }
    }

    /// Look up a physical volume of this group by its UUID.
    ///
    /// Each stored identifier is parsed and compared to the given bytes;
    /// the first match wins.
    pub fn pv_from_uuid(&self, lvm: &Lvm, id: &crate::ids::Uuid) -> (r: LvmResult<PhysicalVolume>)
        requires
            self.wf(),
        ensures
            !self@.is_open ==> r is Err && r->Err_0@ is Permission,
            self@.is_open && id@.contains(0u8) ==> r is Err && r->Err_0@ is Validation,
            self@.is_open && !id@.contains(0u8) ==> (r is Ok <==> exists|i: int|
                0 <= i < self@.pvs.len() && pv_uuid_matches(#[trigger] self@.pvs[i], id@)) && (r
                is Err ==> r->Err_0@ == engine_error_view(lvm@)),
            r is Ok ==> r->Ok_0.valid_for(self@) && pv_uuid_matches(r->Ok_0.pv_of(self@), id@),
    {
        if !self.is_open {
            return Err(LvmError::Permission);
        }
        if id.has_nul_byte() {
            return Err(
                LvmError::Validation(
                    "the identifier holds a NUL byte and cannot reach the engine".to_owned(),
                ),
            );
        }
        let n = self.pvs.len();
        let mut i: usize = 0;
        while i < n
            invariant
                self.wf(),
                self@.is_open,
                !id@.contains(0u8),
                n == self@.pvs.len(),
                0 <= i <= n,
                forall|j: int| 0 <= j < i ==> !pv_uuid_matches(#[trigger] self@.pvs[j], id@),
            decreases n - i,
        {
            if let Some(parsed) = crate::ids::Uuid::parse(self.pvs[i].uuid.as_str()) {
                if util::bytes_eq(parsed.as_bytes(), id.as_bytes()) {
                    proof {
                        assert(crate::ids::uuid_parse(self@.pvs[i as int].uuid) == Some(id@));
                    }
                    return Ok(PhysicalVolume::mint(i, self.generation));
                }
            }
            i = i + 1;
        }
        Err(lvm.engine_error())
    }

    /// Handles to all logical volumes of the group, in list order.
    pub fn list_lvs(&self) -> (r: LvmResult<Vec<LogicalVolume>>)
        requires
            self.wf(),
        ensures
            !self@.is_open ==> r is Err && r->Err_0@ is Permission,
            self@.is_open ==> r is Ok && r->Ok_0@.len() == self@.lvs.len() && forall|i: int|
                0 <= i < self@.lvs.len() ==> (#[trigger] r->Ok_0@[i]).valid_for(self@)
                    && r->Ok_0@[i].spec_index() == i,
    {
        if !self.is_open {
            return Err(LvmError::Permission);
        }
        let n = self.lvs.len();
        let mut out: Vec<LogicalVolume> = Vec::new();
        let mut i: usize = 0;
        while i < n
            invariant
                n == self@.lvs.len(),
                0 <= i <= n,
                out@.len() == i,
                forall|j: int|
                    0 <= j < i ==> (#[trigger] out@[j]).spec_index() == j
                        && out@[j].spec_generation() == self@.generation,
            decreases n - i,
        {
            out.push(LogicalVolume::mint(i, self.generation));
            i = i + 1;
        }
        Ok(out)
    }

    /// Handles to all physical volumes of the group, in list order.
    ///
    /// The engine holds list-scoped locks while such an enumeration is
    /// walked: do not remove a physical volume until the walk is done.
    pub fn list_pvs(&self) -> (r: LvmResult<Vec<PhysicalVolume>>)
        requires
            self.wf(),
        ensures
            !self@.is_open ==> r is Err && r->Err_0@ is Permission,
            self@.is_open ==> r is Ok && r->Ok_0@.len() == self@.pvs.len() && forall|i: int|
                0 <= i < self@.pvs.len() ==> (#[trigger] r->Ok_0@[i]).valid_for(self@)
                    && r->Ok_0@[i].spec_index() == i,
    {
        if !self.is_open {
            return Err(LvmError::Permission);
        }
        let n = self.pvs.len();
        let mut out: Vec<PhysicalVolume> = Vec::new();
        let mut i: usize = 0;
        while i < n
            invariant
                n == self@.pvs.len(),
                0 <= i <= n,
                out@.len() == i,
                forall|j: int|
                    0 <= j < i ==> (#[trigger] out@[j]).spec_index() == j
                        && out@[j].spec_generation() == self@.generation,
            decreases n - i,
        {
            out.push(PhysicalVolume::mint(i, self.generation));
            i = i + 1;
        }
        Ok(out)
    }

    /// Check a name for a new logical volume: the local naming rules and
    /// uniqueness within this group first, then the engine's verdict.
    pub fn name_validate(&self, lvm: &Lvm, name: &str, status: i32) -> (r: LvmResult<()>)
        requires
            self.wf(),
        ensures
            !self@.is_open ==> r is Err && r->Err_0@ is Permission,
            self@.is_open ==> (r is Ok <==> lv_name_free(self@, name@) && status >= 0),
            self@.is_open && !lv_name_free(self@, name@) ==> r->Err_0@ is Validation,
            self@.is_open && lv_name_free(self@, name@) && status < 0 ==> r->Err_0@
                == engine_error_view(lvm@),
    {
        if !self.is_open {
            return Err(LvmError::Permission);
        }
        if names::str_has_nul(name) {
            return Err(LvmError::Validation("the volume name holds an embedded NUL".to_owned()));
        }
        if !names::is_valid_name(name) {
            return Err(LvmError::Validation("the volume name breaks the naming rules".to_owned()));
        }
        if self.find_lv(name).is_some() {
            return Err(
                LvmError::Validation("a logical volume with this name already exists".to_owned()),
            );
        }
        self.check_status(lvm, status)
    }

    /// The error-channel adapter, applied to a native call made on behalf
    /// of this session.
    fn check_status(&self, lvm: &Lvm, status: i32) -> (r: LvmResult<()>)
        ensures
            r is Ok <==> status >= 0,
            r is Err ==> r->Err_0@ == engine_error_view(lvm@),
    {
        if status < 0 {
            return Err(lvm.engine_error());
        }
        Ok(())
    }
}

/// The recorded size of a snapshot volume: the requested ceiling rounded
/// up to the next extent, or the origin's size where the request was zero.
pub open spec fn snapshot_size(origin_size: nat, max: nat, extent: nat) -> nat {
    if max == 0 {
        origin_size
    } else {
        spec_round_up(max, extent)
    }
}

impl LogicalVolume {
    /// Whether the handle is still valid for this session: the runtime
    /// check behind every member operation.
    pub fn check(&self, vg: &VolumeGroup) -> (r: bool)
        ensures
            r == self.valid_for(vg@),
    {
        proof {
            self.reveal_parts();
        }
        self.generation == vg.generation && self.index < vg.lvs.len()
    }

    /// The name of the volume.
    pub fn get_name(&self, vg: &VolumeGroup) -> (r: String)
        requires
            vg@.is_open,
            self.valid_for(vg@),
        ensures
            r@ == self.lv_of(vg@).name,
    {
        proof {
            self.reveal_parts();
        }
        vg.lvs[self.index].name.clone()
    }

    /// The UUID of the volume, as the engine reported it.
    pub fn get_uuid(&self, vg: &VolumeGroup) -> (r: String)
        requires
            vg@.is_open,
            self.valid_for(vg@),
        ensures
            r@ == self.lv_of(vg@).uuid,
    {
        proof {
            self.reveal_parts();
        }
        vg.lvs[self.index].uuid.clone()
    }

    /// The size of the volume in bytes.
    pub fn get_size(&self, vg: &VolumeGroup) -> (r: u64)
        requires
            vg@.is_open,
            self.valid_for(vg@),
        ensures
            r as nat == self.lv_of(vg@).size,
    {
        proof {
            self.reveal_parts();
        }
        vg.lvs[self.index].size
    }

    /// The attribute string of the volume, as of the engine's last report.
    pub fn get_attributes(&self, vg: &VolumeGroup) -> (r: String)
        requires
            vg@.is_open,
            self.valid_for(vg@),
        ensures
            r@ == self.lv_of(vg@).attrs,
    {
        proof {
            self.reveal_parts();
        }
        vg.lvs[self.index].attrs.clone()
    }

    /// The origin this volume is a snapshot of, if it is one.
    pub fn get_origin(&self, vg: &VolumeGroup) -> (r: Option<String>)
        requires
            vg@.is_open,
            self.valid_for(vg@),
        ensures
            r.deep_view() == self.lv_of(vg@).origin,
    {
        proof {
            self.reveal_parts();
        }
        match &vg.lvs[self.index].origin {
            None => None,
            Some(origin) => Some(origin.clone()),
        }
    }

    /// Whether the volume is active.
    pub fn is_active(&self, vg: &VolumeGroup) -> (r: bool)
        requires
            vg@.is_open,
            self.valid_for(vg@),
        ensures
            r == self.lv_of(vg@).active,
    {
        proof {
            self.reveal_parts();
        }
        vg.lvs[self.index].active
    }

    /// Whether the volume is suspended.
    pub fn is_suspended(&self, vg: &VolumeGroup) -> (r: bool)
        requires
            vg@.is_open,
            self.valid_for(vg@),
        ensures
            r == self.lv_of(vg@).suspended,
    {
        proof {
            self.reveal_parts();
        }
        vg.lvs[self.index].suspended
    }

    /// The tags of the volume, in insertion order.
    pub fn get_tags(&self, vg: &VolumeGroup) -> (r: LvmResult<Vec<String>>)
        requires
            vg@.is_open,
            self.valid_for(vg@),
        ensures
            r is Ok && r->Ok_0.deep_view() == self.lv_of(vg@).tags,
    {
        proof {
            self.reveal_parts();
        }
        Ok(util::clone_strings(&vg.lvs[self.index].tags))
    }

    /// Activate the volume.
    pub fn activate(&self, lvm: &Lvm, vg: &mut VolumeGroup, status: i32) -> (r: LvmResult<()>)
        requires
            old(vg).wf(),
        ensures
            final(vg).wf(),
            !(self.valid_for(old(vg)@) && vg_can_mutate(old(vg)@)) ==> r is Err && r->Err_0@
                is Permission && final(vg)@ == old(vg)@,
            self.valid_for(old(vg)@) && vg_can_mutate(old(vg)@) && status < 0 ==> r is Err
                && r->Err_0@ == engine_error_view(lvm@) && final(vg)@ == old(vg)@,
            self.valid_for(old(vg)@) && vg_can_mutate(old(vg)@) && status >= 0 ==> r is Ok && final(vg)@ == (VgView {
                lvs: old(vg)@.lvs.update(
                    self.spec_index(),
                    (LvView { active: true, ..self.lv_of(old(vg)@) }),
                ),
                ..old(vg)@
            }),
    {
        proof {
            self.reveal_parts();
        }
        if !self.check(vg) || !vg.can_mutate() {
            return Err(LvmError::Permission);
        }
        if status < 0 {
            return Err(lvm.engine_error());
        }
        let mut rec = placeholder_lv();
        vg.lvs.set_and_swap(self.index, &mut rec);
        rec.active = true;
        vg.lvs.set_and_swap(self.index, &mut rec);
        proof {
            lemma_lv_field_update(old(vg)@, vg@, old(vg).lvs@, vg.lvs@, self.spec_index());
        }
        Ok(())
    }

    /// Deactivate the volume.
    pub fn deactivate(&self, lvm: &Lvm, vg: &mut VolumeGroup, status: i32) -> (r: LvmResult<()>)
        requires
            old(vg).wf(),
        ensures
            final(vg).wf(),
            !(self.valid_for(old(vg)@) && vg_can_mutate(old(vg)@)) ==> r is Err && r->Err_0@
                is Permission && final(vg)@ == old(vg)@,
            self.valid_for(old(vg)@) && vg_can_mutate(old(vg)@) && status < 0 ==> r is Err
                && r->Err_0@ == engine_error_view(lvm@) && final(vg)@ == old(vg)@,
            self.valid_for(old(vg)@) && vg_can_mutate(old(vg)@) && status >= 0 ==> r is Ok && final(vg)@ == (VgView {
                lvs: old(vg)@.lvs.update(
                    self.spec_index(),
                    (LvView { active: false, ..self.lv_of(old(vg)@) }),
                ),
                ..old(vg)@
            }),
    {
        proof {
            self.reveal_parts();
        }
        if !self.check(vg) || !vg.can_mutate() {
            return Err(LvmError::Permission);
        }
        if status < 0 {
            return Err(lvm.engine_error());
        }
        let mut rec = placeholder_lv();
        vg.lvs.set_and_swap(self.index, &mut rec);
        rec.active = false;
        vg.lvs.set_and_swap(self.index, &mut rec);
        proof {
            lemma_lv_field_update(old(vg)@, vg@, old(vg).lvs@, vg.lvs@, self.spec_index());
        }
        Ok(())
    }
}

impl LogicalVolume {
    /// Add a tag to the volume; a tag already present is left as it is.
    /// Triggers an implicit commit of the session, like the group-level
    /// tagging calls.
    pub fn add_tag(&self, lvm: &Lvm, vg: &mut VolumeGroup, name: &str, status: i32, commit_status:
        i32) -> (r: LvmResult<()>)
        requires
            old(vg).wf(),
            old(vg)@.seqno < u64::MAX,
        ensures
            final(vg).wf(),
            !(self.valid_for(old(vg)@) && vg_can_mutate(old(vg)@)) ==> r is Err && r->Err_0@
                is Permission && final(vg)@ == old(vg)@,
            self.valid_for(old(vg)@) && vg_can_mutate(old(vg)@) && names::has_nul(name@) ==> r
                is Err && r->Err_0@ is Validation && final(vg)@ == old(vg)@,
            self.valid_for(old(vg)@) && vg_can_mutate(old(vg)@) && !names::has_nul(name@) && status
                < 0 ==> r is Err && r->Err_0@ == engine_error_view(lvm@) && final(vg)@ == old(vg)@,
            self.valid_for(old(vg)@) && vg_can_mutate(old(vg)@) && !names::has_nul(name@) && status
                >= 0 ==> final(vg)@ == (VgView {
                lvs: old(vg)@.lvs.update(
                    self.spec_index(),
                    (LvView {
                        tags: spec_add_tag(self.lv_of(old(vg)@).tags, name@),
                        ..self.lv_of(old(vg)@)
                    }),
                ),
                seqno: if commit_status >= 0 {
                    old(vg)@.seqno + 1
                } else {
                    old(vg)@.seqno
                },
                ..old(vg)@
            }) && (r is Ok <==> commit_status >= 0) && (commit_status < 0 ==> r->Err_0@
                == engine_error_view(lvm@)),
    {
        proof {
            self.reveal_parts();
        }
        if !self.check(vg) || !vg.can_mutate() {
            return Err(LvmError::Permission);
        }
        if names::str_has_nul(name) {
            return Err(LvmError::Validation("the tag holds an embedded NUL".to_owned()));
        }
        if status < 0 {
            return Err(lvm.engine_error());
        }
        let mut rec = placeholder_lv();
        vg.lvs.set_and_swap(self.index, &mut rec);
        let already = util::contains_str(&rec.tags, name);
        if !already {
            rec.tags.push(name.to_owned());
        }
        proof {
            crate::tags::lemma_tag_add_round_trip(self.lv_of(old(vg)@).tags, name@);
            assert(rec.tags.deep_view() =~= spec_add_tag(self.lv_of(old(vg)@).tags, name@));
        }
        vg.lvs.set_and_swap(self.index, &mut rec);
        proof {
            lemma_lv_tags_update(old(vg)@, vg@, old(vg).lvs@, vg.lvs@, self.spec_index());
        }
        if commit_status < 0 {
            return Err(lvm.engine_error());
        }
        vg.seqno = vg.seqno + 1;
        proof {
            assert(vg@ =~= (VgView { seqno: old(vg)@.seqno + 1, ..update_tags_view(
                old(vg)@,
                self.spec_index(),
                spec_add_tag(self.lv_of(old(vg)@).tags, name@),
            ) }));
        }
        Ok(())
    }

    /// Remove a tag from the volume; every occurrence of it is dropped.
    /// Triggers an implicit commit of the session.
    pub fn remove_tag(&self, lvm: &Lvm, vg: &mut VolumeGroup, name: &str, status: i32,
        commit_status: i32) -> (r: LvmResult<()>)
        requires
            old(vg).wf(),
            old(vg)@.seqno < u64::MAX,
        ensures
            final(vg).wf(),
            !(self.valid_for(old(vg)@) && vg_can_mutate(old(vg)@)) ==> r is Err && r->Err_0@
                is Permission && final(vg)@ == old(vg)@,
            self.valid_for(old(vg)@) && vg_can_mutate(old(vg)@) && names::has_nul(name@) ==> r
                is Err && r->Err_0@ is Validation && final(vg)@ == old(vg)@,
            self.valid_for(old(vg)@) && vg_can_mutate(old(vg)@) && !names::has_nul(name@) && status
                < 0 ==> r is Err && r->Err_0@ == engine_error_view(lvm@) && final(vg)@ == old(vg)@,
            self.valid_for(old(vg)@) && vg_can_mutate(old(vg)@) && !names::has_nul(name@) && status
                >= 0 ==> final(vg)@ == (VgView {
                lvs: old(vg)@.lvs.update(
                    self.spec_index(),
                    (LvView {
                        tags: spec_remove_tag(self.lv_of(old(vg)@).tags, name@),
                        ..self.lv_of(old(vg)@)
                    }),
                ),
                seqno: if commit_status >= 0 {
                    old(vg)@.seqno + 1
                } else {
                    old(vg)@.seqno
                },
                ..old(vg)@
            }) && (r is Ok <==> commit_status >= 0) && (commit_status < 0 ==> r->Err_0@
                == engine_error_view(lvm@)),
    {
        proof {
            self.reveal_parts();
        }
        if !self.check(vg) || !vg.can_mutate() {
            return Err(LvmError::Permission);
        }
        if names::str_has_nul(name) {
            return Err(LvmError::Validation("the tag holds an embedded NUL".to_owned()));
        }
        if status < 0 {
            return Err(lvm.engine_error());
        }
        let mut rec = placeholder_lv();
        vg.lvs.set_and_swap(self.index, &mut rec);
        let kept = remove_tag_entries(&rec.tags, name);
        rec.tags = kept;
        proof {
            crate::tags::lemma_tag_remove_round_trip(self.lv_of(old(vg)@).tags, name@);
        }
        vg.lvs.set_and_swap(self.index, &mut rec);
        proof {
            lemma_lv_tags_update(old(vg)@, vg@, old(vg).lvs@, vg.lvs@, self.spec_index());
        }
        if commit_status < 0 {
            return Err(lvm.engine_error());
        }
        vg.seqno = vg.seqno + 1;
        proof {
            assert(vg@ =~= (VgView { seqno: old(vg)@.seqno + 1, ..update_tags_view(
                old(vg)@,
                self.spec_index(),
                spec_remove_tag(self.lv_of(old(vg)@).tags, name@),
            ) }));
        }
        Ok(())
    }

    /// Rename the volume.  The new name is validated locally — rules, NUL
    /// and uniqueness within the group — before anything reaches the
    /// engine; the change is committed by the engine.
    pub fn rename(&self, lvm: &Lvm, vg: &mut VolumeGroup, new_name: &str, status: i32) -> (r:
        LvmResult<()>)
        requires
            old(vg).wf(),
            old(vg)@.seqno < u64::MAX,
        ensures
            final(vg).wf(),
            !(self.valid_for(old(vg)@) && vg_can_mutate(old(vg)@)) ==> r is Err && r->Err_0@
                is Permission && final(vg)@ == old(vg)@,
            self.valid_for(old(vg)@) && vg_can_mutate(old(vg)@) && !lv_name_free(
                old(vg)@,
                new_name@,
            ) ==> r is Err && r->Err_0@ is Validation && final(vg)@ == old(vg)@,
            self.valid_for(old(vg)@) && vg_can_mutate(old(vg)@) && lv_name_free(
                old(vg)@,
                new_name@,
            ) && status < 0 ==> r is Err && r->Err_0@ == engine_error_view(lvm@) && final(vg)@
                == old(vg)@,
            self.valid_for(old(vg)@) && vg_can_mutate(old(vg)@) && lv_name_free(
                old(vg)@,
                new_name@,
            ) && status >= 0 ==> r is Ok && final(vg)@ == (VgView {
                lvs: old(vg)@.lvs.update(
                    self.spec_index(),
                    (LvView { name: new_name@, ..self.lv_of(old(vg)@) }),
                ),
                seqno: old(vg)@.seqno + 1,
                ..old(vg)@
            }),
    {
        proof {
            self.reveal_parts();
        }
        if !self.check(vg) || !vg.can_mutate() {
            return Err(LvmError::Permission);
        }
        if names::str_has_nul(new_name) {
            return Err(LvmError::Validation("the volume name holds an embedded NUL".to_owned()));
        }
        if !names::is_valid_name(new_name) {
            return Err(LvmError::Validation("the volume name breaks the naming rules".to_owned()));
        }
        if vg.find_lv(new_name).is_some() {
            return Err(
                LvmError::Validation("a logical volume with this name already exists".to_owned()),
            );
        }
        if status < 0 {
            return Err(lvm.engine_error());
        }
        let mut rec = placeholder_lv();
        vg.lvs.set_and_swap(self.index, &mut rec);
        rec.name = new_name.to_owned();
        vg.lvs.set_and_swap(self.index, &mut rec);
        vg.seqno = vg.seqno + 1;
        proof {
            let at = self.spec_index();
            let renamed = (LvView { name: new_name@, ..self.lv_of(old(vg)@) });
            assert(lv_views(vg.lvs@) =~~= old(vg)@.lvs.update(at, renamed));
            assert(vg@ =~= (VgView {
                lvs: old(vg)@.lvs.update(at, renamed),
                seqno: old(vg)@.seqno + 1,
                ..old(vg)@
            }));
            assert(lv_names(vg@.lvs) =~= lv_names(old(vg)@.lvs).update(at, new_name@));
            lemma_distinct_update(lv_names(old(vg)@.lvs), at, new_name@);
            assert forall|i: int| 0 <= i < vg@.lvs.len() implies distinct_seqs(
                (#[trigger] vg@.lvs[i]).tags,
            ) by {
                if i != at {
                    assert(vg@.lvs[i] == old(vg)@.lvs[i]);
                } else {
                    assert(vg@.lvs[at].tags == old(vg)@.lvs[at].tags);
                }
            }
        }
        Ok(())
    }

    /// Resize the volume to `new_size` bytes, rounded up to the next
    /// extent; the change is committed by the engine.
    pub fn resize(&self, lvm: &Lvm, vg: &mut VolumeGroup, new_size: u64, status: i32) -> (r:
        LvmResult<()>)
        requires
            old(vg).wf(),
            old(vg)@.seqno < u64::MAX,
        ensures
            final(vg).wf(),
            !(self.valid_for(old(vg)@) && vg_can_mutate(old(vg)@)) ==> r is Err && r->Err_0@
                is Permission && final(vg)@ == old(vg)@,
            self.valid_for(old(vg)@) && vg_can_mutate(old(vg)@) && (new_size == 0 || spec_round_up(
                new_size as nat,
                old(vg)@.extent_size,
            ) > u64::MAX) ==> r is Err && r->Err_0@ is Validation && final(vg)@ == old(vg)@,
            self.valid_for(old(vg)@) && vg_can_mutate(old(vg)@) && new_size > 0 && spec_round_up(
                new_size as nat,
                old(vg)@.extent_size,
            ) <= u64::MAX && status < 0 ==> r is Err && r->Err_0@ == engine_error_view(lvm@)
                && final(vg)@ == old(vg)@,
            self.valid_for(old(vg)@) && vg_can_mutate(old(vg)@) && new_size > 0 && spec_round_up(
                new_size as nat,
                old(vg)@.extent_size,
            ) <= u64::MAX && status >= 0 ==> r is Ok && final(vg)@ == (VgView {
                lvs: old(vg)@.lvs.update(
                    self.spec_index(),
                    (LvView {
                        size: spec_round_up(new_size as nat, old(vg)@.extent_size),
                        ..self.lv_of(old(vg)@)
                    }),
                ),
                seqno: old(vg)@.seqno + 1,
                ..old(vg)@
            }),
    {
        proof {
            self.reveal_parts();
        }
        if !self.check(vg) || !vg.can_mutate() {
            return Err(LvmError::Permission);
        }
        if new_size == 0 {
            return Err(LvmError::Validation("the volume size must not be zero".to_owned()));
        }
        let rounded = match vg.round_to_extent(new_size) {
            None => {
                return Err(
                    LvmError::Validation("the rounded volume size is out of range".to_owned()),
                );
            },
            Some(rounded) => rounded,
        };
        if status < 0 {
            return Err(lvm.engine_error());
        }
        let mut rec = placeholder_lv();
        vg.lvs.set_and_swap(self.index, &mut rec);
        rec.size = rounded;
        vg.lvs.set_and_swap(self.index, &mut rec);
        proof {
            lemma_lv_field_update(old(vg)@, vg@, old(vg).lvs@, vg.lvs@, self.spec_index());
        }
        vg.seqno = vg.seqno + 1;
        proof {
            assert(vg@ =~= (VgView {
                lvs: old(vg)@.lvs.update(
                    self.spec_index(),
                    (LvView {
                        size: spec_round_up(new_size as nat, old(vg)@.extent_size),
                        ..self.lv_of(old(vg)@)
                    }),
                ),
                seqno: old(vg)@.seqno + 1,
                ..old(vg)@
            }));
        }
        Ok(())
    }

    /// Remove the volume from its group.  The handle — and every other
    /// handle derived from the session — is revoked; the change is
    /// committed by the engine.
    pub fn remove(&self, lvm: &Lvm, vg: &mut VolumeGroup, status: i32) -> (r: LvmResult<()>)
        requires
            old(vg).wf(),
            old(vg)@.seqno < u64::MAX,
            old(vg)@.generation < u64::MAX,
        ensures
            final(vg).wf(),
            !(self.valid_for(old(vg)@) && vg_can_mutate(old(vg)@)) ==> r is Err && r->Err_0@
                is Permission && final(vg)@ == old(vg)@,
            self.valid_for(old(vg)@) && vg_can_mutate(old(vg)@) && status < 0 ==> r is Err
                && r->Err_0@ == engine_error_view(lvm@) && final(vg)@ == old(vg)@,
            self.valid_for(old(vg)@) && vg_can_mutate(old(vg)@) && status >= 0 ==> r is Ok && final(vg)@ == (VgView {
                lvs: old(vg)@.lvs.remove(self.spec_index()),
                generation: old(vg)@.generation + 1,
                seqno: old(vg)@.seqno + 1,
                ..old(vg)@
            }),
    {
        proof {
            self.reveal_parts();
        }
        if !self.check(vg) || !vg.can_mutate() {
            return Err(LvmError::Permission);
        }
        if status < 0 {
            return Err(lvm.engine_error());
        }
        vg.lvs.remove(self.index);
        vg.generation = vg.generation + 1;
        vg.seqno = vg.seqno + 1;
        proof {
            let at = self.spec_index();
            assert(lv_views(vg.lvs@) =~= old(vg)@.lvs.remove(at));
            assert(vg@ =~= (VgView {
                lvs: old(vg)@.lvs.remove(at),
                generation: old(vg)@.generation + 1,
                seqno: old(vg)@.seqno + 1,
                ..old(vg)@
            }));
            assert(lv_names(vg@.lvs) =~= lv_names(old(vg)@.lvs).remove(at));
            lemma_distinct_remove(lv_names(old(vg)@.lvs), at);
            assert forall|i: int| 0 <= i < vg@.lvs.len() implies distinct_seqs(
                (#[trigger] vg@.lvs[i]).tags,
            ) by {
                if i < at {
                    assert(vg@.lvs[i] == old(vg)@.lvs[i]);
                } else {
                    assert(vg@.lvs[i] == old(vg)@.lvs[i + 1]);
                }
            }
        }
        Ok(())
    }

    /// Create a snapshot of this volume under a new name.
    ///
    /// `max_snap_size` bounds the snapshot's space, rounded up to the next
    /// extent; zero asks for as much space as the origin itself.  The new
    /// volume records this volume as its origin and shares the session;
    /// `created` is the engine's answer.  The change is committed by the
    /// engine.
    pub fn snapshot(&self, lvm: &Lvm, vg: &mut VolumeGroup, snap_name: &str, max_snap_size: u64,
        created: Option<LvCreated>) -> (r: LvmResult<LogicalVolume>)
        requires
            old(vg).wf(),
            old(vg)@.seqno < u64::MAX,
        ensures
            final(vg).wf(),
            !(self.valid_for(old(vg)@) && vg_can_mutate(old(vg)@)) ==> r is Err && r->Err_0@
                is Permission && final(vg)@ == old(vg)@,
            self.valid_for(old(vg)@) && vg_can_mutate(old(vg)@) && !lv_name_free(
                old(vg)@,
                snap_name@,
            ) ==> r is Err && r->Err_0@ is Validation && final(vg)@ == old(vg)@,
            self.valid_for(old(vg)@) && vg_can_mutate(old(vg)@) && lv_name_free(
                old(vg)@,
                snap_name@,
            ) && max_snap_size > 0 && spec_round_up(max_snap_size as nat, old(vg)@.extent_size)
                > u64::MAX ==> r is Err && r->Err_0@ is Validation && final(vg)@ == old(vg)@,
            self.valid_for(old(vg)@) && vg_can_mutate(old(vg)@) && lv_name_free(
                old(vg)@,
                snap_name@,
            ) && snapshot_size(self.lv_of(old(vg)@).size, max_snap_size as nat, old(vg)@.extent_size)
                <= u64::MAX && created is None ==> r is Err && r->Err_0@ == engine_error_view(lvm@)
                && final(vg)@ == old(vg)@,
            self.valid_for(old(vg)@) && vg_can_mutate(old(vg)@) && lv_name_free(
                old(vg)@,
                snap_name@,
            ) && snapshot_size(self.lv_of(old(vg)@).size, max_snap_size as nat, old(vg)@.extent_size)
                <= u64::MAX && created is Some ==> r is Ok && final(vg)@ == (VgView {
                lvs: old(vg)@.lvs.push(
                    (LvView {
                        name: snap_name@,
                        uuid: created.unwrap().uuid@,
                        size: snapshot_size(
                            self.lv_of(old(vg)@).size,
                            max_snap_size as nat,
                            old(vg)@.extent_size,
                        ),
                        attrs: created.unwrap().attrs@,
                        active: false,
                        suspended: false,
                        origin: Some(self.lv_of(old(vg)@).name),
                        tags: Seq::empty(),
                    }),
                ),
                seqno: old(vg)@.seqno + 1,
                ..old(vg)@
            }) && r->Ok_0.valid_for(final(vg)@) && r->Ok_0.spec_index() == old(vg)@.lvs.len(),
    {
        proof {
            self.reveal_parts();
        }
        if !self.check(vg) || !vg.can_mutate() {
            return Err(LvmError::Permission);
        }
        if names::str_has_nul(snap_name) {
            return Err(LvmError::Validation("the volume name holds an embedded NUL".to_owned()));
        }
        if !names::is_valid_name(snap_name) {
            return Err(LvmError::Validation("the volume name breaks the naming rules".to_owned()));
        }
        if vg.find_lv(snap_name).is_some() {
            return Err(
                LvmError::Validation("a logical volume with this name already exists".to_owned()),
            );
        }
        let size = if max_snap_size == 0 {
            vg.lvs[self.index].size
        } else {
            match vg.round_to_extent(max_snap_size) {
                None => {
                    return Err(
                        LvmError::Validation(
                            "the rounded snapshot size is out of range".to_owned(),
                        ),
                    );
                },
                Some(rounded) => rounded,
            }
        };
        let info = match created {
            None => {
                return Err(lvm.engine_error());
            },
            Some(info) => info,
        };
        let index = vg.lvs.len();
        let origin_name = vg.lvs[self.index].name.clone();
        let record = LvRecord {
            name: snap_name.to_owned(),
            uuid: info.uuid,
            size,
            attrs: info.attrs,
            active: false,
            suspended: false,
            origin: Some(origin_name),
            tags: Vec::new(),
        };
        vg.lvs.push(record);
        vg.seqno = vg.seqno + 1;
        proof {
            let added = (LvView {
                name: snap_name@,
                uuid: created.unwrap().uuid@,
                size: snapshot_size(
                    self.lv_of(old(vg)@).size,
                    max_snap_size as nat,
                    old(vg)@.extent_size,
                ),
                attrs: created.unwrap().attrs@,
                active: false,
                suspended: false,
                origin: Some(self.lv_of(old(vg)@).name),
                tags: Seq::empty(),
            });
            assert(lv_views(vg.lvs@) =~~= old(vg)@.lvs.push(added));
            assert(vg@ =~= (VgView {
                lvs: old(vg)@.lvs.push(added),
                seqno: old(vg)@.seqno + 1,
                ..old(vg)@
            }));
            assert(lv_names(vg@.lvs) =~= lv_names(old(vg)@.lvs).push(snap_name@));
            lemma_distinct_push(lv_names(old(vg)@.lvs), snap_name@);
        }
        Ok(LogicalVolume::mint(index, vg.generation))
    }
}

impl PhysicalVolume {
    /// Whether the handle is still valid for this session: the runtime
    /// check behind every member operation.
    pub fn check(&self, vg: &VolumeGroup) -> (r: bool)
        ensures
            r == self.valid_for(vg@),
    {
        proof {
            self.reveal_parts();
        }
        self.generation == vg.generation && self.index < vg.pvs.len()
    }

    /// The device name of the volume.
    pub fn get_name(&self, vg: &VolumeGroup) -> (r: String)
        requires
            vg@.is_open,
            self.valid_for(vg@),
        ensures
            r@ == self.pv_of(vg@).name,
    {
        proof {
            self.reveal_parts();
        }
        vg.pvs[self.index].name.clone()
    }

    /// The UUID of the volume, as the engine reported it.
    pub fn get_uuid(&self, vg: &VolumeGroup) -> (r: String)
        requires
            vg@.is_open,
            self.valid_for(vg@),
        ensures
            r@ == self.pv_of(vg@).uuid,
    {
        proof {
            self.reveal_parts();
        }
        vg.pvs[self.index].uuid.clone()
    }

    /// The size of the volume in bytes.
    pub fn get_size(&self, vg: &VolumeGroup) -> (r: u64)
        requires
            vg@.is_open,
            self.valid_for(vg@),
        ensures
            r as nat == self.pv_of(vg@).size,
    {
        proof {
            self.reveal_parts();
        }
        vg.pvs[self.index].size
    }

    /// The size of the underlying device in bytes.
    pub fn get_dev_size(&self, vg: &VolumeGroup) -> (r: u64)
        requires
            vg@.is_open,
            self.valid_for(vg@),
        ensures
            r as nat == self.pv_of(vg@).dev_size,
    {
        proof {
            self.reveal_parts();
        }
        vg.pvs[self.index].dev_size
    }

    /// The unallocated space of the volume in bytes.
    pub fn get_free(&self, vg: &VolumeGroup) -> (r: u64)
        requires
            vg@.is_open,
            self.valid_for(vg@),
        ensures
            r as nat == self.pv_of(vg@).free,
    {
        proof {
            self.reveal_parts();
        }
        vg.pvs[self.index].free
    }

    /// The number of metadata areas of the volume.
    pub fn get_mda_count(&self, vg: &VolumeGroup) -> (r: u64)
        requires
            vg@.is_open,
            self.valid_for(vg@),
        ensures
            r as nat == self.pv_of(vg@).mda_count,
    {
        proof {
            self.reveal_parts();
        }
        vg.pvs[self.index].mda_count
    }

    /// Resize the volume to `new_size` bytes; the change is committed by
    /// the engine.
    pub fn resize(&self, lvm: &Lvm, vg: &mut VolumeGroup, new_size: u64, status: i32) -> (r:
        LvmResult<()>)
        requires
            old(vg).wf(),
            old(vg)@.seqno < u64::MAX,
        ensures
            final(vg).wf(),
            !(self.valid_for(old(vg)@) && vg_can_mutate(old(vg)@)) ==> r is Err && r->Err_0@
                is Permission && final(vg)@ == old(vg)@,
            self.valid_for(old(vg)@) && vg_can_mutate(old(vg)@) && new_size == 0 ==> r is Err
                && r->Err_0@ is Validation && final(vg)@ == old(vg)@,
            self.valid_for(old(vg)@) && vg_can_mutate(old(vg)@) && new_size > 0 && status < 0 ==> r
                is Err && r->Err_0@ == engine_error_view(lvm@) && final(vg)@ == old(vg)@,
            self.valid_for(old(vg)@) && vg_can_mutate(old(vg)@) && new_size > 0 && status >= 0
                ==> r is Ok && final(vg)@ == (VgView {
                pvs: old(vg)@.pvs.update(
                    self.spec_index(),
                    (PvView { size: new_size as nat, ..self.pv_of(old(vg)@) }),
                ),
                seqno: old(vg)@.seqno + 1,
                ..old(vg)@
            }),
    {
        proof {
            self.reveal_parts();
        }
        if !self.check(vg) || !vg.can_mutate() {
            return Err(LvmError::Permission);
        }
        if new_size == 0 {
            return Err(LvmError::Validation("the volume size must not be zero".to_owned()));
        }
        if status < 0 {
            return Err(lvm.engine_error());
        }
        let mut rec = PvRecord {
            name: String::new(),
            uuid: String::new(),
            size: 0,
            dev_size: 0,
            free: 0,
            mda_count: 0,
        };
        vg.pvs.set_and_swap(self.index, &mut rec);
        rec.size = new_size;
        vg.pvs.set_and_swap(self.index, &mut rec);
        vg.seqno = vg.seqno + 1;
        proof {
            let at = self.spec_index();
            let resized = (PvView { size: new_size as nat, ..self.pv_of(old(vg)@) });
            assert(pv_views(vg.pvs@) =~~= old(vg)@.pvs.update(at, resized));
            assert(vg@ =~= (VgView {
                pvs: old(vg)@.pvs.update(at, resized),
                seqno: old(vg)@.seqno + 1,
                ..old(vg)@
            }));
            assert(pv_names(vg@.pvs) =~= pv_names(old(vg)@.pvs));
        }
        Ok(())
    }
}

/// After editing one record's tags in place — with its name unchanged and
/// the new tags duplicate-free — the session's image is the old image with
/// that one view updated, and the invariant survives.
proof fn lemma_lv_tags_update(
    pre: VgView,
    post: VgView,
    pre_recs: Seq<LvRecord>,
    post_recs: Seq<LvRecord>,
    at: int,
)
    requires
        vg_view_wf(pre),
        pre.lvs == lv_views(pre_recs),
        post.lvs == lv_views(post_recs),
        0 <= at < pre_recs.len(),
        post_recs =~= pre_recs.update(at, post_recs[at]),
        post_recs[at]@ == (LvView { tags: post_recs[at]@.tags, ..pre_recs[at]@ }),
        distinct_seqs(post_recs[at]@.tags),
        post == (VgView { lvs: post.lvs, ..pre }),
    ensures
        vg_view_wf(post),
        post == update_tags_view(pre, at, post_recs[at]@.tags),
{
    assert(lv_views(post_recs) =~= lv_views(pre_recs).update(at, post_recs[at]@));
    assert(lv_names(post.lvs) =~= lv_names(pre.lvs));
    assert(post.lvs[at] =~= (LvView { tags: post_recs[at]@.tags, ..pre.lvs[at] }));
    assert(post =~~= update_tags_view(pre, at, post_recs[at]@.tags));
    assert forall|i: int| 0 <= i < post.lvs.len() implies distinct_seqs(
        (#[trigger] post.lvs[i]).tags,
    ) by {
        if i != at {
            assert(post.lvs[i] == pre.lvs[i]);
        }
    }
}

/// The old image with one volume's tag list replaced.
pub open spec fn update_tags_view(v: VgView, at: int, tags: Seq<Seq<char>>) -> VgView {
    VgView { lvs: v.lvs.update(at, (LvView { tags, ..v.lvs[at] })), ..v }
}

/// Replacing one name of a duplicate-free list by a name it does not hold
/// keeps it duplicate-free.
proof fn lemma_distinct_update(s: Seq<Seq<char>>, at: int, x: Seq<char>)
    requires
        distinct_seqs(s),
        0 <= at < s.len(),
        !s.contains(x),
    ensures
        distinct_seqs(s.update(at, x)),
{
    let changed = s.update(at, x);
    assert forall|i: int, j: int| 0 <= i < j < changed.len() implies changed[i] != changed[j] by {
        if i == at {
            if changed[j] == x {
                assert(s[j] == x);
                assert(s.contains(x));
            }
        } else if j == at {
            if changed[i] == x {
                assert(s[i] == x);
                assert(s.contains(x));
            }
        }
    }
}

/// A record to swap in while one entry of the volume list is being
/// edited; never observable from outside.
fn placeholder_lv() -> LvRecord {
    LvRecord {
        name: String::new(),
        uuid: String::new(),
        size: 0,
        attrs: String::new(),
        active: false,
        suspended: false,
        origin: None,
        tags: Vec::new(),
    }
}

/// After editing one record in place — with its name and tags unchanged —
/// the session's image is the old image with that one view updated, and
/// the invariant survives.
proof fn lemma_lv_field_update(
    pre: VgView,
    post: VgView,
    pre_recs: Seq<LvRecord>,
    post_recs: Seq<LvRecord>,
    at: int,
)
    requires
        vg_view_wf(pre),
        pre.lvs == lv_views(pre_recs),
        post.lvs == lv_views(post_recs),
        0 <= at < pre_recs.len(),
        post_recs =~= pre_recs.update(at, post_recs[at]),
        post_recs[at]@.name == pre_recs[at]@.name,
        post_recs[at]@.tags == pre_recs[at]@.tags,
        post == (VgView { lvs: post.lvs, ..pre }),
    ensures
        vg_view_wf(post),
        post == (VgView { lvs: pre.lvs.update(at, post_recs[at]@), ..pre }),
{
    assert(lv_views(post_recs) =~= lv_views(pre_recs).update(at, post_recs[at]@));
    assert(lv_names(post.lvs) =~= lv_names(pre.lvs));
    assert(post =~= (VgView { lvs: pre.lvs.update(at, post_recs[at]@), ..pre }));
    assert forall|i: int| 0 <= i < post.lvs.len() implies distinct_seqs(
        (#[trigger] post.lvs[i]).tags,
    ) by {
        if i == at {
            assert(post.lvs[at].tags == pre.lvs[at].tags);
        } else {
            assert(post.lvs[i] == pre.lvs[i]);
        }
    }
}

/// The names of the listed logical volumes, in order.
fn lv_name_list(lvs: &Vec<LvRecord>) -> (r: Vec<String>)
    ensures
        r.deep_view() == lv_names(lv_views(lvs@)),
{
    let mut out: Vec<String> = Vec::new();
    let n = lvs.len();
    let mut i: usize = 0;
    while i < n
        invariant
            n == lvs@.len(),
            0 <= i <= n,
            out@.len() == i,
            forall|j: int| 0 <= j < i ==> (#[trigger] out@[j])@ == lvs@[j]@.name,
        decreases n - i,
    {
        out.push(lvs[i].name.clone());
        i = i + 1;
    }
    proof {
        assert(out.deep_view() =~= lv_names(lv_views(lvs@)));
    }
    out
}

/// The device names of the listed physical volumes, in order.
fn pv_name_list(pvs: &Vec<PvRecord>) -> (r: Vec<String>)
    ensures
        r.deep_view() == pv_names(pv_views(pvs@)),
{
    let mut out: Vec<String> = Vec::new();
    let n = pvs.len();
    let mut i: usize = 0;
    while i < n
        invariant
            n == pvs@.len(),
            0 <= i <= n,
            out@.len() == i,
            forall|j: int| 0 <= j < i ==> (#[trigger] out@[j])@ == pvs@[j]@.name,
        decreases n - i,
    {
        out.push(pvs[i].name.clone());
        i = i + 1;
    }
    proof {
        assert(out.deep_view() =~= pv_names(pv_views(pvs@)));
    }
    out
}

/// Whether an engine-reported snapshot is sound: see [`snapshot_wf`].
/// A snapshot that fails this check does not conform to what the engine
/// promises of a group image and is rejected as a parse failure.
pub fn snapshot_ok(snap: &VgSnapshot) -> (r: bool)
    ensures
        r == snapshot_wf(snap@),
{
    if snap.extent_size == 0 {
        return false;
    }
    if !util::strings_distinct(&snap.tags) {
        return false;
    }
    let lv_name_vec = lv_name_list(&snap.lvs);
    if !util::strings_distinct(&lv_name_vec) {
        return false;
    }
    let pv_name_vec = pv_name_list(&snap.pvs);
    if !util::strings_distinct(&pv_name_vec) {
        return false;
    }
    let n = snap.lvs.len();
    let mut i: usize = 0;
    while i < n
        invariant
            n == snap@.lvs.len(),
            0 <= i <= n,
            snap.extent_size > 0,
            distinct_seqs(snap@.tags),
            distinct_seqs(lv_names(snap@.lvs)),
            distinct_seqs(pv_names(snap@.pvs)),
            forall|j: int| 0 <= j < i ==> distinct_seqs((#[trigger] snap@.lvs[j]).tags),
        decreases n - i,
    {
        if !util::strings_distinct(&snap.lvs[i].tags) {
            proof {
                assert(snap@.lvs[i as int].tags == snap.lvs@[i as int]@.tags);
            }
            return false;
        }
        i = i + 1;
    }
    true
}

/// Pushing a fresh name onto a duplicate-free list keeps it
/// duplicate-free.
proof fn lemma_distinct_push(s: Seq<Seq<char>>, x: Seq<char>)
    requires
        distinct_seqs(s),
        !s.contains(x),
    ensures
        distinct_seqs(s.push(x)),
{
    let grown = s.push(x);
    assert forall|i: int, j: int| 0 <= i < j < grown.len() implies grown[i] != grown[j] by {
        if j == grown.len() - 1 {
            if grown[i] == x {
                assert(s[i] == x);
                assert(s.contains(x));
            }
        }
    }
}

/// Removing one entry from a duplicate-free list keeps it duplicate-free.
proof fn lemma_distinct_remove(s: Seq<Seq<char>>, at: int)
    requires
        distinct_seqs(s),
        0 <= at < s.len(),
    ensures
        distinct_seqs(s.remove(at)),
{
    let shrunk = s.remove(at);
    assert forall|i: int, j: int| 0 <= i < j < shrunk.len() implies shrunk[i] != shrunk[j] by {
        let oi: int = if i < at {
            i
        } else {
            i + 1
        };
        let oj: int = if j < at {
            j
        } else {
            j + 1
        };
        assert(shrunk[i] == s[oi]);
        assert(shrunk[j] == s[oj]);
    }
}

/// Every entry other than the removed tag, rebuilt in order.
fn remove_tag_entries(tags: &Vec<String>, tag: &str) -> (r: Vec<String>)
    ensures
        r.deep_view() == spec_remove_tag(tags.deep_view(), tag@),
{
    let needle: String = tag.to_owned();
    let mut kept: Vec<String> = Vec::new();
    let n = tags.len();
    let mut i: usize = 0;
    while i < n
        invariant
            n == tags@.len(),
            0 <= i <= n,
            needle@ == tag@,
            kept.deep_view() == spec_remove_tag(tags.deep_view().subrange(0, i as int), tag@),
        decreases n - i,
    {
        let ghost prefix = tags.deep_view().subrange(0, i as int);
        let ghost prefix1 = tags.deep_view().subrange(0, i as int + 1);
        proof {
            assert(prefix1.drop_last() =~= prefix);
            assert(prefix1.last() == tags.deep_view()[i as int]);
        }
        if !tags[i].eq(&needle) {
            kept.push(tags[i].clone());
            proof {
                assert(kept.deep_view() =~= spec_remove_tag(prefix, tag@).push(
                    tags.deep_view()[i as int],
                ));
                assert(spec_remove_tag(prefix1, tag@) =~= spec_remove_tag(prefix, tag@).push(
                    tags.deep_view()[i as int],
                ));
            }
        } else {
            proof {
                assert(spec_remove_tag(prefix1, tag@) =~= spec_remove_tag(prefix, tag@));
            }
        }
        i = i + 1;
    }
    proof {
        assert(tags.deep_view().subrange(0, n as int) =~= tags.deep_view());
    }
    kept
}

} // verus!
