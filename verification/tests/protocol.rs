//! End-to-end exercises of the context, session and member-handle
//! protocols against engine answers supplied by the test.

use lvm::{LvCreated, Lvm, LvmError, LvmThinPolicy, OpenMode, PvRecord, VgSnapshot};

fn empty_snapshot(seqno: u64, extent_size: u64) -> VgSnapshot {
    VgSnapshot {
        uuid: "aaaa".to_string(),
        seqno,
        tags: Vec::new(),
        lvs: Vec::new(),
        pvs: Vec::new(),
        extent_size,
        extent_count: 0,
        free_extents: 0,
        size: 0,
        free_size: 0,
        max_lv: 0,
        max_pv: 0,
        clustered: false,
        exported: false,
        partial: false,
    }
}

fn pv_reply(uuid: &str) -> PvRecord {
    PvRecord {
        name: String::new(),
        uuid: uuid.to_string(),
        size: 1 << 30,
        dev_size: 1 << 30,
        free: 1 << 30,
        mda_count: 1,
    }
}

fn created(uuid: &str) -> Option<LvCreated> {
    Some(LvCreated { uuid: uuid.to_string(), attrs: "-wi-------".to_string() })
}

#[test]
fn end_to_end_create_activate_snapshot() {
    let lvm = Lvm::new(None, true).unwrap();
    let mut vg = lvm.vg_create("vg0", Some(empty_snapshot(0, 1 << 20))).unwrap();
    vg.extend(&lvm, "/dev/loop0", pv_reply("pv-uuid-1"), 0, 0).unwrap();
    let lv = vg.create_lv_linear(&lvm, "lv0", 10 << 20, created("lv-uuid-1")).unwrap();
    assert!(!lv.is_active(&vg));
    lv.activate(&lvm, &mut vg, 0).unwrap();
    assert!(lv.is_active(&vg));
    let snap = lv.snapshot(&lvm, &mut vg, "lv0-snap", 0, created("lv-uuid-2")).unwrap();
    assert_eq!(snap.get_origin(&vg), Some("lv0".to_string()));
    assert_eq!(snap.get_name(&vg), "lv0-snap".to_string());
    assert_eq!(snap.get_size(&vg), 10 << 20);
}

#[test]
fn create_then_lookup_name_and_size() {
    let lvm = Lvm::new(None, true).unwrap();
    let mut vg = lvm.vg_create("vg0", Some(empty_snapshot(0, 1 << 20))).unwrap();
    // The extent size divides the request: the size is kept exactly.
    vg.create_lv_linear(&lvm, "lv0", 8 << 20, created("u1")).unwrap();
    let found = vg.lv_from_name(&lvm, "lv0").unwrap();
    assert_eq!(found.get_name(&vg), "lv0".to_string());
    assert_eq!(found.get_size(&vg), 8 << 20);
    // A request between extents is rounded up to the next one.
    vg.create_lv_linear(&lvm, "lv1", (1 << 20) + 1, created("u2")).unwrap();
    let rounded = vg.lv_from_name(&lvm, "lv1").unwrap();
    assert_eq!(rounded.get_size(&vg), 2 << 20);
}

#[test]
fn read_mode_rejects_all_mutation_without_moving_seqno() {
    let lvm = Lvm::new(None, true).unwrap();
    let mut vg = lvm.vg_open("vg0", &OpenMode::Read, Some(empty_snapshot(7, 4096))).unwrap();
    let before = vg.get_seq_number();
    assert!(matches!(vg.write(&lvm, 0), Err(LvmError::Permission)));
    assert!(matches!(vg.add_tag(&lvm, "t", 0, 0), Err(LvmError::Permission)));
    assert!(matches!(vg.remove_tag(&lvm, "t", 0, 0), Err(LvmError::Permission)));
    assert!(matches!(
        vg.extend(&lvm, "/dev/loop0", pv_reply("p"), 0, 0),
        Err(LvmError::Permission)
    ));
    assert!(matches!(vg.reduce(&lvm, "/dev/loop0", 0, 0), Err(LvmError::Permission)));
    assert!(matches!(vg.remove(&lvm, 0, 0), Err(LvmError::Permission)));
    assert!(matches!(vg.set_extent_size(&lvm, 4096, 0, 0), Err(LvmError::Permission)));
    assert!(matches!(
        vg.create_lv_linear(&lvm, "lv0", 4096, created("u")),
        Err(LvmError::Permission)
    ));
    assert_eq!(vg.get_seq_number(), before);
}

#[test]
fn close_twice_is_idempotent() {
    let lvm = Lvm::new(None, true).unwrap();
    let mut vg = lvm.vg_open("vg0", &OpenMode::Read, Some(empty_snapshot(1, 4096))).unwrap();
    assert!(vg.is_open());
    vg.close(&lvm, 0).unwrap();
    assert!(!vg.is_open());
    // The second close must succeed and must not touch the handle again.
    vg.close(&lvm, 0).unwrap();
    assert!(!vg.is_open());
}

#[test]
fn seqno_strictly_increases_on_commit() {
    let lvm = Lvm::new(None, true).unwrap();
    let mut vg = lvm.vg_create("vg0", Some(empty_snapshot(41, 4096))).unwrap();
    let s1 = vg.get_seq_number();
    vg.write(&lvm, 0).unwrap();
    let s2 = vg.get_seq_number();
    assert!(s2 > s1);
    assert_eq!(s2, 42);
    vg.add_tag(&lvm, "backup", 0, 0).unwrap();
    assert!(vg.get_seq_number() > s2);
    // A failed commit moves nothing.
    let s3 = vg.get_seq_number();
    assert!(vg.write(&lvm, -1).is_err());
    assert_eq!(vg.get_seq_number(), s3);
}

#[test]
fn enumeration_counts_extends() {
    let lvm = Lvm::new(None, true).unwrap();
    let mut vg = lvm.vg_create("vg0", Some(empty_snapshot(0, 4096))).unwrap();
    vg.extend(&lvm, "/dev/loop0", pv_reply("p0"), 0, 0).unwrap();
    vg.extend(&lvm, "/dev/loop1", pv_reply("p1"), 0, 0).unwrap();
    vg.extend(&lvm, "/dev/loop2", pv_reply("p2"), 0, 0).unwrap();
    let pvs = vg.list_pvs().unwrap();
    assert_eq!(pvs.len(), 3);
    assert_eq!(vg.get_pv_count(), 3);
    assert_eq!(pvs[1].get_name(&vg), "/dev/loop1".to_string());
    // Extending with a device that is already a member is rejected.
    assert!(matches!(
        vg.extend(&lvm, "/dev/loop1", pv_reply("p1"), 0, 0),
        Err(LvmError::Validation(_))
    ));
}

#[test]
fn tag_round_trip_on_group() {
    let lvm = Lvm::new(None, true).unwrap();
    let mut vg = lvm.vg_create("vg0", Some(empty_snapshot(0, 4096))).unwrap();
    vg.add_tag(&lvm, "backup", 0, 0).unwrap();
    let tags = vg.get_tags().unwrap();
    assert_eq!(tags.iter().filter(|t| t.as_str() == "backup").count(), 1);
    // Adding the same tag again keeps it listed exactly once.
    vg.add_tag(&lvm, "backup", 0, 0).unwrap();
    let tags = vg.get_tags().unwrap();
    assert_eq!(tags.iter().filter(|t| t.as_str() == "backup").count(), 1);
    vg.remove_tag(&lvm, "backup", 0, 0).unwrap();
    let tags = vg.get_tags().unwrap();
    assert!(!tags.iter().any(|t| t.as_str() == "backup"));
}

#[test]
fn tag_round_trip_on_logical_volume() {
    let lvm = Lvm::new(None, true).unwrap();
    let mut vg = lvm.vg_create("vg0", Some(empty_snapshot(0, 4096))).unwrap();
    let lv = vg.create_lv_linear(&lvm, "lv0", 4096, created("u")).unwrap();
    lv.add_tag(&lvm, &mut vg, "hot", 0, 0).unwrap();
    let tags = lv.get_tags(&vg).unwrap();
    assert_eq!(tags.iter().filter(|t| t.as_str() == "hot").count(), 1);
    lv.remove_tag(&lvm, &mut vg, "hot", 0, 0).unwrap();
    let tags = lv.get_tags(&vg).unwrap();
    assert!(!tags.iter().any(|t| t.as_str() == "hot"));
}

#[test]
fn reopen_sees_same_seqno_without_other_writers() {
    let lvm = Lvm::new(None, true).unwrap();
    // The engine reports the same on-disk state to both opens: no other
    // writer touched the group in between.
    let mut first = lvm.vg_open("vg0", &OpenMode::Read, Some(empty_snapshot(9, 4096))).unwrap();
    let s1 = first.get_seq_number();
    first.close(&lvm, 0).unwrap();
    let mut second = lvm.vg_open("vg0", &OpenMode::Write, Some(empty_snapshot(9, 4096))).unwrap();
    let s2 = second.get_seq_number();
    assert_eq!(s1, s2);
    // After this session commits, a later open of the new state reports a
    // larger number: how a concurrent writer would be detected.
    second.write(&lvm, 0).unwrap();
    assert!(second.get_seq_number() > s1);
}

#[test]
fn removal_revokes_member_handles() {
    let lvm = Lvm::new(None, true).unwrap();
    let mut vg = lvm.vg_create("vg0", Some(empty_snapshot(0, 4096))).unwrap();
    let lv = vg.create_lv_linear(&lvm, "lv0", 4096, created("u")).unwrap();
    let other = vg.create_lv_linear(&lvm, "lv1", 4096, created("v")).unwrap();
    assert!(lv.check(&vg));
    lv.remove(&lvm, &mut vg, 0).unwrap();
    // Both handles are revoked, not only the removed one.
    assert!(!lv.check(&vg));
    assert!(!other.check(&vg));
    assert!(matches!(other.activate(&lvm, &mut vg, 0), Err(LvmError::Permission)));
    // The volume itself is gone.
    assert!(vg.lv_from_name(&lvm, "lv0").is_err());
    assert_eq!(vg.list_lvs().unwrap().len(), 1);
}

#[test]
fn reduce_removes_device_and_revokes_handles() {
    let lvm = Lvm::new(None, true).unwrap();
    let mut vg = lvm.vg_create("vg0", Some(empty_snapshot(0, 4096))).unwrap();
    vg.extend(&lvm, "/dev/loop0", pv_reply("p0"), 0, 0).unwrap();
    vg.extend(&lvm, "/dev/loop1", pv_reply("p1"), 0, 0).unwrap();
    let held = vg.pv_from_name(&lvm, "/dev/loop0").unwrap();
    vg.reduce(&lvm, "/dev/loop0", 0, 0).unwrap();
    assert!(!held.check(&vg));
    assert_eq!(vg.list_pvs().unwrap().len(), 1);
    assert!(vg.pv_from_name(&lvm, "/dev/loop0").is_err());
    assert!(matches!(vg.reduce(&lvm, "/dev/none", 0, 0), Err(LvmError::Validation(_))));
}

#[test]
fn engine_errors_carry_the_channel() {
    let mut lvm = Lvm::new(None, true).unwrap();
    lvm.set_error(5, "Input/output error".to_string());
    let mut vg = lvm.vg_create("vg0", Some(empty_snapshot(0, 4096))).unwrap();
    let err = vg.write(&lvm, -1).unwrap_err();
    assert_eq!(err.code(), Some(5));
    assert_eq!(err.message(), "Input/output error".to_string());
    let (code, message) = lvm.get_error();
    assert_eq!(code, 5);
    assert_eq!(message, "Input/output error".to_string());
}

#[test]
fn context_close_is_idempotent() {
    let mut lvm = Lvm::new(None, true).unwrap();
    assert!(lvm.is_live());
    lvm.close();
    assert!(!lvm.is_live());
    lvm.close();
    assert!(!lvm.is_live());
}

#[test]
fn failed_initialization_is_an_allocation_error() {
    let err = Lvm::new(None, false).unwrap_err();
    assert!(matches!(err, LvmError::Allocation(_)));
    let err = Lvm::new(Some("/etc/lvm\0"), true).unwrap_err();
    assert!(matches!(err, LvmError::Validation(_)));
    assert!(Lvm::new(Some("/etc/lvm"), true).is_ok());
}

#[test]
fn rename_and_resize() {
    let lvm = Lvm::new(None, true).unwrap();
    let mut vg = lvm.vg_create("vg0", Some(empty_snapshot(0, 4096))).unwrap();
    let lv = vg.create_lv_linear(&lvm, "lv0", 4096, created("u")).unwrap();
    vg.create_lv_linear(&lvm, "lv1", 4096, created("v")).unwrap();
    assert!(matches!(lv.rename(&lvm, &mut vg, "lv1", 0), Err(LvmError::Validation(_))));
    lv.rename(&lvm, &mut vg, "root", 0).unwrap();
    assert_eq!(lv.get_name(&vg), "root".to_string());
    assert!(vg.lv_from_name(&lvm, "lv0").is_err());
    lv.resize(&lvm, &mut vg, 5000, 0).unwrap();
    assert_eq!(lv.get_size(&vg), 8192);
    assert!(matches!(lv.resize(&lvm, &mut vg, 0, 0), Err(LvmError::Validation(_))));
}

#[test]
fn physical_volume_getters_and_resize() {
    let lvm = Lvm::new(None, true).unwrap();
    let mut vg = lvm.vg_create("vg0", Some(empty_snapshot(0, 4096))).unwrap();
    vg.extend(&lvm, "/dev/loop0", pv_reply("pv-u"), 0, 0).unwrap();
    let pv = vg.pv_from_name(&lvm, "/dev/loop0").unwrap();
    assert_eq!(pv.get_name(&vg), "/dev/loop0".to_string());
    assert_eq!(pv.get_uuid(&vg), "pv-u".to_string());
    assert_eq!(pv.get_size(&vg), 1 << 30);
    assert_eq!(pv.get_dev_size(&vg), 1 << 30);
    assert_eq!(pv.get_free(&vg), 1 << 30);
    assert_eq!(pv.get_mda_count(&vg), 1);
    pv.resize(&lvm, &mut vg, 2 << 30, 0).unwrap();
    assert_eq!(pv.get_size(&vg), 2 << 30);
}

#[test]
fn group_getters_report_the_image() {
    let lvm = Lvm::new(None, true).unwrap();
    let mut snapshot = empty_snapshot(3, 8192);
    snapshot.extent_count = 100;
    snapshot.free_extents = 40;
    snapshot.size = 100 * 8192;
    snapshot.free_size = 40 * 8192;
    snapshot.max_lv = 255;
    snapshot.max_pv = 255;
    snapshot.clustered = false;
    snapshot.exported = true;
    snapshot.partial = false;
    snapshot.tags = vec!["a".to_string(), "b".to_string()];
    let vg = lvm.vg_open("vg0", &OpenMode::Read, Some(snapshot)).unwrap();
    assert_eq!(vg.get_name().unwrap(), "vg0".to_string());
    assert_eq!(vg.get_uuid(), "aaaa".to_string());
    assert_eq!(vg.get_extent_size(), 8192);
    assert_eq!(vg.get_extent_count(), 100);
    assert_eq!(vg.get_free_extents(), 40);
    assert_eq!(vg.get_size(), 100 * 8192);
    assert_eq!(vg.get_free_size(), 40 * 8192);
    assert_eq!(vg.get_max_lv(), 255);
    assert_eq!(vg.get_max_pv(), 255);
    assert!(!vg.is_clustered());
    assert!(vg.is_exported());
    assert!(!vg.is_partial());
    assert_eq!(vg.get_tags().unwrap(), vec!["a".to_string(), "b".to_string()]);
}

#[test]
fn malformed_group_images_are_parse_errors() {
    let lvm = Lvm::new(None, true).unwrap();
    let mut zero_extent = empty_snapshot(0, 4096);
    zero_extent.extent_size = 0;
    assert!(matches!(
        lvm.vg_open("vg0", &OpenMode::Read, Some(zero_extent)),
        Err(LvmError::Parse(_))
    ));
    let mut dup_tags = empty_snapshot(0, 4096);
    dup_tags.tags = vec!["x".to_string(), "x".to_string()];
    assert!(matches!(
        lvm.vg_open("vg0", &OpenMode::Read, Some(dup_tags)),
        Err(LvmError::Parse(_))
    ));
    assert!(matches!(
        lvm.vg_open("vg0", &OpenMode::Read, None),
        Err(LvmError::Engine(_, _))
    ));
}

#[test]
fn group_name_rules_are_checked_locally() {
    let lvm = Lvm::new(None, true).unwrap();
    assert!(matches!(
        lvm.vg_create("", Some(empty_snapshot(0, 4096))),
        Err(LvmError::Validation(_))
    ));
    assert!(matches!(
        lvm.vg_create("-vg", Some(empty_snapshot(0, 4096))),
        Err(LvmError::Validation(_))
    ));
    assert!(matches!(
        lvm.vg_create("a/b", Some(empty_snapshot(0, 4096))),
        Err(LvmError::Validation(_))
    ));
    assert!(lvm.vg_name_validate("vg_ok.0+x-y", 0).is_ok());
    assert!(matches!(lvm.vg_name_validate(".", 0), Err(LvmError::Validation(_))));
    assert!(matches!(lvm.vg_name_validate("..", 0), Err(LvmError::Validation(_))));
    // A name the engine itself refuses (for example, one already in use).
    assert!(matches!(lvm.vg_name_validate("taken", -1), Err(LvmError::Engine(_, _))));
}

#[test]
fn logical_volume_name_validation_includes_uniqueness() {
    let lvm = Lvm::new(None, true).unwrap();
    let mut vg = lvm.vg_create("vg0", Some(empty_snapshot(0, 4096))).unwrap();
    vg.create_lv_linear(&lvm, "lv0", 4096, created("u")).unwrap();
    assert!(vg.name_validate(&lvm, "lv1", 0).is_ok());
    assert!(matches!(vg.name_validate(&lvm, "lv0", 0), Err(LvmError::Validation(_))));
    assert!(matches!(vg.name_validate(&lvm, "bad name", 0), Err(LvmError::Validation(_))));
}

#[test]
fn thin_pool_creation_is_gated_and_validated() {
    let lvm = Lvm::new(None, true).unwrap();
    let vg = lvm.vg_create("vg0", Some(empty_snapshot(0, 4096))).unwrap();
    assert!(vg.create_thin_pool(&lvm, "pool0", 1 << 30, 0, 0, &LvmThinPolicy::Passdown, true).is_ok());
    assert!(matches!(
        vg.create_thin_pool(&lvm, "bad/pool", 1 << 30, 0, 0, &LvmThinPolicy::Ignore, true),
        Err(LvmError::Validation(_))
    ));
    assert!(matches!(
        vg.create_thin_pool(&lvm, "pool0", 1 << 30, 0, 0, &LvmThinPolicy::NoPassdown, false),
        Err(LvmError::Engine(_, _))
    ));
    let ro = lvm.vg_open("vg1", &OpenMode::Read, Some(empty_snapshot(0, 4096))).unwrap();
    assert!(matches!(
        ro.create_thin_pool(&lvm, "pool0", 1 << 30, 0, 0, &LvmThinPolicy::Passdown, true),
        Err(LvmError::Permission)
    ));
}

#[test]
fn physical_volume_create_params() {
    let lvm = Lvm::new(None, true).unwrap();
    let mut params = lvm.pv_create_params("/dev/loop9", true).unwrap();
    params.get_property(&lvm::Property::Zero(true)).unwrap();
    params.set_property(&lvm, &lvm::Property::Zero(true), 0).unwrap();
    assert!(params.set_property(&lvm, &lvm::Property::Zero(true), -1).is_err());
    assert!(lvm.pv_create_params("/dev/loop9", false).is_err());
}

#[test]
fn failed_commit_keeps_the_change_in_memory_only() {
    let lvm = Lvm::new(None, true).unwrap();
    let mut vg = lvm.vg_create("vg0", Some(empty_snapshot(10, 4096))).unwrap();
    // The tagging call succeeds but the implicit commit fails: the tag is
    // recorded in the in-memory image, the sequence number does not move,
    // and the failure is reported.
    assert!(vg.add_tag(&lvm, "backup", 0, -1).is_err());
    assert!(vg.get_tags().unwrap().iter().any(|t| t.as_str() == "backup"));
    assert_eq!(vg.get_seq_number(), 10);
    // A later successful commit moves the number.
    vg.write(&lvm, 0).unwrap();
    assert_eq!(vg.get_seq_number(), 11);
}

#[test]
fn failed_close_keeps_the_handle() {
    let lvm = Lvm::new(None, true).unwrap();
    let mut vg = lvm.vg_open("vg0", &OpenMode::Read, Some(empty_snapshot(0, 4096))).unwrap();
    assert!(vg.close(&lvm, -1).is_err());
    assert!(vg.is_open());
    vg.close(&lvm, 0).unwrap();
    assert!(!vg.is_open());
}

#[test]
fn set_extent_size_commits_and_validates() {
    let lvm = Lvm::new(None, true).unwrap();
    let mut vg = lvm.vg_create("vg0", Some(empty_snapshot(0, 4096))).unwrap();
    assert!(matches!(vg.set_extent_size(&lvm, 0, 0, 0), Err(LvmError::Validation(_))));
    vg.set_extent_size(&lvm, 8192, 0, 0).unwrap();
    assert_eq!(vg.get_extent_size(), 8192);
    assert_eq!(vg.get_seq_number(), 1);
    // The new extent size governs later rounding.
    let lv = vg.create_lv_linear(&lvm, "lv0", 5000, created("u")).unwrap();
    assert_eq!(lv.get_size(&vg), 8192);
}

#[test]
fn group_removal_drops_members_and_revokes_handles() {
    let lvm = Lvm::new(None, true).unwrap();
    let mut vg = lvm.vg_create("vg0", Some(empty_snapshot(0, 4096))).unwrap();
    vg.extend(&lvm, "/dev/loop0", pv_reply("p0"), 0, 0).unwrap();
    let lv = vg.create_lv_linear(&lvm, "lv0", 4096, created("u")).unwrap();
    vg.remove(&lvm, 0, 0).unwrap();
    assert!(!lv.check(&vg));
    assert!(vg.is_open());
    assert_eq!(vg.list_lvs().unwrap().len(), 0);
    assert_eq!(vg.list_pvs().unwrap().len(), 0);
    vg.close(&lvm, 0).unwrap();
}

#[test]
fn deactivate_clears_the_active_flag() {
    let lvm = Lvm::new(None, true).unwrap();
    let mut vg = lvm.vg_create("vg0", Some(empty_snapshot(0, 4096))).unwrap();
    let lv = vg.create_lv_linear(&lvm, "lv0", 4096, created("u")).unwrap();
    lv.activate(&lvm, &mut vg, 0).unwrap();
    assert!(lv.is_active(&vg));
    lv.deactivate(&lvm, &mut vg, 0).unwrap();
    assert!(!lv.is_active(&vg));
    // An engine failure leaves the flag as it was.
    assert!(lv.activate(&lvm, &mut vg, -1).is_err());
    assert!(!lv.is_active(&vg));
    assert!(!lv.is_suspended(&vg));
    assert_eq!(lv.get_attributes(&vg), "-wi-------".to_string());
    assert_eq!(lv.get_uuid(&vg), "u".to_string());
    assert_eq!(lv.get_origin(&vg), None);
}

#[test]
fn context_level_device_calls() {
    let lvm = Lvm::new(None, true).unwrap();
    assert!(lvm.pv_create("/dev/loop7", 1 << 30, 0).is_ok());
    assert!(lvm.pv_create("/dev/loop7", 1 << 30, -1).is_err());
    assert!(matches!(lvm.pv_create("bad\0dev", 1 << 30, 0), Err(LvmError::Validation(_))));
    assert!(lvm.pv_remove("/dev/loop7", 0).is_ok());
    assert!(lvm.scan(0).is_ok());
    assert!(lvm.scan(-1).is_err());
    assert_eq!(
        lvm.vg_name_from_device("/dev/loop7", Some("vg0".to_string())).unwrap(),
        Some("vg0".to_string())
    );
    assert_eq!(lvm.vg_name_from_device("/dev/loop8", None).unwrap(), None);
}
