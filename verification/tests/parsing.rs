//! The list cursor, the UUID boundary, the naming rules and the error
//! type, exercised on concrete values.

use lvm::{IntrusiveList, Lvm, LvmError, OpenMode, Uuid};

#[test]
fn cursor_walks_in_link_order() {
    let list = IntrusiveList::from_entries(vec![
        "alpha".to_string(),
        "beta".to_string(),
        "gamma".to_string(),
    ]);
    let mut cursor = list.cursor();
    assert_eq!(cursor.next(), Some(&"alpha".to_string()));
    assert_eq!(cursor.next(), Some(&"beta".to_string()));
    assert_eq!(cursor.next(), Some(&"gamma".to_string()));
    assert_eq!(cursor.next(), None);
    // The cursor stays at the sentinel once it is reached.
    assert_eq!(cursor.next(), None);
}

#[test]
fn empty_list_is_a_valid_zero_length_result() {
    let list: IntrusiveList<String> = IntrusiveList::new();
    let mut cursor = list.cursor();
    assert_eq!(cursor.next(), None);
    let entries = IntrusiveList::<String>::new().into_entries();
    assert!(entries.is_empty());
}

#[test]
fn into_entries_hands_out_every_payload() {
    let list = IntrusiveList::from_entries(vec![1u64, 2, 3, 5, 8]);
    assert_eq!(list.into_entries(), vec![1u64, 2, 3, 5, 8]);
}

#[test]
fn group_name_enumeration() {
    let lvm = Lvm::new(None, true).unwrap();
    let list = IntrusiveList::from_entries(vec!["vg0".to_string(), "vg1".to_string()]);
    let names = lvm.get_volume_group_names(Some(list)).unwrap();
    assert_eq!(names, vec!["vg0".to_string(), "vg1".to_string()]);
    let empty = lvm.get_volume_group_names(Some(IntrusiveList::new())).unwrap();
    assert!(empty.is_empty());
    // A null list head is an engine failure, unlike an empty list.
    assert!(matches!(lvm.get_volume_group_names(None), Err(LvmError::Engine(_, _))));
}

#[test]
fn group_uuid_enumeration_parses_each_entry() {
    let lvm = Lvm::new(None, true).unwrap();
    let list = IntrusiveList::from_entries(vec![
        "550e8400-e29b-41d4-a716-446655440000".to_string(),
        "936da01f-9abd-4d9d-80c7-02af85c822a8".to_string(),
    ]);
    let ids = lvm.get_volume_group_uuids(Some(list)).unwrap();
    assert_eq!(ids.len(), 2);
    assert_eq!(
        ids[0].as_bytes(),
        &vec![0x55u8, 0x0e, 0x84, 0x00, 0xe2, 0x9b, 0x41, 0xd4, 0xa7, 0x16, 0x44, 0x66, 0x55,
            0x44, 0x00, 0x00]
    );
    let bad = IntrusiveList::from_entries(vec![
        "550e8400-e29b-41d4-a716-446655440000".to_string(),
        "not-a-uuid".to_string(),
    ]);
    assert!(matches!(lvm.get_volume_group_uuids(Some(bad)), Err(LvmError::Parse(_))));
    assert!(matches!(lvm.get_volume_group_uuids(None), Err(LvmError::Engine(_, _))));
}

#[test]
fn uuid_parsing_and_bytes() {
    let id = Uuid::parse("550e8400-e29b-41d4-a716-446655440000").unwrap();
    assert_eq!(id.as_bytes().len(), 16);
    assert_eq!(id.as_bytes()[0], 0x55);
    assert_eq!(id.as_bytes()[15], 0x00);
    assert!(Uuid::parse("550e8400").is_none());
    assert!(Uuid::parse("").is_none());
    assert!(Uuid::from_bytes(vec![0u8; 16]).is_some());
    assert!(Uuid::from_bytes(vec![0u8; 15]).is_none());
    let with_nul = Uuid::from_bytes(vec![0u8; 16]).unwrap();
    assert!(with_nul.has_nul_byte());
    let without_nul = Uuid::from_bytes(vec![1u8; 16]).unwrap();
    assert!(!without_nul.has_nul_byte());
}

#[test]
fn pvid_lookup_goes_through_parsed_identifiers() {
    let lvm = Lvm::new(None, true).unwrap();
    let id = Uuid::parse("936da01f-9abd-4d9d-80c7-02af85c822a8").unwrap();
    assert_eq!(
        lvm.vg_name_from_pvid(&id, Some("vg0".to_string())).unwrap(),
        Some("vg0".to_string())
    );
    assert_eq!(lvm.vg_name_from_pvid(&id, None).unwrap(), None);
    let nul_id = Uuid::from_bytes(vec![0u8; 16]).unwrap();
    assert!(matches!(
        lvm.vg_name_from_pvid(&nul_id, Some("vg0".to_string())),
        Err(LvmError::Validation(_))
    ));
}

#[test]
fn pv_from_uuid_matches_stored_identifiers() {
    let lvm = Lvm::new(None, true).unwrap();
    let snapshot = lvm::VgSnapshot {
        uuid: "g".to_string(),
        seqno: 0,
        tags: Vec::new(),
        lvs: Vec::new(),
        pvs: vec![lvm::PvRecord {
            name: "/dev/loop0".to_string(),
            uuid: "936da01f-9abd-4d9d-80c7-02af85c822a8".to_string(),
            size: 4096,
            dev_size: 4096,
            free: 4096,
            mda_count: 1,
        }],
        extent_size: 4096,
        extent_count: 0,
        free_extents: 0,
        size: 0,
        free_size: 0,
        max_lv: 0,
        max_pv: 0,
        clustered: false,
        exported: false,
        partial: false,
    };
    let vg = lvm.vg_open("vg0", &OpenMode::Read, Some(snapshot)).unwrap();
    let wanted = Uuid::parse("936da01f-9abd-4d9d-80c7-02af85c822a8").unwrap();
    let pv = vg.pv_from_uuid(&lvm, &wanted).unwrap();
    assert_eq!(pv.get_name(&vg), "/dev/loop0".to_string());
    let missing = Uuid::parse("7c9e6679-7425-40de-944b-e07fc1f90ae7").unwrap();
    assert!(vg.pv_from_uuid(&lvm, &missing).is_err());
}

#[test]
fn naming_rules() {
    assert!(lvm::names::is_valid_name("vg0"));
    assert!(lvm::names::is_valid_name("a.b_c+d-e"));
    assert!(!lvm::names::is_valid_name(""));
    assert!(!lvm::names::is_valid_name("-leading"));
    assert!(!lvm::names::is_valid_name("."));
    assert!(!lvm::names::is_valid_name(".."));
    assert!(!lvm::names::is_valid_name("has space"));
    assert!(!lvm::names::is_valid_name("has/slash"));
    let long = "a".repeat(127);
    assert!(lvm::names::is_valid_name(&long));
    let too_long = "a".repeat(128);
    assert!(!lvm::names::is_valid_name(&too_long));
    assert!(lvm::names::str_has_nul("a\0b"));
    assert!(!lvm::names::str_has_nul("ab"));
}

#[test]
fn error_values_carry_their_messages() {
    let engine = LvmError::new(5, "Input/output error".to_string());
    assert_eq!(engine.code(), Some(5));
    assert_eq!(engine.message(), "Input/output error".to_string());
    let permission = LvmError::Permission;
    assert_eq!(permission.code(), None);
    assert!(permission.message().contains("permission"));
    let validation = LvmError::Validation("bad name".to_string());
    assert_eq!(validation.message(), "bad name".to_string());
    let parse = LvmError::Parse("bad uuid".to_string());
    assert_eq!(parse.message(), "bad uuid".to_string());
    let allocation = LvmError::Allocation(12);
    assert_eq!(allocation.code(), Some(12));
}

#[test]
fn engine_facing_strings() {
    assert_eq!(OpenMode::Read.to_string(), "r".to_string());
    assert_eq!(OpenMode::Write.to_string(), "w".to_string());
    assert!(!OpenMode::Read.allows_write());
    assert!(OpenMode::Write.allows_write());
    assert_eq!(
        lvm::LvmThinPolicy::Ignore.to_string(),
        "LVM_THIN_DISCARDS_IGNORE".to_string()
    );
    assert_eq!(
        lvm::LvmThinPolicy::NoPassdown.to_string(),
        "LVM_THIN_DISCARDS_NO_PASSDOWN".to_string()
    );
    assert_eq!(
        lvm::LvmThinPolicy::Passdown.to_string(),
        "LVM_THIN_DISCARDS_PASSDOWN".to_string()
    );
    assert_eq!(lvm::Property::Size(0).to_string(), "size".to_string());
    assert_eq!(
        lvm::Property::PvMetaDataCopies(1).to_string(),
        "pvmetadatacopies".to_string()
    );
    assert_eq!(lvm::Property::Zero(true).to_string(), "zero".to_string());
}

#[test]
fn error_channel_adapter() {
    let mut lvm = Lvm::new(None, true).unwrap();
    assert!(lvm.check_retcode(0).is_ok());
    assert!(lvm.check_retcode(1).is_ok());
    lvm.set_error(-22, "Invalid argument".to_string());
    let err = lvm.check_retcode(-1).unwrap_err();
    assert_eq!(err.code(), Some(-22));
    assert_eq!(err.message(), "Invalid argument".to_string());
}
