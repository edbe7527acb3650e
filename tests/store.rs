use repocket::descriptor::Metadata;
use repocket::ident::{identifier_text, parse_identifier};
use repocket::store::{FSHandler, ItemState, Observation, Snapshot, SnapshotError};
use uuid::{Uuid, Version};

const JSON: &str = r#"{
    "folder": "94b8bffc-3e30-4ab8-90d4-64a53140c655",
    "current_items": {
        "2CC4E60A-6212-4DA6-BDD2-FDD713D70943": 9200,
        "4AF52FB0-F787-46AA-84B7-66D0057DBDC5": 42
    },
    "archived_items": {
        "0AE854CA-E195-4029-A861-70D52F71F8E8": 123
    }
}"#;

fn pairs(v: &serde_json::Value) -> Vec<(String, u64)> {
    match v.as_object() {
        Some(m) => m.iter().map(|(k, n)| (k.clone(), n.as_u64().unwrap())).collect(),
        None => Vec::new(),
    }
}

fn snapshot_from_json(text: &str) -> Snapshot {
    let v: serde_json::Value = serde_json::from_str(text).unwrap();
    Snapshot {
        folder: v["folder"].as_str().unwrap_or("").to_string(),
        archive: v["archive"].as_str().unwrap_or("").to_string(),
        current_items: pairs(&v["current_items"]),
        archived_items: pairs(&v["archived_items"]),
        ts_last_query: v["ts_last_query"].as_u64().unwrap_or(0),
    }
}

fn version(id: u128) -> Option<Version> {
    Uuid::from_u128(id).get_version()
}

fn count(h: &FSHandler, st: ItemState) -> usize {
    h.ids_in_state(st).len()
}

fn observe(id: u128, parent: &str) -> Observation {
    Observation { id, parent: parent.to_string() }
}

#[test]
fn build_new() {
    let handler = FSHandler::new();

    assert_eq!(Some(Version::Random), version(handler.folder_id()));
}

#[test]
fn load_new() {
    let handler = FSHandler::new();
    assert_eq!(Some(Version::Random), version(handler.folder_id()));
    assert!(handler.entries_in_state(ItemState::Current).is_empty());
    assert!(handler.entries_in_state(ItemState::Archived).is_empty());
}

#[test]
fn load_existing() {
    let handler = FSHandler::from_snapshot(&snapshot_from_json(JSON)).unwrap();

    assert_eq!(Some(Version::Random), version(handler.folder_id()));
    assert_eq!(count(&handler, ItemState::Current), 2);
    assert_eq!(count(&handler, ItemState::Archived), 1);
}

#[test]
fn write_config() {
    let handler = FSHandler::from_snapshot(&snapshot_from_json(JSON)).unwrap();
    let saved = handler.snapshot();

    let handler = FSHandler::from_snapshot(&saved).unwrap();
    assert_eq!(Some(Version::Random), version(handler.folder_id()));
    assert_eq!(count(&handler, ItemState::Current), 2);
    assert_eq!(count(&handler, ItemState::Archived), 1);
}

#[test]
fn fresh_store_is_empty_with_two_folder_descriptors() {
    let handler = FSHandler::new();
    assert_eq!(count(&handler, ItemState::Current), 0);
    assert_eq!(count(&handler, ItemState::Archived), 0);
    assert_eq!(Some(Version::Random), version(handler.archive_id()));
    let records = handler.folder_records();
    assert_eq!(records.len(), 2);
    assert_eq!(records[0].0, handler.parent_uuid_string());
    assert_eq!(records[0].1.visible_name, "Pocket");
    assert_eq!(records[0].1.dtype, "CollectionType");
    assert_eq!(records[0].1.parent, "");
    assert_eq!(records[1].0, handler.archive_uuid_string());
    assert_eq!(records[1].1.visible_name, "Archive");
    assert_eq!(records[1].1.parent, handler.parent_uuid_string());
}

#[test]
fn archive_move_makes_item_read_pending() {
    let mut h = FSHandler::with_folders(1, 2);
    h.record_new(10, 100);
    h.consolidate(&Vec::new());
    assert_eq!(h.state_of(10), Some(ItemState::Current));

    let obs = vec![observe(10, &h.archive_uuid_string())];
    h.consolidate(&obs);
    assert_eq!(h.state_of(10), Some(ItemState::ReadPending));
    assert_eq!(h.current_ids(), Vec::<u128>::new());
    assert_eq!(h.read_ids(), vec![100]);
}

#[test]
fn successful_remote_archive_archives_and_trashes() {
    let mut h = FSHandler::with_folders(1, 2);
    h.record_new(10, 100);
    h.consolidate(&Vec::new());
    let obs = vec![observe(10, &h.archive_uuid_string())];
    h.consolidate(&obs);

    let moved = h.settle_remote_archive(true);
    assert_eq!(moved, vec![10]);
    assert_eq!(h.state_of(10), Some(ItemState::Archived));
    assert!(h.read_ids().is_empty());

    let record = Metadata::new_at("DocumentType", "Title", &h.archive_uuid_string(), 5);
    let trashed = record.trashed();
    assert_eq!(trashed.parent, "trash");
    assert_eq!(trashed.visible_name, "Title");
    assert_eq!(trashed.last_modified, "5");
    assert_eq!(trashed.version, 1);
}

#[test]
fn failed_remote_archive_keeps_items_pending() {
    let mut h = FSHandler::with_folders(1, 2);
    h.record_new(10, 100);
    h.consolidate(&Vec::new());
    let obs = vec![observe(10, &h.archive_uuid_string())];
    h.consolidate(&obs);

    let moved = h.settle_remote_archive(false);
    assert!(moved.is_empty());
    assert_eq!(h.state_of(10), Some(ItemState::ReadPending));
    assert_eq!(h.read_ids(), vec![100]);
}

#[test]
fn move_elsewhere_stops_tracking() {
    let mut h = FSHandler::with_folders(1, 2);
    h.record_new(10, 100);
    h.record_new(11, 101);
    h.consolidate(&Vec::new());
    let obs = vec![observe(10, "trash"), observe(11, &h.parent_uuid_string())];
    h.consolidate(&obs);
    assert_eq!(h.state_of(10), None);
    assert_eq!(h.state_of(11), Some(ItemState::Current));
}

#[test]
fn reconcile_twice_changes_nothing() {
    let mut h = FSHandler::with_folders(1, 2);
    h.record_new(10, 100);
    h.record_new(11, 101);
    h.record_new(12, 102);
    h.consolidate(&Vec::new());
    h.record_new(13, 103);
    let obs = vec![
        observe(10, &h.archive_uuid_string()),
        observe(11, "elsewhere"),
        observe(12, &h.parent_uuid_string()),
    ];
    h.consolidate(&obs);
    let once = (h.entries_in_state(ItemState::Current), h.entries_in_state(ItemState::ReadPending));
    h.consolidate(&obs);
    let twice = (h.entries_in_state(ItemState::Current), h.entries_in_state(ItemState::ReadPending));
    assert_eq!(once, twice);
    assert_eq!(once.0, vec![(12, 102), (13, 103)]);
    assert_eq!(once.1, vec![(10, 100)]);
}

#[test]
fn snapshot_round_trip_keeps_sets() {
    let mut h = FSHandler::with_folders(7, 8);
    h.set_last_query_ts(1729763686);
    h.record_new(10, 100);
    h.record_new(11, 101);
    h.consolidate(&Vec::new());
    let obs = vec![observe(11, &h.archive_uuid_string())];
    h.consolidate(&obs);
    h.settle_remote_archive(true);
    h.record_new(12, 102);

    let back = FSHandler::from_snapshot(&h.snapshot()).unwrap();
    assert_eq!(back.folder_id(), 7);
    assert_eq!(back.archive_id(), 8);
    assert_eq!(back.last_query_ts(), 1729763686);
    assert_eq!(back.entries_in_state(ItemState::Current), vec![(10, 100)]);
    assert_eq!(back.entries_in_state(ItemState::Archived), vec![(11, 101)]);
    assert!(back.entries_in_state(ItemState::New).is_empty());
}

#[test]
fn record_new_moves_an_item_back_to_new() {
    let mut h = FSHandler::with_folders(1, 2);
    h.record_new(10, 100);
    h.consolidate(&Vec::new());
    h.record_new(10, 200);
    assert_eq!(h.state_of(10), Some(ItemState::New));
    assert_eq!(h.entries_in_state(ItemState::New), vec![(10, 200)]);
    assert!(h.current_ids().is_empty());
}

#[test]
fn snapshot_with_bad_identifier_is_refused() {
    let snap = Snapshot {
        folder: "not an identifier".to_string(),
        archive: String::new(),
        current_items: Vec::new(),
        archived_items: Vec::new(),
        ts_last_query: 0,
    };
    assert_eq!(FSHandler::from_snapshot(&snap).err(), Some(SnapshotError::InvalidIdentifier));
    let snap = Snapshot {
        folder: identifier_text(5),
        archive: String::new(),
        current_items: vec![(String::new(), 3)],
        archived_items: Vec::new(),
        ts_last_query: 0,
    };
    assert_eq!(FSHandler::from_snapshot(&snap).err(), Some(SnapshotError::InvalidIdentifier));
}

#[test]
fn snapshot_without_archive_gets_a_fresh_one() {
    let snap = Snapshot {
        folder: identifier_text(5),
        archive: String::new(),
        current_items: Vec::new(),
        archived_items: Vec::new(),
        ts_last_query: 3,
    };
    let h = FSHandler::from_snapshot_with(&snap, 99).unwrap();
    assert_eq!(h.folder_id(), 5);
    assert_eq!(h.archive_id(), 99);
    assert_eq!(h.last_query_ts(), 3);
}

#[test]
fn identifier_text_is_hyphenated_lower_case() {
    let id: u128 = 0x94b8bffc_3e30_4ab8_90d4_64a53140c655;
    assert_eq!(identifier_text(id), "94b8bffc-3e30-4ab8-90d4-64a53140c655");
    assert_eq!(parse_identifier("94b8bffc-3e30-4ab8-90d4-64a53140c655"), Some(id));
    assert_eq!(parse_identifier(""), None);
    assert_eq!(parse_identifier("94B8BFFC-3E30-4AB8-90D4-64A53140C655"), Some(id));
    assert_eq!(parse_identifier("94b8bffc-3e30-4ab8-90d4-64a53140c65"), None);
}

#[test]
fn fresh_folders_differ() {
    let h = FSHandler::new();
    assert_ne!(h.folder_id(), h.archive_id());
}

#[test]
fn watermark_only_advances() {
    let mut h = FSHandler::with_folders(1, 2);
    h.advance_watermark(100);
    assert_eq!(h.last_query_ts(), 100);
    h.advance_watermark(0);
    assert_eq!(h.last_query_ts(), 100);
    h.advance_watermark(150);
    assert_eq!(h.last_query_ts(), 150);
}

#[test]
fn consolidate_gives_a_nil_archive_a_fresh_identifier() {
    let mut h = FSHandler::with_folders(1, 0);
    h.consolidate(&Vec::new());
    assert_ne!(h.archive_id(), 0);
    assert_eq!(Some(Version::Random), version(h.archive_id()));
    assert_eq!(h.folder_id(), 1);
    let mut h = FSHandler::with_folders(1, 0);
    h.consolidate_with(&Vec::new(), 42);
    assert_eq!(h.archive_id(), 42);
    h.consolidate_with(&Vec::new(), 43);
    assert_eq!(h.archive_id(), 42);
}
