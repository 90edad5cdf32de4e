use harvester::errors::{HarvestError, StateField};
use harvester::state::{
    state_from_fields, ttl_for, HarvestState, StateStore, StoredRecord, EXPIRY_WINDOW_SECS,
};

#[test]
fn creates_fresh_state_for_unseen_key() {
    let mut store = StateStore::new();
    let st = store.get_or_create(&b"K".to_vec(), 1_000).unwrap();
    assert_eq!(st.last_harvested_match, 0);
    assert_eq!(st.last_harvested_match_type, b"none".to_vec());
    // the fresh record was written, not just returned
    assert_eq!(store.records.len(), 1);
    assert_eq!(store.records[0].event_key, b"K".to_vec());
}

#[test]
fn second_read_returns_same_values() {
    let mut store = StateStore::new();
    let first = store.get_or_create(&b"K".to_vec(), 1_000).unwrap();
    let second = store.get_or_create(&b"K".to_vec(), 2_000).unwrap();
    assert_eq!(first.last_harvested_match, second.last_harvested_match);
    assert_eq!(first.last_harvested_match_type, second.last_harvested_match_type);
    assert_eq!(store.records.len(), 1);
}

#[test]
fn save_then_reload_round_trips() {
    let mut store = StateStore::new();
    let st = HarvestState {
        last_harvested_match: 7,
        last_harvested_match_type: b"goal".to_vec(),
    };
    store.save(&b"K".to_vec(), &st, 1_000);
    let read = store.get_or_create(&b"K".to_vec(), 2_000).unwrap();
    assert_eq!(read.last_harvested_match, 7);
    assert_eq!(read.last_harvested_match_type, b"goal".to_vec());
}

#[test]
fn expiry_is_set_once_and_kept() {
    let mut store = StateStore::new();
    let first = store.get_or_create(&b"K".to_vec(), 1_000).unwrap();
    assert_eq!(store.records[0].ttl, 1_000 + EXPIRY_WINDOW_SECS);
    let advanced = HarvestState {
        last_harvested_match: first.last_harvested_match + 1,
        last_harvested_match_type: first.last_harvested_match_type,
    };
    store.save(&b"K".to_vec(), &advanced, 50_000);
    // sequence moved, expiry did not
    assert_eq!(store.records[0].last_harvested_match, b"1".to_vec());
    assert_eq!(store.records[0].ttl, 1_000 + EXPIRY_WINDOW_SECS);
}

#[test]
fn malformed_stored_sequence_is_an_error() {
    let mut store = StateStore {
        records: vec![StoredRecord {
            event_key: b"K".to_vec(),
            last_harvested_match: b"12x".to_vec(),
            last_harvested_match_type: b"none".to_vec(),
            ttl: 0,
        }],
    };
    let r = store.get_or_create(&b"K".to_vec(), 1_000);
    assert!(matches!(r, Err(HarvestError::MalformedSequence)));
}

#[test]
fn conditional_save_applies_on_matching_sequence() {
    let mut store = StateStore::new();
    store.get_or_create(&b"K".to_vec(), 1_000).unwrap();
    let st = HarvestState {
        last_harvested_match: 1,
        last_harvested_match_type: b"none".to_vec(),
    };
    assert!(store.save_conditional(&b"K".to_vec(), 0, &st, 2_000).is_ok());
    assert_eq!(store.records[0].last_harvested_match, b"1".to_vec());
}

#[test]
fn conditional_save_reports_contention_on_mismatch() {
    let mut store = StateStore::new();
    store.get_or_create(&b"K".to_vec(), 1_000).unwrap();
    let st = HarvestState {
        last_harvested_match: 5,
        last_harvested_match_type: b"none".to_vec(),
    };
    let r = store.save_conditional(&b"K".to_vec(), 4, &st, 2_000);
    assert!(matches!(r, Err(HarvestError::Contention)));
    // store untouched
    assert_eq!(store.records[0].last_harvested_match, b"0".to_vec());
}

#[test]
fn conditional_save_on_absent_key_is_contention() {
    let mut store = StateStore::new();
    let st = HarvestState {
        last_harvested_match: 1,
        last_harvested_match_type: b"none".to_vec(),
    };
    let r = store.save_conditional(&b"K".to_vec(), 0, &st, 2_000);
    assert!(matches!(r, Err(HarvestError::Contention)));
}

#[test]
fn decodes_record_fields() {
    let st = state_from_fields(Some(b"7".to_vec()), Some(b"goal".to_vec())).unwrap();
    assert_eq!(st.last_harvested_match, 7);
    assert_eq!(st.last_harvested_match_type, b"goal".to_vec());
}

#[test]
fn missing_sequence_field_is_reported() {
    let r = state_from_fields(None, Some(b"none".to_vec()));
    assert!(matches!(
        r,
        Err(HarvestError::MissingStateField(StateField::Sequence))
    ));
}

#[test]
fn missing_kind_field_is_reported() {
    let r = state_from_fields(Some(b"0".to_vec()), None);
    assert!(matches!(
        r,
        Err(HarvestError::MissingStateField(StateField::Kind))
    ));
}

#[test]
fn out_of_range_sequence_field_is_malformed() {
    let r = state_from_fields(Some(b"99999999999999999999999".to_vec()), Some(b"none".to_vec()));
    assert!(matches!(r, Err(HarvestError::MalformedSequence)));
}

#[test]
fn expiry_window_is_seven_days() {
    assert_eq!(EXPIRY_WINDOW_SECS, 7 * 24 * 60 * 60);
    assert_eq!(ttl_for(1_000), 605_800);
}
