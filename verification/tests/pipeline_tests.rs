use harvester::config::Config;
use harvester::dispatch::{plan_clip_conversion, process_event};
use harvester::errors::HarvestError;
use harvester::segments::parse_manifest_key;
use harvester::state::{StateStore, EXPIRY_WINDOW_SECS};

fn test_config(event_type: &[u8]) -> Config {
    Config {
        state_table: b"harvest-state".to_vec(),
        endpoint_id: b"endpoint-1".to_vec(),
        destination_bucket: b"dest-bucket".to_vec(),
        harvest_role: b"role-arn".to_vec(),
        event_type: event_type.to_vec(),
        event_key: b"K".to_vec(),
    }
}

#[test]
fn first_event_for_a_key_emits_one_unit() {
    let mut store = StateStore::new();
    let config = test_config(b"Test");
    let requests = process_event(&mut store, &config, 10_000).unwrap();
    assert_eq!(requests.len(), 1);
    assert_eq!(requests[0].id, b"10000-test_k_test1".to_vec());
    assert_eq!(requests[0].manifest_key, b"test_k_test1/test_k_test1.m3u8".to_vec());
    assert_eq!(requests[0].start_time, 10_000 - 210);
    assert_eq!(requests[0].end_time, 10_000 - 30);
    // state advanced to sequence 1
    assert_eq!(store.records.len(), 1);
    assert_eq!(store.records[0].last_harvested_match, b"1".to_vec());
}

#[test]
fn second_event_advances_to_sequence_two() {
    let mut store = StateStore::new();
    let config = test_config(b"Test");
    process_event(&mut store, &config, 10_000).unwrap();
    let requests = process_event(&mut store, &config, 20_000).unwrap();
    assert_eq!(requests.len(), 1);
    assert_eq!(requests[0].id, b"20000-test_k_test2".to_vec());
    assert_eq!(store.records[0].last_harvested_match, b"2".to_vec());
    // the expiry granted at creation is not pushed forward
    assert_eq!(store.records[0].ttl, 10_000 + EXPIRY_WINDOW_SECS);
}

#[test]
fn feed_events_emit_nothing_and_touch_no_state() {
    let mut store = StateStore::new();
    let config = test_config(b"FTC");
    let requests = process_event(&mut store, &config, 10_000).unwrap();
    assert!(requests.is_empty());
    assert!(store.records.is_empty());
}

#[test]
fn unknown_event_type_aborts_with_no_work() {
    let mut store = StateStore::new();
    let config = test_config(b"Nope");
    let r = process_event(&mut store, &config, 10_000);
    assert!(matches!(r, Err(HarvestError::UnsupportedEventType)));
    assert!(store.records.is_empty());
}

#[test]
fn complete_clip_is_converted_sorted_with_rewritten_destination() {
    let manifest = parse_manifest_key(&b"clips/5_2/index.m3u8".to_vec()).unwrap();
    assert_eq!(manifest.prefix, b"clips".to_vec());
    assert_eq!(manifest.total, b"2".to_vec());
    let listed = vec![
        b"clips/5_2/index.m3u8".to_vec(),
        b"clips/4_2/index.m3u8".to_vec(),
    ];
    let plan = plan_clip_conversion(&b"src".to_vec(), &b"dst".to_vec(), &manifest, &listed)
        .unwrap()
        .unwrap();
    assert_eq!(
        plan.inputs,
        vec![
            b"s3://src/clips/4_2/index.m3u8".to_vec(),
            b"s3://src/clips/5_2/index.m3u8".to_vec(),
        ]
    );
    assert_eq!(plan.destination, b"s3://dst/clips".to_vec());
}

#[test]
fn underscored_prefix_is_rewritten_into_a_path() {
    let manifest = parse_manifest_key(&b"show_a/0_1/index.m3u8".to_vec()).unwrap();
    assert_eq!(manifest.prefix, b"show_a".to_vec());
    let listed = vec![b"show_a/0_1/index.m3u8".to_vec()];
    let plan = plan_clip_conversion(&b"src".to_vec(), &b"dst".to_vec(), &manifest, &listed)
        .unwrap()
        .unwrap();
    assert_eq!(plan.destination, b"s3://dst/show/a".to_vec());
}

#[test]
fn incomplete_clip_defers_without_error() {
    let manifest = parse_manifest_key(&b"clips/5_2/index.m3u8".to_vec()).unwrap();
    let listed = vec![b"clips/5_2/index.m3u8".to_vec()];
    let r = plan_clip_conversion(&b"src".to_vec(), &b"dst".to_vec(), &manifest, &listed).unwrap();
    assert!(r.is_none());
}
