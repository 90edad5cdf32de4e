use harvester::errors::HarvestError;
use harvester::segments::{complete_segments, expected_total, parse_manifest_key};

#[test]
fn parses_multi_segment_manifest_key() {
    let parts = parse_manifest_key(&b"a/b/0_3/index.m3u8".to_vec()).unwrap();
    assert_eq!(parts.prefix, b"a/b".to_vec());
    assert_eq!(parts.start, b"0".to_vec());
    assert_eq!(parts.total, b"3".to_vec());
}

#[test]
fn parses_key_with_empty_prefix() {
    let parts = parse_manifest_key(&b"/10_25/index.m3u8".to_vec()).unwrap();
    assert_eq!(parts.prefix, b"".to_vec());
    assert_eq!(parts.start, b"10".to_vec());
    assert_eq!(parts.total, b"25".to_vec());
}

#[test]
fn key_without_leading_slash_is_legacy() {
    assert!(parse_manifest_key(&b"0_3/index.m3u8".to_vec()).is_none());
}

#[test]
fn key_with_other_file_name_is_legacy() {
    assert!(parse_manifest_key(&b"a/b/0_3/other.m3u8".to_vec()).is_none());
}

#[test]
fn key_with_two_underscores_is_legacy() {
    assert!(parse_manifest_key(&b"a/1_2_3/index.m3u8".to_vec()).is_none());
}

#[test]
fn key_with_missing_digit_run_is_legacy() {
    assert!(parse_manifest_key(&b"a/_3/index.m3u8".to_vec()).is_none());
    assert!(parse_manifest_key(&b"a/3_/index.m3u8".to_vec()).is_none());
}

#[test]
fn plain_object_key_is_legacy() {
    assert!(parse_manifest_key(&b"clip.mp4".to_vec()).is_none());
}

#[test]
fn complete_set_is_returned_sorted() {
    let listed = vec![
        b"a/b/2_3/index.m3u8".to_vec(),
        b"a/b/0_3/index.m3u8".to_vec(),
        b"a/b/1_3/index.m3u8".to_vec(),
    ];
    let got = complete_segments(3, &listed).unwrap();
    assert_eq!(
        got,
        vec![
            b"a/b/0_3/index.m3u8".to_vec(),
            b"a/b/1_3/index.m3u8".to_vec(),
            b"a/b/2_3/index.m3u8".to_vec(),
        ]
    );
}

#[test]
fn non_matching_listed_keys_are_ignored() {
    let listed = vec![
        b"a/b/0_2/index.m3u8".to_vec(),
        b"a/b/notes.txt".to_vec(),
        b"a/b/1_2/index.m3u8".to_vec(),
    ];
    let got = complete_segments(2, &listed).unwrap();
    assert_eq!(got.len(), 2);
}

#[test]
fn too_few_segments_defer() {
    let listed = vec![
        b"a/b/0_3/index.m3u8".to_vec(),
        b"a/b/1_3/index.m3u8".to_vec(),
    ];
    assert!(complete_segments(3, &listed).is_none());
}

#[test]
fn too_many_segments_also_defer() {
    let listed = vec![
        b"a/b/0_3/index.m3u8".to_vec(),
        b"a/b/1_3/index.m3u8".to_vec(),
        b"a/b/2_3/index.m3u8".to_vec(),
        b"a/b/3_3/index.m3u8".to_vec(),
    ];
    assert!(complete_segments(3, &listed).is_none());
}

#[test]
fn reads_expected_count() {
    assert_eq!(expected_total(&b"3".to_vec()), Ok(3));
}

#[test]
fn out_of_range_count_is_malformed() {
    let r = expected_total(&b"99999999999999999999999".to_vec());
    assert_eq!(r, Err(HarvestError::MalformedCount));
}
