use harvester::config::{build_config, build_convert_config, Config};
use harvester::dispatch::{
    build_key, collect_job_ids, harvest_request, plan_convert, plan_legacy,
};
use harvester::engine::HarvestJob;
use harvester::errors::{ConfigField, HarvestError};

fn test_config() -> Config {
    Config {
        state_table: b"harvest-state".to_vec(),
        endpoint_id: b"endpoint-1".to_vec(),
        destination_bucket: b"dest-bucket".to_vec(),
        harvest_role: b"role-arn".to_vec(),
        event_type: b"Test".to_vec(),
        event_key: b"K".to_vec(),
    }
}

#[test]
fn normalizes_file_key() {
    let got = build_key(&b"FTC".to_vec(), &b"KeyA".to_vec(), &b"test1".to_vec());
    assert_eq!(got, b"ftc_keya_test1".to_vec());
}

#[test]
fn label_case_is_kept() {
    let got = build_key(&b"Test".to_vec(), &b"K".to_vec(), &b"Test1".to_vec());
    assert_eq!(got, b"test_k_Test1".to_vec());
}

#[test]
fn derives_submission_for_one_unit() {
    let job = HarvestJob {
        match_name: b"test1".to_vec(),
        start_time: 790,
        end_time: 970,
    };
    let req = harvest_request(&test_config(), 12345, &job);
    assert_eq!(req.id, b"12345-test_k_test1".to_vec());
    assert_eq!(req.origin_endpoint_id, b"endpoint-1".to_vec());
    assert_eq!(req.destination_bucket, b"dest-bucket".to_vec());
    assert_eq!(req.manifest_key, b"test_k_test1/test_k_test1.m3u8".to_vec());
    assert_eq!(req.role, b"role-arn".to_vec());
    assert_eq!(req.start_time, 790);
    assert_eq!(req.end_time, 970);
}

#[test]
fn batch_units_share_one_timestamp() {
    let a = harvest_request(
        &test_config(),
        500,
        &HarvestJob { match_name: b"test1".to_vec(), start_time: 0, end_time: 1 },
    );
    let b = harvest_request(
        &test_config(),
        500,
        &HarvestJob { match_name: b"test2".to_vec(), start_time: 0, end_time: 1 },
    );
    assert!(a.id.starts_with(b"500-"));
    assert!(b.id.starts_with(b"500-"));
}

#[test]
fn failed_submissions_are_left_out_of_the_result() {
    let outcomes = vec![
        Some(b"id-one".to_vec()),
        None,
        Some(b"id-three".to_vec()),
    ];
    let got = collect_job_ids(&outcomes);
    assert_eq!(got, vec![b"id-one".to_vec(), b"id-three".to_vec()]);
}

#[test]
fn all_failed_submissions_give_an_empty_result() {
    let outcomes: Vec<Option<Vec<u8>>> = vec![None, None];
    assert!(collect_job_ids(&outcomes).is_empty());
}

#[test]
fn legacy_plan_references_the_one_object() {
    let plan = plan_legacy(&b"src".to_vec(), &b"clip.mp4".to_vec(), &b"dst".to_vec());
    assert_eq!(plan.inputs, vec![b"s3://src/clip.mp4".to_vec()]);
    assert_eq!(plan.destination, b"s3://dst/".to_vec());
}

#[test]
fn convert_plan_maps_parts_and_rewrites_prefix() {
    let parts = vec![
        b"x_y/0_2/index.m3u8".to_vec(),
        b"x_y/1_2/index.m3u8".to_vec(),
    ];
    let plan = plan_convert(&b"src".to_vec(), &b"dst".to_vec(), &parts, &b"x_y".to_vec());
    assert_eq!(
        plan.inputs,
        vec![
            b"s3://src/x_y/0_2/index.m3u8".to_vec(),
            b"s3://src/x_y/1_2/index.m3u8".to_vec(),
        ]
    );
    assert_eq!(plan.destination, b"s3://dst/x/y".to_vec());
}

#[test]
fn full_configuration_is_accepted() {
    let c = build_config(
        Some(b"t".to_vec()),
        Some(b"e".to_vec()),
        Some(b"d".to_vec()),
        Some(b"r".to_vec()),
        Some(b"Test".to_vec()),
        Some(b"K".to_vec()),
    )
    .unwrap();
    assert_eq!(c.state_table, b"t".to_vec());
    assert_eq!(c.event_key, b"K".to_vec());
}

#[test]
fn first_missing_configuration_field_is_named() {
    let r = build_config(
        Some(b"t".to_vec()),
        None,
        None,
        Some(b"r".to_vec()),
        Some(b"Test".to_vec()),
        Some(b"K".to_vec()),
    );
    assert_eq!(r.err(), Some(HarvestError::MissingConfig(ConfigField::EndpointId)));
}

#[test]
fn convert_configuration_is_validated() {
    assert!(build_convert_config(Some(b"r".to_vec()), Some(b"d".to_vec())).is_ok());
    let r = build_convert_config(None, Some(b"d".to_vec()));
    assert_eq!(r.err(), Some(HarvestError::MissingConfig(ConfigField::HarvestRole)));
}
