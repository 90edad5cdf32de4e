use harvester::engine::Processor;
use harvester::errors::HarvestError;
use harvester::state::HarvestState;

#[test]
fn selects_feed_processor() {
    assert_eq!(Processor::from_event_type(&b"FTC".to_vec()), Ok(Processor::Ftc));
}

#[test]
fn selects_synthetic_processor() {
    assert_eq!(Processor::from_event_type(&b"Test".to_vec()), Ok(Processor::Test));
}

#[test]
fn unknown_event_type_is_an_explicit_error() {
    let r = Processor::from_event_type(&b"Unknown".to_vec());
    assert_eq!(r, Err(HarvestError::UnsupportedEventType));
}

#[test]
fn selector_is_case_sensitive() {
    assert_eq!(
        Processor::from_event_type(&b"test".to_vec()),
        Err(HarvestError::UnsupportedEventType)
    );
}

#[test]
fn feed_processor_decides_no_work() {
    let st = HarvestState {
        last_harvested_match: 3,
        last_harvested_match_type: b"none".to_vec(),
    };
    let (next, jobs) = Processor::Ftc.decide(&st, 1_000);
    assert_eq!(next.last_harvested_match, 3);
    assert_eq!(next.last_harvested_match_type, b"none".to_vec());
    assert!(jobs.is_empty());
}

#[test]
fn synthetic_processor_advances_and_emits_one_unit() {
    let st = HarvestState {
        last_harvested_match: 4,
        last_harvested_match_type: b"none".to_vec(),
    };
    let (next, jobs) = Processor::Test.decide(&st, 1_000);
    assert_eq!(next.last_harvested_match, 5);
    assert_eq!(jobs.len(), 1);
    assert_eq!(jobs[0].match_name, b"test5".to_vec());
    // the three-minute window ending half a minute before now
    assert_eq!(jobs[0].start_time, 1_000 - 210);
    assert_eq!(jobs[0].end_time, 1_000 - 30);
}

#[test]
fn advancing_twice_is_strictly_monotonic() {
    let st = HarvestState {
        last_harvested_match: 7,
        last_harvested_match_type: b"none".to_vec(),
    };
    let (once, _) = Processor::Test.decide(&st, 1_000);
    let (twice, _) = Processor::Test.decide(&once, 2_000);
    assert_eq!(once.last_harvested_match, 8);
    assert_eq!(twice.last_harvested_match, 9);
    assert!(st.last_harvested_match < once.last_harvested_match);
    assert!(once.last_harvested_match < twice.last_harvested_match);
}
