use harvester::digits::{parse_u64, u64_to_dec};

#[test]
fn renders_zero() {
    assert_eq!(u64_to_dec(0), b"0".to_vec());
}

#[test]
fn renders_small_number() {
    assert_eq!(u64_to_dec(42), b"42".to_vec());
}

#[test]
fn renders_largest_counter() {
    assert_eq!(u64_to_dec(u64::MAX), b"18446744073709551615".to_vec());
}

#[test]
fn parses_zero() {
    assert_eq!(parse_u64(&b"0".to_vec()), Some(0));
}

#[test]
fn parses_with_leading_zeros() {
    assert_eq!(parse_u64(&b"007".to_vec()), Some(7));
}

#[test]
fn parses_largest_counter() {
    assert_eq!(parse_u64(&b"18446744073709551615".to_vec()), Some(u64::MAX));
}

#[test]
fn rejects_value_over_counter_range() {
    assert_eq!(parse_u64(&b"18446744073709551616".to_vec()), None);
}

#[test]
fn rejects_empty_string() {
    assert_eq!(parse_u64(&b"".to_vec()), None);
}

#[test]
fn rejects_non_digit() {
    assert_eq!(parse_u64(&b"12a".to_vec()), None);
}

#[test]
fn round_trips_counters() {
    for n in [0u64, 1, 9, 10, 99, 12345, u64::MAX] {
        assert_eq!(parse_u64(&u64_to_dec(n)), Some(n));
    }
}
