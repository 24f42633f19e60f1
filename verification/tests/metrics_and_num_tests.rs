use zen_monitor::metrics::percent_centi;
use zen_monitor::num::parse_centi;
use zen_monitor::num::parse_i32;
use zen_monitor::num::parse_u64_digits;

#[test]
fn zero_total_gives_zero_percent() {
    assert_eq!(percent_centi(0, 0), 0);
    assert_eq!(percent_centi(12345, 0), 0);
}

#[test]
fn percent_is_truncated_hundredths() {
    assert_eq!(percent_centi(50, 100), 5000);
    assert_eq!(percent_centi(3050, 8192), 3723);
    assert_eq!(percent_centi(1, 3), 3333);
    assert_eq!(percent_centi(200, 100), 20000);
}

#[test]
fn huge_ratio_saturates() {
    assert_eq!(percent_centi(u64::MAX, 1), u64::MAX);
}

#[test]
fn unsigned_digits_parse() {
    assert_eq!(parse_u64_digits(&b"0".to_vec()), Some(0));
    assert_eq!(parse_u64_digits(&b"8192".to_vec()), Some(8192));
    assert_eq!(parse_u64_digits(&b"18446744073709551615".to_vec()), Some(u64::MAX));
    assert_eq!(parse_u64_digits(&b"18446744073709551616".to_vec()), None);
    assert_eq!(parse_u64_digits(&b"".to_vec()), None);
    assert_eq!(parse_u64_digits(&b"4 5".to_vec()), None);
    assert_eq!(parse_u64_digits(&b"-1".to_vec()), None);
}

#[test]
fn signed_integers_parse() {
    assert_eq!(parse_i32(&b"62".to_vec()), Some(62));
    assert_eq!(parse_i32(&b"+7".to_vec()), Some(7));
    assert_eq!(parse_i32(&b"-12".to_vec()), Some(-12));
    assert_eq!(parse_i32(&b"-0".to_vec()), Some(0));
    assert_eq!(parse_i32(&b"2147483647".to_vec()), Some(i32::MAX));
    assert_eq!(parse_i32(&b"2147483648".to_vec()), None);
    assert_eq!(parse_i32(&b"-2147483648".to_vec()), Some(i32::MIN));
    assert_eq!(parse_i32(&b"-2147483649".to_vec()), None);
    assert_eq!(parse_i32(&b"62.5".to_vec()), None);
    assert_eq!(parse_i32(&b"".to_vec()), None);
    assert_eq!(parse_i32(&b"-".to_vec()), None);
}

#[test]
fn decimals_parse_to_hundredths() {
    assert_eq!(parse_centi(&b"45".to_vec()), Some(4500));
    assert_eq!(parse_centi(&b"37.2".to_vec()), Some(3720));
    assert_eq!(parse_centi(&b"3.999".to_vec()), Some(399));
    assert_eq!(parse_centi(&b".5".to_vec()), Some(50));
    assert_eq!(parse_centi(&b"5.".to_vec()), Some(500));
    assert_eq!(parse_centi(&b"0.07".to_vec()), Some(7));
    assert_eq!(parse_centi(&b"".to_vec()), None);
    assert_eq!(parse_centi(&b".".to_vec()), None);
    assert_eq!(parse_centi(&b"1.2.3".to_vec()), None);
    assert_eq!(parse_centi(&b"-3".to_vec()), None);
    assert_eq!(parse_centi(&b"4 5".to_vec()), None);
}
