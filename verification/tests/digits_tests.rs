use loadtest::digits::{format_number, i64_to_dec, u64_to_dec};

#[test]
fn decimal_rendering() {
    assert_eq!(u64_to_dec(0), b"0".to_vec());
    assert_eq!(u64_to_dec(10000), b"10000".to_vec());
    assert_eq!(u64_to_dec(u64::MAX), b"18446744073709551615".to_vec());
}

#[test]
fn signed_decimal_rendering() {
    assert_eq!(i64_to_dec(-1), b"-1".to_vec());
    assert_eq!(i64_to_dec(12345), b"12345".to_vec());
    assert_eq!(i64_to_dec(i64::MIN), b"-9223372036854775808".to_vec());
    assert_eq!(i64_to_dec(i64::MAX), b"9223372036854775807".to_vec());
}

#[test]
fn thousands_grouping() {
    assert_eq!(format_number(0), b"0".to_vec());
    assert_eq!(format_number(100), b"100".to_vec());
    assert_eq!(format_number(1000), b"1,000".to_vec());
    assert_eq!(format_number(10000), b"10,000".to_vec());
    assert_eq!(format_number(1234567), b"1,234,567".to_vec());
}
