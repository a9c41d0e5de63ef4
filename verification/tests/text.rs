use gsw::text::{i32_to_string, i64_to_string, parse_i32, parse_u64, u64_to_string};

#[test]
fn numbers_read_as_std_reads_them() {
    assert_eq!(parse_u64("+42"), Some(42));
    assert_eq!(parse_u64("18446744073709551615"), Some(u64::MAX));
    assert_eq!(parse_u64("18446744073709551616"), None);
    assert_eq!(parse_u64(""), None);
    assert_eq!(parse_u64("+"), None);
    assert_eq!(parse_u64("-1"), None);
    assert_eq!(parse_i32("-2147483648"), Some(i32::MIN));
    assert_eq!(parse_i32("2147483648"), None);
    assert_eq!(parse_i32("-"), None);
    assert_eq!(parse_i32(" 1"), None);
}

#[test]
fn numbers_write_as_std_writes_them() {
    for n in [0u64, 7, 10, 12345, u64::MAX] {
        assert_eq!(u64_to_string(n), n.to_string());
        assert_eq!(parse_u64(&u64_to_string(n)), Some(n));
    }
    for n in [0i32, -1, i32::MIN, i32::MAX] {
        assert_eq!(i32_to_string(n), n.to_string());
        assert_eq!(parse_i32(&i32_to_string(n)), Some(n));
    }
    assert_eq!(i64_to_string(i64::MIN), i64::MIN.to_string());
}
