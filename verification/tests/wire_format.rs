use timestamper::parse::byo_extract_ts_update;
use timestamper::parse::parse_i32_bytes;
use timestamper::parse::parse_i64_bytes;
use timestamper::parse::parse_u64_bytes;
use timestamper::parse::split_on_commas;

#[test]
fn parse_u64_plain_and_signed() {
    assert_eq!(parse_u64_bytes(b"0"), Some(0));
    assert_eq!(parse_u64_bytes(b"100"), Some(100));
    assert_eq!(parse_u64_bytes(b"+100"), Some(100));
    assert_eq!(parse_u64_bytes(b"007"), Some(7));
    assert_eq!(parse_u64_bytes(b"-1"), None);
    assert_eq!(parse_u64_bytes(b""), None);
    assert_eq!(parse_u64_bytes(b"+"), None);
    assert_eq!(parse_u64_bytes(b"1 "), None);
    assert_eq!(parse_u64_bytes(b"12a"), None);
}

#[test]
fn parse_u64_bounds() {
    assert_eq!(parse_u64_bytes(b"18446744073709551615"), Some(u64::MAX));
    assert_eq!(parse_u64_bytes(b"18446744073709551616"), None);
    assert_eq!(parse_u64_bytes(b"99999999999999999999999"), None);
}

#[test]
fn parse_i64_bounds() {
    assert_eq!(parse_i64_bytes(b"9223372036854775807"), Some(i64::MAX));
    assert_eq!(parse_i64_bytes(b"9223372036854775808"), None);
    assert_eq!(parse_i64_bytes(b"-9223372036854775808"), Some(i64::MIN));
    assert_eq!(parse_i64_bytes(b"-9223372036854775809"), None);
    assert_eq!(parse_i64_bytes(b"-42"), Some(-42));
    assert_eq!(parse_i64_bytes(b"+42"), Some(42));
    assert_eq!(parse_i64_bytes(b"-"), None);
}

#[test]
fn parse_i32_bounds() {
    assert_eq!(parse_i32_bytes(b"2147483647"), Some(i32::MAX));
    assert_eq!(parse_i32_bytes(b"2147483648"), None);
    assert_eq!(parse_i32_bytes(b"-2147483648"), Some(i32::MIN));
    assert_eq!(parse_i32_bytes(b"-2147483649"), None);
    assert_eq!(parse_i32_bytes(b"12"), Some(12));
}

#[test]
fn split_keeps_empty_fields() {
    let fields = split_on_commas(b"a,,b");
    assert_eq!(fields, vec![b"a".to_vec(), b"".to_vec(), b"b".to_vec()]);
    assert_eq!(split_on_commas(b""), vec![b"".to_vec()]);
    assert_eq!(split_on_commas(b","), vec![b"".to_vec(), b"".to_vec()]);
    assert_eq!(split_on_commas(b"abc"), vec![b"abc".to_vec()]);
}

#[test]
fn extract_filters_and_parses() {
    let name = b"topic".to_vec();
    let messages = vec![
        b"topic,2,1,50,9".to_vec(),
        b"other,2,1,51,9".to_vec(),
        b"topic,2,1".to_vec(),
        b"topic,x,1,52,9".to_vec(),
        b"topic,2,1,53,9,extra".to_vec(),
        b"topic,-1,-2,54,-9".to_vec(),
    ];
    let ups = byo_extract_ts_update(&name, &messages);
    assert_eq!(ups, vec![(2, 1, 50, 9), (-1, -2, 54, -9)]);
}

#[test]
fn extract_rejects_non_utf8_noise() {
    let name = b"t".to_vec();
    let messages = vec![vec![0xff, 0xfe, b','], b"t,1,0,5,6".to_vec()];
    let ups = byo_extract_ts_update(&name, &messages);
    assert_eq!(ups, vec![(1, 0, 5, 6)]);
}
