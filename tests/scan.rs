use xmirrord::scan::{mirror_id, sorted_ids};
use xmirrord::text::{parse_i64, parse_u64};

#[test]
fn keys_give_sorted_ids() {
    let keys = vec![
        "xmirror:mirror:3".to_string(),
        "xmirror:mirror:1".to_string(),
        "xmirror:mirror:abc".to_string(),
    ];
    assert_eq!(sorted_ids(&keys), vec![1, 3]);
}

#[test]
fn repeated_keys_give_one_id() {
    let keys = vec![
        "xmirror:mirror:10".to_string(),
        "xmirror:mirror:2".to_string(),
        "xmirror:mirror:10".to_string(),
        "xmirror:mirror:".to_string(),
    ];
    assert_eq!(sorted_ids(&keys), vec![2, 10]);
    assert_eq!(sorted_ids(&Vec::new()), Vec::<u64>::new());
}

#[test]
fn key_suffix_parsing() {
    assert_eq!(mirror_id("xmirror:mirror:42"), Some(42));
    assert_eq!(mirror_id("xmirror:mirror:xmirror:mirror:5"), None);
    assert_eq!(mirror_id("5"), None);
    assert_eq!(mirror_id("other:mirror:5"), None);
    assert_eq!(mirror_id("xmirror:mirror:4x"), None);
    assert_eq!(mirror_id("xmirror:mirror:-4"), None);
    assert_eq!(mirror_id("xmirror:mirror:18446744073709551616"), None);
}

#[test]
fn decimal_parsing() {
    assert_eq!(parse_u64("0"), Some(0));
    assert_eq!(parse_u64("+17"), Some(17));
    assert_eq!(parse_u64("18446744073709551615"), Some(u64::MAX));
    assert_eq!(parse_u64("18446744073709551616"), None);
    assert_eq!(parse_u64(""), None);
    assert_eq!(parse_u64("+"), None);
    assert_eq!(parse_u64(" 1"), None);
}

#[test]
fn signed_decimal_parsing() {
    assert_eq!(parse_i64("-1"), Some(-1));
    assert_eq!(parse_i64("+3"), Some(3));
    assert_eq!(parse_i64("-9223372036854775808"), Some(i64::MIN));
    assert_eq!(parse_i64("9223372036854775807"), Some(i64::MAX));
    assert_eq!(parse_i64("9223372036854775808"), None);
    assert_eq!(parse_i64("-9223372036854775809"), None);
    assert_eq!(parse_i64("-+1"), None);
    assert_eq!(parse_i64("-"), None);
}
