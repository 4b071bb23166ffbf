use roomler_core::ids::ObjectId;
use roomler_core::text::{parse_u64, trim};

#[test]
fn object_id_reads_twenty_four_hex_digits() {
    let id = ObjectId::parse_str("000000000000000000000001").unwrap();
    assert_eq!(id.value(), 1);
    let id = ObjectId::parse_str("ffffffffffffffffffffffff").unwrap();
    assert_eq!(id.value(), (1u128 << 96) - 1);
    let mixed = ObjectId::parse_str("65A1b2C3d4E5f60718293a4B").unwrap();
    assert_eq!(mixed.to_hex(), "65a1b2c3d4e5f60718293a4b");
}

#[test]
fn object_id_refuses_anything_else() {
    assert!(ObjectId::parse_str("").is_none());
    assert!(ObjectId::parse_str("00000000000000000000000").is_none());
    assert!(ObjectId::parse_str("0000000000000000000000001").is_none());
    assert!(ObjectId::parse_str("00000000000000000000000g").is_none());
    assert!(ObjectId::parse_str("00000000000000000000000é").is_none());
    assert!(ObjectId::parse_str("not-an-object-id-at-all!").is_none());
}

#[test]
fn object_id_round_trips_through_hex() {
    for text in ["000000000000000000000000", "0123456789abcdef01234567", "ffffffffffffffffffffffff"] {
        let id = ObjectId::parse_str(text).unwrap();
        assert_eq!(id.to_hex(), text);
        assert_eq!(ObjectId::parse_str(&id.to_hex()), Some(id));
    }
}

#[test]
fn object_id_from_value_checks_the_range() {
    assert!(ObjectId::from_value(0).is_some());
    assert!(ObjectId::from_value((1u128 << 96) - 1).is_some());
    assert!(ObjectId::from_value(1u128 << 96).is_none());
    assert!(ObjectId::from_value(u128::MAX).is_none());
    let a = ObjectId::from_value(7).unwrap();
    let b = ObjectId::from_value(7).unwrap();
    let c = ObjectId::from_value(8).unwrap();
    assert!(a.same(&b));
    assert!(!a.same(&c));
}

#[test]
fn trim_removes_whitespace_at_both_ends() {
    assert_eq!(trim("  hello world \n"), "hello world");
    assert_eq!(trim("\t\t"), "");
    assert_eq!(trim(""), "");
    assert_eq!(trim("x"), "x");
    assert_eq!(trim("\u{3000}wide\u{a0}"), "wide");
}

#[test]
fn parse_u64_reads_decimal_numerals() {
    assert_eq!(parse_u64("0"), Some(0));
    assert_eq!(parse_u64("007"), Some(7));
    assert_eq!(parse_u64("18446744073709551615"), Some(u64::MAX));
    assert_eq!(parse_u64("18446744073709551616"), None);
    assert_eq!(parse_u64("99999999999999999999999"), None);
    assert_eq!(parse_u64(""), None);
    assert_eq!(parse_u64("+5"), None);
    assert_eq!(parse_u64("-5"), None);
    assert_eq!(parse_u64("12a"), None);
    assert_eq!(parse_u64(" 12"), None);
}
