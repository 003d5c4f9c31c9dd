use pool_orderbook::model::uint256::Uint256;
use pool_orderbook::util::{hex_string_to_u256, HexParseError};

#[test]
fn test_hex_string_to_u256() {
    assert_eq!(Uint256::from_u64(1337), hex_string_to_u256("0x539").unwrap());
}

#[test]
fn parse_accepts_missing_prefix() {
    assert_eq!(Uint256::from_u64(0xC0FFEE), hex_string_to_u256("C0FFEE").unwrap());
}

#[test]
fn parse_is_case_insensitive() {
    let upper = hex_string_to_u256("0xC0FFEE").unwrap();
    let lower = hex_string_to_u256("0xc0ffee").unwrap();
    let mixed = hex_string_to_u256("0xC0ffEe").unwrap();
    assert_eq!(upper, lower);
    assert_eq!(upper, mixed);
    assert_eq!(Uint256::from_u64(0xC0FFEE), upper);
}

#[test]
fn parse_twice_gives_same_integer() {
    let once = hex_string_to_u256("0xDeadBeef").unwrap();
    let twice = hex_string_to_u256("0xDeadBeef").unwrap();
    assert_eq!(once, twice);
}

#[test]
fn parse_zero() {
    assert_eq!(Uint256::zero(), hex_string_to_u256("0x0").unwrap());
    assert_eq!(Uint256::zero(), hex_string_to_u256("0").unwrap());
    assert_eq!(Uint256::zero(), hex_string_to_u256("000000000000000000000000000000000000000000000000000000000000000000000000").unwrap());
}

#[test]
fn parse_spreads_limbs() {
    let text = format!(
        "0x{}{}{}{}",
        "0000000000000004", "0000000000000003", "0000000000000002", "0000000000000001"
    );
    let v = hex_string_to_u256(&text).unwrap();
    assert_eq!(Uint256 { w0: 1, w1: 2, w2: 3, w3: 4 }, v);
}

#[test]
fn parse_largest_value() {
    let text = format!("0x{}", "f".repeat(64));
    assert_eq!(
        Ok(Uint256 { w0: u64::MAX, w1: u64::MAX, w2: u64::MAX, w3: u64::MAX }),
        hex_string_to_u256(&text)
    );
}

#[test]
fn parse_rejects_malformed() {
    assert_eq!(Err(HexParseError::Malformed), hex_string_to_u256(""));
    assert_eq!(Err(HexParseError::Malformed), hex_string_to_u256("0x"));
    assert_eq!(Err(HexParseError::Malformed), hex_string_to_u256("0xzz"));
    assert_eq!(Err(HexParseError::Malformed), hex_string_to_u256("12g4"));
    assert_eq!(Err(HexParseError::Malformed), hex_string_to_u256("0x0x539"));
}

#[test]
fn parse_rejects_overflow() {
    // 65 hex digits with a leading nonzero digit name at least 2^256.
    let too_long = format!("0x1{}", "0".repeat(64));
    assert_eq!(Err(HexParseError::Overflow), hex_string_to_u256(&too_long));
}
