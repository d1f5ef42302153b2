//! Hex helpers, range validation, and the protocol constants.

use lighter_rs::constants::{
    MAX_ACCOUNT_INDEX, MIN_ACCOUNT_INDEX, MAX_API_KEY_INDEX, MIN_API_KEY_INDEX, MAX_ORDER_PRICE,
    MIN_ORDER_PRICE, ONE_USDC, ORDER_TYPE_LIMIT, ORDER_TYPE_MARKET, API_MAX_ORDER_TYPE,
    ORDER_TYPE_TWAP,
};
use lighter_rs::errors::LighterError;
use lighter_rs::utils::{bytes_to_hex, bytes_to_hex_no_prefix, hex_to_bytes, validate_range};

#[test]
fn test_constants_validity() {
    assert!(MAX_ACCOUNT_INDEX > MIN_ACCOUNT_INDEX);
    assert!(MAX_API_KEY_INDEX > MIN_API_KEY_INDEX);
    assert!(MAX_ORDER_PRICE > MIN_ORDER_PRICE);
    assert_eq!(ONE_USDC, 1_000_000);
}

#[test]
fn test_order_types() {
    assert_eq!(ORDER_TYPE_LIMIT, 0);
    assert_eq!(ORDER_TYPE_MARKET, 1);
    assert_eq!(API_MAX_ORDER_TYPE, ORDER_TYPE_TWAP);
}

#[test]
fn test_hex_to_bytes() {
    let hex_with_prefix = "0x48656c6c6f";
    let hex_without_prefix = "48656c6c6f";

    let bytes1 = hex_to_bytes(hex_with_prefix).unwrap();
    let bytes2 = hex_to_bytes(hex_without_prefix).unwrap();

    assert_eq!(bytes1, bytes2);
    assert_eq!(bytes1, b"Hello");
}

#[test]
fn test_bytes_to_hex() {
    let bytes = b"Hello";
    let hex_with_prefix = bytes_to_hex(bytes);
    let hex_without_prefix = bytes_to_hex_no_prefix(bytes);

    assert_eq!(hex_with_prefix, "0x48656c6c6f");
    assert_eq!(hex_without_prefix, "48656c6c6f");
}

#[test]
fn test_validate_range() {
    assert!(validate_range(5, 1, 10, "test").is_ok());
    assert!(validate_range(0, 1, 10, "test").is_err());
    assert!(validate_range(11, 1, 10, "test").is_err());
}

#[test]
fn test_hex_to_bytes_rejects_bad_input() {
    assert!(matches!(
        hex_to_bytes("0xzz"),
        Err(LighterError::HexParseError(_))
    ));
    // odd length
    assert!(hex_to_bytes("abc").is_err());
    // uppercase prefix and digits are accepted
    assert_eq!(hex_to_bytes("0X48AB").unwrap(), vec![0x48u8, 0xab]);
}
