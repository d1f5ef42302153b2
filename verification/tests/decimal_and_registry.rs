//! Exact decimal arithmetic, the key manager, the stream configuration
//! builder, and the book registry.

use lighter_rs::decimal::Dec;
use lighter_rs::errors::LighterError;
use lighter_rs::order_book::{OrderBookSnapshot, OrderBookUpdate, PriceLevel};
use lighter_rs::registry::BookRegistry;
use lighter_rs::signer::{KeyManager, PoseidonKeyManager, Signer};
use lighter_rs::ws_config::WsClientBuilder;

fn dec(s: &str) -> Dec {
    Dec::parse(s).unwrap()
}

#[test]
fn test_decimal_parse_and_compare() {
    assert!(dec("99.5").eq_val(&dec("99.50")));
    assert!(dec("99.5").lt(&dec("100")));
    assert!(dec("-1.5").lt(&dec("-1.4")));
    assert!(dec("-0.0").eq_val(&dec("0")));
    assert!(dec("0.1").le(&dec("0.1")));
    assert!(Dec::parse("not a number").is_none());
    assert!(Dec::parse("").is_none());
}

#[test]
fn test_decimal_exact_arithmetic() {
    let a = dec("10.05");
    let b = dec("0.95");
    assert!(a.checked_add(&b).unwrap().eq_val(&dec("11.00")));
    assert!(a.checked_sub(&b).unwrap().eq_val(&dec("9.1")));
    // mixed signs
    assert!(dec("-2.5").checked_add(&dec("1")).unwrap().eq_val(&dec("-1.5")));
    // exact mean, including one that needs an extra digit
    assert!(dec("100.5").checked_mean(&dec("99.5")).unwrap().eq_val(&dec("100")));
    assert!(dec("0.1").checked_mean(&dec("0.2")).unwrap().eq_val(&dec("0.15")));
}

#[test]
fn test_decimal_rendering_keeps_scale() {
    assert_eq!(dec("100.0").to_display_string(), "100.0");
    assert_eq!(dec("0.0500").to_display_string(), "0.0500");
    assert_eq!(dec("-3").to_display_string(), "-3");
}

#[test]
fn test_decimal_division() {
    let q = dec("1").checked_div(&dec("8")).unwrap();
    assert!(q.eq_val(&dec("0.125")));
    assert!(dec("1").checked_div(&dec("0")).is_none());
    let m = q.checked_mul(&dec("10000")).unwrap();
    assert!(m.eq_val(&dec("1250")));
}

#[test]
fn test_key_manager_lengths() {
    // 32-byte and 40-byte keys are accepted
    let km32 = PoseidonKeyManager::new(&[1u8; 32]).unwrap();
    let km40 = PoseidonKeyManager::new(&[2u8; 40]).unwrap();
    assert_eq!(km32.pub_key().len(), 40);
    assert_eq!(km40.pub_key_bytes().len(), 40);
    assert_eq!(km32.prv_key_bytes(), vec![1u8; 32]);

    // anything else is rejected
    let r = PoseidonKeyManager::new(&[0u8; 33]);
    assert!(matches!(
        r,
        Err(LighterError::InvalidPrivateKeyLength { expected: 40, actual: 33 })
    ));

    // signing demands a 40-byte hashed message
    let sig = km32.sign(&[0u8; 40]).unwrap();
    assert_eq!(sig.len(), 80);
    assert!(matches!(
        km32.sign(&[0u8; 32]),
        Err(LighterError::CryptoError(_))
    ));
}

#[test]
fn test_key_manager_from_hex() {
    let hex_key = "0x0102030405060708091011121314151617181920212223242526272829303132";
    let km = PoseidonKeyManager::from_hex(hex_key).unwrap();
    assert_eq!(km.prv_key_bytes().len(), 32);
    assert!(PoseidonKeyManager::from_hex("0x1234").is_err());
    assert!(lighter_rs::signer::new_key_manager(hex_key).is_ok());
}

#[test]
fn test_ws_builder_configuration() {
    let b = WsClientBuilder::new();
    assert_eq!(b.path, "/stream");
    assert!(b.validate_subscriptions().is_err());

    let b = WsClientBuilder::new()
        .host("example.test")
        .path("/feed")
        .order_books(vec![0, 1])
        .accounts(vec![12345]);
    assert_eq!(b.host.as_deref(), Some("example.test"));
    assert_eq!(b.path, "/feed");
    assert_eq!(b.order_book_ids, vec![0, 1]);
    assert_eq!(b.account_ids, vec![12345]);
    assert!(b.validate_subscriptions().is_ok());
}

#[test]
fn test_registry_routing() {
    let mut reg = BookRegistry::new();

    let snapshot = OrderBookSnapshot {
        asks: vec![PriceLevel::new("100.0", "10.0")],
        bids: vec![PriceLevel::new("99.0", "15.0")],
        offset: 10,
        nonce: 1,
        code: 0,
    };
    reg.apply_snapshot("BTC", &snapshot, 111).unwrap();
    assert_eq!(reg.len(), 1);

    // creation is idempotent
    let i = reg.get_or_create("BTC");
    let j = reg.get_or_create("BTC");
    assert_eq!(i, j);
    assert_eq!(reg.len(), 1);

    // deltas route to the right book and do not touch other markets
    let other = OrderBookSnapshot {
        asks: vec![PriceLevel::new("5.0", "1.0")],
        bids: vec![],
        offset: 3,
        nonce: 0,
        code: 0,
    };
    reg.apply_snapshot("ETH", &other, 222).unwrap();
    let update = OrderBookUpdate {
        asks: vec![PriceLevel::new("100.0", "2.0")],
        bids: vec![],
        offset: 11,
        nonce: 2,
        code: 0,
    };
    reg.apply_delta("BTC", &update, 333).unwrap();

    let btc = reg.snapshot_read("BTC").unwrap();
    assert_eq!(btc.all_asks()[0].size, "2.0");
    assert_eq!(btc.offset, 11);
    assert_eq!(btc.timestamp, 333);
    let eth = reg.snapshot_read("ETH").unwrap();
    assert_eq!(eth.all_asks()[0].price, "5.0");

    // a delta for an unknown market is ignored
    reg.apply_delta("SOL", &update, 444).unwrap();
    assert!(reg.snapshot_read("SOL").is_none());
    assert_eq!(reg.len(), 2);
}
