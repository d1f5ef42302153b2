//! Order book behaviour: snapshots, deltas, staleness, and the query
//! surface, plus the exact-decimal values behind them.

use lighter_rs::decimal::Dec;
use lighter_rs::errors::LighterError;
use lighter_rs::order_book::{ManagedOrderBook, OrderBookSnapshot, OrderBookUpdate, PriceLevel};

fn dec(s: &str) -> Dec {
    Dec::parse(s).unwrap()
}

#[test]
fn test_managed_order_book_snapshot() {
    let mut ob = ManagedOrderBook::new("0");

    let snapshot = OrderBookSnapshot {
        asks: vec![
            PriceLevel::new("100.0", "10.0"),
            PriceLevel::new("101.0", "5.0"),
            PriceLevel::new("99.5", "8.0"), // out of order - should still work
        ],
        bids: vec![
            PriceLevel::new("98.0", "15.0"),
            PriceLevel::new("97.0", "20.0"),
            PriceLevel::new("99.0", "12.0"), // out of order - should still work
        ],
        offset: 100,
        nonce: 12345,
        code: 0,
    };

    ob.apply_snapshot(&snapshot).unwrap();

    // asks sorted ascending (best ask = lowest price)
    let asks = ob.top_asks(3);
    assert_eq!(asks.len(), 3);
    assert_eq!(asks[0].price, "99.5"); // best ask (lowest)
    assert_eq!(asks[1].price, "100.0");
    assert_eq!(asks[2].price, "101.0");

    // bids sorted descending (best bid = highest price)
    let bids = ob.top_bids(3);
    assert_eq!(bids.len(), 3);
    assert_eq!(bids[0].price, "99.0"); // best bid (highest)
    assert_eq!(bids[1].price, "98.0");
    assert_eq!(bids[2].price, "97.0");

    assert_eq!(ob.offset, 100);
    assert_eq!(ob.nonce, 12345);
}

#[test]
fn test_managed_order_book_update() {
    let mut ob = ManagedOrderBook::new("0");

    let snapshot = OrderBookSnapshot {
        asks: vec![
            PriceLevel::new("100.0", "10.0"),
            PriceLevel::new("101.0", "5.0"),
        ],
        bids: vec![
            PriceLevel::new("99.0", "15.0"),
            PriceLevel::new("98.0", "20.0"),
        ],
        offset: 100,
        nonce: 12345,
        code: 0,
    };
    ob.apply_snapshot(&snapshot).unwrap();

    // apply update - modify existing, add new, remove one
    let update = OrderBookUpdate {
        asks: vec![
            PriceLevel::new("100.0", "15.0"),   // update existing
            PriceLevel::new("102.0", "8.0"),    // add new
            PriceLevel::new("101.0", "0.0000"), // remove (zero size)
        ],
        bids: vec![
            PriceLevel::new("99.5", "10.0"), // add new (becomes best bid)
        ],
        offset: 101,
        nonce: 12346,
        code: 0,
    };
    ob.apply_update(&update).unwrap();

    // verify asks
    let asks = ob.all_asks();
    assert_eq!(asks.len(), 2); // 101.0 was removed
    assert_eq!(asks[0].price, "100.0");
    assert_eq!(asks[0].size, "15.0"); // updated
    assert_eq!(asks[1].price, "102.0"); // new level

    // verify bids
    let bids = ob.all_bids();
    assert_eq!(bids.len(), 3);
    assert_eq!(bids[0].price, "99.5"); // new best bid
    assert_eq!(bids[0].size, "10.0");

    assert_eq!(ob.offset, 101);
    assert_eq!(ob.nonce, 12346);
}

#[test]
fn test_managed_order_book_stale_update() {
    let mut ob = ManagedOrderBook::new("0");

    let snapshot = OrderBookSnapshot {
        asks: vec![PriceLevel::new("100.0", "10.0")],
        bids: vec![PriceLevel::new("99.0", "15.0")],
        offset: 100,
        nonce: 12345,
        code: 0,
    };
    ob.apply_snapshot(&snapshot).unwrap();

    // stale update (offset <= current offset) should be ignored
    let stale_update = OrderBookUpdate {
        asks: vec![PriceLevel::new("100.0", "999.0")],
        bids: vec![],
        offset: 100, // same as current
        nonce: 12344,
        code: 0,
    };
    ob.apply_update(&stale_update).unwrap();

    // still carries the value from before the stale update
    let asks = ob.all_asks();
    assert_eq!(asks[0].size, "10.0");
}

#[test]
fn test_managed_order_book_best_bid_ask() {
    let mut ob = ManagedOrderBook::new("0");

    let snapshot = OrderBookSnapshot {
        asks: vec![
            PriceLevel::new("100.5", "10.0"),
            PriceLevel::new("100.0", "5.0"), // best ask
            PriceLevel::new("101.0", "8.0"),
        ],
        bids: vec![
            PriceLevel::new("99.0", "15.0"), // best bid
            PriceLevel::new("98.0", "20.0"),
        ],
        offset: 100,
        nonce: 12345,
        code: 0,
    };
    ob.apply_snapshot(&snapshot).unwrap();

    let best_ask = ob.best_ask().unwrap();
    assert_eq!(best_ask.price, "100.0");
    assert_eq!(best_ask.size, "5.0");

    let best_bid = ob.best_bid().unwrap();
    assert_eq!(best_bid.price, "99.0");
    assert_eq!(best_bid.size, "15.0");
}

#[test]
fn test_managed_order_book_spread() {
    let mut ob = ManagedOrderBook::new("0");

    let snapshot = OrderBookSnapshot {
        asks: vec![PriceLevel::new("100.5", "10.0")],
        bids: vec![PriceLevel::new("99.5", "15.0")],
        offset: 100,
        nonce: 12345,
        code: 0,
    };
    ob.apply_snapshot(&snapshot).unwrap();

    let spread = ob.spread().unwrap();
    assert!(spread.eq_val(&dec("1.0")));

    let mid = ob.mid_price().unwrap();
    assert!(mid.eq_val(&dec("100.0")));
}

#[test]
fn test_managed_order_book_depth() {
    let mut ob = ManagedOrderBook::new("0");

    let snapshot = OrderBookSnapshot {
        asks: vec![
            PriceLevel::new("100.0", "10.0"),
            PriceLevel::new("101.0", "5.0"),
            PriceLevel::new("102.0", "8.0"),
        ],
        bids: vec![
            PriceLevel::new("99.0", "15.0"),
            PriceLevel::new("98.0", "20.0"),
        ],
        offset: 100,
        nonce: 12345,
        code: 0,
    };
    ob.apply_snapshot(&snapshot).unwrap();

    assert_eq!(ob.ask_depth(), 3);
    assert_eq!(ob.bid_depth(), 2);

    // total volume
    assert!(ob.total_ask_volume().unwrap().eq_val(&dec("23.0")));
    assert!(ob.total_bid_volume().unwrap().eq_val(&dec("35.0")));
}

#[test]
fn test_managed_order_book_volume_to_price() {
    let mut ob = ManagedOrderBook::new("0");

    let snapshot = OrderBookSnapshot {
        asks: vec![
            PriceLevel::new("100.0", "10.0"),
            PriceLevel::new("101.0", "5.0"),
            PriceLevel::new("102.0", "8.0"),
        ],
        bids: vec![
            PriceLevel::new("99.0", "15.0"),
            PriceLevel::new("98.0", "20.0"),
            PriceLevel::new("97.0", "25.0"),
        ],
        offset: 100,
        nonce: 12345,
        code: 0,
    };
    ob.apply_snapshot(&snapshot).unwrap();

    // ask volume up to price 101.0 (includes 100.0 and 101.0)
    let ask_vol = ob.ask_volume_to_price(&dec("101.0")).unwrap();
    assert!(ask_vol.eq_val(&dec("15.0")));

    // bid volume down to price 98.0 (includes 99.0 and 98.0)
    let bid_vol = ob.bid_volume_to_price(&dec("98.0")).unwrap();
    assert!(bid_vol.eq_val(&dec("35.0")));
}

#[test]
fn test_managed_order_book_to_legacy() {
    let mut ob = ManagedOrderBook::new("0");

    let snapshot = OrderBookSnapshot {
        asks: vec![
            PriceLevel::new("101.0", "5.0"),
            PriceLevel::new("100.0", "10.0"), // should be first after sorting
        ],
        bids: vec![
            PriceLevel::new("98.0", "20.0"),
            PriceLevel::new("99.0", "15.0"), // should be first after sorting
        ],
        offset: 100,
        nonce: 12345,
        code: 0,
    };
    ob.apply_snapshot(&snapshot).unwrap();

    let legacy = ob.to_order_book();

    // asks sorted ascending
    assert_eq!(legacy.asks[0].price, "100.0");
    assert_eq!(legacy.asks[1].price, "101.0");

    // bids sorted descending
    assert_eq!(legacy.bids[0].price, "99.0");
    assert_eq!(legacy.bids[1].price, "98.0");
}

#[test]
fn test_price_level_new() {
    let level = PriceLevel::new("100.5", "10.25");
    assert_eq!(level.price, "100.5");
    assert_eq!(level.size, "10.25");

    assert!(level.price_decimal().unwrap().eq_val(&dec("100.5")));
    assert!(level.size_decimal().unwrap().eq_val(&dec("10.25")));
}

#[test]
fn test_snapshot_parse_error_preserves_state() {
    let mut ob = ManagedOrderBook::new("0");

    let good = OrderBookSnapshot {
        asks: vec![PriceLevel::new("100.0", "10.0")],
        bids: vec![PriceLevel::new("99.0", "15.0")],
        offset: 100,
        nonce: 1,
        code: 0,
    };
    ob.apply_snapshot(&good).unwrap();

    let bad = OrderBookSnapshot {
        asks: vec![PriceLevel::new("not-a-number", "10.0")],
        bids: vec![],
        offset: 200,
        nonce: 2,
        code: 0,
    };
    let r = ob.apply_snapshot(&bad);
    assert!(matches!(r, Err(LighterError::InvalidResponse(_))));

    // the book still shows the pre-call state exactly
    assert_eq!(ob.offset, 100);
    assert_eq!(ob.nonce, 1);
    let asks = ob.all_asks();
    assert_eq!(asks.len(), 1);
    assert_eq!(asks[0].price, "100.0");
    assert_eq!(asks[0].size, "10.0");
    let bids = ob.all_bids();
    assert_eq!(bids.len(), 1);
    assert_eq!(bids[0].price, "99.0");
}

#[test]
fn test_update_parse_error_preserves_state() {
    let mut ob = ManagedOrderBook::new("0");

    let snapshot = OrderBookSnapshot {
        asks: vec![PriceLevel::new("100.0", "10.0")],
        bids: vec![PriceLevel::new("99.0", "15.0")],
        offset: 100,
        nonce: 1,
        code: 0,
    };
    ob.apply_snapshot(&snapshot).unwrap();

    // a later entry fails to parse: the whole delta is rejected and no
    // earlier entry is applied
    let bad = OrderBookUpdate {
        asks: vec![
            PriceLevel::new("100.0", "42.0"),
            PriceLevel::new("101.0", "bogus"),
        ],
        bids: vec![],
        offset: 101,
        nonce: 2,
        code: 0,
    };
    let r = ob.apply_update(&bad);
    assert!(matches!(r, Err(LighterError::InvalidResponse(_))));
    assert_eq!(ob.offset, 100);
    let asks = ob.all_asks();
    assert_eq!(asks[0].size, "10.0");
}

#[test]
fn test_delta_without_baseline_is_ignored() {
    let mut ob = ManagedOrderBook::new("0");

    // no snapshot yet: offset is 0, so the delta has no baseline
    let update = OrderBookUpdate {
        asks: vec![PriceLevel::new("100.0", "10.0")],
        bids: vec![],
        offset: 5,
        nonce: 1,
        code: 0,
    };
    ob.apply_update(&update).unwrap();

    assert_eq!(ob.offset, 0);
    assert_eq!(ob.ask_depth(), 0);
    assert!(ob.best_ask().is_none());
    assert!(ob.spread().is_none());
}

#[test]
fn test_empty_sides_queries() {
    let ob = ManagedOrderBook::new("7");
    assert!(ob.best_ask().is_none());
    assert!(ob.best_bid().is_none());
    assert!(ob.spread().is_none());
    assert!(ob.spread_bps().is_none());
    assert!(ob.mid_price().is_none());
    assert_eq!(ob.ask_depth(), 0);
    assert_eq!(ob.bid_depth(), 0);
    assert!(ob.total_ask_volume().unwrap().eq_val(&dec("0")));
    assert_eq!(ob.all_asks().len(), 0);
    assert_eq!(ob.all_bids().len(), 0);
}

#[test]
fn test_spread_bps_value() {
    let mut ob = ManagedOrderBook::new("0");

    let snapshot = OrderBookSnapshot {
        asks: vec![PriceLevel::new("100.5", "1.0")],
        bids: vec![PriceLevel::new("100.0", "1.0")],
        offset: 1,
        nonce: 0,
        code: 0,
    };
    ob.apply_snapshot(&snapshot).unwrap();

    // (100.5 - 100.0) / 100.0 * 10000 = 50 basis points
    let bps = ob.spread_bps().unwrap();
    assert!(bps.eq_val(&dec("50")));
}

#[test]
fn test_spread_bps_absent_for_nonpositive_bid() {
    let mut ob = ManagedOrderBook::new("0");

    let snapshot = OrderBookSnapshot {
        asks: vec![PriceLevel::new("1.0", "1.0")],
        bids: vec![PriceLevel::new("0", "1.0")],
        offset: 1,
        nonce: 0,
        code: 0,
    };
    ob.apply_snapshot(&snapshot).unwrap();

    // both sides are populated, but the best bid is not positive
    assert!(ob.best_bid().is_some());
    assert!(ob.spread_bps().is_none());
    assert!(ob.spread().is_some());
}

#[test]
fn test_equal_value_price_replaces_level() {
    let mut ob = ManagedOrderBook::new("0");

    let snapshot = OrderBookSnapshot {
        asks: vec![PriceLevel::new("100.0", "10.0")],
        bids: vec![],
        offset: 1,
        nonce: 0,
        code: 0,
    };
    ob.apply_snapshot(&snapshot).unwrap();

    // "100.00" carries the same value as "100.0": the level is replaced,
    // not duplicated, and the first stored rendering of the price stays
    let update = OrderBookUpdate {
        asks: vec![PriceLevel::new("100.00", "3.0")],
        bids: vec![],
        offset: 2,
        nonce: 0,
        code: 0,
    };
    ob.apply_update(&update).unwrap();

    let asks = ob.all_asks();
    assert_eq!(asks.len(), 1);
    assert_eq!(asks[0].price, "100.0");
    assert_eq!(asks[0].size, "3.0");
}

#[test]
fn test_zero_size_delta_removes_only_that_level() {
    let mut ob = ManagedOrderBook::new("0");

    let snapshot = OrderBookSnapshot {
        asks: vec![
            PriceLevel::new("100.0", "10.0"),
            PriceLevel::new("101.0", "5.0"),
            PriceLevel::new("102.0", "8.0"),
        ],
        bids: vec![],
        offset: 1,
        nonce: 0,
        code: 0,
    };
    ob.apply_snapshot(&snapshot).unwrap();

    let update = OrderBookUpdate {
        asks: vec![PriceLevel::new("101.0", "0")],
        bids: vec![],
        offset: 2,
        nonce: 0,
        code: 0,
    };
    ob.apply_update(&update).unwrap();

    let asks = ob.all_asks();
    assert_eq!(asks.len(), 2);
    assert_eq!(asks[0].price, "100.0");
    assert_eq!(asks[0].size, "10.0");
    assert_eq!(asks[1].price, "102.0");
    assert_eq!(asks[1].size, "8.0");
}

#[test]
fn test_reapplying_same_delta_is_noop() {
    let mut ob = ManagedOrderBook::new("0");

    let snapshot = OrderBookSnapshot {
        asks: vec![PriceLevel::new("100.0", "10.0")],
        bids: vec![PriceLevel::new("99.0", "1.0")],
        offset: 10,
        nonce: 0,
        code: 0,
    };
    ob.apply_snapshot(&snapshot).unwrap();

    let update = OrderBookUpdate {
        asks: vec![PriceLevel::new("100.0", "7.0")],
        bids: vec![],
        offset: 11,
        nonce: 1,
        code: 0,
    };
    ob.apply_update(&update).unwrap();
    assert_eq!(ob.all_asks()[0].size, "7.0");
    assert_eq!(ob.offset, 11);

    // the identical message again: no error, no change
    let update_again = OrderBookUpdate {
        asks: vec![PriceLevel::new("100.0", "999.0")],
        bids: vec![],
        offset: 11,
        nonce: 1,
        code: 0,
    };
    ob.apply_update(&update_again).unwrap();
    assert_eq!(ob.all_asks()[0].size, "7.0");
    assert_eq!(ob.offset, 11);
}

#[test]
fn test_snapshot_resets_after_deltas() {
    let mut ob = ManagedOrderBook::new("0");

    let first = OrderBookSnapshot {
        asks: vec![PriceLevel::new("100.0", "10.0")],
        bids: vec![],
        offset: 50,
        nonce: 0,
        code: 0,
    };
    ob.apply_snapshot(&first).unwrap();

    // a fresh snapshot always wins, even with a lower offset
    let second = OrderBookSnapshot {
        asks: vec![PriceLevel::new("200.0", "1.0")],
        bids: vec![PriceLevel::new("199.0", "2.0")],
        offset: 3,
        nonce: 9,
        code: 0,
    };
    ob.apply_snapshot(&second).unwrap();

    assert_eq!(ob.offset, 3);
    assert_eq!(ob.nonce, 9);
    let asks = ob.all_asks();
    assert_eq!(asks.len(), 1);
    assert_eq!(asks[0].price, "200.0");
}
