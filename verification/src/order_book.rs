//! The managed order book: snapshot application, incremental delta
//! merging, sequence handling, and the read-only query surface.
//!
//! A book holds two sorted price level stores (asks ascending, bids
//! ascending but read in reverse), plus the `offset`/`nonce` sequence
//! metadata. A snapshot replaces the whole state; a delta is a partial
//! diff. Both are applied all-or-nothing: a message with an unparseable
//! price or size fails and leaves the book exactly as it was.

use vstd::prelude::*;
use crate::decimal::{
    Dec, spec_parse_dec, spec_format_decimal, spec_div_decimal, spec_mul_decimal, representable,
    representable_half, abs_val, dec_of_triple, normal_rep, lemma_normal_rep_is,
};
use crate::errors::LighterError;
use crate::level_store::{Level, LevelStore, store_wf, level_ok, as_map, map_upsert};

verus! {

/// Message kinds seen on the market-data stream.
#[derive(Debug, Clone)]
pub enum WsMessageType {
    Connected,
    SubscribedOrderBook,
    UpdateOrderBook,
    SubscribedAccount,
    UpdateAccount,
}

/// A price level as it arrives on the wire: decimal strings.
#[derive(Debug, Clone)]
pub struct PriceLevel {
    pub price: String,
    pub size: String,
}

impl PriceLevel {
    /// Create a new price level.
    pub fn new(price: &str, size: &str) -> (r: PriceLevel)
        ensures
            r.price@ == price@,
            r.size@ == size@,
    {
        PriceLevel { price: price.to_owned(), size: size.to_owned() }
    }

    /// The price as an exact decimal; `None` when it does not parse.
    pub fn price_decimal(&self) -> (r: Option<Dec>)
        ensures
            r == spec_parse_dec(self.price@),
            r matches Option::Some(d) ==> d.wf(),
    {
        Dec::parse(self.price.as_str())
    }

    /// The size as an exact decimal; `None` when it does not parse.
    pub fn size_decimal(&self) -> (r: Option<Dec>)
        ensures
            r == spec_parse_dec(self.size@),
            r matches Option::Some(d) ==> d.wf(),
    {
        Dec::parse(self.size.as_str())
    }
}

/// A full order book snapshot.
#[derive(Debug, Clone)]
pub struct OrderBookSnapshot {
    pub asks: Vec<PriceLevel>,
    pub bids: Vec<PriceLevel>,
    pub offset: u64,
    pub nonce: u64,
    pub code: i32,
}

/// An incremental order book update, interpreted as a partial diff.
#[derive(Debug, Clone)]
pub struct OrderBookUpdate {
    pub asks: Vec<PriceLevel>,
    pub bids: Vec<PriceLevel>,
    pub offset: u64,
    pub nonce: u64,
    pub code: i32,
}

/// A rendered order book: both sides, best price first.
#[derive(Debug, Clone)]
pub struct OrderBook {
    pub asks: Vec<PriceLevel>,
    pub bids: Vec<PriceLevel>,
}

/// The price and size of a wire-format level as exact decimals, or
/// `None` when either string fails to parse.
pub open spec fn parse_level(l: PriceLevel) -> Option<(Dec, Dec)> {
    match (spec_parse_dec(l.price@), spec_parse_dec(l.size@)) {
        (Option::Some(p), Option::Some(z)) => Option::Some((p, z)),
        _ => Option::None,
    }
}

/// Every level of the sequence parses.
pub open spec fn levels_parse_ok(ls: Seq<PriceLevel>) -> bool {
    forall|i: int| 0 <= i < ls.len() ==> (#[trigger] parse_level(ls[i])) is Some
}

/// One delta entry applied to a side's map view: size zero removes the
/// level, a positive size inserts or replaces it, a negative size is
/// ignored (a store never holds a non-positive size).
pub open spec fn map_delta(m: Map<int, Level>, p: Dec, z: Dec) -> Map<int, Level> {
    if z.uval() == 0 {
        m.remove(p.uval())
    } else if z.uval() > 0 {
        map_upsert(m, p, z)
    } else {
        m
    }
}

/// A snapshot's levels folded, in order, into a side's map view;
/// non-positive sizes are omitted.
pub open spec fn snap_fold(m: Map<int, Level>, ls: Seq<PriceLevel>) -> Map<int, Level>
    decreases ls.len(),
{
    if ls.len() == 0 {
        m
    } else {
        let prev = snap_fold(m, ls.drop_last());
        match parse_level(ls.last()) {
            Option::Some((p, z)) => if z.uval() > 0 {
                map_upsert(prev, p, z)
            } else {
                prev
            },
            Option::None => prev,
        }
    }
}

/// A delta's levels folded, in order, into a side's map view.
pub open spec fn delta_fold(m: Map<int, Level>, ls: Seq<PriceLevel>) -> Map<int, Level>
    decreases ls.len(),
{
    if ls.len() == 0 {
        m
    } else {
        let prev = delta_fold(m, ls.drop_last());
        match parse_level(ls.last()) {
            Option::Some((p, z)) => map_delta(prev, p, z),
            Option::None => prev,
        }
    }
}

/// Managed order book with sorted sides and sequence tracking.
#[derive(Debug)]
pub struct ManagedOrderBook {
    /// Ask levels, sorted ascending by price (best ask first).
    pub asks: LevelStore,
    /// Bid levels, sorted ascending by price (best bid last).
    pub bids: LevelStore,
    /// Current offset (sequence number); zero until the first snapshot.
    pub offset: u64,
    /// Current nonce, carried through from the last applied message.
    pub nonce: u64,
    /// Last update timestamp in milliseconds, supplied by the transport.
    pub timestamp: u64,
    /// Market identifier; immutable after construction.
    pub market_id: String,
}

impl ManagedOrderBook {
    /// The ask side, in ascending price order.
    pub open spec fn asks_seq(self) -> Seq<Level> {
        self.asks@
    }

    /// The bid side, in ascending price order (read best-last).
    pub open spec fn bids_seq(self) -> Seq<Level> {
        self.bids@
    }

    /// The ask side as a map from price value to level.
    pub open spec fn asks_map(self) -> Map<int, Level> {
        as_map(self.asks_seq())
    }

    /// The bid side as a map from price value to level.
    pub open spec fn bids_map(self) -> Map<int, Level> {
        as_map(self.bids_seq())
    }

    /// Both sides well-formed: sorted strictly ascending, all sizes
    /// strictly positive.
    pub open spec fn wf(self) -> bool {
        store_wf(self.asks_seq()) && store_wf(self.bids_seq())
    }

    /// Whether a delta with this offset is applied: the book must have a
    /// baseline (a snapshot was applied, so `offset > 0`) and the delta
    /// must advance the offset strictly.
    pub open spec fn delta_applies(self, u: OrderBookUpdate) -> bool {
        self.offset > 0 && u.offset > self.offset
    }

    /// Create a new empty managed order book.
    pub fn new(market_id: &str) -> (r: ManagedOrderBook)
        ensures
            r.wf(),
            r.asks_seq() =~= Seq::<Level>::empty(),
            r.bids_seq() =~= Seq::<Level>::empty(),
            r.offset == 0,
            r.nonce == 0,
            r.timestamp == 0,
            r.market_id@ == market_id@,
    {
        ManagedOrderBook {
            asks: LevelStore::new(),
            bids: LevelStore::new(),
            offset: 0,
            nonce: 0,
            timestamp: 0,
            market_id: market_id.to_owned(),
        }
    }

    /// Apply a snapshot: replace the book's whole state.
    ///
    /// All-or-nothing: every price and size is parsed before anything is
    /// mutated, so a failing snapshot leaves the book exactly as it was.
    /// On success both sides are rebuilt (levels with non-positive size
    /// omitted) and `offset` and `nonce` are taken from the message,
    /// whatever the previous offset was.
    pub fn apply_snapshot(&mut self, snapshot: &OrderBookSnapshot) -> (r: Result<
        (),
        LighterError,
    >)
        requires
            old(self).wf(),
        ensures
            final(self).wf(),
            r is Ok <==> (levels_parse_ok(snapshot.asks@) && levels_parse_ok(snapshot.bids@)),
            r is Ok ==> (as_map(final(self).asks_seq()) == snap_fold(
                Map::<int, Level>::empty(),
                snapshot.asks@,
            ) && as_map(final(self).bids_seq()) == snap_fold(
                Map::<int, Level>::empty(),
                snapshot.bids@,
            ) && final(self).offset == snapshot.offset && final(self).nonce == snapshot.nonce),
            r matches Err(e) ==> (*final(self) == *old(self) && e is InvalidResponse),
            final(self).timestamp == old(self).timestamp,
            final(self).market_id == old(self).market_id,
    {
        let parsed_asks = match parse_levels(&snapshot.asks) {
            Ok(v) => v,
            Err(e) => {
                return Err(e);
            },
        };
        let parsed_bids = match parse_levels(&snapshot.bids) {
            Ok(v) => v,
            Err(e) => {
                return Err(e);
            },
        };
        self.asks.clear();
        self.bids.clear();
        rebuild_side(&mut self.asks, &parsed_asks, Ghost(snapshot.asks@));
        rebuild_side(&mut self.bids, &parsed_bids, Ghost(snapshot.bids@));
        self.offset = snapshot.offset;
        self.nonce = snapshot.nonce;
        Ok(())
    }

    /// Apply an incremental update.
    ///
    /// A delta is discarded silently (no error, no change) when the book
    /// has no baseline yet (`offset == 0`) or the delta's offset does not
    /// strictly advance the book's. An applied delta is all-or-nothing:
    /// every entry is parsed before anything is mutated. Per entry, size
    /// zero deletes the price level, a positive size inserts or replaces
    /// it. On success `offset` and `nonce` advance to the message's.
    pub fn apply_update(&mut self, update: &OrderBookUpdate) -> (r: Result<(), LighterError>)
        requires
            old(self).wf(),
        ensures
            final(self).wf(),
            !old(self).delta_applies(*update) ==> (r is Ok && *final(self) == *old(self)),
            r is Ok <==> (!old(self).delta_applies(*update) || (levels_parse_ok(update.asks@)
                && levels_parse_ok(update.bids@))),
            (old(self).delta_applies(*update) && r is Ok) ==> (as_map(final(self).asks_seq())
                == delta_fold(as_map(old(self).asks_seq()), update.asks@) && as_map(
                final(self).bids_seq(),
            ) == delta_fold(as_map(old(self).bids_seq()), update.bids@) && final(self).offset
                == update.offset && final(self).nonce == update.nonce),
            r matches Err(e) ==> (*final(self) == *old(self) && e is InvalidResponse),
            final(self).timestamp == old(self).timestamp,
            final(self).market_id == old(self).market_id,
    {
        if !(self.offset > 0 && update.offset > self.offset) {
            return Ok(());
        }
        let parsed_asks = match parse_levels(&update.asks) {
            Ok(v) => v,
            Err(e) => {
                return Err(e);
            },
        };
        let parsed_bids = match parse_levels(&update.bids) {
            Ok(v) => v,
            Err(e) => {
                return Err(e);
            },
        };
        merge_side(&mut self.asks, &parsed_asks, Ghost(update.asks@));
        merge_side(&mut self.bids, &parsed_bids, Ghost(update.bids@));
        self.offset = update.offset;
        self.nonce = update.nonce;
        Ok(())
    }
}

/// Parse every level of one side; the first level whose price or size is
/// not a valid decimal fails the whole call with that string.
fn parse_levels(levels: &Vec<PriceLevel>) -> (r: Result<Vec<(Dec, Dec)>, LighterError>)
    ensures
        r is Ok <==> levels_parse_ok(levels@),
        r matches Ok(v) ==> (v@.len() == levels@.len() && forall|j: int|
            0 <= j < v@.len() ==> (#[trigger] parse_level(levels@[j])) == Option::Some(
                (v@[j].0, v@[j].1),
            ) && v@[j].0.wf() && v@[j].1.wf()),
        r matches Err(e) ==> e is InvalidResponse,
{
    let mut out: Vec<(Dec, Dec)> = Vec::new();
    let n = levels.len();
    let mut i: usize = 0;
    while i < n
        invariant
            n == levels@.len(),
            i <= n,
            out@.len() == i,
            forall|j: int|
                0 <= j < i ==> (#[trigger] parse_level(levels@[j])) == Option::Some(
                    (out@[j].0, out@[j].1),
                ) && out@[j].0.wf() && out@[j].1.wf(),
        decreases n - i,
    {
        let level = &levels[i];
        let p = match Dec::parse(level.price.as_str()) {
            Some(p) => p,
            None => {
                proof {
                    assert((parse_level(levels@[i as int])) is None);
                }
                return Err(LighterError::InvalidResponse(level.price.clone()));
            },
        };
        let z = match Dec::parse(level.size.as_str()) {
            Some(z) => z,
            None => {
                proof {
                    assert((parse_level(levels@[i as int])) is None);
                }
                return Err(LighterError::InvalidResponse(level.size.clone()));
            },
        };
        out.push((p, z));
        i = i + 1;
    }
    Ok(out)
}

/// Rebuild one (cleared) side from parsed snapshot levels, omitting
/// non-positive sizes.
fn rebuild_side(store: &mut LevelStore, parsed: &Vec<(Dec, Dec)>, Ghost(wire): Ghost<
    Seq<PriceLevel>,
>)
    requires
        old(store)@ =~= Seq::<Level>::empty(),
        store_wf(old(store)@),
        parsed@.len() == wire.len(),
        forall|j: int|
            0 <= j < parsed@.len() ==> (#[trigger] parse_level(wire[j])) == Option::Some(
                (parsed@[j].0, parsed@[j].1),
            ) && parsed@[j].0.wf() && parsed@[j].1.wf(),
    ensures
        store_wf(final(store)@),
        as_map(final(store)@) == snap_fold(Map::<int, Level>::empty(), wire),
{
    let n = parsed.len();
    let mut i: usize = 0;
    proof {
        assert(wire.take(0) =~= Seq::<PriceLevel>::empty());
        assert(as_map(store@) =~= Map::<int, Level>::empty());
    }
    while i < n
        invariant
            n == parsed@.len(),
            parsed@.len() == wire.len(),
            i <= n,
            store_wf(store@),
            forall|j: int|
                0 <= j < parsed@.len() ==> (#[trigger] parse_level(wire[j])) == Option::Some(
                    (parsed@[j].0, parsed@[j].1),
                ) && parsed@[j].0.wf() && parsed@[j].1.wf(),
            as_map(store@) == snap_fold(Map::<int, Level>::empty(), wire.take(i as int)),
        decreases n - i,
    {
        let (p, z) = parsed[i];
        let zero = Dec::zero();
        proof {
            assert(parse_level(wire[i as int]) == Option::Some((parsed@[i as int].0, parsed@[i as int].1)));
            assert(wire.take(i + 1).drop_last() =~= wire.take(i as int));
            assert(wire.take(i + 1).last() == wire[i as int]);
        }
        if zero.lt(&z) {
            store.upsert(p, z);
        }
        i = i + 1;
    }
    proof {
        assert(wire.take(n as int) =~= wire);
    }
}

/// Merge parsed delta levels into one side: size zero removes, positive
/// size inserts or replaces, negative size is ignored.
fn merge_side(store: &mut LevelStore, parsed: &Vec<(Dec, Dec)>, Ghost(wire): Ghost<Seq<PriceLevel>>)
    requires
        store_wf(old(store)@),
        parsed@.len() == wire.len(),
        forall|j: int|
            0 <= j < parsed@.len() ==> (#[trigger] parse_level(wire[j])) == Option::Some(
                (parsed@[j].0, parsed@[j].1),
            ) && parsed@[j].0.wf() && parsed@[j].1.wf(),
    ensures
        store_wf(final(store)@),
        as_map(final(store)@) == delta_fold(as_map(old(store)@), wire),
{
    let ghost m0 = as_map(old(store)@);
    let n = parsed.len();
    let mut i: usize = 0;
    proof {
        assert(wire.take(0) =~= Seq::<PriceLevel>::empty());
    }
    while i < n
        invariant
            n == parsed@.len(),
            parsed@.len() == wire.len(),
            i <= n,
            store_wf(store@),
            forall|j: int|
                0 <= j < parsed@.len() ==> (#[trigger] parse_level(wire[j])) == Option::Some(
                    (parsed@[j].0, parsed@[j].1),
                ) && parsed@[j].0.wf() && parsed@[j].1.wf(),
            as_map(store@) == delta_fold(m0, wire.take(i as int)),
        decreases n - i,
    {
        let (p, z) = parsed[i];
        proof {
            assert(parse_level(wire[i as int]) == Option::Some((parsed@[i as int].0, parsed@[i as int].1)));
            assert(wire.take(i + 1).drop_last() =~= wire.take(i as int));
            assert(wire.take(i + 1).last() == wire[i as int]);
        }
        if z.is_zero() {
            store.remove(&p);
        } else {
            let zero = Dec::zero();
            if zero.lt(&z) {
                store.upsert(p, z);
            }
        }
        i = i + 1;
    }
    proof {
        assert(wire.take(n as int) =~= wire);
    }
}

/// The printed form of a level's price.
pub open spec fn level_price_str(l: Level) -> Seq<char> {
    spec_format_decimal(l.price.neg, l.price.mantissa, l.price.scale)
}

/// The printed form of a level's size.
pub open spec fn level_size_str(l: Level) -> Seq<char> {
    spec_format_decimal(l.size.neg, l.size.mantissa, l.size.scale)
}

/// The sum of the sizes of a sequence of levels, in units of 10^-28.
pub open spec fn sum_sizes(s: Seq<Level>) -> int
    decreases s.len(),
{
    if s.len() == 0 {
        0
    } else {
        sum_sizes(s.drop_last()) + s.last().size.uval()
    }
}

/// Every partial sum of the sizes has an exact decimal representation.
pub open spec fn sums_representable(s: Seq<Level>) -> bool {
    forall|k: int| 1 <= k <= s.len() ==> representable(sum_sizes(#[trigger] s.take(k)))
}

/// The sum of the sizes of the levels priced at or below `pv`.
pub open spec fn sum_sizes_le(s: Seq<Level>, pv: int) -> int
    decreases s.len(),
{
    if s.len() == 0 {
        0
    } else {
        sum_sizes_le(s.drop_last(), pv) + (
        if s.last().price.uval() <= pv {
            s.last().size.uval()
        } else {
            0
        })
    }
}

/// Every partial sum of the sizes priced at or below `pv` has an exact
/// decimal representation.
pub open spec fn sums_le_representable(s: Seq<Level>, pv: int) -> bool {
    forall|k: int| 1 <= k <= s.len() ==> representable(sum_sizes_le(#[trigger] s.take(k), pv))
}

/// The sum of the sizes of the levels priced at or above `pv`.
pub open spec fn sum_sizes_ge(s: Seq<Level>, pv: int) -> int
    decreases s.len(),
{
    if s.len() == 0 {
        0
    } else {
        sum_sizes_ge(s.drop_last(), pv) + (
        if s.last().price.uval() >= pv {
            s.last().size.uval()
        } else {
            0
        })
    }
}

/// Every partial sum of the sizes priced at or above `pv` has an exact
/// decimal representation.
pub open spec fn sums_ge_representable(s: Seq<Level>, pv: int) -> bool {
    forall|k: int| 1 <= k <= s.len() ==> representable(sum_sizes_ge(#[trigger] s.take(k), pv))
}

/// The spread in basis points as a function of the two best prices:
/// the exact difference in its canonical representation, divided by the
/// second price through `rust_decimal`, times ten thousand. `None` when
/// the exact difference has no decimal representation or either outside
/// step has no result.
pub open spec fn spec_bps(a: Dec, b: Dec) -> Option<Dec> {
    if !representable(abs_val(a.uval() - b.uval())) {
        Option::None
    } else {
        let sd = normal_rep(a.uval() - b.uval());
        match spec_div_decimal(sd.neg, sd.mantissa, sd.scale, b.neg, b.mantissa, b.scale) {
            Option::None => Option::None,
            Option::Some(q) => match spec_mul_decimal(q.0, q.1, q.2, false, 10000u128, 0u32) {
                Option::None => Option::None,
                Option::Some(t) => Option::Some(dec_of_triple(t)),
            },
        }
    }
}

/// Render one stored level back to its wire form.
fn render_level(l: &Level) -> (r: PriceLevel)
    requires
        l.price.wf(),
        l.size.wf(),
    ensures
        r.price@ == level_price_str(*l),
        r.size@ == level_size_str(*l),
{
    PriceLevel { price: l.price.to_display_string(), size: l.size.to_display_string() }
}

impl ManagedOrderBook {
    /// The best (lowest-priced) ask, or `None` on an empty ask side.
    pub fn best_ask(&self) -> (r: Option<PriceLevel>)
        requires
            self.wf(),
        ensures
            r is Some <==> self.asks_seq().len() > 0,
            r matches Option::Some(pl) ==> (pl.price@ == level_price_str(self.asks_seq()[0])
                && pl.size@ == level_size_str(self.asks_seq()[0])),
    {
        match self.asks.first() {
            Some(l) => {
                proof {
                    assert(level_ok(self.asks_seq()[0]));
                }
                Some(render_level(&l))
            },
            None => None,
        }
    }

    /// The best (highest-priced) bid, or `None` on an empty bid side.
    pub fn best_bid(&self) -> (r: Option<PriceLevel>)
        requires
            self.wf(),
        ensures
            r is Some <==> self.bids_seq().len() > 0,
            r matches Option::Some(pl) ==> (pl.price@ == level_price_str(
                self.bids_seq().last(),
            ) && pl.size@ == level_size_str(self.bids_seq().last())),
    {
        match self.bids.last() {
            Some(l) => {
                proof {
                    assert(level_ok(self.bids_seq()[self.bids_seq().len() - 1]));
                }
                Some(render_level(&l))
            },
            None => None,
        }
    }

    /// The spread: best ask price minus best bid price, exactly. `None`
    /// when either side is empty, or when the exact difference has no
    /// decimal representation.
    pub fn spread(&self) -> (r: Option<Dec>)
        requires
            self.wf(),
        ensures
            (self.asks_seq().len() == 0 || self.bids_seq().len() == 0) ==> r is None,
            (self.asks_seq().len() > 0 && self.bids_seq().len() > 0) ==> {
                let a = self.asks_seq()[0].price;
                let b = self.bids_seq().last().price;
                &&& (r is Some <==> representable(abs_val(a.uval() - b.uval())))
                &&& (r matches Option::Some(d) ==> d.wf() && d.uval() == a.uval() - b.uval())
            },
    {
        let fa = self.asks.first();
        let fb = self.bids.last();
        match (fa, fb) {
            (Some(a), Some(b)) => {
                proof {
                    assert(level_ok(self.asks_seq()[0]));
                    assert(level_ok(self.bids_seq()[self.bids_seq().len() - 1]));
                }
                a.price.checked_sub(&b.price)
            },
            _ => None,
        }
    }

    /// The spread in basis points: `(best ask - best bid) / best bid *
    /// 10000`, through `rust_decimal`'s division. `None` when either side
    /// is empty, the best bid is not positive, the exact difference has
    /// no decimal representation, or an outside step has no result;
    /// otherwise the pipeline's value.
    pub fn spread_bps(&self) -> (r: Option<Dec>)
        requires
            self.wf(),
        ensures
            (self.asks_seq().len() == 0 || self.bids_seq().len() == 0
                || self.bids_seq().last().price.uval() <= 0) ==> r is None,
            (self.asks_seq().len() > 0 && self.bids_seq().len() > 0
                && self.bids_seq().last().price.uval() > 0) ==> r == spec_bps(
                self.asks_seq()[0].price,
                self.bids_seq().last().price,
            ),
            r matches Option::Some(d) ==> d.wf(),
    {
        let fa = self.asks.first();
        let fb = self.bids.last();
        match (fa, fb) {
            (Some(a), Some(b)) => {
                proof {
                    assert(level_ok(self.asks_seq()[0]));
                    assert(level_ok(self.bids_seq()[self.bids_seq().len() - 1]));
                }
                let ghost av = self.asks_seq()[0].price;
                let ghost bv = self.bids_seq().last().price;
                let zero = Dec::zero();
                if !zero.lt(&b.price) {
                    return None;
                }
                let sd = match a.price.checked_sub(&b.price) {
                    Some(d) => d,
                    None => {
                        return None;
                    },
                };
                proof {
                    // the exact difference came back canonical, so it is
                    // the representation the pipeline spec names
                    lemma_normal_rep_is(sd);
                    assert(normal_rep(av.uval() - bv.uval()) == sd);
                }
                let qd = match sd.checked_div(&b.price) {
                    Some(d) => d,
                    None => {
                        return None;
                    },
                };
                let tenk = Dec { neg: false, mantissa: 10000, scale: 0 };
                match qd.checked_mul(&tenk) {
                    Some(d) => {
                        proof {
                            assert(spec_div_decimal(
                                sd.neg,
                                sd.mantissa,
                                sd.scale,
                                bv.neg,
                                bv.mantissa,
                                bv.scale,
                            ) == Option::Some((qd.neg, qd.mantissa, qd.scale)));
                            assert(spec_mul_decimal(
                                qd.neg,
                                qd.mantissa,
                                qd.scale,
                                false,
                                10000u128,
                                0u32,
                            ) == Option::Some((d.neg, d.mantissa, d.scale)));
                            assert(d == dec_of_triple((d.neg, d.mantissa, d.scale)));
                            assert(Option::Some(d) == spec_bps(av, bv));
                        }
                        Some(d)
                    },
                    None => None,
                }
            },
            _ => None,
        }
    }

    /// The mid price: the exact arithmetic mean of the best ask and best
    /// bid prices. `None` when either side is empty or the exact mean has
    /// no decimal representation.
    pub fn mid_price(&self) -> (r: Option<Dec>)
        requires
            self.wf(),
        ensures
            (self.asks_seq().len() == 0 || self.bids_seq().len() == 0) ==> r is None,
            (self.asks_seq().len() > 0 && self.bids_seq().len() > 0) ==> {
                let a = self.asks_seq()[0].price;
                let b = self.bids_seq().last().price;
                &&& (r matches Option::Some(d) ==> d.wf() && 2 * d.uval() == a.uval() + b.uval())
                &&& (a.uval() >= 0 && b.uval() >= 0 ==> (r is Some <==> representable_half(
                    a.uval() + b.uval(),
                )))
            },
    {
        let fa = self.asks.first();
        let fb = self.bids.last();
        match (fa, fb) {
            (Some(a), Some(b)) => {
                proof {
                    assert(level_ok(self.asks_seq()[0]));
                    assert(level_ok(self.bids_seq()[self.bids_seq().len() - 1]));
                }
                a.price.checked_mean(&b.price)
            },
            _ => None,
        }
    }

    /// The best `n` ask levels, lowest price first; fewer when the side
    /// is shallower.
    pub fn top_asks(&self, n: usize) -> (r: Vec<PriceLevel>)
        requires
            self.wf(),
        ensures
            r@.len() == (if n <= self.asks_seq().len() {
                n as int
            } else {
                self.asks_seq().len() as int
            }),
            forall|i: int|
                0 <= i < r@.len() ==> ((#[trigger] r@[i]).price@ == level_price_str(
                    self.asks_seq()[i],
                ) && r@[i].size@ == level_size_str(self.asks_seq()[i])),
    {
        let mut out: Vec<PriceLevel> = Vec::new();
        let mut i: usize = 0;
        let len = self.asks.len();
        let limit = if n <= len {
            n
        } else {
            len
        };
        while i < limit
            invariant
                self.wf(),
                limit <= self.asks_seq().len(),
                i <= limit,
                out@.len() == i,
                forall|j: int|
                    0 <= j < i ==> ((#[trigger] out@[j]).price@ == level_price_str(
                        self.asks_seq()[j],
                    ) && out@[j].size@ == level_size_str(self.asks_seq()[j])),
            decreases limit - i,
        {
            let l = self.asks.at(i);
            proof {
                assert(level_ok(self.asks_seq()[i as int]));
            }
            out.push(render_level(&l));
            i = i + 1;
        }
        out
    }

    /// The best `n` bid levels, highest price first; fewer when the side
    /// is shallower.
    pub fn top_bids(&self, n: usize) -> (r: Vec<PriceLevel>)
        requires
            self.wf(),
        ensures
            r@.len() == (if n <= self.bids_seq().len() {
                n as int
            } else {
                self.bids_seq().len() as int
            }),
            forall|i: int|
                0 <= i < r@.len() ==> ((#[trigger] r@[i]).price@ == level_price_str(
                    self.bids_seq()[self.bids_seq().len() - 1 - i],
                ) && r@[i].size@ == level_size_str(self.bids_seq()[self.bids_seq().len() - 1 - i])),
    {
        let mut out: Vec<PriceLevel> = Vec::new();
        let mut i: usize = 0;
        let len = self.bids.len();
        let limit = if n <= len {
            n
        } else {
            len
        };
        while i < limit
            invariant
                self.wf(),
                limit <= self.bids_seq().len(),
                self.bids_seq().len() == len,
                i <= limit,
                out@.len() == i,
                forall|j: int|
                    0 <= j < i ==> ((#[trigger] out@[j]).price@ == level_price_str(
                        self.bids_seq()[self.bids_seq().len() - 1 - j],
                    ) && out@[j].size@ == level_size_str(
                        self.bids_seq()[self.bids_seq().len() - 1 - j],
                    )),
            decreases limit - i,
        {
            let l = self.bids.at(len - 1 - i);
            proof {
                assert(level_ok(self.bids_seq()[len - 1 - i as int]));
            }
            out.push(render_level(&l));
            i = i + 1;
        }
        out
    }

    /// All ask levels, lowest price first.
    pub fn all_asks(&self) -> (r: Vec<PriceLevel>)
        requires
            self.wf(),
        ensures
            r@.len() == self.asks_seq().len(),
            forall|i: int|
                0 <= i < r@.len() ==> ((#[trigger] r@[i]).price@ == level_price_str(
                    self.asks_seq()[i],
                ) && r@[i].size@ == level_size_str(self.asks_seq()[i])),
    {
        let n = self.asks.len();
        self.top_asks(n)
    }

    /// All bid levels, highest price first.
    pub fn all_bids(&self) -> (r: Vec<PriceLevel>)
        requires
            self.wf(),
        ensures
            r@.len() == self.bids_seq().len(),
            forall|i: int|
                0 <= i < r@.len() ==> ((#[trigger] r@[i]).price@ == level_price_str(
                    self.bids_seq()[self.bids_seq().len() - 1 - i],
                ) && r@[i].size@ == level_size_str(self.bids_seq()[self.bids_seq().len() - 1 - i])),
    {
        let n = self.bids.len();
        self.top_bids(n)
    }

    /// The number of distinct ask price levels.
    pub fn ask_depth(&self) -> (r: usize)
        ensures
            r == self.asks_seq().len(),
    {
        self.asks.len()
    }

    /// The number of distinct bid price levels.
    pub fn bid_depth(&self) -> (r: usize)
        ensures
            r == self.bids_seq().len(),
    {
        self.bids.len()
    }

    /// The exact sum of all ask sizes. `None` exactly when some partial
    /// sum has no exact decimal representation.
    pub fn total_ask_volume(&self) -> (r: Option<Dec>)
        requires
            self.wf(),
        ensures
            r matches Option::Some(d) ==> (d.wf() && d.uval() == sum_sizes(self.asks_seq())),
            r is Some <==> sums_representable(self.asks_seq()),
    {
        sum_store_sizes(&self.asks)
    }

    /// The exact sum of all bid sizes. `None` exactly when some partial
    /// sum has no exact decimal representation.
    pub fn total_bid_volume(&self) -> (r: Option<Dec>)
        requires
            self.wf(),
        ensures
            r matches Option::Some(d) ==> (d.wf() && d.uval() == sum_sizes(self.bids_seq())),
            r is Some <==> sums_representable(self.bids_seq()),
    {
        sum_store_sizes(&self.bids)
    }

    /// The exact sum of the ask sizes priced at or below `price`
    /// (cumulative liquidity up to that price). `None` exactly when some
    /// partial sum has no exact decimal representation.
    pub fn ask_volume_to_price(&self, price: &Dec) -> (r: Option<Dec>)
        requires
            self.wf(),
            price.wf(),
        ensures
            r matches Option::Some(d) ==> (d.wf() && d.uval() == sum_sizes_le(
                self.asks_seq(),
                price.uval(),
            )),
            r is Some <==> sums_le_representable(self.asks_seq(), price.uval()),
    {
        let ghost s = self.asks_seq();
        let ghost pv = price.uval();
        let n = self.asks.len();
        let mut acc = Dec::zero();
        let mut i: usize = 0;
        proof {
            assert(s.take(0) =~= Seq::<Level>::empty());
        }
        while i < n
            invariant
                self.wf(),
                price.wf(),
                s == self.asks_seq(),
                pv == price.uval(),
                n == s.len(),
                i <= n,
                acc.wf(),
                acc.uval() == sum_sizes_le(s.take(i as int), pv),
                acc.uval() >= 0,
                forall|k: int| 1 <= k <= i ==> representable(sum_sizes_le(#[trigger] s.take(k), pv)),
            decreases n - i,
        {
            let l = self.asks.at(i);
            proof {
                assert(level_ok(s[i as int]));
                assert(s.take(i + 1).drop_last() =~= s.take(i as int));
                assert(s.take(i + 1).last() == s[i as int]);
            }
            if l.price.le(price) {
                match acc.checked_add(&l.size) {
                    Some(a) => {
                        acc = a;
                    },
                    None => {
                        proof {
                            assert(!representable(sum_sizes_le(s.take(i + 1), pv)));
                        }
                        return None;
                    },
                }
            } else {
                proof {
                    crate::decimal::lemma_dec_representable(acc);
                    assert(sum_sizes_le(s.take(i + 1), pv) == acc.uval());
                }
            }
            i = i + 1;
        }
        proof {
            assert(s.take(n as int) =~= s);
        }
        Some(acc)
    }

    /// The exact sum of the bid sizes priced at or above `price`
    /// (cumulative liquidity down to that price). `None` exactly when
    /// some partial sum has no exact decimal representation.
    pub fn bid_volume_to_price(&self, price: &Dec) -> (r: Option<Dec>)
        requires
            self.wf(),
            price.wf(),
        ensures
            r matches Option::Some(d) ==> (d.wf() && d.uval() == sum_sizes_ge(
                self.bids_seq(),
                price.uval(),
            )),
            r is Some <==> sums_ge_representable(self.bids_seq(), price.uval()),
    {
        let ghost s = self.bids_seq();
        let ghost pv = price.uval();
        let n = self.bids.len();
        let mut acc = Dec::zero();
        let mut i: usize = 0;
        proof {
            assert(s.take(0) =~= Seq::<Level>::empty());
        }
        while i < n
            invariant
                self.wf(),
                price.wf(),
                s == self.bids_seq(),
                pv == price.uval(),
                n == s.len(),
                i <= n,
                acc.wf(),
                acc.uval() == sum_sizes_ge(s.take(i as int), pv),
                acc.uval() >= 0,
                forall|k: int| 1 <= k <= i ==> representable(sum_sizes_ge(#[trigger] s.take(k), pv)),
            decreases n - i,
        {
            let l = self.bids.at(i);
            proof {
                assert(level_ok(s[i as int]));
                assert(s.take(i + 1).drop_last() =~= s.take(i as int));
                assert(s.take(i + 1).last() == s[i as int]);
            }
            if !l.price.lt(price) {
                match acc.checked_add(&l.size) {
                    Some(a) => {
                        acc = a;
                    },
                    None => {
                        proof {
                            assert(!representable(sum_sizes_ge(s.take(i + 1), pv)));
                        }
                        return None;
                    },
                }
            } else {
                proof {
                    crate::decimal::lemma_dec_representable(acc);
                    assert(sum_sizes_ge(s.take(i + 1), pv) == acc.uval());
                }
            }
            i = i + 1;
        }
        proof {
            assert(s.take(n as int) =~= s);
        }
        Some(acc)
    }

    /// Render the whole book: both sides in full, best price first.
    pub fn to_order_book(&self) -> (r: OrderBook)
        requires
            self.wf(),
        ensures
            r.asks@.len() == self.asks_seq().len(),
            r.bids@.len() == self.bids_seq().len(),
            forall|i: int|
                0 <= i < r.asks@.len() ==> ((#[trigger] r.asks@[i]).price@ == level_price_str(
                    self.asks_seq()[i],
                ) && r.asks@[i].size@ == level_size_str(self.asks_seq()[i])),
            forall|i: int|
                0 <= i < r.bids@.len() ==> ((#[trigger] r.bids@[i]).price@ == level_price_str(
                    self.bids_seq()[self.bids_seq().len() - 1 - i],
                ) && r.bids@[i].size@ == level_size_str(
                    self.bids_seq()[self.bids_seq().len() - 1 - i],
                )),
    {
        let depth_a = self.ask_depth();
        let depth_b = self.bid_depth();
        OrderBook { asks: self.top_asks(depth_a), bids: self.top_bids(depth_b) }
    }
}

/// Sum the sizes of one side, exactly.
fn sum_store_sizes(store: &LevelStore) -> (r: Option<Dec>)
    requires
        store_wf(store@),
    ensures
        r matches Option::Some(d) ==> (d.wf() && d.uval() == sum_sizes(store@)),
        r is Some <==> sums_representable(store@),
{
    let ghost s = store@;
    let n = store.len();
    let mut acc = Dec::zero();
    let mut i: usize = 0;
    proof {
        assert(s.take(0) =~= Seq::<Level>::empty());
    }
    while i < n
        invariant
            store_wf(s),
            s == store@,
            n == s.len(),
            i <= n,
            acc.wf(),
            acc.uval() == sum_sizes(s.take(i as int)),
            acc.uval() >= 0,
            forall|k: int| 1 <= k <= i ==> representable(sum_sizes(#[trigger] s.take(k))),
        decreases n - i,
    {
        let l = store.at(i);
        proof {
            assert(level_ok(s[i as int]));
            assert(s.take(i + 1).drop_last() =~= s.take(i as int));
            assert(s.take(i + 1).last() == s[i as int]);
        }
        match acc.checked_add(&l.size) {
            Some(a) => {
                acc = a;
            },
            None => {
                proof {
                    assert(!representable(sum_sizes(s.take(i + 1))));
                }
                return None;
            },
        }
        i = i + 1;
    }
    proof {
        assert(s.take(n as int) =~= s);
    }
    Some(acc)
}

impl Clone for ManagedOrderBook {
    /// An independent copy of the book: same levels, same metadata.
    fn clone(&self) -> (res: ManagedOrderBook)
        ensures
            res.asks_seq() == self.asks_seq(),
            res.bids_seq() == self.bids_seq(),
            res.offset == self.offset,
            res.nonce == self.nonce,
            res.timestamp == self.timestamp,
            res.market_id@ == self.market_id@,
    {
        ManagedOrderBook {
            asks: self.asks.clone(),
            bids: self.bids.clone(),
            offset: self.offset,
            nonce: self.nonce,
            timestamp: self.timestamp,
            market_id: self.market_id.clone(),
        }
    }
}

/// Law: both sides of a well-formed book hold strictly positive sizes,
/// the ask side ascends strictly in price, and the bid side, read
/// best-first (from its last level backwards), descends strictly. This
/// is the state every successful snapshot or delta application
/// establishes.
pub proof fn lemma_book_sides_ordered(b: ManagedOrderBook)
    requires
        b.wf(),
    ensures
        forall|i: int, j: int|
            0 <= i < j < b.asks_seq().len() ==> #[trigger] b.asks_seq()[i].price.uval()
                < #[trigger] b.asks_seq()[j].price.uval(),
        forall|i: int|
            0 <= i < b.asks_seq().len() ==> (#[trigger] b.asks_seq()[i].size.uval()) > 0,
        forall|i: int, j: int|
            0 <= i < j < b.bids_seq().len() ==> #[trigger] b.bids_seq()[i].price.uval()
                < #[trigger] b.bids_seq()[j].price.uval(),
        forall|i: int|
            0 <= i < b.bids_seq().len() ==> (#[trigger] b.bids_seq()[i].size.uval()) > 0,
{
    assert forall|i: int| 0 <= i < b.asks_seq().len() implies (
    #[trigger] b.asks_seq()[i].size.uval()) > 0 by {
        assert(level_ok(b.asks_seq()[i]));
    }
    assert forall|i: int| 0 <= i < b.bids_seq().len() implies (
    #[trigger] b.bids_seq()[i].size.uval()) > 0 by {
        assert(level_ok(b.bids_seq()[i]));
    }
}

/// Law: the total volume counts the sizes of exactly the reported
/// levels: after the first `k` levels the running sum grows by level
/// `k`'s size, so the side's total is the sum of the sizes of the
/// levels the side reports, in their order.
pub proof fn lemma_total_volume_counts_each_level(s: Seq<Level>, k: int)
    requires
        0 <= k < s.len(),
    ensures
        sum_sizes(s.take(k + 1)) == sum_sizes(s.take(k)) + s[k].size.uval(),
{
    assert(s.take(k + 1).drop_last() =~= s.take(k));
    assert(s.take(k + 1).last() == s[k]);
}

/// Law: a delta entry with size zero removes exactly the level at its
/// price and no other: the price's key leaves the map view, every other
/// key keeps its level.
pub proof fn lemma_delta_zero_removes(m: Map<int, Level>, p: Dec, z: Dec)
    requires
        z.uval() == 0,
    ensures
        !map_delta(m, p, z).contains_key(p.uval()),
        forall|v: int|
            v != p.uval() ==> (#[trigger] map_delta(m, p, z).contains_key(v) <==> m.contains_key(
                v,
            )),
        forall|v: int|
            v != p.uval() && m.contains_key(v) ==> #[trigger] map_delta(m, p, z)[v] == m[v],
{
}

/// Law: re-applying an applied delta is a no-op. After a successful
/// application the book's offset equals the delta's, so the delta no
/// longer satisfies `delta_applies`, and `apply_update` then returns
/// `Ok` and leaves the book unchanged.
pub proof fn lemma_delta_reapply_noop(b: ManagedOrderBook, u: OrderBookUpdate)
    requires
        b.offset >= u.offset,
    ensures
        !b.delta_applies(u),
{
}

} // verus!
