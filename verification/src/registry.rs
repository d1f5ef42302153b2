//! The book registry: one managed order book per market identifier.
//!
//! The registry owns every book. The ingestion path routes snapshots and
//! deltas to the book of their market; readers receive independent
//! copies, never references into the registry. Creation is idempotent:
//! looking up a market that already has a book returns that book.

use vstd::prelude::*;
use vstd::pervasive::VecAdditionalExecFns;
use crate::errors::LighterError;
use crate::level_store::as_map;
use crate::order_book::{
    ManagedOrderBook, OrderBookSnapshot, OrderBookUpdate, snap_fold, delta_fold, levels_parse_ok,
};

verus! {

/// Well-formed registry: every book is well-formed and market
/// identifiers are unique.
pub open spec fn registry_wf(s: Seq<ManagedOrderBook>) -> bool {
    &&& forall|i: int| 0 <= i < s.len() ==> (#[trigger] s[i]).wf()
    &&& forall|i: int, j: int|
        0 <= i < j < s.len() ==> (#[trigger] s[i].market_id@) != (#[trigger] s[j].market_id@)
}

/// Whether some book carries the given market identifier.
pub open spec fn has_market(s: Seq<ManagedOrderBook>, id: Seq<char>) -> bool {
    exists|i: int| 0 <= i < s.len() && (#[trigger] s[i].market_id@) == id
}

/// The index of the book carrying the given market identifier.
pub open spec fn index_of_market(s: Seq<ManagedOrderBook>, id: Seq<char>) -> int {
    choose|i: int| 0 <= i < s.len() && (#[trigger] s[i].market_id@) == id
}

/// Two books with the same content: same sides, same sequence metadata,
/// same market; the timestamp may differ.
pub open spec fn same_book_content(a: ManagedOrderBook, b: ManagedOrderBook) -> bool {
    &&& a.asks_seq() == b.asks_seq()
    &&& a.bids_seq() == b.bids_seq()
    &&& a.offset == b.offset
    &&& a.nonce == b.nonce
    &&& a.market_id@ == b.market_id@
}

/// Two books with the same model: same content and same timestamp.
pub open spec fn same_book(a: ManagedOrderBook, b: ManagedOrderBook) -> bool {
    same_book_content(a, b) && a.timestamp == b.timestamp
}

/// The registry itself: the owned set of books.
#[derive(Debug)]
pub struct BookRegistry {
    books: Vec<ManagedOrderBook>,
}

impl View for BookRegistry {
    type V = Seq<ManagedOrderBook>;

    closed spec fn view(&self) -> Seq<ManagedOrderBook> {
        self.books@
    }
}

impl BookRegistry {
    /// An empty registry.
    pub fn new() -> (r: BookRegistry)
        ensures
            r@ =~= Seq::<ManagedOrderBook>::empty(),
            registry_wf(r@),
    {
        BookRegistry { books: Vec::new() }
    }

    /// The number of markets with a book.
    pub fn len(&self) -> (r: usize)
        ensures
            r == self@.len(),
    {
        self.books.len()
    }

    /// The index of the market's book, if the market has one.
    fn find(&self, market_id: &str) -> (r: Option<usize>)
        requires
            registry_wf(self@),
        ensures
            r is Some <==> has_market(self@, market_id@),
            r matches Option::Some(i) ==> (i < self@.len() && self@[i as int].market_id@
                == market_id@ && i == index_of_market(self@, market_id@)),
    {
        let key = market_id.to_owned();
        let n = self.books.len();
        let mut i: usize = 0;
        while i < n
            invariant
                registry_wf(self@),
                key@ == market_id@,
                n == self@.len(),
                i <= n,
                forall|j: int| 0 <= j < i ==> (#[trigger] self@[j].market_id@) != market_id@,
            decreases n - i,
        {
            if self.books[i].market_id == key {
                proof {
                    assert(self@[i as int].market_id@ == market_id@);
                    let k = index_of_market(self@, market_id@);
                    assert(0 <= k < self@.len() && self@[k].market_id@ == market_id@);
                    if k < i {
                        assert(self@[k].market_id@ != market_id@);
                    } else if k > i {
                        assert(self@[i as int].market_id@ != self@[k].market_id@);
                    }
                }
                return Some(i);
            }
            i = i + 1;
        }
        None
    }

    /// Look up the market's book, creating an empty one when the market
    /// is new. Returns the index of the book; repeated calls for the
    /// same market return the same book.
    pub fn get_or_create(&mut self, market_id: &str) -> (r: usize)
        requires
            registry_wf(old(self)@),
        ensures
            registry_wf(final(self)@),
            has_market(final(self)@, market_id@),
            r < final(self)@.len(),
            final(self)@[r as int].market_id@ == market_id@,
            r == index_of_market(final(self)@, market_id@),
            has_market(old(self)@, market_id@) ==> final(self)@ == old(self)@,
            !has_market(old(self)@, market_id@) ==> (final(self)@.len() == old(self)@.len() + 1
                && final(self)@[r as int].offset == 0 && final(self)@[r as int].asks_seq().len()
                == 0 && final(self)@[r as int].bids_seq().len() == 0),
            forall|k: int| 0 <= k < old(self)@.len() ==> final(self)@[k] == old(self)@[k],
    {
        match self.find(market_id) {
            Some(i) => i,
            None => {
                let ghost s0 = self.books@;
                let book = ManagedOrderBook::new(market_id);
                let i = self.books.len();
                self.books.push(book);
                proof {
                    let s1 = self.books@;
                    assert(s1 =~= s0.push(book));
                    assert(s1[i as int].market_id@ == market_id@);
                    assert forall|a: int, b: int| 0 <= a < b < s1.len() implies (
                    #[trigger] s1[a].market_id@) != (#[trigger] s1[b].market_id@) by {
                        if b < i {
                            assert(s1[a] == s0[a] && s1[b] == s0[b]);
                        } else {
                            assert(b == i);
                            assert(s1[a] == s0[a]);
                            assert(!has_market(s0, market_id@));
                            assert(s0[a].market_id@ != market_id@);
                        }
                    }
                    assert forall|a: int| 0 <= a < s1.len() implies (#[trigger] s1[a]).wf() by {
                        if a < i {
                            assert(s1[a] == s0[a]);
                        }
                    }
                    let k = index_of_market(s1, market_id@);
                    assert(0 <= k < s1.len() && s1[k].market_id@ == market_id@);
                    if k < i {
                        assert(s1[k] == s0[k]);
                        assert(!has_market(s0, market_id@));
                        assert(false);
                    }
                }
                i
            },
        }
    }

    /// Apply a snapshot to the market's book, creating the book first
    /// when the market is new, and stamp the book with the message's
    /// timestamp. A snapshot with an unparseable price or size fails and
    /// leaves every book (and its timestamp) exactly as it was; a fresh
    /// market then keeps an empty book.
    pub fn apply_snapshot(
        &mut self,
        market_id: &str,
        snapshot: &OrderBookSnapshot,
        timestamp: u64,
    ) -> (r: Result<(), LighterError>)
        requires
            registry_wf(old(self)@),
        ensures
            registry_wf(final(self)@),
            has_market(final(self)@, market_id@),
            r is Ok <==> (levels_parse_ok(snapshot.asks@) && levels_parse_ok(snapshot.bids@)),
            ({
                let j = index_of_market(final(self)@, market_id@);
                let b = final(self)@[j];
                r is Ok ==> (as_map(b.asks_seq()) == snap_fold(
                    Map::empty(),
                    snapshot.asks@,
                ) && as_map(b.bids_seq()) == snap_fold(Map::empty(), snapshot.bids@) && b.offset
                    == snapshot.offset && b.nonce == snapshot.nonce && b.timestamp == timestamp)
            }),
            (r is Err && has_market(old(self)@, market_id@)) ==> final(self)@ == old(self)@,
            (r is Err && !has_market(old(self)@, market_id@)) ==> ({
                let j = index_of_market(final(self)@, market_id@);
                let b = final(self)@[j];
                b.offset == 0 && b.asks_seq().len() == 0 && b.bids_seq().len() == 0
            }),
            forall|k: int|
                0 <= k < final(self)@.len() && (#[trigger] final(self)@[k].market_id@)
                    != market_id@ ==> (k < old(self)@.len() && final(self)@[k] == old(self)@[k]),
    {
        let i = self.get_or_create(market_id);
        let ghost s0 = self.books@;
        let mut book = self.books[i].clone();
        book.timestamp = timestamp;
        let r = book.apply_snapshot(snapshot);
        if r.is_err() {
            // all-or-nothing: keep the stored book, timestamp included
            proof {
                let k = index_of_market(s0, market_id@);
                assert(0 <= k < s0.len() && s0[k].market_id@ == market_id@);
                if k != i {
                    assert(s0[k].market_id@ != s0[i as int].market_id@);
                    assert(false);
                }
            }
            return r;
        }
        self.books.set(i, book);
        proof {
            let s1 = self.books@;
            assert(s1 =~= s0.update(i as int, book));
            assert(book.market_id@ == s0[i as int].market_id@);
            assert(s1[i as int].market_id@ == market_id@);
            assert forall|a: int, b: int| 0 <= a < b < s1.len() implies (
            #[trigger] s1[a].market_id@) != (#[trigger] s1[b].market_id@) by {
                assert(s0[a].market_id@ != s0[b].market_id@);
                if a == i {
                    assert(s1[a].market_id@ == s0[a].market_id@);
                } else if b == i {
                    assert(s1[b].market_id@ == s0[b].market_id@);
                }
            }
            assert forall|a: int| 0 <= a < s1.len() implies (#[trigger] s1[a]).wf() by {
                if a != i {
                    assert(s1[a] == s0[a]);
                    assert(s0[a].wf());
                }
            }
            let k = index_of_market(s1, market_id@);
            assert(0 <= k < s1.len() && s1[k].market_id@ == market_id@);
            if k != i {
                assert(s1[k].market_id@ != s1[i as int].market_id@);
                assert(false);
            }
        }
        r
    }

    /// Apply a delta to the market's book, stamping the book with the
    /// message's timestamp. A delta for a market without a book is
    /// ignored with no change at all (there is no baseline to diff
    /// against); a stale or failing delta leaves the book's content
    /// untouched but still records the timestamp, as the ingestion path
    /// does for every delivered message.
    pub fn apply_delta(
        &mut self,
        market_id: &str,
        update: &OrderBookUpdate,
        timestamp: u64,
    ) -> (r: Result<(), LighterError>)
        requires
            registry_wf(old(self)@),
        ensures
            registry_wf(final(self)@),
            !has_market(old(self)@, market_id@) ==> (r is Ok && final(self)@ == old(self)@),
            has_market(old(self)@, market_id@) ==> ({
                let j = index_of_market(old(self)@, market_id@);
                let prev = old(self)@[j];
                let b = final(self)@[j];
                &&& final(self)@.len() == old(self)@.len()
                &&& b.timestamp == timestamp
                &&& (r is Ok <==> (!prev.delta_applies(*update) || (levels_parse_ok(update.asks@)
                    && levels_parse_ok(update.bids@))))
                &&& (!prev.delta_applies(*update) ==> same_book_content(b, prev))
                &&& ((prev.delta_applies(*update) && r is Ok) ==> (as_map(b.asks_seq())
                    == delta_fold(as_map(prev.asks_seq()), update.asks@) && as_map(b.bids_seq())
                    == delta_fold(as_map(prev.bids_seq()), update.bids@) && b.offset
                    == update.offset && b.nonce == update.nonce))
                &&& (r is Err ==> same_book_content(b, prev))
                &&& forall|k: int| 0 <= k < old(self)@.len() && k != j ==> final(self)@[k] == old(
                    self,
                )@[k]
            }),
    {
        match self.find(market_id) {
            None => Ok(()),
            Some(i) => {
                let ghost s0 = self.books@;
                let mut book = self.books[i].clone();
                let ghost prev = self.books@[i as int];
                book.timestamp = timestamp;
                let ghost cloned = book;
                let r = book.apply_update(update);
                self.books.set(i, book);
                proof {
                    let s1 = self.books@;
                    assert(s1 =~= s0.update(i as int, book));
                    assert(book.market_id@ == s0[i as int].market_id@);
                    assert forall|a: int, b: int| 0 <= a < b < s1.len() implies (
                    #[trigger] s1[a].market_id@) != (#[trigger] s1[b].market_id@) by {
                        assert(s0[a].market_id@ != s0[b].market_id@);
                        if a == i {
                            assert(s1[a].market_id@ == s0[a].market_id@);
                        } else if b == i {
                            assert(s1[b].market_id@ == s0[b].market_id@);
                        }
                    }
                    assert forall|a: int| 0 <= a < s1.len() implies (#[trigger] s1[a]).wf() by {
                        if a != i {
                            assert(s1[a] == s0[a]);
                            assert(s0[a].wf());
                        }
                    }
                    // the clone carries the same model, so the update's
                    // contract transfers to the stored book
                    assert(cloned.asks_seq() == prev.asks_seq());
                    assert(cloned.bids_seq() == prev.bids_seq());
                    assert(cloned.offset == prev.offset);
                    let k = index_of_market(s0, market_id@);
                    assert(0 <= k < s0.len() && s0[k].market_id@ == market_id@);
                    if k != i {
                        assert(s0[k].market_id@ != s0[i as int].market_id@);
                        assert(false);
                    }
                }
                r
            },
        }
    }

    /// An independent copy of the market's book, or `None` when the
    /// market has none.
    pub fn snapshot_read(&self, market_id: &str) -> (r: Option<ManagedOrderBook>)
        requires
            registry_wf(self@),
        ensures
            r is Some <==> has_market(self@, market_id@),
            r matches Option::Some(b) ==> ({
                let prev = self@[index_of_market(self@, market_id@)];
                &&& b.asks_seq() == prev.asks_seq()
                &&& b.bids_seq() == prev.bids_seq()
                &&& b.offset == prev.offset
                &&& b.nonce == prev.nonce
                &&& b.timestamp == prev.timestamp
                &&& b.market_id@ == prev.market_id@
            }),
    {
        match self.find(market_id) {
            None => None,
            Some(i) => Some(self.books[i].clone()),
        }
    }
}

} // verus!
