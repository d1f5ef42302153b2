//! The price level store: one side of an order book.
//!
//! A store maps each price to a strictly positive size, and keeps its
//! levels sorted strictly ascending by price. It is modelled two ways:
//! as the sequence of its levels (which carries the order) and as the
//! finite map from price value to level (which carries the contents);
//! the sequence view determines the map view.

use vstd::prelude::*;
use vstd::map::*;
use vstd::pervasive::VecAdditionalExecFns;
use crate::decimal::Dec;

verus! {

/// One price level: an exact price and a strictly positive exact size.
#[derive(Debug, Clone, Copy)]
pub struct Level {
    pub price: Dec,
    pub size: Dec,
}

/// A level in good standing: well-formed decimals, strictly positive size.
pub open spec fn level_ok(l: Level) -> bool {
    l.price.wf() && l.size.wf() && l.size.uval() > 0
}

/// Well-formed side: every level holds well-formed decimals, every size
/// is strictly positive, and prices are sorted strictly ascending.
pub open spec fn store_wf(s: Seq<Level>) -> bool {
    &&& forall|i: int| 0 <= i < s.len() ==> level_ok(#[trigger] s[i])
    &&& forall|i: int, j: int|
        0 <= i < j < s.len() ==> #[trigger] s[i].price.uval() < #[trigger] s[j].price.uval()
}

/// Whether some level carries the given price value.
pub open spec fn has_price(s: Seq<Level>, v: int) -> bool {
    exists|i: int| 0 <= i < s.len() && #[trigger] s[i].price.uval() == v
}

/// The index of the level carrying the given price value.
pub open spec fn index_of_price(s: Seq<Level>, v: int) -> int {
    choose|i: int| 0 <= i < s.len() && #[trigger] s[i].price.uval() == v
}

/// The contents of a side as a finite map from price value to level.
pub open spec fn as_map(s: Seq<Level>) -> Map<int, Level> {
    Map::new(|v: int| has_price(s, v), |v: int| s[index_of_price(s, v)])
}

/// Insert-or-replace on the map view: a new price brings its level in;
/// an existing price keeps its stored price object and takes the new
/// size.
pub open spec fn map_upsert(m: Map<int, Level>, p: Dec, z: Dec) -> Map<int, Level> {
    if m.contains_key(p.uval()) {
        m.insert(p.uval(), Level { price: m[p.uval()].price, size: z })
    } else {
        m.insert(p.uval(), Level { price: p, size: z })
    }
}

/// In a well-formed side, the level at any index is what the map view
/// yields for its price.
pub proof fn lemma_as_map_at(s: Seq<Level>, i: int)
    requires
        store_wf(s),
        0 <= i < s.len(),
    ensures
        has_price(s, s[i].price.uval()),
        as_map(s).contains_key(s[i].price.uval()),
        as_map(s)[s[i].price.uval()] == s[i],
{
    let v = s[i].price.uval();
    assert(has_price(s, v));
    let j = index_of_price(s, v);
    assert(0 <= j < s.len() && s[j].price.uval() == v);
    if i < j {
        assert(s[i].price.uval() < s[j].price.uval());
        assert(false);
    } else if j < i {
        assert(s[j].price.uval() < s[i].price.uval());
        assert(false);
    }
}

/// Replacing the size at an existing index performs `map_upsert` on the
/// map view and keeps the side well-formed.
proof fn lemma_store_replace(s0: Seq<Level>, i: int, pv: Dec, size: Dec)
    requires
        store_wf(s0),
        0 <= i < s0.len(),
        pv.wf(),
        size.wf(),
        size.uval() > 0,
        s0[i].price.uval() == pv.uval(),
    ensures
        ({
            let s1 = s0.update(i, Level { price: s0[i].price, size });
            &&& store_wf(s1)
            &&& as_map(s1) == map_upsert(as_map(s0), pv, size)
            &&& has_price(s0, pv.uval())
        }),
{
    let new_level = Level { price: s0[i].price, size };
    let s1 = s0.update(i, new_level);
    assert forall|a: int, b: int| 0 <= a < b < s1.len() implies #[trigger] s1[a].price.uval()
        < #[trigger] s1[b].price.uval() by {
        assert(s0[a].price.uval() < s0[b].price.uval());
    }
    assert(store_wf(s1)) by {
        assert forall|k: int| 0 <= k < s1.len() implies level_ok(#[trigger] s1[k]) by {
            if k != i {
                assert(s1[k] == s0[k]);
                assert(level_ok(s0[k]));
            } else {
                assert(s1[k] == new_level);
                assert(level_ok(s0[i]));
            }
        }
    }
    lemma_as_map_at(s0, i);
    assert(has_price(s0, pv.uval()));
    let m1 = as_map(s1);
    let m2 = map_upsert(as_map(s0), pv, size);
    assert forall|v: int| m1.contains_key(v) implies m2.contains_key(v) by {
        let k = index_of_price(s1, v);
        if k == i {
            assert(has_price(s0, s0[k].price.uval()));
        } else {
            assert(s1[k] == s0[k]);
            assert(has_price(s0, v));
        }
    }
    assert forall|v: int| m2.contains_key(v) implies m1.contains_key(v) by {
        if v == pv.uval() {
            assert(s1[i].price.uval() == v);
            assert(has_price(s1, v));
        } else {
            let k = index_of_price(s0, v);
            assert(s1[k] == s0[k]);
            assert(has_price(s1, v));
        }
    }
    assert forall|v: int| m1.contains_key(v) implies m1[v] == m2[v] by {
        lemma_as_map_at(s1, index_of_price(s1, v));
        if v == pv.uval() {
            lemma_as_map_at(s1, i);
        } else {
            let k = index_of_price(s0, v);
            assert(s0[k].price.uval() == v);
            assert(s1[k] == s0[k]);
            lemma_as_map_at(s1, k);
            lemma_as_map_at(s0, k);
        }
    }
    assert(m1 =~= m2);
}

/// Inserting a new level at its sorted position performs `map_upsert` on
/// the map view and keeps the side well-formed.
#[verifier::rlimit(50)]
proof fn lemma_store_insert(s0: Seq<Level>, i: int, lvl: Level)
    requires
        store_wf(s0),
        0 <= i <= s0.len(),
        lvl.price.wf(),
        lvl.size.wf(),
        lvl.size.uval() > 0,
        forall|j: int| 0 <= j < i ==> #[trigger] s0[j].price.uval() < lvl.price.uval(),
        i < s0.len() ==> lvl.price.uval() < s0[i].price.uval(),
    ensures
        ({
            let s1 = s0.insert(i, lvl);
            &&& store_wf(s1)
            &&& as_map(s1) == map_upsert(as_map(s0), lvl.price, lvl.size)
            &&& !has_price(s0, lvl.price.uval())
        }),
{
    s0.insert_ensures(i, lvl);
    let s1 = s0.insert(i, lvl);
    let pv = lvl.price;
    assert forall|a: int, b: int| 0 <= a < b < s1.len() implies #[trigger] s1[a].price.uval()
        < #[trigger] s1[b].price.uval() by {
        if b < i {
            assert(s1[a] == s0[a] && s1[b] == s0[b]);
            assert(s0[a].price.uval() < s0[b].price.uval());
        } else if b == i {
            assert(s1[a] == s0[a]);
        } else {
            assert(s1[b] == s0[b - 1]);
            if a < i {
                assert(s1[a] == s0[a]);
                assert(a < b - 1 || i == b - 1);
                if a < b - 1 {
                    assert(s0[a].price.uval() < s0[b - 1].price.uval());
                }
            } else if a == i {
                assert(b - 1 >= i);
                if b - 1 == i {
                } else {
                    assert(s0[i].price.uval() < s0[b - 1].price.uval());
                }
            } else {
                assert(s1[a] == s0[a - 1]);
                assert(s0[a - 1].price.uval() < s0[b - 1].price.uval());
            }
        }
    }
    assert(store_wf(s1)) by {
        assert forall|k: int| 0 <= k < s1.len() implies level_ok(#[trigger] s1[k]) by {
            if k < i {
                assert(s1[k] == s0[k]);
                assert(level_ok(s0[k]));
            } else if k > i {
                assert(s1[k] == s0[k - 1]);
                assert(level_ok(s0[k - 1]));
            } else {
                assert(s1[k] == lvl);
            }
        }
    }
    assert(!has_price(s0, pv.uval())) by {
        if has_price(s0, pv.uval()) {
            let k = index_of_price(s0, pv.uval());
            assert(0 <= k < s0.len() && s0[k].price.uval() == pv.uval());
            if k < i {
                assert(s0[k].price.uval() < pv.uval());
            } else if k > i {
                assert(s0[i].price.uval() < s0[k].price.uval());
            }
            assert(false);
        }
    }
    let m1 = as_map(s1);
    let m2 = map_upsert(as_map(s0), pv, lvl.size);
    assert forall|v: int| m1.contains_key(v) implies m2.contains_key(v) by {
        let k = index_of_price(s1, v);
        if k < i {
            assert(s1[k] == s0[k]);
            assert(has_price(s0, v));
        } else if k > i {
            assert(s1[k] == s0[k - 1]);
            assert(has_price(s0, v));
        }
    }
    assert forall|v: int| m2.contains_key(v) implies m1.contains_key(v) by {
        if v == pv.uval() {
            assert(s1[i].price.uval() == v);
            assert(has_price(s1, v));
        } else {
            let k = index_of_price(s0, v);
            if k < i {
                assert(s1[k] == s0[k]);
                assert(has_price(s1, v));
            } else {
                assert(s1[k + 1] == s0[k]);
                assert(has_price(s1, v));
            }
        }
    }
    assert forall|v: int| m1.contains_key(v) implies m1[v] == m2[v] by {
        lemma_as_map_at(s1, index_of_price(s1, v));
        if v == pv.uval() {
            lemma_as_map_at(s1, i);
        } else {
            let k = index_of_price(s0, v);
            assert(s0[k].price.uval() == v);
            lemma_as_map_at(s0, k);
            if k < i {
                assert(s1[k] == s0[k]);
                lemma_as_map_at(s1, k);
            } else {
                assert(s1[k + 1] == s0[k]);
                lemma_as_map_at(s1, k + 1);
            }
        }
    }
    assert(m1 =~= m2);
}

/// The store itself: a sorted vector of levels.
#[derive(Debug)]
pub struct LevelStore {
    levels: Vec<Level>,
}

impl Clone for LevelStore {
    /// An independent copy of the side with the same levels.
    fn clone(&self) -> (res: LevelStore)
        ensures
            res@ == self@,
    {
        let levels = self.levels.clone();
        proof {
            assert forall|i: int| 0 <= i < levels@.len() implies levels@[i] == self.levels@[i] by {
                assert(vstd::pervasive::cloned::<Level>(self.levels@[i], levels@[i]));
            }
            assert(levels@ =~= self.levels@);
        }
        LevelStore { levels }
    }
}

impl View for LevelStore {
    type V = Seq<Level>;

    closed spec fn view(&self) -> Seq<Level> {
        self.levels@
    }
}

impl LevelStore {
    /// An empty side.
    pub fn new() -> (r: LevelStore)
        ensures
            r@ =~= Seq::<Level>::empty(),
            store_wf(r@),
    {
        LevelStore { levels: Vec::new() }
    }

    /// The number of distinct price levels.
    pub fn len(&self) -> (r: usize)
        ensures
            r == self@.len(),
    {
        self.levels.len()
    }

    /// The level at an index, in ascending price order.
    pub fn at(&self, i: usize) -> (r: Level)
        requires
            i < self@.len(),
        ensures
            r == self@[i as int],
    {
        self.levels[i]
    }

    /// The level with the lowest price, if any.
    pub fn first(&self) -> (r: Option<Level>)
        ensures
            self@.len() == 0 ==> r is None,
            self@.len() > 0 ==> r == Option::Some(self@[0]),
    {
        if self.levels.len() > 0 {
            Some(self.levels[0])
        } else {
            None
        }
    }

    /// The level with the highest price, if any.
    pub fn last(&self) -> (r: Option<Level>)
        ensures
            self@.len() == 0 ==> r is None,
            self@.len() > 0 ==> r == Option::Some(self@[self@.len() - 1]),
    {
        if self.levels.len() > 0 {
            Some(self.levels[self.levels.len() - 1])
        } else {
            None
        }
    }

    /// Drop all levels.
    pub fn clear(&mut self)
        ensures
            final(self)@ =~= Seq::<Level>::empty(),
            store_wf(final(self)@),
    {
        self.levels.clear();
    }

    /// Insert a level, or replace the size of the level already at this
    /// price; the stored price object of an existing level is kept.
    pub fn upsert(&mut self, price: Dec, size: Dec)
        requires
            store_wf(old(self)@),
            price.wf(),
            size.wf(),
            size.uval() > 0,
        ensures
            store_wf(final(self)@),
            as_map(final(self)@) == map_upsert(as_map(old(self)@), price, size),
            final(self)@.len() == old(self)@.len() + (
            if has_price(old(self)@, price.uval()) {
                0int
            } else {
                1int
            }),
    {
        let ghost s0 = self.levels@;
        let pv = price;
        let mut i: usize = 0;
        while i < self.levels.len() && self.levels[i].price.lt(&pv)
            invariant
                store_wf(s0),
                pv.wf(),
                self.levels@ == s0,
                i <= s0.len(),
                forall|j: int| 0 <= j < i ==> #[trigger] s0[j].price.uval() < pv.uval(),
            decreases self.levels.len() - i,
        {
            i = i + 1;
        }
        if i < self.levels.len() && self.levels[i].price.eq_val(&pv) {
            // replace the size, keep the stored price
            let old_level = self.levels[i];
            let new_level = Level { price: old_level.price, size };
            self.levels.set(i, new_level);
            proof {
                lemma_store_replace(s0, i as int, pv, size);
                assert(self.levels@ =~= s0.update(i as int, new_level));
            }
        } else {
            let new_level = Level { price: pv, size };
            self.levels.insert(i, new_level);
            proof {
                lemma_store_insert(s0, i as int, new_level);
                assert(self.levels@ =~= s0.insert(i as int, new_level));
            }
        }
    }


    /// Remove the level at this price, if present; no-op otherwise.
    pub fn remove(&mut self, price: &Dec)
        requires
            store_wf(old(self)@),
            price.wf(),
        ensures
            store_wf(final(self)@),
            as_map(final(self)@) == as_map(old(self)@).remove(price.uval()),
            final(self)@.len() == old(self)@.len() - (
            if has_price(old(self)@, price.uval()) {
                1int
            } else {
                0int
            }),
    {
        let ghost s0 = self.levels@;
        let mut i: usize = 0;
        while i < self.levels.len() && !self.levels[i].price.eq_val(price)
            invariant
                store_wf(s0),
                price.wf(),
                self.levels@ == s0,
                i <= s0.len(),
                forall|j: int| 0 <= j < i ==> #[trigger] s0[j].price.uval() != price.uval(),
            decreases self.levels.len() - i,
        {
            i = i + 1;
        }
        if i < self.levels.len() {
            self.levels.remove(i);
            proof {
                let s1 = self.levels@;
                s0.remove_ensures(i as int);
                assert(s1 =~= s0.remove(i as int));
                assert(s0[i as int].price.uval() == price.uval());
                assert forall|a: int, b: int| 0 <= a < b < s1.len() implies #[trigger] s1[a].price.uval()
                    < #[trigger] s1[b].price.uval() by {
                    let a0: int = if a < i { a } else { a + 1 };
                    let b0: int = if b < i { b } else { b + 1 };
                    assert(s1[a] == s0[a0] && s1[b] == s0[b0]);
                    assert(s0[a0].price.uval() < s0[b0].price.uval());
                }
                assert(store_wf(s1)) by {
                    assert forall|k: int| 0 <= k < s1.len() implies level_ok(#[trigger] s1[k]) by {
                        let k0: int = if k < i { k } else { k + 1 };
                        assert(s1[k] == s0[k0]);
                        assert(level_ok(s0[k0]));
                    }
                }
                let m1 = as_map(s1);
                let m2 = as_map(s0).remove(price.uval());
                assert forall|v: int| m1.contains_key(v) implies m2.contains_key(v) by {
                    let k = index_of_price(s1, v);
                    let k0: int = if k < i { k } else { k + 1 };
                    assert(s1[k] == s0[k0]);
                    assert(has_price(s0, v));
                    assert(k0 != i);
                    if v == price.uval() {
                        if k0 < i {
                            assert(s0[k0].price.uval() < s0[i as int].price.uval());
                        } else {
                            assert(s0[i as int].price.uval() < s0[k0].price.uval());
                        }
                        assert(false);
                    }
                }
                assert forall|v: int| m2.contains_key(v) implies m1.contains_key(v) by {
                    let k = index_of_price(s0, v);
                    assert(0 <= k < s0.len() && s0[k].price.uval() == v);
                    assert(k != i);
                    if k < i {
                        assert(s1[k] == s0[k]);
                        assert(has_price(s1, v));
                    } else {
                        assert(s1[k - 1] == s0[k]);
                        assert(has_price(s1, v));
                    }
                }
                assert forall|v: int| m1.contains_key(v) implies m1[v] == m2[v] by {
                    lemma_as_map_at(s1, index_of_price(s1, v));
                    let k = index_of_price(s0, v);
                    assert(s0[k].price.uval() == v);
                    lemma_as_map_at(s0, k);
                    if k < i {
                        assert(s1[k] == s0[k]);
                        lemma_as_map_at(s1, k);
                    } else {
                        assert(k > i);
                        assert(s1[k - 1] == s0[k]);
                        lemma_as_map_at(s1, k - 1);
                    }
                }
                assert(m1 =~= m2);
            }
        } else {
            proof {
                assert(!has_price(s0, price.uval()));
                let m1 = as_map(s0);
                let m2 = as_map(s0).remove(price.uval());
                assert(m1 =~= m2);
            }
        }
    }
}

} // verus!
