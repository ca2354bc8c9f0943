//! Aggregated L2 order book: per side, price levels kept in strictly
//! increasing price order, modelled as a map from price units to quantity
//! units.
use vstd::prelude::*;

use crate::orderflow::speed::BookSide;
use crate::unit::{Price, Qty};

verus! {

/// One price level of one side of the book.
#[derive(Debug, Clone, Copy, PartialEq, Eq, Structural)]
pub struct BookLevel {
    pub price: Price,
    pub qty: Qty,
}

/// Strictly increasing prices.
pub open spec fn prices_increasing(s: Seq<BookLevel>) -> bool {
    forall|i: int, j: int| 0 <= i < j < s.len() ==> s[i].price.units < s[j].price.units
}

pub open spec fn has_price(s: Seq<BookLevel>, p: i64) -> bool {
    exists|i: int| 0 <= i < s.len() && s[i].price.units == p
}

pub open spec fn price_index(s: Seq<BookLevel>, p: i64) -> int {
    choose|i: int| 0 <= i < s.len() && s[i].price.units == p
}

/// The side as a map from price units to quantity units.
pub open spec fn level_map(s: Seq<BookLevel>) -> Map<i64, u64> {
    Map::new(|p: i64| has_price(s, p), |p: i64| s[price_index(s, p)].qty.units)
}

/// Quantity shown at a price, zero when the level is absent.
pub open spec fn shown_qty(s: Seq<BookLevel>, p: i64) -> u64 {
    if level_map(s).contains_key(p) {
        level_map(s)[p]
    } else {
        0
    }
}

/// In a side with strictly increasing prices, each level is the one the
/// map gives for its price.
pub proof fn lemma_level_at(s: Seq<BookLevel>, i: int)
    requires
        prices_increasing(s),
        0 <= i < s.len(),
    ensures
        level_map(s).contains_key(s[i].price.units),
        level_map(s)[s[i].price.units] == s[i].qty.units,
        price_index(s, s[i].price.units) == i,
{
    let p = s[i].price.units;
    assert(has_price(s, p));
    let k = price_index(s, p);
    if k < i {
    } else if k > i {
    }
}

proof fn lemma_map_of_increasing_update(s: Seq<BookLevel>, j: int, l: BookLevel)
    requires
        prices_increasing(s),
        0 <= j < s.len(),
        s[j].price == l.price,
    ensures
        prices_increasing(s.update(j, l)),
        level_map(s.update(j, l)) == level_map(s).insert(l.price.units, l.qty.units),
{
    let r = s.update(j, l);
    assert forall|p: i64| #[trigger] has_price(r, p) == (has_price(s, p) || p == l.price.units) by {
        if has_price(s, p) {
            let i = choose|i: int| 0 <= i < s.len() && s[i].price.units == p;
            assert(r[i].price.units == p);
        }
        if has_price(r, p) {
            let i = choose|i: int| 0 <= i < r.len() && r[i].price.units == p;
            assert(s[i].price.units == p);
        }
        if p == l.price.units {
            assert(r[j].price.units == p);
        }
    }
    assert forall|p: i64| #[trigger] level_map(r).contains_key(p) implies level_map(r)[p] == level_map(
        s,
    ).insert(l.price.units, l.qty.units)[p] by {
        let i = choose|i: int| 0 <= i < r.len() && r[i].price.units == p;
        lemma_level_at(r, i);
        if i != j {
            lemma_level_at(s, i);
        }
    }
    assert(level_map(r) =~= level_map(s).insert(l.price.units, l.qty.units));
}

proof fn lemma_map_of_increasing_insert(s: Seq<BookLevel>, j: int, l: BookLevel)
    requires
        prices_increasing(s),
        0 <= j <= s.len(),
        forall|m: int| 0 <= m < j ==> #[trigger] s[m].price.units < l.price.units,
        j < s.len() ==> s[j].price.units > l.price.units,
    ensures
        prices_increasing(s.insert(j, l)),
        level_map(s.insert(j, l)) == level_map(s).insert(l.price.units, l.qty.units),
        !level_map(s).contains_key(l.price.units),
{
    let r = s.insert(j, l);
    assert forall|a: int, b: int| 0 <= a < b < r.len() implies r[a].price.units
        < r[b].price.units by {
        if b < j {
        } else if a < j && b == j {
        } else if a < j {
            assert(r[b] == s[b - 1]);
        } else if a == j {
            assert(r[b] == s[b - 1]);
        } else {
            assert(r[a] == s[a - 1]);
            assert(r[b] == s[b - 1]);
        }
    }
    if has_price(s, l.price.units) {
        let i = choose|i: int| 0 <= i < s.len() && s[i].price.units == l.price.units;
        if i >= j {
            assert(s[j].price.units <= s[i].price.units);
        }
    }
    assert forall|p: i64| #[trigger] has_price(r, p) == (has_price(s, p) || p == l.price.units) by {
        if has_price(s, p) {
            let i = choose|i: int| 0 <= i < s.len() && s[i].price.units == p;
            if i < j {
                assert(r[i].price.units == p);
            } else {
                assert(r[i + 1].price.units == p);
            }
        }
        if has_price(r, p) {
            let i = choose|i: int| 0 <= i < r.len() && r[i].price.units == p;
            if i < j {
                assert(s[i].price.units == p);
            } else if i > j {
                assert(s[i - 1].price.units == p);
            }
        }
        if p == l.price.units {
            assert(r[j].price.units == p);
        }
    }
    assert forall|p: i64| #[trigger] level_map(r).contains_key(p) implies level_map(r)[p] == level_map(
        s,
    ).insert(l.price.units, l.qty.units)[p] by {
        let i = choose|i: int| 0 <= i < r.len() && r[i].price.units == p;
        lemma_level_at(r, i);
        if i < j {
            lemma_level_at(s, i);
        } else if i > j {
            lemma_level_at(s, i - 1);
        }
    }
    assert(level_map(r) =~= level_map(s).insert(l.price.units, l.qty.units));
}

proof fn lemma_map_of_increasing_remove(s: Seq<BookLevel>, j: int)
    requires
        prices_increasing(s),
        0 <= j < s.len(),
    ensures
        prices_increasing(s.remove(j)),
        level_map(s.remove(j)) == level_map(s).remove(s[j].price.units),
{
    let r = s.remove(j);
    let q = s[j].price.units;
    assert forall|a: int, b: int| 0 <= a < b < r.len() implies r[a].price.units
        < r[b].price.units by {
        if b < j {
        } else if a < j {
            assert(r[b] == s[b + 1]);
        } else {
            assert(r[a] == s[a + 1]);
            assert(r[b] == s[b + 1]);
        }
    }
    assert forall|p: i64| #[trigger] has_price(r, p) == (has_price(s, p) && p != q) by {
        if has_price(s, p) && p != q {
            let i = choose|i: int| 0 <= i < s.len() && s[i].price.units == p;
            if i < j {
                assert(r[i].price.units == p);
            } else {
                assert(r[i - 1].price.units == p);
            }
        }
        if has_price(r, p) {
            let i = choose|i: int| 0 <= i < r.len() && r[i].price.units == p;
            if i < j {
                assert(s[i].price.units == p);
            } else {
                assert(s[i + 1].price.units == p);
            }
        }
    }
    assert forall|p: i64| #[trigger] level_map(r).contains_key(p) implies level_map(r)[p] == level_map(
        s,
    ).remove(q)[p] by {
        let i = choose|i: int| 0 <= i < r.len() && r[i].price.units == p;
        lemma_level_at(r, i);
        if i < j {
            lemma_level_at(s, i);
        } else {
            lemma_level_at(s, i + 1);
        }
    }
    assert(level_map(r) =~= level_map(s).remove(q));
}

/// Position where a level at `price` sits or would be inserted.
fn find_slot(levels: &Vec<BookLevel>, price: Price) -> (j: usize)
    requires
        prices_increasing(levels@),
    ensures
        j <= levels@.len(),
        forall|m: int| 0 <= m < j ==> #[trigger] levels@[m].price.units < price.units,
        j < levels@.len() ==> levels@[j as int].price.units >= price.units,
{
    let mut j: usize = 0;
    while j < levels.len()
        invariant
            j <= levels@.len(),
            forall|m: int| 0 <= m < j ==> #[trigger] levels@[m].price.units < price.units,
        decreases levels@.len() - j,
    {
        if levels[j].price.units >= price.units {
            return j;
        }
        j = j + 1;
    }
    j
}

fn side_set(levels: &mut Vec<BookLevel>, price: Price, qty: Qty)
    requires
        prices_increasing(old(levels)@),
    ensures
        prices_increasing(final(levels)@),
        level_map(final(levels)@) == level_map(old(levels)@).insert(price.units, qty.units),
{
    let j = find_slot(levels, price);
    let l = BookLevel { price, qty };
    if j < levels.len() && levels[j].price.units == price.units {
        proof {
            lemma_map_of_increasing_update(levels@, j as int, l);
        }
        levels.set(j, l);
    } else {
        proof {
            lemma_map_of_increasing_insert(levels@, j as int, l);
        }
        levels.insert(j, l);
    }
}

fn side_remove(levels: &mut Vec<BookLevel>, price: Price)
    requires
        prices_increasing(old(levels)@),
    ensures
        prices_increasing(final(levels)@),
        level_map(final(levels)@) == level_map(old(levels)@).remove(price.units),
{
    let j = find_slot(levels, price);
    if j < levels.len() && levels[j].price.units == price.units {
        proof {
            lemma_map_of_increasing_remove(levels@, j as int);
        }
        levels.remove(j);
    } else {
        proof {
            if has_price(levels@, price.units) {
                let i = choose|i: int|
                    0 <= i < levels@.len() && levels@[i].price.units == price.units;
                if i >= j {
                    assert(levels@[j as int].price.units <= levels@[i].price.units);
                }
            }
            assert(level_map(levels@) =~= level_map(levels@).remove(price.units));
        }
    }
}

fn side_qty(levels: &Vec<BookLevel>, price: Price) -> (r: Qty)
    requires
        prices_increasing(levels@),
    ensures
        r.units == shown_qty(levels@, price.units),
{
    let j = find_slot(levels, price);
    if j < levels.len() && levels[j].price.units == price.units {
        proof {
            lemma_level_at(levels@, j as int);
        }
        levels[j].qty
    } else {
        proof {
            if has_price(levels@, price.units) {
                let i = choose|i: int|
                    0 <= i < levels@.len() && levels@[i].price.units == price.units;
                if i >= j {
                    assert(levels@[j as int].price.units <= levels@[i].price.units);
                }
            }
        }
        Qty::zero()
    }
}

/// A side kept in strictly increasing price order is determined by its
/// map from prices to quantities.
pub proof fn lemma_levels_determined(a: Seq<BookLevel>, b: Seq<BookLevel>)
    requires
        prices_increasing(a),
        prices_increasing(b),
        level_map(a) == level_map(b),
    ensures
        a == b,
    decreases a.len() + b.len(),
{
    if a.len() == 0 || b.len() == 0 {
        if b.len() > 0 {
            lemma_level_at(b, 0);
            assert(level_map(a).contains_key(b[0].price.units));
        }
        if a.len() > 0 {
            lemma_level_at(a, 0);
            assert(level_map(b).contains_key(a[0].price.units));
        }
        assert(a =~= b);
    } else {
        let ia = a.len() - 1;
        let ib = b.len() - 1;
        lemma_level_at(a, ia);
        lemma_level_at(b, ib);
        let pa = a[ia].price.units;
        let pb = b[ib].price.units;
        assert(level_map(b).contains_key(pa));
        let j = choose|j: int| 0 <= j < b.len() && b[j].price.units == pa;
        assert(level_map(a).contains_key(pb));
        let k = choose|k: int| 0 <= k < a.len() && a[k].price.units == pb;
        assert(pa <= pb) by {
            if j < ib {
                assert(b[j].price.units < b[ib].price.units);
            }
        }
        assert(pb <= pa) by {
            if k < ia {
                assert(a[k].price.units < a[ia].price.units);
            }
        }
        assert(a[ia] == b[ib]);
        lemma_map_of_increasing_remove(a, ia);
        lemma_map_of_increasing_remove(b, ib);
        assert(a.remove(ia) =~= a.drop_last());
        assert(b.remove(ib) =~= b.drop_last());
        lemma_levels_determined(a.drop_last(), b.drop_last());
        assert(a =~= a.drop_last().push(a[ia]));
        assert(b =~= b.drop_last().push(b[ib]));
    }
}

/// Both sides of an aggregated order book.
#[derive(Debug)]
pub struct Depth {
    bids: Vec<BookLevel>,
    asks: Vec<BookLevel>,
}

impl Depth {
    /// Levels of one side in increasing price order.
    pub closed spec fn spec_levels(&self, side: BookSide) -> Seq<BookLevel> {
        match side {
            BookSide::Bid => self.bids@,
            BookSide::Ask => self.asks@,
        }
    }

    /// One side as a map from price units to quantity units.
    pub open spec fn spec_side(&self, side: BookSide) -> Map<i64, u64> {
        level_map(self.spec_levels(side))
    }

    pub closed spec fn wf(&self) -> bool {
        &&& prices_increasing(self.bids@)
        &&& prices_increasing(self.asks@)
    }

    /// Every operation keeps each side in strictly increasing price order.
    pub proof fn lemma_wf_levels(&self, side: BookSide)
        requires
            self.wf(),
        ensures
            prices_increasing(self.spec_levels(side)),
    {
    }

    /// An empty book.
    pub fn new() -> (r: Self)
        ensures
            r.wf(),
            r.spec_levels(BookSide::Bid).len() == 0,
            r.spec_levels(BookSide::Ask).len() == 0,
            r.spec_side(BookSide::Bid) == Map::<i64, u64>::empty(),
            r.spec_side(BookSide::Ask) == Map::<i64, u64>::empty(),
    {
        let r = Depth { bids: Vec::new(), asks: Vec::new() };
        proof {
            assert(level_map(r.bids@) =~= Map::<i64, u64>::empty());
            assert(level_map(r.asks@) =~= Map::<i64, u64>::empty());
        }
        r
    }

    /// Levels of one side in increasing price order.
    pub fn levels(&self, side: BookSide) -> (r: &Vec<BookLevel>)
        requires
            self.wf(),
        ensures
            r@ == self.spec_levels(side),
            prices_increasing(r@),
    {
        match side {
            BookSide::Bid => &self.bids,
            BookSide::Ask => &self.asks,
        }
    }

    /// Quantity shown at `price`, zero when the level is absent.
    pub fn qty_at(&self, side: BookSide, price: Price) -> (r: Qty)
        requires
            self.wf(),
        ensures
            r.units == shown_qty(self.spec_levels(side), price.units),
    {
        match side {
            BookSide::Bid => side_qty(&self.bids, price),
            BookSide::Ask => side_qty(&self.asks, price),
        }
    }

    /// Insert or replace the level at `price`.
    pub fn insert(&mut self, side: BookSide, price: Price, qty: Qty)
        requires
            old(self).wf(),
        ensures
            final(self).wf(),
            final(self).spec_side(side) == old(self).spec_side(side).insert(price.units, qty.units),
            final(self).spec_levels(other_side(side)) == old(self).spec_levels(other_side(side)),
    {
        match side {
            BookSide::Bid => side_set(&mut self.bids, price, qty),
            BookSide::Ask => side_set(&mut self.asks, price, qty),
        }
    }

    /// Remove the level at `price`, if present.
    pub fn remove(&mut self, side: BookSide, price: Price)
        requires
            old(self).wf(),
        ensures
            final(self).wf(),
            final(self).spec_side(side) == old(self).spec_side(side).remove(price.units),
            final(self).spec_levels(other_side(side)) == old(self).spec_levels(other_side(side)),
    {
        match side {
            BookSide::Bid => side_remove(&mut self.bids, price),
            BookSide::Ask => side_remove(&mut self.asks, price),
        }
    }

    /// Remove every level of both sides.
    pub fn clear(&mut self)
        ensures
            final(self).wf(),
            final(self).spec_levels(BookSide::Bid).len() == 0,
            final(self).spec_levels(BookSide::Ask).len() == 0,
    {
        self.bids.clear();
        self.asks.clear();
    }

    /// A level-for-level copy.
    pub fn copy(&self) -> (r: Self)
        requires
            self.wf(),
        ensures
            r.wf(),
            r.spec_levels(BookSide::Bid) == self.spec_levels(BookSide::Bid),
            r.spec_levels(BookSide::Ask) == self.spec_levels(BookSide::Ask),
    {
        Depth { bids: copy_levels(&self.bids), asks: copy_levels(&self.asks) }
    }
}

pub open spec fn other_side(side: BookSide) -> BookSide {
    match side {
        BookSide::Bid => BookSide::Ask,
        BookSide::Ask => BookSide::Bid,
    }
}

fn copy_levels(levels: &Vec<BookLevel>) -> (r: Vec<BookLevel>)
    ensures
        r@ == levels@,
{
    let mut out: Vec<BookLevel> = Vec::new();
    let mut i: usize = 0;
    while i < levels.len()
        invariant
            i <= levels@.len(),
            out@ == levels@.take(i as int),
        decreases levels@.len() - i,
    {
        out.push(levels[i]);
        i = i + 1;
        proof {
            assert(out@ == levels@.take(i as int));
        }
    }
    proof {
        assert(levels@.take(i as int) == levels@);
    }
    out
}

impl Default for Depth {
    fn default() -> (r: Self)
        ensures
            r.wf(),
            r.spec_side(BookSide::Bid) == Map::<i64, u64>::empty(),
            r.spec_side(BookSide::Ask) == Map::<i64, u64>::empty(),
    {
        Depth::new()
    }
}

} // verus!
