//! Market-by-order book with queue-order preservation and iceberg
//! candidates from stable order ids.
use vstd::prelude::*;
use std::collections::BTreeMap;
use vstd::std_specs::btree::increasing_seq;
use vstd::std_specs::iter::IteratorSpec;

use crate::orderflow::speed::BookSide;
use crate::sort::{sort_by_time, time_sorted, Timed};
use crate::unit::{clamp_u64, sat_add_u64, Price, Qty, UnixMs};

verus! {

broadcast use vstd::laws_cmp::group_laws_cmp;

pub type OrderId = u64;

#[derive(Debug, Clone, Copy, PartialEq, Eq, Structural, Hash)]
pub enum MboSide {
    Bid,
    Ask,
}

impl MboSide {
    pub fn book_side(self) -> (r: BookSide)
        ensures
            r == mbo_book_side(self),
    {
        match self {
            MboSide::Bid => BookSide::Bid,
            MboSide::Ask => BookSide::Ask,
        }
    }
}

pub open spec fn mbo_book_side(s: MboSide) -> BookSide {
    match s {
        MboSide::Bid => BookSide::Bid,
        MboSide::Ask => BookSide::Ask,
    }
}

#[derive(Debug, Clone, Copy, PartialEq, Eq, Structural)]
pub enum MboAction {
    /// Add a new order with `qty` as displayed remaining quantity.
    Add,
    /// Replace displayed remaining quantity with `qty`.
    Modify,
    /// Cancel/remove the order. `qty` is ignored.
    Cancel,
    /// Execute `qty` against the order.
    Fill,
}

#[derive(Debug, Clone, Copy, PartialEq, Eq, Structural)]
pub struct MboEvent {
    pub time: UnixMs,
    pub order_id: OrderId,
    pub side: MboSide,
    pub price: Price,
    pub qty: Qty,
    pub action: MboAction,
}

impl Timed for MboEvent {
    open spec fn spec_time(&self) -> u64 {
        self.time.ms
    }

    fn time_ms(&self) -> (r: u64) {
        self.time.ms
    }
}

#[derive(Debug, Clone, Copy, PartialEq, Eq, Structural)]
pub struct MboOrder {
    pub order_id: OrderId,
    pub side: MboSide,
    pub price: Price,
    pub remaining: Qty,
    pub total_filled: Qty,
    pub refresh_count: u32,
    /// Arrival rank at the current side and price: lower is earlier.
    pub sequence: u64,
    pub last_update: UnixMs,
}

#[derive(Debug, Clone, Copy, PartialEq, Eq, Structural)]
pub struct IcebergCandidate {
    pub order_id: OrderId,
    pub side: MboSide,
    pub price: Price,
    pub refresh_count: u32,
    pub total_filled: Qty,
    pub displayed_remaining: Qty,
}

#[derive(Debug, Clone, Copy, PartialEq, Eq, Structural)]
pub struct IcebergConfig {
    pub min_refresh_count: u32,
    pub min_total_filled: Qty,
}

impl IcebergConfig {
    /// Two refreshes, no fill threshold.
    pub fn default_config() -> (r: Self)
        ensures
            r.min_refresh_count == 2,
            r.min_total_filled.units == 0,
    {
        IcebergConfig { min_refresh_count: 2, min_total_filled: Qty { units: 0 } }
    }
}

/// Strictly increasing order ids.
pub open spec fn ids_increasing(s: Seq<MboOrder>) -> bool {
    forall|i: int, j: int| 0 <= i < j < s.len() ==> s[i].order_id < s[j].order_id
}

pub open spec fn has_id(s: Seq<MboOrder>, id: u64) -> bool {
    exists|i: int| 0 <= i < s.len() && s[i].order_id == id
}

pub open spec fn id_index(s: Seq<MboOrder>, id: u64) -> int {
    choose|i: int| 0 <= i < s.len() && s[i].order_id == id
}

/// The orders keyed by id.
pub open spec fn order_map(s: Seq<MboOrder>) -> Map<u64, MboOrder> {
    Map::new(|id: u64| has_id(s, id), |id: u64| s[id_index(s, id)])
}

proof fn lemma_order_at(s: Seq<MboOrder>, i: int)
    requires
        ids_increasing(s),
        0 <= i < s.len(),
    ensures
        order_map(s).contains_key(s[i].order_id),
        order_map(s)[s[i].order_id] == s[i],
{
    let id = s[i].order_id;
    assert(has_id(s, id));
    let k = id_index(s, id);
    if k < i {
    } else if k > i {
    }
}

proof fn lemma_orders_update(s: Seq<MboOrder>, j: int, o: MboOrder)
    requires
        ids_increasing(s),
        0 <= j < s.len(),
        s[j].order_id == o.order_id,
    ensures
        ids_increasing(s.update(j, o)),
        order_map(s.update(j, o)) == order_map(s).insert(o.order_id, o),
{
    let r = s.update(j, o);
    assert forall|id: u64| #[trigger] has_id(r, id) == (has_id(s, id) || id == o.order_id) by {
        if has_id(s, id) {
            let i = choose|i: int| 0 <= i < s.len() && s[i].order_id == id;
            assert(r[i].order_id == id);
        }
        if has_id(r, id) {
            let i = choose|i: int| 0 <= i < r.len() && r[i].order_id == id;
            assert(s[i].order_id == id);
        }
        if id == o.order_id {
            assert(r[j].order_id == id);
        }
    }
    assert forall|id: u64| #[trigger] order_map(r).contains_key(id) implies order_map(r)[id]
        == order_map(s).insert(o.order_id, o)[id] by {
        let i = choose|i: int| 0 <= i < r.len() && r[i].order_id == id;
        lemma_order_at(r, i);
        if i != j {
            lemma_order_at(s, i);
        }
    }
    assert(order_map(r) =~= order_map(s).insert(o.order_id, o));
}

proof fn lemma_orders_insert(s: Seq<MboOrder>, j: int, o: MboOrder)
    requires
        ids_increasing(s),
        0 <= j <= s.len(),
        forall|m: int| 0 <= m < j ==> #[trigger] s[m].order_id < o.order_id,
        j < s.len() ==> s[j].order_id > o.order_id,
    ensures
        ids_increasing(s.insert(j, o)),
        order_map(s.insert(j, o)) == order_map(s).insert(o.order_id, o),
{
    let r = s.insert(j, o);
    assert forall|a: int, b: int| 0 <= a < b < r.len() implies r[a].order_id < r[b].order_id by {
        if b < j {
        } else if a < j && b == j {
        } else if a < j {
            assert(r[b] == s[b - 1]);
        } else if a == j {
            assert(r[b] == s[b - 1]);
        } else {
            assert(r[a] == s[a - 1]);
            assert(r[b] == s[b - 1]);
        }
    }
    assert forall|id: u64| #[trigger] has_id(r, id) == (has_id(s, id) || id == o.order_id) by {
        if has_id(s, id) {
            let i = choose|i: int| 0 <= i < s.len() && s[i].order_id == id;
            if i < j {
                assert(r[i].order_id == id);
            } else {
                assert(r[i + 1].order_id == id);
            }
        }
        if has_id(r, id) {
            let i = choose|i: int| 0 <= i < r.len() && r[i].order_id == id;
            if i < j {
                assert(s[i].order_id == id);
            } else if i > j {
                assert(s[i - 1].order_id == id);
            }
        }
        if id == o.order_id {
            assert(r[j].order_id == id);
        }
    }
    assert forall|id: u64| #[trigger] order_map(r).contains_key(id) implies order_map(r)[id]
        == order_map(s).insert(o.order_id, o)[id] by {
        let i = choose|i: int| 0 <= i < r.len() && r[i].order_id == id;
        lemma_order_at(r, i);
        if i < j {
            lemma_order_at(s, i);
        } else if i > j {
            lemma_order_at(s, i - 1);
        }
    }
    assert(order_map(r) =~= order_map(s).insert(o.order_id, o));
}

proof fn lemma_orders_remove(s: Seq<MboOrder>, j: int)
    requires
        ids_increasing(s),
        0 <= j < s.len(),
    ensures
        ids_increasing(s.remove(j)),
        order_map(s.remove(j)) == order_map(s).remove(s[j].order_id),
{
    let r = s.remove(j);
    let q = s[j].order_id;
    assert forall|a: int, b: int| 0 <= a < b < r.len() implies r[a].order_id < r[b].order_id by {
        if b < j {
        } else if a < j {
            assert(r[b] == s[b + 1]);
        } else {
            assert(r[a] == s[a + 1]);
            assert(r[b] == s[b + 1]);
        }
    }
    assert forall|id: u64| #[trigger] has_id(r, id) == (has_id(s, id) && id != q) by {
        if has_id(s, id) && id != q {
            let i = choose|i: int| 0 <= i < s.len() && s[i].order_id == id;
            if i < j {
                assert(r[i].order_id == id);
            } else {
                assert(r[i - 1].order_id == id);
            }
        }
        if has_id(r, id) {
            let i = choose|i: int| 0 <= i < r.len() && r[i].order_id == id;
            if i < j {
                assert(s[i].order_id == id);
            } else {
                assert(s[i + 1].order_id == id);
            }
        }
    }
    assert forall|id: u64| #[trigger] order_map(r).contains_key(id) implies order_map(r)[id]
        == order_map(s).remove(q)[id] by {
        let i = choose|i: int| 0 <= i < r.len() && r[i].order_id == id;
        lemma_order_at(r, i);
        if i < j {
            lemma_order_at(s, i);
        } else {
            lemma_order_at(s, i + 1);
        }
    }
    assert(order_map(r) =~= order_map(s).remove(q));
}

/// Orders kept in strictly increasing id order are determined by their map
/// from ids to orders.
pub proof fn lemma_orders_determined(a: Seq<MboOrder>, b: Seq<MboOrder>)
    requires
        ids_increasing(a),
        ids_increasing(b),
        order_map(a) == order_map(b),
    ensures
        a == b,
    decreases a.len() + b.len(),
{
    if a.len() == 0 || b.len() == 0 {
        if b.len() > 0 {
            lemma_order_at(b, 0);
            assert(order_map(a).contains_key(b[0].order_id));
        }
        if a.len() > 0 {
            lemma_order_at(a, 0);
            assert(order_map(b).contains_key(a[0].order_id));
        }
        assert(a =~= b);
    } else {
        let ia = a.len() - 1;
        let ib = b.len() - 1;
        lemma_order_at(a, ia);
        lemma_order_at(b, ib);
        let pa = a[ia].order_id;
        let pb = b[ib].order_id;
        assert(order_map(b).contains_key(pa));
        let j = choose|j: int| 0 <= j < b.len() && b[j].order_id == pa;
        assert(order_map(a).contains_key(pb));
        let k = choose|k: int| 0 <= k < a.len() && a[k].order_id == pb;
        assert(pa <= pb) by {
            if j < ib {
                assert(b[j].order_id < b[ib].order_id);
            }
        }
        assert(pb <= pa) by {
            if k < ia {
                assert(a[k].order_id < a[ia].order_id);
            }
        }
        assert(a[ia] == b[ib]);
        lemma_orders_remove(a, ia);
        lemma_orders_remove(b, ib);
        assert(a.remove(ia) =~= a.drop_last());
        assert(b.remove(ib) =~= b.drop_last());
        lemma_orders_determined(a.drop_last(), b.drop_last());
        assert(a =~= a.drop_last().push(a[ia]));
        assert(b =~= b.drop_last().push(b[ib]));
    }
}

/// The new order an `Add` creates.
pub open spec fn fresh_order(e: MboEvent, sequence: u64) -> MboOrder {
    MboOrder {
        order_id: e.order_id,
        side: e.side,
        price: e.price,
        remaining: e.qty,
        total_filled: Qty { units: 0 },
        refresh_count: 0,
        sequence,
        last_update: e.time,
    }
}

/// A reload: the same order id shows more displayed quantity at the same
/// side and price after part of it was executed.
pub open spec fn is_reload(o: MboOrder, e: MboEvent) -> bool {
    &&& o.side == e.side
    &&& o.price == e.price
    &&& e.qty.units > o.remaining.units
    &&& o.total_filled.units != 0
}

pub open spec fn sat_inc_u32(x: u32) -> u32 {
    if x == u32::MAX {
        x
    } else {
        (x + 1) as u32
    }
}

/// The book (orders by id, next arrival rank) after one event.
pub open spec fn apply_event(m: Map<u64, MboOrder>, next: u64, e: MboEvent) -> (Map<u64, MboOrder>, u64) {
    match e.action {
        MboAction::Add => apply_add(m, next, e),
        MboAction::Modify => if !m.contains_key(e.order_id) {
            apply_add(m, next, MboEvent { action: MboAction::Add, ..e })
        } else {
            let o = m[e.order_id];
            let moved = o.side != e.side || o.price != e.price;
            let o2 = MboOrder {
                side: e.side,
                price: e.price,
                remaining: e.qty,
                last_update: e.time,
                refresh_count: if is_reload(o, e) { sat_inc_u32(o.refresh_count) } else { o.refresh_count },
                sequence: if moved { next } else { o.sequence },
                ..o
            };
            (m.insert(e.order_id, o2), if moved { clamp_u64(next + 1) } else { next })
        },
        MboAction::Cancel => (m.remove(e.order_id), next),
        MboAction::Fill => if !m.contains_key(e.order_id) {
            (m, next)
        } else {
            let o = m[e.order_id];
            let filled: u64 = if o.remaining.units <= e.qty.units { o.remaining.units } else { e.qty.units };
            (
                m.insert(
                    e.order_id,
                    MboOrder {
                        remaining: Qty { units: (o.remaining.units - filled) as u64 },
                        total_filled: Qty { units: clamp_u64(o.total_filled.units + filled) },
                        last_update: e.time,
                        ..o
                    },
                ),
                next,
            )
        },
    }
}

pub open spec fn apply_add(m: Map<u64, MboOrder>, next: u64, e: MboEvent) -> (Map<u64, MboOrder>, u64) {
    if m.contains_key(e.order_id) && is_reload(m[e.order_id], e) {
        let o = m[e.order_id];
        (
            m.insert(
                e.order_id,
                MboOrder {
                    refresh_count: sat_inc_u32(o.refresh_count),
                    remaining: e.qty,
                    last_update: e.time,
                    ..o
                },
            ),
            next,
        )
    } else {
        (m.insert(e.order_id, fresh_order(e, next)), clamp_u64(next + 1))
    }
}

/// Applying the events one after another.
pub open spec fn apply_events(m: Map<u64, MboOrder>, next: u64, es: Seq<MboEvent>) -> (Map<u64, MboOrder>, u64)
    decreases es.len(),
{
    if es.len() == 0 {
        (m, next)
    } else {
        let (m0, n0) = apply_events(m, next, es.drop_last());
        apply_event(m0, n0, es.last())
    }
}

/// Sum of remaining quantity of the orders that satisfy `pred`.
pub open spec fn remaining_where(s: Seq<MboOrder>, pred: spec_fn(MboOrder) -> bool) -> nat
    decreases s.len(),
{
    if s.len() == 0 {
        0
    } else {
        remaining_where(s.drop_last(), pred) + if pred(s.last()) {
            s.last().remaining.units as nat
        } else {
            0
        }
    }
}

/// Orders queued ahead of `t`: same side and price, earlier arrival.
pub open spec fn ahead_of(t: MboOrder) -> spec_fn(MboOrder) -> bool {
    |o: MboOrder| o.order_id != t.order_id && o.side == t.side && o.price == t.price && o.sequence < t.sequence
}

/// Orders resting at a level.
pub open spec fn at_level(side: MboSide, price: Price) -> spec_fn(MboOrder) -> bool {
    |o: MboOrder| o.side == side && o.price == price
}

pub open spec fn iceberg_of(o: MboOrder) -> IcebergCandidate {
    IcebergCandidate {
        order_id: o.order_id,
        side: o.side,
        price: o.price,
        refresh_count: o.refresh_count,
        total_filled: o.total_filled,
        displayed_remaining: o.remaining,
    }
}

/// Candidates among `s`, in order.
pub open spec fn icebergs(s: Seq<MboOrder>, config: IcebergConfig) -> Seq<IcebergCandidate>
    decreases s.len(),
{
    if s.len() == 0 {
        Seq::empty()
    } else {
        let rest = icebergs(s.drop_last(), config);
        let o = s.last();
        if o.refresh_count >= config.min_refresh_count && o.total_filled.units
            >= config.min_total_filled.units {
            rest.push(iceberg_of(o))
        } else {
            rest
        }
    }
}

/// Where an order with id `id` goes among orders in increasing id order:
/// after every smaller id, before every larger one.
proof fn lemma_insert_position(s: Seq<MboOrder>, id: u64) -> (j: int)
    requires
        ids_increasing(s),
    ensures
        0 <= j <= s.len(),
        forall|m: int| 0 <= m < j ==> #[trigger] s[m].order_id < id,
        j < s.len() ==> s[j].order_id >= id,
    decreases s.len(),
{
    if s.len() == 0 {
        0
    } else if s.last().order_id < id {
        s.len() as int
    } else {
        let j = lemma_insert_position(s.drop_last(), id);
        assert(forall|m: int| 0 <= m < j ==> #[trigger] s[m] == s.drop_last()[m]);
        j
    }
}

/// The orders of `m` listed in increasing id order.
pub open spec fn order_listing(m: Map<u64, MboOrder>) -> Seq<MboOrder> {
    choose|s: Seq<MboOrder>| ids_increasing(s) && order_map(s) == m
}

/// Market-by-order state with queue-order preservation.
pub struct MboBook {
    orders: BTreeMap<OrderId, MboOrder>,
    next_sequence: u64,
}

impl MboBook {
    /// Orders in increasing id order.
    pub closed spec fn spec_order_seq(&self) -> Seq<MboOrder> {
        order_listing(self.orders@)
    }

    /// Orders keyed by id.
    pub closed spec fn spec_orders(&self) -> Map<u64, MboOrder> {
        self.orders@
    }

    /// Arrival rank given to the next order that joins a queue.
    pub closed spec fn spec_next_sequence(&self) -> u64 {
        self.next_sequence
    }

    /// Each order is stored under its own id, so the orders can be listed
    /// in increasing id order.
    pub closed spec fn wf(&self) -> bool {
        exists|s: Seq<MboOrder>| ids_increasing(s) && order_map(s) == self.orders@
    }

    /// Orders are listed in strictly increasing id order, each under its own id.
    pub proof fn lemma_wf_orders(&self)
        requires
            self.wf(),
        ensures
            ids_increasing(self.spec_order_seq()),
            order_map(self.spec_order_seq()) == self.spec_orders(),
            forall|i: int|
                0 <= i < self.spec_order_seq().len() ==> self.spec_orders().contains_key(
                    #[trigger] self.spec_order_seq()[i].order_id,
                ) && self.spec_orders()[self.spec_order_seq()[i].order_id] == self.spec_order_seq()[i],
            forall|id: u64|
                #[trigger] self.spec_orders().contains_key(id) ==> exists|i: int|
                    0 <= i < self.spec_order_seq().len() && self.spec_order_seq()[i].order_id == id,
    {
        let s = self.spec_order_seq();
        assert forall|i: int| 0 <= i < s.len() implies self.spec_orders().contains_key(
            #[trigger] s[i].order_id,
        ) && self.spec_orders()[s[i].order_id] == s[i] by {
            lemma_order_at(s, i);
        }
    }

    /// An empty book whose first arrival gets rank 1.
    pub fn new() -> (r: Self)
        ensures
            r.wf(),
            r.spec_orders() == Map::<u64, MboOrder>::empty(),
            r.spec_next_sequence() == 1,
    {
        let r = MboBook { orders: BTreeMap::new(), next_sequence: 1 };
        proof {
            assert(order_map(Seq::<MboOrder>::empty()) =~= Map::<u64, MboOrder>::empty());
            assert(ids_increasing(Seq::<MboOrder>::empty()));
        }
        r
    }

    pub fn clear(&mut self)
        ensures
            final(self).wf(),
            final(self).spec_orders() == Map::<u64, MboOrder>::empty(),
            final(self).spec_next_sequence() == 1,
    {
        self.orders.clear();
        self.next_sequence = 1;
        proof {
            assert(order_map(Seq::<MboOrder>::empty()) =~= Map::<u64, MboOrder>::empty());
            assert(ids_increasing(Seq::<MboOrder>::empty()));
        }
    }

    /// Insert or replace the order stored under its id.
    fn put(&mut self, o: MboOrder)
        requires
            old(self).wf(),
        ensures
            final(self).wf(),
            final(self).spec_orders() == old(self).spec_orders().insert(o.order_id, o),
            final(self).next_sequence == old(self).next_sequence,
    {
        let ghost w = choose|s: Seq<MboOrder>| ids_increasing(s) && order_map(s) == self.orders@;
        self.orders.insert(o.order_id, o);
        proof {
            let j = lemma_insert_position(w, o.order_id);
            if j < w.len() && w[j].order_id == o.order_id {
                lemma_orders_update(w, j, o);
                assert(ids_increasing(w.update(j, o)) && order_map(w.update(j, o)) == self.orders@);
            } else {
                lemma_orders_insert(w, j, o);
                assert(ids_increasing(w.insert(j, o)) && order_map(w.insert(j, o)) == self.orders@);
            }
        }
    }

    /// Remove the order stored under `order_id`, if any.
    fn take_out(&mut self, order_id: OrderId)
        requires
            old(self).wf(),
        ensures
            final(self).wf(),
            final(self).spec_orders() == old(self).spec_orders().remove(order_id),
            final(self).next_sequence == old(self).next_sequence,
    {
        let ghost w = choose|s: Seq<MboOrder>| ids_increasing(s) && order_map(s) == self.orders@;
        self.orders.remove(&order_id);
        proof {
            if has_id(w, order_id) {
                let j = choose|i: int| 0 <= i < w.len() && w[i].order_id == order_id;
                lemma_orders_remove(w, j);
                assert(ids_increasing(w.remove(j)) && order_map(w.remove(j)) == self.orders@);
            } else {
                assert(order_map(w) =~= order_map(w).remove(order_id));
                assert(ids_increasing(w) && order_map(w) == self.orders@);
            }
        }
    }

    /// The orders in increasing id order.
    fn listing(&self) -> (r: Vec<MboOrder>)
        requires
            self.wf(),
        ensures
            r@ == self.spec_order_seq(),
    {
        let ghost m = self.orders@;
        let mut out: Vec<MboOrder> = Vec::new();
        let values = self.orders.values();
        let ghost keys = choose|key_seq: Seq<u64>|
            {
                &&& increasing_seq(key_seq)
                &&& key_seq.to_set() == m.dom()
                &&& key_seq.no_duplicates()
                &&& IteratorSpec::remaining(&values) == key_seq.map(|i: int, k: u64| &m[k])
            };
        let ghost listed = keys.map(|i: int, k: u64| m[k]);
        for o in it: values
            invariant
                it.seq() == keys.map(|i: int, k: u64| &m[k]),
                listed == keys.map(|i: int, k: u64| m[k]),
                out@ == listed.take(it.index() as int),
                listed.len() == it.seq().len(),
        {
            proof {
                let k = it.index() as int;
                assert(it.seq()[k] == &m[keys[k]]);
                assert(listed.take(it.index() as int).push(*o) =~= listed.take(it.index() + 1));
            }
            out.push(*o);
        }
        proof {
            assert(out@ =~= listed);
            self.lemma_listing(keys);
        }
        out
    }

    /// Keys in increasing order, each mapped to its order, list the book.
    proof fn lemma_listing(&self, keys: Seq<u64>)
        requires
            self.wf(),
            increasing_seq(keys),
            keys.to_set() == self.orders@.dom(),
            keys.no_duplicates(),
        ensures
            keys.map(|i: int, k: u64| self.orders@[k]) == self.spec_order_seq(),
    {
        let m = self.orders@;
        let w = choose|s: Seq<MboOrder>| ids_increasing(s) && order_map(s) == m;
        let listed = keys.map(|i: int, k: u64| m[k]);
        assert forall|i: int| 0 <= i < keys.len() implies #[trigger] listed[i].order_id == keys[i] by {
            assert(keys.to_set().contains(keys[i]));
            assert(has_id(w, keys[i]));
        }
        assert(ids_increasing(listed)) by {
            assert forall|i: int, j: int| 0 <= i < j < listed.len() implies listed[i].order_id
                < listed[j].order_id by {
                assert(listed[i].order_id == keys[i]);
                assert(listed[j].order_id == keys[j]);
                assert(vstd::std_specs::cmp::OrdSpec::cmp_spec(&keys[i], &keys[j]) is Less);
                assert(keys[i] < keys[j]);
            }
        }
        assert(order_map(listed) =~= m) by {
            assert forall|id: u64| #[trigger] has_id(listed, id) == m.contains_key(id) by {
                if m.contains_key(id) {
                    assert(keys.to_set().contains(id));
                    let i = choose|i: int| 0 <= i < keys.len() && keys[i] == id;
                    assert(listed[i].order_id == id);
                }
                if has_id(listed, id) {
                    let i = choose|i: int| 0 <= i < listed.len() && listed[i].order_id == id;
                    assert(listed[i].order_id == keys[i]);
                    assert(keys.to_set().contains(keys[i]));
                }
            }
            assert forall|id: u64| #[trigger] order_map(listed).contains_key(id) implies order_map(
                listed,
            )[id] == m[id] by {
                let i = choose|i: int| 0 <= i < listed.len() && listed[i].order_id == id;
                lemma_order_at(listed, i);
            }
        }
        lemma_orders_determined(listed, self.spec_order_seq());
    }

    pub fn get(&self, order_id: OrderId) -> (r: Option<&MboOrder>)
        requires
            self.wf(),
        ensures
            match r {
                Some(o) => self.spec_orders().contains_key(order_id) && *o == self.spec_orders()[order_id],
                None => !self.spec_orders().contains_key(order_id),
            },
    {
        self.orders.get(&order_id)
    }

    pub fn len(&self) -> (r: usize)
        requires
            self.wf(),
        ensures
            r == self.spec_orders().len(),
    {
        self.orders.len()
    }

    pub fn is_empty(&self) -> (r: bool)
        requires
            self.wf(),
        ensures
            r == (self.spec_orders().len() == 0),
    {
        self.orders.is_empty()
    }

    /// Apply one market-by-order event.
    pub fn apply(&mut self, event: MboEvent)
        requires
            old(self).wf(),
        ensures
            final(self).wf(),
            (final(self).spec_orders(), final(self).spec_next_sequence()) == apply_event(
                old(self).spec_orders(),
                old(self).spec_next_sequence(),
                event,
            ),
    {
        match event.action {
            MboAction::Add => self.apply_add(event),
            MboAction::Modify => self.apply_modify(event),
            MboAction::Cancel => self.take_out(event.order_id),
            MboAction::Fill => self.apply_fill(event),
        }
    }

    /// Apply the events in chronological order (stable for equal times).
    pub fn apply_many(&mut self, events: &[MboEvent])
        requires
            old(self).wf(),
        ensures
            final(self).wf(),
            (final(self).spec_orders(), final(self).spec_next_sequence()) == apply_events(
                old(self).spec_orders(),
                old(self).spec_next_sequence(),
                time_sorted(events@),
            ),
    {
        let mut copy: Vec<MboEvent> = Vec::new();
        let mut k: usize = 0;
        while k < events.len()
            invariant
                k <= events@.len(),
                copy@ == events@.take(k as int),
            decreases events@.len() - k,
        {
            copy.push(events[k]);
            k = k + 1;
            proof {
                assert(copy@ == events@.take(k as int));
            }
        }
        proof {
            assert(events@.take(k as int) == events@);
        }
        let ordered = sort_by_time(copy);
        let mut i: usize = 0;
        while i < ordered.len()
            invariant
                self.wf(),
                i <= ordered@.len(),
                (self.spec_orders(), self.spec_next_sequence()) == apply_events(
                    old(self).spec_orders(),
                    old(self).spec_next_sequence(),
                    ordered@.take(i as int),
                ),
            decreases ordered@.len() - i,
        {
            proof {
                assert(ordered@.take((i + 1) as int).drop_last() == ordered@.take(i as int));
            }
            self.apply(ordered[i]);
            i = i + 1;
        }
        proof {
            assert(ordered@.take(i as int) == ordered@);
        }
    }

    /// Displayed quantity queued ahead of the order at its side and price
    /// (earlier arrival rank), saturating; `None` for an unknown order.
    pub fn queue_ahead_qty(&self, order_id: OrderId) -> (r: Option<Qty>)
        requires
            self.wf(),
        ensures
            !self.spec_orders().contains_key(order_id) ==> r.is_none(),
            self.spec_orders().contains_key(order_id) ==> r == Some(
                Qty {
                    units: clamp_u64(
                        remaining_where(
                            self.spec_order_seq(),
                            ahead_of(self.spec_orders()[order_id]),
                        ) as int,
                    ),
                },
            ),
    {
        match self.orders.get(&order_id) {
            None => None,
            Some(t) => {
                let target = *t;
                let orders = self.listing();
                let mut acc: u64 = 0;
                let mut i: usize = 0;
                while i < orders.len()
                    invariant
                        i <= orders@.len(),
                        acc == clamp_u64(remaining_where(orders@.take(i as int), ahead_of(target)) as int),
                    decreases orders@.len() - i,
                {
                    proof {
                        assert(orders@.take((i + 1) as int).drop_last() == orders@.take(i as int));
                    }
                    let o = orders[i];
                    if o.order_id != target.order_id && o.side == target.side && o.price.units
                        == target.price.units && o.sequence < target.sequence {
                        acc = sat_add_u64(acc, o.remaining.units);
                    }
                    i = i + 1;
                }
                proof {
                    assert(orders@.take(i as int) == orders@);
                }
                Some(Qty { units: acc })
            },
        }
    }

    /// Displayed quantity resting at a side and price, saturating.
    pub fn level_qty(&self, side: MboSide, price: Price) -> (r: Qty)
        requires
            self.wf(),
        ensures
            r.units == clamp_u64(remaining_where(self.spec_order_seq(), at_level(side, price)) as int),
    {
        let orders = self.listing();
        let mut acc: u64 = 0;
        let mut i: usize = 0;
        while i < orders.len()
            invariant
                i <= orders@.len(),
                acc == clamp_u64(remaining_where(orders@.take(i as int), at_level(side, price)) as int),
            decreases orders@.len() - i,
        {
            proof {
                assert(orders@.take((i + 1) as int).drop_last() == orders@.take(i as int));
            }
            let o = orders[i];
            if o.side == side && o.price.units == price.units {
                acc = sat_add_u64(acc, o.remaining.units);
            }
            i = i + 1;
        }
        proof {
            assert(orders@.take(i as int) == orders@);
        }
        Qty { units: acc }
    }

    /// Orders refreshed and filled enough to be iceberg candidates, in
    /// increasing id order.
    pub fn iceberg_candidates(&self, config: IcebergConfig) -> (r: Vec<IcebergCandidate>)
        requires
            self.wf(),
        ensures
            r@ == icebergs(self.spec_order_seq(), config),
    {
        let orders = self.listing();
        let mut out: Vec<IcebergCandidate> = Vec::new();
        let mut i: usize = 0;
        while i < orders.len()
            invariant
                i <= orders@.len(),
                out@ == icebergs(orders@.take(i as int), config),
            decreases orders@.len() - i,
        {
            proof {
                assert(orders@.take((i + 1) as int).drop_last() == orders@.take(i as int));
            }
            let o = orders[i];
            if o.refresh_count >= config.min_refresh_count && o.total_filled.units
                >= config.min_total_filled.units {
                out.push(
                    IcebergCandidate {
                        order_id: o.order_id,
                        side: o.side,
                        price: o.price,
                        refresh_count: o.refresh_count,
                        total_filled: o.total_filled,
                        displayed_remaining: o.remaining,
                    },
                );
            }
            i = i + 1;
        }
        proof {
            assert(orders@.take(i as int) == orders@);
        }
        out
    }

    fn apply_add(&mut self, event: MboEvent)
        requires
            old(self).wf(),
        ensures
            final(self).wf(),
            (final(self).spec_orders(), final(self).spec_next_sequence()) == apply_add(
                old(self).spec_orders(),
                old(self).spec_next_sequence(),
                event,
            ),
    {
        match self.orders.get(&event.order_id) {
            Some(found) => {
                let existing = *found;
                if existing.side == event.side && existing.price.units == event.price.units
                    && event.qty.units > existing.remaining.units && existing.total_filled.units != 0 {
                    let o = MboOrder {
                        refresh_count: if existing.refresh_count == u32::MAX {
                            existing.refresh_count
                        } else {
                            existing.refresh_count + 1
                        },
                        remaining: event.qty,
                        last_update: event.time,
                        ..existing
                    };
                    self.put(o);
                    return ;
                }
            },
            None => {},
        }
        let sequence = self.next_sequence;
        self.next_sequence = sat_add_u64(self.next_sequence, 1);
        self.put(
            MboOrder {
                order_id: event.order_id,
                side: event.side,
                price: event.price,
                remaining: event.qty,
                total_filled: Qty { units: 0 },
                refresh_count: 0,
                sequence,
                last_update: event.time,
            },
        );
    }

    fn apply_modify(&mut self, event: MboEvent)
        requires
            old(self).wf(),
            event.action == MboAction::Modify,
        ensures
            final(self).wf(),
            (final(self).spec_orders(), final(self).spec_next_sequence()) == apply_event(
                old(self).spec_orders(),
                old(self).spec_next_sequence(),
                event,
            ),
    {
        match self.orders.get(&event.order_id) {
            None => {
                self.apply_add(MboEvent { action: MboAction::Add, ..event });
            },
            Some(found) => {
                let o = *found;
                let reload = o.side == event.side && o.price.units == event.price.units
                    && event.qty.units > o.remaining.units && o.total_filled.units != 0;
                let moved = o.side != event.side || o.price.units != event.price.units;
                let sequence = if moved { self.next_sequence } else { o.sequence };
                if moved {
                    self.next_sequence = sat_add_u64(self.next_sequence, 1);
                }
                let o2 = MboOrder {
                    side: event.side,
                    price: event.price,
                    remaining: event.qty,
                    last_update: event.time,
                    refresh_count: if reload && o.refresh_count != u32::MAX {
                        o.refresh_count + 1
                    } else {
                        o.refresh_count
                    },
                    sequence,
                    ..o
                };
                self.put(o2);
            },
        }
    }

    fn apply_fill(&mut self, event: MboEvent)
        requires
            old(self).wf(),
            event.action == MboAction::Fill,
        ensures
            final(self).wf(),
            (final(self).spec_orders(), final(self).spec_next_sequence()) == apply_event(
                old(self).spec_orders(),
                old(self).spec_next_sequence(),
                event,
            ),
    {
        match self.orders.get(&event.order_id) {
            None => {},
            Some(found) => {
                let o = *found;
                let filled = if o.remaining.units <= event.qty.units {
                    o.remaining.units
                } else {
                    event.qty.units
                };
                let o2 = MboOrder {
                    remaining: Qty { units: o.remaining.units - filled },
                    total_filled: Qty { units: sat_add_u64(o.total_filled.units, filled) },
                    last_update: event.time,
                    ..o
                };
                self.put(o2);
            },
        }
    }
}

impl Default for IcebergConfig {
    fn default() -> (r: Self)
        ensures
            r.min_refresh_count == 2,
            r.min_total_filled.units == 0,
    {
        IcebergConfig::default_config()
    }
}

impl Default for MboBook {
    fn default() -> (r: Self)
        ensures
            r.wf(),
            r.spec_orders() == Map::<u64, MboOrder>::empty(),
            r.spec_next_sequence() == 1,
    {
        MboBook::new()
    }
}

/// Restricting what counts never adds quantity; leaving out an order that
/// the wider filter counts removes at least that order's quantity.
proof fn lemma_remaining_where_within(
    s: Seq<MboOrder>,
    narrow: spec_fn(MboOrder) -> bool,
    wide: spec_fn(MboOrder) -> bool,
    k: int,
)
    requires
        forall|o: MboOrder| #[trigger] narrow(o) ==> wide(o),
        -1 <= k < s.len(),
        k >= 0 ==> wide(s[k]) && !narrow(s[k]),
    ensures
        remaining_where(s, narrow) + (if k >= 0 { s[k].remaining.units as int } else { 0 })
            <= remaining_where(s, wide),
    decreases s.len(),
{
    if s.len() > 0 {
        let init = s.drop_last();
        if k == s.len() - 1 {
            lemma_remaining_where_within(init, narrow, wide, -1);
        } else {
            if k >= 0 {
                assert(init[k] == s[k]);
            }
            lemma_remaining_where_within(init, narrow, wide, k);
        }
    }
}

/// Inserting one order adds its quantity exactly when it is counted.
proof fn lemma_remaining_where_insert(s: Seq<MboOrder>, j: int, o: MboOrder, pred: spec_fn(MboOrder) -> bool)
    requires
        0 <= j <= s.len(),
    ensures
        remaining_where(s.insert(j, o), pred) == remaining_where(s, pred) + if pred(o) {
            o.remaining.units as nat
        } else {
            0
        },
    decreases s.len(),
{
    if j == s.len() {
        assert(s.insert(j, o) =~= s.push(o));
        assert(s.push(o).drop_last() =~= s);
    } else {
        let r = s.insert(j, o);
        assert(r.drop_last() =~= s.drop_last().insert(j, o));
        assert(r.last() == s.last());
        lemma_remaining_where_insert(s.drop_last(), j, o, pred);
    }
}

/// The quantity queued ahead of an order only counts orders resting at its
/// own side and price: together with the order's own displayed quantity it
/// never exceeds what rests at that level (both sums saturating).
pub proof fn law_queue_ahead_within_level(b: MboBook, id: u64, ahead: Option<Qty>, level: Qty)
    requires
        b.wf(),
        b.spec_orders().contains_key(id),
        ahead == Some(
            Qty {
                units: clamp_u64(
                    remaining_where(b.spec_order_seq(), ahead_of(b.spec_orders()[id])) as int,
                ),
            },
        ),
        level.units == clamp_u64(
            remaining_where(
                b.spec_order_seq(),
                at_level(b.spec_orders()[id].side, b.spec_orders()[id].price),
            ) as int,
        ),
    ensures
        ({
            let o = b.spec_orders()[id];
            &&& ahead matches Some(a) && a.units <= level.units
            &&& level.units < u64::MAX ==> ahead.unwrap().units + o.remaining.units <= level.units
        }),
{
    b.lemma_wf_orders();
    let o = b.spec_orders()[id];
    let s = b.spec_order_seq();
    let k = choose|i: int| 0 <= i < s.len() && s[i].order_id == id;
    assert(s[k] == o);
    let narrow = ahead_of(o);
    let wide = at_level(o.side, o.price);
    assert forall|x: MboOrder| #[trigger] narrow(x) implies wide(x) by {}
    lemma_remaining_where_within(s, narrow, wide, k);
}

/// A new order at another price or on the other side does not change how
/// much is queued ahead of an order.
pub proof fn law_queue_ahead_ignores_other_levels(
    b: MboBook,
    e: MboEvent,
    b2: MboBook,
    id: u64,
    ahead: Option<Qty>,
    ahead2: Option<Qty>,
)
    requires
        b.wf(),
        b2.wf(),
        e.action == MboAction::Add,
        !b.spec_orders().contains_key(e.order_id),
        (b2.spec_orders(), b2.spec_next_sequence()) == apply_event(
            b.spec_orders(),
            b.spec_next_sequence(),
            e,
        ),
        b.spec_orders().contains_key(id),
        e.side != b.spec_orders()[id].side || e.price != b.spec_orders()[id].price,
        ahead == Some(
            Qty {
                units: clamp_u64(
                    remaining_where(b.spec_order_seq(), ahead_of(b.spec_orders()[id])) as int,
                ),
            },
        ),
        b2.spec_orders().contains_key(id) ==> ahead2 == Some(
            Qty {
                units: clamp_u64(
                    remaining_where(b2.spec_order_seq(), ahead_of(b2.spec_orders()[id])) as int,
                ),
            },
        ),
    ensures
        b2.spec_orders().contains_key(id),
        b2.spec_orders()[id] == b.spec_orders()[id],
        ahead2 == ahead,
{
    b.lemma_wf_orders();
    b2.lemma_wf_orders();
    let s = b.spec_order_seq();
    let o = fresh_order(e, b.spec_next_sequence());
    let j = lemma_insert_position(s, e.order_id);
    if j < s.len() {
        assert(s[j].order_id != e.order_id) by {
            if s[j].order_id == e.order_id {
                lemma_order_at(s, j);
            }
        }
    }
    lemma_orders_insert(s, j, o);
    lemma_orders_determined(s.insert(j, o), b2.spec_order_seq());
    assert(id != e.order_id);
    assert(b2.spec_orders()[id] == b.spec_orders()[id]);
    lemma_remaining_where_insert(s, j, o, ahead_of(b.spec_orders()[id]));
}

/// A fill moves quantity from displayed to executed: never more than was
/// displayed, and (short of the executed total saturating) their sum stays.
pub proof fn law_fill_moves_displayed_to_executed(m: Map<u64, MboOrder>, next: u64, e: MboEvent)
    requires
        e.action == MboAction::Fill,
        m.contains_key(e.order_id),
        m[e.order_id].remaining.units + m[e.order_id].total_filled.units <= u64::MAX,
    ensures
        ({
            let (m2, n2) = apply_event(m, next, e);
            let before = m[e.order_id];
            let after = m2[e.order_id];
            &&& n2 == next
            &&& after.remaining.units <= before.remaining.units
            &&& after.remaining.units + after.total_filled.units == before.remaining.units
                + before.total_filled.units
            &&& after.sequence == before.sequence
        }),
{
}

/// Re-quoting an order in place (same side and price) keeps its place in
/// the queue; moving it sends it to the back.
pub proof fn law_requote_keeps_queue_position(m: Map<u64, MboOrder>, next: u64, e: MboEvent)
    requires
        e.action == MboAction::Modify,
        m.contains_key(e.order_id),
    ensures
        ({
            let (m2, n2) = apply_event(m, next, e);
            let o = m[e.order_id];
            if o.side == e.side && o.price == e.price {
                m2[e.order_id].sequence == o.sequence && n2 == next
            } else {
                m2[e.order_id].sequence == next
            }
        }),
{
}

} // verus!
