//! Conservative detection of consumed L2 liquidity: a depth reduction counts
//! as consumption only when aggressive trades on the matching side, at the
//! exact price and within a short window, explain enough of it. Matched trade
//! volume is drawn down and cannot explain a later reduction again.
use vstd::prelude::*;

use crate::depth::{BookLevel, Depth, level_map, prices_increasing, shown_qty};
use crate::orderflow::speed::{BookConsumptionEvent, BookSide};
use crate::sort::{sort_by_time, time_sorted};
use crate::unit::{clamp_u64, sat_add_u64, trades_to_vec, Price, Qty, Trade, UnixMs};

verus! {

/// Parts per million: the scale of match ratios.
pub const RATIO_SCALE: u32 = 1_000_000;

/// How reductions are matched to trades.
#[derive(Debug, Clone, Copy, PartialEq, Eq, Structural)]
pub struct ConsumptionConfig {
    /// How far back trade prints may be matched to a book reduction; at least 1.
    pub match_window_ms: u64,
    /// Minimum share of the removed depth that matching aggressive volume must
    /// explain, in parts per million, at most `RATIO_SCALE`.
    pub min_trade_match_ppm: u32,
}

/// The configuration `ConsumptionConfig::new` builds: the window raised to
/// at least 1 ms and the ratio capped at 100%.
pub open spec fn consumption_config(match_window_ms: u64, min_trade_match_ppm: u32) -> ConsumptionConfig {
    ConsumptionConfig {
        match_window_ms: if match_window_ms >= 1 { match_window_ms } else { 1 },
        min_trade_match_ppm: if min_trade_match_ppm <= RATIO_SCALE {
            min_trade_match_ppm
        } else {
            RATIO_SCALE
        },
    }
}

impl ConsumptionConfig {
    pub fn new(match_window_ms: u64, min_trade_match_ppm: u32) -> (r: Self)
        ensures
            r == consumption_config(match_window_ms, min_trade_match_ppm),
    {
        ConsumptionConfig {
            match_window_ms: if match_window_ms >= 1 { match_window_ms } else { 1 },
            min_trade_match_ppm: if min_trade_match_ppm <= RATIO_SCALE {
                min_trade_match_ppm
            } else {
                RATIO_SCALE
            },
        }
    }

    /// A 750 ms matching window and a 50% minimum match.
    pub fn default_config() -> (r: Self)
        ensures
            r.match_window_ms == 750,
            r.min_trade_match_ppm == 500_000,
    {
        ConsumptionConfig { match_window_ms: 750, min_trade_match_ppm: 500_000 }
    }

    pub open spec fn valid(self) -> bool {
        self.match_window_ms >= 1 && self.min_trade_match_ppm <= RATIO_SCALE
    }
}

/// A recorded trade print with the volume not yet used to confirm a reduction.
#[derive(Debug, Clone, Copy, PartialEq, Eq, Structural)]
pub struct MatchableTrade {
    pub time: UnixMs,
    pub is_sell: bool,
    pub price: Price,
    pub remaining: Qty,
}

pub open spec fn matchable(t: Trade) -> MatchableTrade {
    MatchableTrade { time: t.time, is_sell: t.is_sell, price: t.price, remaining: t.qty }
}

pub open spec fn matchables(ts: Seq<Trade>) -> Seq<MatchableTrade> {
    ts.map_values(|t: Trade| matchable(t))
}

/// A trade can explain a reduction at `price` seen at `now`.
pub open spec fn matches_level(
    t: MatchableTrade,
    earliest: u64,
    now: u64,
    price: i64,
    is_sell: bool,
) -> bool {
    &&& earliest <= t.time.ms <= now
    &&& t.price.units == price
    &&& t.is_sell == is_sell
}

/// Unused volume of the trades that can explain a reduction.
pub open spec fn matching_sum(
    s: Seq<MatchableTrade>,
    earliest: u64,
    now: u64,
    price: i64,
    is_sell: bool,
) -> nat
    decreases s.len(),
{
    if s.len() == 0 {
        0
    } else {
        matching_sum(s.drop_first(), earliest, now, price, is_sell) + if matches_level(
            s[0],
            earliest,
            now,
            price,
            is_sell,
        ) {
            s[0].remaining.units as nat
        } else {
            0
        }
    }
}

/// Draw `q` units down from the matching trades, oldest entry first.
pub open spec fn draw_down(
    s: Seq<MatchableTrade>,
    earliest: u64,
    now: u64,
    price: i64,
    is_sell: bool,
    q: nat,
) -> Seq<MatchableTrade>
    decreases s.len(),
{
    if s.len() == 0 {
        s
    } else if matches_level(s[0], earliest, now, price, is_sell) {
        let used = if q <= s[0].remaining.units { q } else { s[0].remaining.units as nat };
        seq![MatchableTrade { remaining: Qty { units: (s[0].remaining.units - used) as u64 }, ..s[0] }]
            + draw_down(s.drop_first(), earliest, now, price, is_sell, (q - used) as nat)
    } else {
        seq![s[0]] + draw_down(s.drop_first(), earliest, now, price, is_sell, q)
    }
}

/// Drawing down never touches other trades, never raises a remainder, and
/// lowers the matching volume by exactly what was asked, up to what there is.
pub proof fn lemma_draw_down(
    s: Seq<MatchableTrade>,
    earliest: u64,
    now: u64,
    price: i64,
    is_sell: bool,
    q: nat,
)
    ensures
        ({
            let r = draw_down(s, earliest, now, price, is_sell, q);
            let before = matching_sum(s, earliest, now, price, is_sell);
            &&& r.len() == s.len()
            &&& matching_sum(r, earliest, now, price, is_sell) == before - (if q <= before {
                q
            } else {
                before
            })
            &&& forall|i: int|
                0 <= i < s.len() ==> {
                    &&& (#[trigger] r[i]).time == s[i].time
                    &&& r[i].price == s[i].price
                    &&& r[i].is_sell == s[i].is_sell
                    &&& r[i].remaining.units <= s[i].remaining.units
                    &&& !matches_level(s[i], earliest, now, price, is_sell) ==> r[i] == s[i]
                }
        }),
    decreases s.len(),
{
    if s.len() > 0 {
        let used = if q <= s[0].remaining.units { q } else { s[0].remaining.units as nat };
        let q2: nat = if matches_level(s[0], earliest, now, price, is_sell) {
            (q - used) as nat
        } else {
            q
        };
        lemma_draw_down(s.drop_first(), earliest, now, price, is_sell, q2);
        let r = draw_down(s, earliest, now, price, is_sell, q);
        let rt = draw_down(s.drop_first(), earliest, now, price, is_sell, q2);
        assert(r.drop_first() == rt);
        assert forall|i: int| 0 < i < s.len() implies (#[trigger] r[i]) == rt[i - 1] && s[i] == s.drop_first()[i - 1] by {
        }
    }
}

/// What one previous level contributes: the event (if the reduction is
/// confirmed) and the trades afterwards.
pub open spec fn detect_level(
    level: BookLevel,
    current: Map<i64, u64>,
    trades: Seq<MatchableTrade>,
    config: ConsumptionConfig,
    now: UnixMs,
    side: BookSide,
    is_sell: bool,
) -> (Option<BookConsumptionEvent>, Seq<MatchableTrade>) {
    let p = level.price.units;
    let new_qty: nat = if current.contains_key(p) { current[p] as nat } else { 0 };
    let old_qty: nat = level.qty.units as nat;
    let earliest = clamp_u64(now.ms - config.match_window_ms);
    let available = matching_sum(trades, earliest, now.ms, p, is_sell);
    if new_qty >= old_qty || available == 0 {
        (None, trades)
    } else {
        let removed: nat = (old_qty - new_qty) as nat;
        if available * (RATIO_SCALE as nat) < (config.min_trade_match_ppm as nat) * removed {
            (None, trades)
        } else {
            let matched: nat = if removed <= available { removed } else { available };
            (
                Some(
                    BookConsumptionEvent {
                        time: now,
                        side,
                        levels: if new_qty == 0 { 1 } else { 0 },
                        qty: Qty { units: matched as u64 },
                    },
                ),
                draw_down(trades, earliest, now.ms, p, is_sell, matched),
            )
        }
    }
}

/// A level's consumption is only what aggressive trades confirm: the
/// reported quantity is the smaller of the reduction and the unused
/// matching volume, and exactly that much matching volume is used up.
/// Without a reduction, or without enough matching volume, nothing is
/// reported and no trade is touched.
pub proof fn law_consumption_is_confirmed_volume(
    level: BookLevel,
    current: Map<i64, u64>,
    trades: Seq<MatchableTrade>,
    config: ConsumptionConfig,
    now: UnixMs,
    side: BookSide,
    is_sell: bool,
)
    ensures
        ({
            let p = level.price.units;
            let earliest = clamp_u64(now.ms - config.match_window_ms);
            let available = matching_sum(trades, earliest, now.ms, p, is_sell);
            let new_qty: int = if current.contains_key(p) { current[p] as int } else { 0 };
            let removed: int = level.qty.units - new_qty;
            match detect_level(level, current, trades, config, now, side, is_sell) {
                (Some(ev), after) => {
                    &&& removed > 0
                    &&& ev.qty.units <= available
                    &&& ev.qty.units <= removed
                    &&& (ev.qty.units == available || ev.qty.units == removed)
                    &&& matching_sum(after, earliest, now.ms, p, is_sell) + ev.qty.units == available
                    &&& ev.time == now
                    &&& ev.side == side
                    &&& ev.levels == if new_qty == 0 { 1u32 } else { 0u32 }
                },
                (None, after) => after == trades && (removed <= 0 || available == 0 || available
                    * (RATIO_SCALE as int) < (config.min_trade_match_ppm as int) * removed),
            }
        }),
{
    let p = level.price.units;
    let earliest = clamp_u64(now.ms - config.match_window_ms);
    let available = matching_sum(trades, earliest, now.ms, p, is_sell);
    let new_qty: nat = if current.contains_key(p) { current[p] as nat } else { 0 };
    if new_qty < level.qty.units && available > 0 {
        let removed: nat = (level.qty.units - new_qty) as nat;
        let matched: nat = if removed <= available { removed } else { available };
        lemma_draw_down(trades, earliest, now.ms, p, is_sell, matched);
    }
}

/// Walk the previous levels in price order.
pub open spec fn detect_levels(
    levels: Seq<BookLevel>,
    current: Map<i64, u64>,
    trades: Seq<MatchableTrade>,
    config: ConsumptionConfig,
    now: UnixMs,
    side: BookSide,
    is_sell: bool,
) -> (Seq<BookConsumptionEvent>, Seq<MatchableTrade>)
    decreases levels.len(),
{
    if levels.len() == 0 {
        (Seq::empty(), trades)
    } else {
        let (es, ts) = detect_levels(levels.drop_last(), current, trades, config, now, side, is_sell);
        let (e, ts2) = detect_level(levels.last(), current, ts, config, now, side, is_sell);
        (
            match e {
                Some(ev) => es.push(ev),
                None => es,
            },
            ts2,
        )
    }
}

/// Trades kept by pruning at `now`: inside the matching window and with
/// unused volume left.
pub open spec fn keep_matchable(earliest: u64) -> spec_fn(MatchableTrade) -> bool {
    |t: MatchableTrade| t.time.ms >= earliest && t.remaining.units > 0
}

/// Conservative L2 book-consumption detector.
pub struct BookConsumptionDetector {
    config: ConsumptionConfig,
    previous: Option<Depth>,
    trades: Vec<MatchableTrade>,
}

impl BookConsumptionDetector {
    pub closed spec fn spec_config(&self) -> ConsumptionConfig {
        self.config
    }

    pub closed spec fn spec_trades(&self) -> Seq<MatchableTrade> {
        self.trades@
    }

    pub closed spec fn spec_has_previous(&self) -> bool {
        self.previous.is_some()
    }

    /// The previous book state, side by side.
    pub closed spec fn spec_previous_levels(&self, side: BookSide) -> Seq<BookLevel> {
        match self.previous {
            Some(d) => d.spec_levels(side),
            None => Seq::empty(),
        }
    }

    /// Without a previous book state there are no previous levels.
    pub proof fn lemma_no_previous_levels(&self, side: BookSide)
        requires
            !self.spec_has_previous(),
        ensures
            self.spec_previous_levels(side) == Seq::<BookLevel>::empty(),
    {
    }

    pub closed spec fn wf(&self) -> bool {
        &&& self.config.valid()
        &&& match self.previous {
            Some(d) => d.wf(),
            None => true,
        }
    }

    /// What recording `trades` does: they are appended in chronological
    /// order, then trades outside the matching window of the newest recorded
    /// print, or fully used, are dropped. Nothing else changes.
    pub open spec fn record_trades_post(self, trades: Seq<Trade>, post: Self) -> bool {
        &&& post.spec_config() == self.spec_config()
        &&& post.spec_has_previous() == self.spec_has_previous()
        &&& forall|s: BookSide| #[trigger] post.spec_previous_levels(s) == self.spec_previous_levels(s)
        &&& trades.len() == 0 ==> post.spec_trades() == self.spec_trades()
        &&& trades.len() > 0 ==> post.spec_trades() == (self.spec_trades() + matchables(
            time_sorted(trades),
        )).filter(
            keep_matchable(clamp_u64(time_sorted(trades).last().time.ms - self.spec_config().match_window_ms)),
        )
    }

    /// What processing a book state at `now` does: recorded trades outside
    /// the matching window are dropped; the first state only becomes the
    /// baseline; afterwards the asks of the previous state are checked
    /// against aggressive buys, then the bids against aggressive sells, each
    /// level in increasing price order; the new state becomes the baseline.
    pub open spec fn process_depth_post(
        self,
        now: UnixMs,
        depth: Depth,
        r: Seq<BookConsumptionEvent>,
        post: Self,
    ) -> bool {
        let earliest = clamp_u64(now.ms - self.spec_config().match_window_ms);
        let pruned = self.spec_trades().filter(keep_matchable(earliest));
        &&& post.spec_config() == self.spec_config()
        &&& post.spec_has_previous()
        &&& forall|s: BookSide| #[trigger] post.spec_previous_levels(s) == depth.spec_levels(s)
        &&& if !self.spec_has_previous() {
            &&& r.len() == 0
            &&& post.spec_trades() == pruned
        } else {
            let (asks, t1) = detect_levels(
                self.spec_previous_levels(BookSide::Ask),
                depth.spec_side(BookSide::Ask),
                pruned,
                self.spec_config(),
                now,
                BookSide::Ask,
                false,
            );
            let (bids, t2) = detect_levels(
                self.spec_previous_levels(BookSide::Bid),
                depth.spec_side(BookSide::Bid),
                t1,
                self.spec_config(),
                now,
                BookSide::Bid,
                true,
            );
            &&& r == asks + bids
            &&& post.spec_trades() == t2
        }
    }

    pub fn new(config: ConsumptionConfig) -> (r: Self)
        ensures
            r.wf(),
            r.spec_config() == consumption_config(config.match_window_ms, config.min_trade_match_ppm),
            !r.spec_has_previous(),
            r.spec_trades().len() == 0,
    {
        BookConsumptionDetector {
            config: ConsumptionConfig::new(config.match_window_ms, config.min_trade_match_ppm),
            previous: None,
            trades: Vec::new(),
        }
    }

    pub fn default_detector() -> (r: Self)
        ensures
            r.wf(),
            r.spec_config() == consumption_config(750, 500_000),
            !r.spec_has_previous(),
            r.spec_trades().len() == 0,
    {
        Self::new(ConsumptionConfig::default_config())
    }

    pub fn config(&self) -> (r: ConsumptionConfig)
        ensures
            r == self.spec_config(),
    {
        self.config
    }

    pub fn set_config(&mut self, config: ConsumptionConfig)
        requires
            old(self).wf(),
        ensures
            final(self).wf(),
            final(self).spec_config() == consumption_config(
                config.match_window_ms,
                config.min_trade_match_ppm,
            ),
            final(self).spec_trades() == old(self).spec_trades(),
            final(self).spec_has_previous() == old(self).spec_has_previous(),
            forall|s: BookSide| #[trigger] final(self).spec_previous_levels(s) == old(
                self,
            ).spec_previous_levels(s),
    {
        self.config = ConsumptionConfig::new(config.match_window_ms, config.min_trade_match_ppm);
    }

    pub fn clear(&mut self)
        requires
            old(self).wf(),
        ensures
            final(self).wf(),
            final(self).spec_config() == old(self).spec_config(),
            !final(self).spec_has_previous(),
            final(self).spec_trades().len() == 0,
    {
        self.previous = None;
        self.trades.clear();
    }

    /// Record trade prints that can later confirm reductions: they are
    /// appended in chronological order, then trades outside the matching
    /// window of the newest recorded print, or fully used, are dropped.
    pub fn record_trades(&mut self, trades: &[Trade])
        requires
            old(self).wf(),
        ensures
            final(self).wf(),
            old(self).record_trades_post(trades@, *final(self)),
    {
        if trades.len() == 0 {
            return;
        }
        let ordered = sort_by_time(trades_to_vec(trades));
        let ghost before = self.trades@;
        let mut i: usize = 0;
        while i < ordered.len()
            invariant
                i <= ordered@.len(),
                self.trades@ == before + matchables(ordered@.take(i as int)),
                self.config == old(self).config,
                self.previous == old(self).previous,
            decreases ordered@.len() - i,
        {
            let t = ordered[i];
            self.trades.push(
                MatchableTrade { time: t.time, is_sell: t.is_sell, price: t.price, remaining: t.qty },
            );
            i = i + 1;
            proof {
                assert(matchables(ordered@.take(i as int)) == matchables(
                    ordered@.take((i - 1) as int),
                ).push(matchable(ordered@[i - 1])));
            }
        }
        proof {
            assert(ordered@.take(i as int) == ordered@);
            assert(ordered@.len() == trades@.len()) by {
                vstd::seq_lib::to_multiset_len(ordered@);
                vstd::seq_lib::to_multiset_len(trades@);
            }
        }
        let latest = ordered[ordered.len() - 1].time;
        let earliest = latest.saturating_sub_ms(self.config.match_window_ms);
        self.prune(earliest.ms);
    }

    /// Compare a new book state with the previous one and report the
    /// reductions confirmed by aggressive trades: asks (confirmed by
    /// aggressive buys) first, then bids (confirmed by aggressive sells),
    /// each in increasing price order. The first state only becomes the
    /// baseline.
    pub fn process_depth(&mut self, now: UnixMs, depth: &Depth) -> (r: Vec<BookConsumptionEvent>)
        requires
            old(self).wf(),
            depth.wf(),
        ensures
            final(self).wf(),
            old(self).process_depth_post(now, *depth, r@, *final(self)),
    {
        let earliest = now.saturating_sub_ms(self.config.match_window_ms);
        self.prune(earliest.ms);
        let previous = self.previous.take();
        match previous {
            None => {
                self.previous = Some(depth.copy());
                Vec::new()
            },
            Some(prev) => {
                let mut events: Vec<BookConsumptionEvent> = Vec::new();
                self.detect_side(now, prev.levels(BookSide::Ask), depth, BookSide::Ask, false, &mut events);
                let ghost asks = events@;
                self.detect_side(now, prev.levels(BookSide::Bid), depth, BookSide::Bid, true, &mut events);
                proof {
                    assert(events@ == asks + events@.skip(asks.len() as int));
                }
                self.previous = Some(depth.copy());
                events
            },
        }
    }

    fn detect_side(
        &mut self,
        now: UnixMs,
        previous: &Vec<BookLevel>,
        current: &Depth,
        side: BookSide,
        matching_is_sell: bool,
        out: &mut Vec<BookConsumptionEvent>,
    )
        requires
            old(self).config.valid(),
            current.wf(),
            prices_increasing(previous@),
        ensures
            final(self).config == old(self).config,
            final(self).previous == old(self).previous,
            ({
                let (es, ts) = detect_levels(
                    previous@,
                    current.spec_side(side),
                    old(self).trades@,
                    old(self).config,
                    now,
                    side,
                    matching_is_sell,
                );
                &&& final(out)@ == old(out)@ + es
                &&& final(self).trades@ == ts
            }),
    {
        let ghost out0 = out@;
        let ghost trades0 = self.trades@;
        let mut i: usize = 0;
        while i < previous.len()
            invariant
                i <= previous@.len(),
                self.config == old(self).config,
                self.previous == old(self).previous,
                self.config.valid(),
                current.wf(),
                ({
                    let (es, ts) = detect_levels(
                        previous@.take(i as int),
                        current.spec_side(side),
                        trades0,
                        self.config,
                        now,
                        side,
                        matching_is_sell,
                    );
                    &&& out@ == out0 + es
                    &&& self.trades@ == ts
                }),
            decreases previous@.len() - i,
        {
            proof {
                assert(previous@.take((i + 1) as int).drop_last() == previous@.take(i as int));
            }
            let level = previous[i];
            let e = self.detect_level_exec(now, level, current, side, matching_is_sell);
            match e {
                Some(ev) => {
                    out.push(ev);
                },
                None => {},
            }
            i = i + 1;
            proof {
                assert(previous@.take(i as int).last() == level);
            }
        }
        proof {
            assert(previous@.take(i as int) == previous@);
        }
    }

    fn detect_level_exec(
        &mut self,
        now: UnixMs,
        level: BookLevel,
        current: &Depth,
        side: BookSide,
        is_sell: bool,
    ) -> (r: Option<BookConsumptionEvent>)
        requires
            old(self).config.valid(),
            current.wf(),
        ensures
            final(self).config == old(self).config,
            final(self).previous == old(self).previous,
            (r, final(self).trades@) == detect_level(
                level,
                current.spec_side(side),
                old(self).trades@,
                old(self).config,
                now,
                side,
                is_sell,
            ),
    {
        let new_qty = current.qty_at(side, level.price);
        let old_qty = level.qty;
        if new_qty.units >= old_qty.units {
            return None;
        }
        let removed = old_qty.units - new_qty.units;
        let earliest = now.saturating_sub_ms(self.config.match_window_ms);
        let available = self.matching_trade_qty(earliest.ms, now.ms, level.price, is_sell);
        if available == 0 {
            return None;
        }
        let ghost sum = matching_sum(self.trades@, earliest.ms, now.ms, level.price.units, is_sell);
        let ppm = self.config.min_trade_match_ppm;
        proof {
            assert(ppm as int * removed as int <= 1_000_000 * 0xffff_ffff_ffff_ffff) by (nonlinear_arith)
                requires
                    ppm <= 1_000_000,
                    removed <= 0xffff_ffff_ffff_ffffu64,
            ;
            assert(available as int * 1_000_000 <= 1_000_000 * 0xffff_ffff_ffff_ffff) by (nonlinear_arith)
                requires
                    available <= 0xffff_ffff_ffff_ffffu64,
            ;
            if sum > u64::MAX {
                assert(sum * 1_000_000 >= ppm as int * removed as int) by (nonlinear_arith)
                    requires
                        ppm <= 1_000_000,
                        removed <= 0xffff_ffff_ffff_ffffu64,
                        sum > 0xffff_ffff_ffff_ffffu64,
                ;
                assert(available as int * 1_000_000 >= ppm as int * removed as int) by (nonlinear_arith)
                    requires
                        ppm <= 1_000_000,
                        removed <= 0xffff_ffff_ffff_ffffu64,
                        available == 0xffff_ffff_ffff_ffffu64,
                ;
            }
        }
        let lhs: u128 = available as u128 * RATIO_SCALE as u128;
        let rhs: u128 = ppm as u128 * removed as u128;
        if lhs < rhs {
            return None;
        }
        let matched = if removed <= available { removed } else { available };
        self.consume_matching_trades(earliest.ms, now.ms, level.price, is_sell, matched);
        Some(
            BookConsumptionEvent {
                time: now,
                side,
                levels: if new_qty.units == 0 { 1 } else { 0 },
                qty: Qty { units: matched },
            },
        )
    }

    /// Unused volume of the trades that can explain a reduction, saturating.
    fn matching_trade_qty(&self, earliest: u64, now: u64, price: Price, is_sell: bool) -> (r: u64)
        ensures
            r == clamp_u64(matching_sum(self.trades@, earliest, now, price.units, is_sell) as int),
    {
        let mut acc: u64 = 0;
        let mut i: usize = self.trades.len();
        while i > 0
            invariant
                i <= self.trades@.len(),
                acc == clamp_u64(
                    matching_sum(self.trades@.skip(i as int), earliest, now, price.units, is_sell) as int,
                ),
            decreases i,
        {
            i = i - 1;
            proof {
                assert(self.trades@.skip(i as int).drop_first() == self.trades@.skip((i + 1) as int));
            }
            let t = self.trades[i];
            if earliest <= t.time.ms && t.time.ms <= now && t.price.units == price.units
                && t.is_sell == is_sell {
                acc = sat_add_u64(acc, t.remaining.units);
            }
        }
        proof {
            assert(self.trades@.skip(0) == self.trades@);
        }
        acc
    }

    fn consume_matching_trades(&mut self, earliest: u64, now: u64, price: Price, is_sell: bool, qty: u64)
        ensures
            final(self).trades@ == draw_down(old(self).trades@, earliest, now, price.units, is_sell, qty as nat),
            final(self).config == old(self).config,
            final(self).previous == old(self).previous,
    {
        let ghost s0 = self.trades@;
        let mut q = qty;
        let mut i: usize = 0;
        proof {
            assert(s0.skip(0) == s0);
            assert(self.trades@.take(0) == Seq::<MatchableTrade>::empty());
        }
        while i < self.trades.len()
            invariant
                i <= self.trades@.len(),
                self.trades@.len() == s0.len(),
                self.trades@.skip(i as int) == s0.skip(i as int),
                draw_down(s0, earliest, now, price.units, is_sell, qty as nat) == self.trades@.take(i as int)
                    + draw_down(s0.skip(i as int), earliest, now, price.units, is_sell, q as nat),
                self.config == old(self).config,
                self.previous == old(self).previous,
            decreases self.trades@.len() - i,
        {
            let t = self.trades[i];
            proof {
                assert(s0.skip(i as int)[0] == t);
                assert(s0.skip(i as int).drop_first() == s0.skip((i + 1) as int));
            }
            if earliest <= t.time.ms && t.time.ms <= now && t.price.units == price.units
                && t.is_sell == is_sell {
                let used = if q <= t.remaining.units { q } else { t.remaining.units };
                let nt = MatchableTrade { remaining: Qty { units: t.remaining.units - used }, ..t };
                self.trades.set(i, nt);
                q = q - used;
                proof {
                    assert(self.trades@.take((i + 1) as int) == self.trades@.take(i as int).push(nt));
                }
            } else {
                proof {
                    assert(self.trades@.take((i + 1) as int) == self.trades@.take(i as int).push(t));
                }
            }
            i = i + 1;
            proof {
                assert(self.trades@.skip(i as int) == s0.skip(i as int));
            }
        }
        proof {
            assert(self.trades@.take(i as int) == self.trades@);
            assert(s0.skip(i as int) == Seq::<MatchableTrade>::empty());
        }
    }

    fn prune(&mut self, earliest: u64)
        ensures
            final(self).trades@ == old(self).trades@.filter(keep_matchable(earliest)),
            final(self).config == old(self).config,
            final(self).previous == old(self).previous,
    {
        let mut kept: Vec<MatchableTrade> = Vec::new();
        let mut i: usize = 0;
        while i < self.trades.len()
            invariant
                i <= self.trades@.len(),
                kept@ == self.trades@.take(i as int).filter(keep_matchable(earliest)),
            decreases self.trades@.len() - i,
        {
            proof {
                reveal_with_fuel(Seq::<_>::filter, 1);
                assert(self.trades@.take((i + 1) as int).drop_last() == self.trades@.take(i as int));
            }
            let t = self.trades[i];
            if t.time.ms >= earliest && t.remaining.units > 0 {
                kept.push(t);
            }
            i = i + 1;
        }
        proof {
            assert(self.trades@.take(i as int) == self.trades@);
        }
        self.trades = kept;
    }
}

impl Default for ConsumptionConfig {
    fn default() -> (r: Self)
        ensures
            r.match_window_ms == 750,
            r.min_trade_match_ppm == 500_000,
    {
        ConsumptionConfig::default_config()
    }
}

impl Default for BookConsumptionDetector {
    fn default() -> (r: Self)
        ensures
            r.wf(),
            r.spec_config() == consumption_config(750, 500_000),
            !r.spec_has_previous(),
            r.spec_trades().len() == 0,
    {
        BookConsumptionDetector::default_detector()
    }
}

/// With no aggressive prints on the consuming side, no unused volume can
/// explain a reduction.
proof fn lemma_no_matching_volume(s: Seq<MatchableTrade>, earliest: u64, now: u64, price: i64, is_sell: bool)
    requires
        forall|i: int| 0 <= i < s.len() ==> (#[trigger] s[i]).is_sell != is_sell,
    ensures
        matching_sum(s, earliest, now, price, is_sell) == 0,
    decreases s.len(),
{
    if s.len() > 0 {
        assert forall|i: int| 0 <= i < s.drop_first().len() implies (#[trigger] s.drop_first()[i]).is_sell
            != is_sell by {
            assert(s.drop_first()[i] == s[i + 1]);
        }
        lemma_no_matching_volume(s.drop_first(), earliest, now, price, is_sell);
    }
}

/// A book reduction that no aggressive print on the consuming side explains
/// is never reported as consumption: without such prints (a cancellation,
/// or only prints of the other aggressor), a scan of the previous levels
/// reports nothing and leaves the trades as they were.
pub proof fn law_unexplained_reduction_is_not_consumption(
    levels: Seq<BookLevel>,
    current: Map<i64, u64>,
    trades: Seq<MatchableTrade>,
    config: ConsumptionConfig,
    now: UnixMs,
    side: BookSide,
    is_sell: bool,
)
    requires
        forall|i: int| 0 <= i < trades.len() ==> (#[trigger] trades[i]).is_sell != is_sell,
    ensures
        detect_levels(levels, current, trades, config, now, side, is_sell) == (
            Seq::<BookConsumptionEvent>::empty(),
            trades,
        ),
    decreases levels.len(),
{
    if levels.len() > 0 {
        law_unexplained_reduction_is_not_consumption(levels.drop_last(), current, trades, config, now, side, is_sell);
        let p = levels.last().price.units;
        let earliest = clamp_u64(now.ms - config.match_window_ms);
        lemma_no_matching_volume(trades, earliest, now.ms, p, is_sell);
    }
}

} // verus!
