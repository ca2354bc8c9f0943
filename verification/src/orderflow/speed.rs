//! Trade Speed and Book Speed: rolling-window aggregation of trade prints and
//! confirmed book-consumption events, compared with the preceding window.
use vstd::prelude::*;
use std::collections::VecDeque;

use crate::unit::{clamp_u64, sat_add_u64, Qty, Trade, UnixMs};
use crate::orderflow::window::SpeedWindow;

verus! {

/// Rolling window length; always at least one millisecond.
#[derive(Debug, Clone, Copy, PartialEq, Eq, Structural)]
pub struct SpeedConfig {
    pub window_ms: u64,
}

/// How long samples are retained: two windows (the current one and the one
/// it is compared with), saturating.
pub open spec fn retained_span(window_ms: u64) -> u64 {
    clamp_u64(window_ms * 2)
}

impl SpeedConfig {
    pub fn new(window_ms: u64) -> (r: Self)
        ensures
            r.window_ms == if window_ms >= 1 { window_ms } else { 1 },
    {
        SpeedConfig { window_ms: if window_ms >= 1 { window_ms } else { 1 } }
    }

    /// The one-second window used when nothing else is configured.
    pub fn default_config() -> (r: Self)
        ensures
            r.window_ms == 1_000,
    {
        SpeedConfig { window_ms: 1_000 }
    }

    pub fn retained_ms(self) -> (r: u64)
        ensures
            r == retained_span(self.window_ms),
    {
        if self.window_ms > u64::MAX / 2 {
            u64::MAX
        } else {
            self.window_ms * 2
        }
    }
}

impl From<SpeedWindow> for SpeedConfig {
    fn from(value: SpeedWindow) -> (r: Self) {
        SpeedConfig::new(value.millis())
    }
}

impl vstd::std_specs::convert::FromSpecImpl<SpeedWindow> for SpeedConfig {
    open spec fn obeys_from_spec() -> bool {
        true
    }

    open spec fn from_spec(v: SpeedWindow) -> SpeedConfig {
        SpeedConfig { window_ms: crate::orderflow::window::window_millis(v) }
    }
}

/// One retained trade print.
#[derive(Debug, Clone, Copy, PartialEq, Eq, Structural)]
pub struct TradeSample {
    pub time: UnixMs,
    pub is_sell: bool,
    pub qty: Qty,
}

/// Exact (unbounded) totals over the samples of a window.
pub struct TradeTally {
    pub trades: nat,
    pub buys: nat,
    pub sells: nat,
    pub buy_volume: nat,
    pub sell_volume: nat,
}

/// `lo < t <= hi`: the half-open window that ends at `hi`.
pub open spec fn in_window(t: u64, lo: u64, hi: u64) -> bool {
    lo < t && t <= hi
}

/// Totals of the samples of `s` whose time lies in `(lo, hi]`.
pub open spec fn trade_tally(s: Seq<TradeSample>, lo: u64, hi: u64) -> TradeTally
    decreases s.len(),
{
    if s.len() == 0 {
        TradeTally { trades: 0, buys: 0, sells: 0, buy_volume: 0, sell_volume: 0 }
    } else {
        let t = trade_tally(s.drop_last(), lo, hi);
        let x = s.last();
        if !in_window(x.time.ms, lo, hi) {
            t
        } else if x.is_sell {
            TradeTally {
                trades: t.trades + 1,
                sells: t.sells + 1,
                sell_volume: t.sell_volume + x.qty.units as nat,
                ..t
            }
        } else {
            TradeTally {
                trades: t.trades + 1,
                buys: t.buys + 1,
                buy_volume: t.buy_volume + x.qty.units as nat,
                ..t
            }
        }
    }
}

/// Per-window trade totals, each saturating at `u64::MAX`.
#[derive(Debug, Clone, Copy, PartialEq, Eq, Structural)]
pub struct TradeWindowStats {
    pub trade_count: u64,
    pub buy_trade_count: u64,
    pub sell_trade_count: u64,
    /// Aggressive buy volume in quantity units.
    pub buy_volume: u64,
    /// Aggressive sell volume in quantity units.
    pub sell_volume: u64,
}

impl TradeWindowStats {
    /// The saturated image of an exact tally.
    pub open spec fn matches(self, t: TradeTally) -> bool {
        &&& self.trade_count == clamp_u64(t.trades as int)
        &&& self.buy_trade_count == clamp_u64(t.buys as int)
        &&& self.sell_trade_count == clamp_u64(t.sells as int)
        &&& self.buy_volume == clamp_u64(t.buy_volume as int)
        &&& self.sell_volume == clamp_u64(t.sell_volume as int)
    }

    fn empty() -> (r: Self)
        ensures
            r.matches(TradeTally { trades: 0, buys: 0, sells: 0, buy_volume: 0, sell_volume: 0 }),
    {
        TradeWindowStats {
            trade_count: 0,
            buy_trade_count: 0,
            sell_trade_count: 0,
            buy_volume: 0,
            sell_volume: 0,
        }
    }

    /// Total volume, saturating.
    pub fn total_volume(self) -> (r: u64)
        ensures
            r == clamp_u64(self.buy_volume + self.sell_volume),
    {
        sat_add_u64(self.buy_volume, self.sell_volume)
    }
}

/// Windowed trade statistics at a point in time: the window ending at
/// `timestamp` and the window of equal length just before it.
#[derive(Debug, Clone, Copy, PartialEq, Eq, Structural)]
pub struct TradeSpeedSnapshot {
    pub timestamp: UnixMs,
    pub window_ms: u64,
    pub current: TradeWindowStats,
    pub previous: TradeWindowStats,
}

impl TradeSpeedSnapshot {
    /// Buy volume exceeded sell volume in the current window (positive delta).
    pub fn buy_dominant(self) -> (r: bool)
        ensures
            r == (self.current.buy_volume > self.current.sell_volume),
    {
        self.current.buy_volume > self.current.sell_volume
    }

    /// Sell volume exceeded buy volume in the current window (negative delta).
    pub fn sell_dominant(self) -> (r: bool)
        ensures
            r == (self.current.sell_volume > self.current.buy_volume),
    {
        self.current.sell_volume > self.current.buy_volume
    }

    /// Volume traded per second in the current window, in quantity units,
    /// rounded down; a window of zero length counts as one millisecond.
    pub open spec fn spec_volume_rate(self) -> int {
        (self.current.buy_volume + self.current.sell_volume) * 1000 / (if self.window_ms == 0 {
            1
        } else {
            self.window_ms as int
        })
    }

    pub fn volume_rate(self) -> (r: u128)
        ensures
            r == self.spec_volume_rate(),
    {
        let total: u128 = self.current.buy_volume as u128 + self.current.sell_volume as u128;
        let window: u128 = if self.window_ms == 0 {
            1
        } else {
            self.window_ms as u128
        };
        total * 1000 / window
    }
}

/// The samples kept by pruning at `cutoff`.
pub open spec fn keep_trade_since(cutoff: u64) -> spec_fn(TradeSample) -> bool {
    |x: TradeSample| x.time.ms >= cutoff
}

/// Every sample lies in `[cutoff(latest), latest]`, and no sample exists
/// before the first accepted trade.
pub open spec fn trade_samples_bounded(
    s: Seq<TradeSample>,
    latest: Option<UnixMs>,
    window_ms: u64,
) -> bool {
    match latest {
        None => s.len() == 0,
        Some(l) => forall|i: int|
            0 <= i < s.len() ==> clamp_u64(l.ms - retained_span(window_ms)) <= #[trigger] s[i].time.ms
                <= l.ms,
    }
}

/// The state after offering one trade: whether it is accepted, the new
/// newest time, and the retained samples.
pub open spec fn trade_push_accepts(latest: Option<UnixMs>, window_ms: u64, t: Trade) -> bool {
    let newest = match latest {
        None => t.time.ms,
        Some(l) => if l.ms >= t.time.ms { l.ms } else { t.time.ms },
    };
    t.time.ms >= clamp_u64(newest - retained_span(window_ms))
}

pub open spec fn newest_after(latest: Option<UnixMs>, t: UnixMs) -> UnixMs {
    match latest {
        None => t,
        Some(l) => if l.ms >= t.ms { l } else { t },
    }
}

pub open spec fn trade_samples_after_push(
    s: Seq<TradeSample>,
    latest: Option<UnixMs>,
    window_ms: u64,
    t: Trade,
) -> Seq<TradeSample> {
    if trade_push_accepts(latest, window_ms, t) {
        s.push(TradeSample { time: t.time, is_sell: t.is_sell, qty: t.qty }).filter(
            keep_trade_since(clamp_u64(newest_after(latest, t.time).ms - retained_span(window_ms))),
        )
    } else {
        s
    }
}

pub open spec fn latest_after_push(latest: Option<UnixMs>, window_ms: u64, t: Trade) -> Option<
    UnixMs,
> {
    if trade_push_accepts(latest, window_ms, t) {
        Some(newest_after(latest, t.time))
    } else {
        latest
    }
}

/// Offering `ts` one after another: the samples and newest time afterwards,
/// and how many trades were accepted.
pub open spec fn trade_pushes(
    s: Seq<TradeSample>,
    latest: Option<UnixMs>,
    window_ms: u64,
    ts: Seq<Trade>,
) -> (Seq<TradeSample>, Option<UnixMs>, nat)
    decreases ts.len(),
{
    if ts.len() == 0 {
        (s, latest, 0)
    } else {
        let (s0, l0, n0) = trade_pushes(s, latest, window_ms, ts.drop_last());
        let t = ts.last();
        (
            trade_samples_after_push(s0, l0, window_ms, t),
            latest_after_push(l0, window_ms, t),
            if trade_push_accepts(l0, window_ms, t) { n0 + 1 } else { n0 },
        )
    }
}

/// Rolling trade-speed engine over a two-window retention horizon.
pub struct TradeSpeedEngine {
    config: SpeedConfig,
    samples: VecDeque<TradeSample>,
    latest_time: Option<UnixMs>,
}

impl TradeSpeedEngine {
    pub closed spec fn spec_config(&self) -> SpeedConfig {
        self.config
    }

    pub closed spec fn spec_samples(&self) -> Seq<TradeSample> {
        self.samples@
    }

    pub closed spec fn spec_latest(&self) -> Option<UnixMs> {
        self.latest_time
    }

    /// The engine invariant: a positive window, and every retained sample
    /// within the retention horizon of the newest accepted trade.
    pub closed spec fn wf(&self) -> bool {
        &&& self.config.window_ms >= 1
        &&& trade_samples_bounded(self.samples@, self.latest_time, self.config.window_ms)
    }

    pub fn new(config: SpeedConfig) -> (r: Self)
        ensures
            r.wf(),
            r.spec_config().window_ms == if config.window_ms >= 1 { config.window_ms } else { 1 },
            r.spec_samples().len() == 0,
            r.spec_latest() == None::<UnixMs>,
    {
        TradeSpeedEngine {
            config: SpeedConfig::new(config.window_ms),
            samples: VecDeque::new(),
            latest_time: None,
        }
    }

    pub fn default_engine() -> (r: Self)
        ensures
            r.wf(),
            r.spec_config().window_ms == 1_000,
            r.spec_samples().len() == 0,
            r.spec_latest() == None::<UnixMs>,
    {
        Self::new(SpeedConfig::default_config())
    }

    pub fn config(&self) -> (r: SpeedConfig)
        ensures
            r == self.spec_config(),
    {
        self.config
    }

    /// Change the window; retained samples older than the new horizon of the
    /// newest trade are dropped.
    pub fn set_config(&mut self, config: SpeedConfig)
        requires
            old(self).wf(),
        ensures
            final(self).wf(),
            final(self).spec_config().window_ms == if config.window_ms >= 1 {
                config.window_ms
            } else {
                1
            },
            final(self).spec_latest() == old(self).spec_latest(),
            final(self).spec_samples() == match old(self).spec_latest() {
                None => old(self).spec_samples(),
                Some(l) => old(self).spec_samples().filter(
                    keep_trade_since(
                        clamp_u64(l.ms - retained_span(final(self).spec_config().window_ms)),
                    ),
                ),
            },
    {
        self.config = SpeedConfig::new(config.window_ms);
        match self.latest_time {
            Some(now) => {
                let ghost before = self.samples@;
                let cutoff = now.saturating_sub_ms(self.config.retained_ms());
                self.prune(cutoff.ms);
                proof {
                    lemma_filter_keeps_bounds(before, cutoff.ms, now.ms, self.config.window_ms);
                }
            },
            None => {},
        }
    }

    pub fn clear(&mut self)
        requires
            old(self).wf(),
        ensures
            final(self).wf(),
            final(self).spec_config() == old(self).spec_config(),
            final(self).spec_samples().len() == 0,
            final(self).spec_latest() == None::<UnixMs>,
    {
        self.samples.clear();
        self.latest_time = None;
    }

    pub fn is_empty(&self) -> (r: bool)
        ensures
            r == (self.spec_samples().len() == 0),
    {
        self.samples.len() == 0
    }

    pub fn len(&self) -> (r: usize)
        ensures
            r == self.spec_samples().len(),
    {
        self.samples.len()
    }

    /// Offer one trade. A trade older than the retention horizon of the
    /// newest known trade is rejected and changes nothing; an accepted trade
    /// is appended and samples that fell out of the horizon are dropped.
    pub fn push_trade(&mut self, trade: &Trade) -> (r: bool)
        requires
            old(self).wf(),
        ensures
            final(self).wf(),
            r == trade_push_accepts(old(self).spec_latest(), old(self).spec_config().window_ms, *trade),
            final(self).spec_config() == old(self).spec_config(),
            final(self).spec_samples() == trade_samples_after_push(
                old(self).spec_samples(),
                old(self).spec_latest(),
                old(self).spec_config().window_ms,
                *trade,
            ),
            final(self).spec_latest() == latest_after_push(
                old(self).spec_latest(),
                old(self).spec_config().window_ms,
                *trade,
            ),
    {
        let sample = TradeSample { time: trade.time, is_sell: trade.is_sell, qty: trade.qty };
        let newest = match self.latest_time {
            None => sample.time,
            Some(current) => current.later(sample.time),
        };
        let cutoff = newest.saturating_sub_ms(self.config.retained_ms());
        if sample.time.ms < cutoff.ms {
            return false;
        }
        let ghost before = self.samples@;
        self.latest_time = Some(newest);
        self.samples.push_back(sample);
        self.prune(cutoff.ms);
        proof {
            lemma_filter_keeps_bounds_push(before, sample, cutoff.ms, newest.ms, self.config.window_ms);
        }
        true
    }

    /// Offer the trades in order; returns how many were accepted.
    pub fn push_trades(&mut self, trades: &[Trade]) -> (r: usize)
        requires
            old(self).wf(),
        ensures
            final(self).wf(),
            final(self).spec_config() == old(self).spec_config(),
            ({
                let (s, l, n) = trade_pushes(
                    old(self).spec_samples(),
                    old(self).spec_latest(),
                    old(self).spec_config().window_ms,
                    trades@,
                );
                &&& final(self).spec_samples() == s
                &&& final(self).spec_latest() == l
                &&& r == n
            }),
    {
        let mut count: usize = 0;
        let mut i: usize = 0;
        while i < trades.len()
            invariant
                self.wf(),
                i <= trades@.len(),
                self.spec_config() == old(self).spec_config(),
                count <= i,
                ({
                    let (s, l, n) = trade_pushes(
                        old(self).spec_samples(),
                        old(self).spec_latest(),
                        old(self).spec_config().window_ms,
                        trades@.take(i as int),
                    );
                    &&& self.spec_samples() == s
                    &&& self.spec_latest() == l
                    &&& count == n
                }),
            decreases trades@.len() - i,
        {
            proof {
                assert(trades@.take((i + 1) as int).drop_last() == trades@.take(i as int));
            }
            if self.push_trade(&trades[i]) {
                count = count + 1;
            }
            i = i + 1;
        }
        proof {
            assert(trades@.take(i as int) == trades@);
        }
        count
    }

    /// Statistics at the newest accepted trade, if any.
    pub fn snapshot(&self) -> (r: Option<TradeSpeedSnapshot>)
        requires
            self.wf(),
        ensures
            match self.spec_latest() {
                None => r.is_none(),
                Some(now) => r == Some(self.spec_snapshot_at(now)),
            },
    {
        match self.latest_time {
            None => None,
            Some(now) => Some(self.snapshot_at(now)),
        }
    }

    /// What `snapshot_at(now)` reports.
    pub open spec fn spec_snapshot_at(&self, now: UnixMs) -> TradeSpeedSnapshot {
        choose|r: TradeSpeedSnapshot| self.snapshot_at_spec(now, r)
    }

    /// The statistics of the window `(now - w, now]` and of the window
    /// `(now - 2w, now - w]`, with `w` the configured window.
    pub open spec fn snapshot_at_spec(&self, now: UnixMs, r: TradeSpeedSnapshot) -> bool {
        let w = self.spec_config().window_ms;
        let current_start = clamp_u64(now.ms - w);
        let previous_start = clamp_u64(current_start - w);
        &&& r.timestamp == now
        &&& r.window_ms == w
        &&& r.current.matches(trade_tally(self.spec_samples(), current_start, now.ms))
        &&& r.previous.matches(trade_tally(self.spec_samples(), previous_start, current_start))
    }

    /// Trade statistics of the window ending at `now` and of the window before it.
    pub fn snapshot_at(&self, now: UnixMs) -> (r: TradeSpeedSnapshot)
        requires
            self.wf(),
        ensures
            self.snapshot_at_spec(now, r),
            r == self.spec_snapshot_at(now),
    {
        let window_ms = self.config.window_ms;
        let current_start = now.saturating_sub_ms(window_ms);
        let previous_start = current_start.saturating_sub_ms(window_ms);
        let current = tally_trades(&self.samples, current_start.ms, now.ms);
        let previous = tally_trades(&self.samples, previous_start.ms, current_start.ms);
        let r = TradeSpeedSnapshot { timestamp: now, window_ms, current, previous };
        proof {
            lemma_snapshot_unique(self, now, r);
        }
        r
    }

    /// Keep only the samples at or after `cutoff`.
    fn prune(&mut self, cutoff: u64)
        ensures
            final(self).samples@ == old(self).samples@.filter(keep_trade_since(cutoff)),
            final(self).config == old(self).config,
            final(self).latest_time == old(self).latest_time,
    {
        let mut kept: VecDeque<TradeSample> = VecDeque::new();
        let mut i: usize = 0;
        while i < self.samples.len()
            invariant
                i <= self.samples@.len(),
                kept@ == self.samples@.take(i as int).filter(keep_trade_since(cutoff)),
            decreases self.samples@.len() - i,
        {
            proof {
                reveal_with_fuel(Seq::<_>::filter, 1);
                assert(self.samples@.take((i + 1) as int).drop_last() == self.samples@.take(i as int));
            }
            let s = self.samples[i];
            if s.time.ms >= cutoff {
                kept.push_back(s);
            }
            i = i + 1;
        }
        proof {
            assert(self.samples@.take(i as int) == self.samples@);
        }
        self.samples = kept;
    }
}

proof fn lemma_snapshot_unique(e: &TradeSpeedEngine, now: UnixMs, r: TradeSpeedSnapshot)
    requires
        e.snapshot_at_spec(now, r),
    ensures
        r == e.spec_snapshot_at(now),
{
    let c = e.spec_snapshot_at(now);
    assert(e.snapshot_at_spec(now, c));
    assert(c.current == r.current);
    assert(c.previous == r.previous);
}

proof fn lemma_filter_keeps_bounds(s: Seq<TradeSample>, cutoff: u64, l: u64, w: u64)
    requires
        forall|i: int| 0 <= i < s.len() ==> #[trigger] s[i].time.ms <= l,
        cutoff == clamp_u64(l - retained_span(w)),
    ensures
        forall|i: int|
            0 <= i < s.filter(keep_trade_since(cutoff)).len() ==> cutoff <= #[trigger] s.filter(
                keep_trade_since(cutoff),
            )[i].time.ms <= l,
{
    broadcast use vstd::seq_lib::group_filter_ensures;
    let f = s.filter(keep_trade_since(cutoff));
    assert forall|i: int| 0 <= i < f.len() implies cutoff <= #[trigger] f[i].time.ms <= l by {
        assert(keep_trade_since(cutoff)(f[i]));
        assert(f.contains(f[i]));
        s.lemma_filter_contains_rev(keep_trade_since(cutoff), f[i]);
        assert(s.contains(f[i]));
    }
}

proof fn lemma_filter_keeps_bounds_push(
    s: Seq<TradeSample>,
    x: TradeSample,
    cutoff: u64,
    l: u64,
    w: u64,
)
    requires
        forall|i: int| 0 <= i < s.len() ==> #[trigger] s[i].time.ms <= l,
        x.time.ms <= l,
        cutoff == clamp_u64(l - retained_span(w)),
    ensures
        forall|i: int|
            0 <= i < s.push(x).filter(keep_trade_since(cutoff)).len() ==> cutoff
                <= #[trigger] s.push(x).filter(keep_trade_since(cutoff))[i].time.ms <= l,
{
    let t = s.push(x);
    assert forall|i: int| 0 <= i < t.len() implies #[trigger] t[i].time.ms <= l by {
        if i < s.len() {
            assert(t[i] == s[i]);
        }
    }
    lemma_filter_keeps_bounds(t, cutoff, l, w);
}

/// Fold the samples of `(lo, hi]` into saturating window statistics.
fn tally_trades(samples: &VecDeque<TradeSample>, lo: u64, hi: u64) -> (r: TradeWindowStats)
    ensures
        r.matches(trade_tally(samples@, lo, hi)),
{
    let mut stats = TradeWindowStats::empty();
    let mut i: usize = 0;
    while i < samples.len()
        invariant
            i <= samples@.len(),
            stats.matches(trade_tally(samples@.take(i as int), lo, hi)),
        decreases samples@.len() - i,
    {
        proof {
            assert(samples@.take((i + 1) as int).drop_last() == samples@.take(i as int));
        }
        let s = samples[i];
        if lo < s.time.ms && s.time.ms <= hi {
            stats.trade_count = sat_add_u64(stats.trade_count, 1);
            if s.is_sell {
                stats.sell_trade_count = sat_add_u64(stats.sell_trade_count, 1);
                stats.sell_volume = sat_add_u64(stats.sell_volume, s.qty.units);
            } else {
                stats.buy_trade_count = sat_add_u64(stats.buy_trade_count, 1);
                stats.buy_volume = sat_add_u64(stats.buy_volume, s.qty.units);
            }
        }
        i = i + 1;
    }
    proof {
        assert(samples@.take(i as int) == samples@);
    }
    stats
}

/// Side of the book whose liquidity was consumed.
#[derive(Debug, Clone, Copy, PartialEq, Eq, Structural)]
pub enum BookSide {
    Bid,
    Ask,
}

/// A confirmed consumption of resting liquidity: `levels` is 1 when a price
/// level was removed completely and 0 for a partial reduction.
#[derive(Debug, Clone, Copy, PartialEq, Eq, Structural)]
pub struct BookConsumptionEvent {
    pub time: UnixMs,
    pub side: BookSide,
    pub levels: u32,
    pub qty: Qty,
}

/// Exact (unbounded) totals over the events of a window.
pub struct BookTally {
    pub bid_levels: nat,
    pub ask_levels: nat,
    pub bid_qty: nat,
    pub ask_qty: nat,
}

/// Totals of the events of `s` whose time lies in `(lo, hi]`.
pub open spec fn book_tally(s: Seq<BookConsumptionEvent>, lo: u64, hi: u64) -> BookTally
    decreases s.len(),
{
    if s.len() == 0 {
        BookTally { bid_levels: 0, ask_levels: 0, bid_qty: 0, ask_qty: 0 }
    } else {
        let t = book_tally(s.drop_last(), lo, hi);
        let x = s.last();
        if !in_window(x.time.ms, lo, hi) {
            t
        } else {
            match x.side {
                BookSide::Bid => BookTally {
                    bid_levels: t.bid_levels + x.levels as nat,
                    bid_qty: t.bid_qty + x.qty.units as nat,
                    ..t
                },
                BookSide::Ask => BookTally {
                    ask_levels: t.ask_levels + x.levels as nat,
                    ask_qty: t.ask_qty + x.qty.units as nat,
                    ..t
                },
            }
        }
    }
}

/// Per-window consumption totals, each saturating at `u64::MAX`.
#[derive(Debug, Clone, Copy, PartialEq, Eq, Structural)]
pub struct BookWindowStats {
    pub bid_levels: u64,
    pub ask_levels: u64,
    pub bid_qty: u64,
    pub ask_qty: u64,
}

impl BookWindowStats {
    pub open spec fn matches(self, t: BookTally) -> bool {
        &&& self.bid_levels == clamp_u64(t.bid_levels as int)
        &&& self.ask_levels == clamp_u64(t.ask_levels as int)
        &&& self.bid_qty == clamp_u64(t.bid_qty as int)
        &&& self.ask_qty == clamp_u64(t.ask_qty as int)
    }
}

/// Windowed consumption statistics at a point in time: the window ending at
/// `timestamp` and the window of equal length just before it.
#[derive(Debug, Clone, Copy, PartialEq, Eq, Structural)]
pub struct BookSpeedSnapshot {
    pub timestamp: UnixMs,
    pub window_ms: u64,
    pub current: BookWindowStats,
    pub previous: BookWindowStats,
}

pub open spec fn keep_event_since(cutoff: u64) -> spec_fn(BookConsumptionEvent) -> bool {
    |x: BookConsumptionEvent| x.time.ms >= cutoff
}

pub open spec fn book_events_bounded(
    s: Seq<BookConsumptionEvent>,
    latest: Option<UnixMs>,
    window_ms: u64,
) -> bool {
    match latest {
        None => s.len() == 0,
        Some(l) => forall|i: int|
            0 <= i < s.len() ==> clamp_u64(l.ms - retained_span(window_ms)) <= #[trigger] s[i].time.ms
                <= l.ms,
    }
}

/// Whether an event is inside the retention horizon of the newest time.
pub open spec fn event_push_accepts(latest: Option<UnixMs>, window_ms: u64, t: UnixMs) -> bool {
    t.ms >= clamp_u64(newest_after(latest, t).ms - retained_span(window_ms))
}

pub open spec fn book_events_after_push(
    s: Seq<BookConsumptionEvent>,
    latest: Option<UnixMs>,
    window_ms: u64,
    e: BookConsumptionEvent,
) -> Seq<BookConsumptionEvent> {
    if event_push_accepts(latest, window_ms, e.time) {
        s.push(e).filter(
            keep_event_since(clamp_u64(newest_after(latest, e.time).ms - retained_span(window_ms))),
        )
    } else {
        s
    }
}

pub open spec fn latest_after_event(latest: Option<UnixMs>, window_ms: u64, t: UnixMs) -> Option<
    UnixMs,
> {
    if event_push_accepts(latest, window_ms, t) {
        Some(newest_after(latest, t))
    } else {
        latest
    }
}

/// Offering the events one after another: the retained events and newest
/// time afterwards.
pub open spec fn book_event_pushes(
    s: Seq<BookConsumptionEvent>,
    latest: Option<UnixMs>,
    window_ms: u64,
    es: Seq<BookConsumptionEvent>,
) -> (Seq<BookConsumptionEvent>, Option<UnixMs>)
    decreases es.len(),
{
    if es.len() == 0 {
        (s, latest)
    } else {
        let (s0, l0) = book_event_pushes(s, latest, window_ms, es.drop_last());
        let e = es.last();
        (book_events_after_push(s0, l0, window_ms, e), latest_after_event(l0, window_ms, e.time))
    }
}

/// Rolling book-speed engine over confirmed consumption events.
pub struct BookSpeedEngine {
    config: SpeedConfig,
    events: VecDeque<BookConsumptionEvent>,
    latest_time: Option<UnixMs>,
}

impl BookSpeedEngine {
    pub closed spec fn spec_config(&self) -> SpeedConfig {
        self.config
    }

    pub closed spec fn spec_events(&self) -> Seq<BookConsumptionEvent> {
        self.events@
    }

    pub closed spec fn spec_latest(&self) -> Option<UnixMs> {
        self.latest_time
    }

    pub closed spec fn wf(&self) -> bool {
        &&& self.config.window_ms >= 1
        &&& book_events_bounded(self.events@, self.latest_time, self.config.window_ms)
    }

    pub fn new(config: SpeedConfig) -> (r: Self)
        ensures
            r.wf(),
            r.spec_config().window_ms == if config.window_ms >= 1 { config.window_ms } else { 1 },
            r.spec_events().len() == 0,
            r.spec_latest() == None::<UnixMs>,
    {
        BookSpeedEngine {
            config: SpeedConfig::new(config.window_ms),
            events: VecDeque::new(),
            latest_time: None,
        }
    }

    pub fn default_engine() -> (r: Self)
        ensures
            r.wf(),
            r.spec_config().window_ms == 1_000,
            r.spec_events().len() == 0,
            r.spec_latest() == None::<UnixMs>,
    {
        Self::new(SpeedConfig::default_config())
    }

    pub fn clear(&mut self)
        requires
            old(self).wf(),
        ensures
            final(self).wf(),
            final(self).spec_config() == old(self).spec_config(),
            final(self).spec_events().len() == 0,
            final(self).spec_latest() == None::<UnixMs>,
    {
        self.events.clear();
        self.latest_time = None;
    }

    /// Offer one event. An event older than the retention horizon of the
    /// newest known event is rejected and changes nothing.
    pub fn push(&mut self, event: BookConsumptionEvent) -> (r: bool)
        requires
            old(self).wf(),
        ensures
            final(self).wf(),
            r == event_push_accepts(old(self).spec_latest(), old(self).spec_config().window_ms, event.time),
            final(self).spec_config() == old(self).spec_config(),
            final(self).spec_events() == book_events_after_push(
                old(self).spec_events(),
                old(self).spec_latest(),
                old(self).spec_config().window_ms,
                event,
            ),
            final(self).spec_latest() == latest_after_event(
                old(self).spec_latest(),
                old(self).spec_config().window_ms,
                event.time,
            ),
    {
        let newest = match self.latest_time {
            None => event.time,
            Some(current) => current.later(event.time),
        };
        let cutoff = newest.saturating_sub_ms(self.config.retained_ms());
        if event.time.ms < cutoff.ms {
            return false;
        }
        let ghost before = self.events@;
        self.latest_time = Some(newest);
        self.events.push_back(event);
        self.prune(cutoff.ms);
        proof {
            lemma_event_filter_keeps_bounds_push(before, event, cutoff.ms, newest.ms, self.config.window_ms);
        }
        true
    }

    /// Offer the events in order.
    pub fn push_all(&mut self, events: &Vec<BookConsumptionEvent>)
        requires
            old(self).wf(),
        ensures
            final(self).wf(),
            final(self).spec_config() == old(self).spec_config(),
            (final(self).spec_events(), final(self).spec_latest()) == book_event_pushes(
                old(self).spec_events(),
                old(self).spec_latest(),
                old(self).spec_config().window_ms,
                events@,
            ),
    {
        let mut i: usize = 0;
        while i < events.len()
            invariant
                self.wf(),
                i <= events@.len(),
                self.spec_config() == old(self).spec_config(),
                (self.spec_events(), self.spec_latest()) == book_event_pushes(
                    old(self).spec_events(),
                    old(self).spec_latest(),
                    old(self).spec_config().window_ms,
                    events@.take(i as int),
                ),
            decreases events@.len() - i,
        {
            proof {
                assert(events@.take((i + 1) as int).drop_last() == events@.take(i as int));
            }
            self.push(events[i]);
            i = i + 1;
        }
        proof {
            assert(events@.take(i as int) == events@);
        }
    }

    /// Statistics at the newest accepted event, if any.
    pub fn snapshot(&self) -> (r: Option<BookSpeedSnapshot>)
        requires
            self.wf(),
        ensures
            match self.spec_latest() {
                None => r.is_none(),
                Some(now) => r == Some(self.spec_snapshot_at(now)),
            },
    {
        match self.latest_time {
            None => None,
            Some(now) => Some(self.snapshot_at(now)),
        }
    }

    pub open spec fn spec_snapshot_at(&self, now: UnixMs) -> BookSpeedSnapshot {
        choose|r: BookSpeedSnapshot| self.snapshot_at_spec(now, r)
    }

    /// The statistics of the window `(now - w, now]` and of the window
    /// `(now - 2w, now - w]`, with `w` the configured window.
    pub open spec fn snapshot_at_spec(&self, now: UnixMs, r: BookSpeedSnapshot) -> bool {
        let w = self.spec_config().window_ms;
        let current_start = clamp_u64(now.ms - w);
        let previous_start = clamp_u64(current_start - w);
        &&& r.timestamp == now
        &&& r.window_ms == w
        &&& r.current.matches(book_tally(self.spec_events(), current_start, now.ms))
        &&& r.previous.matches(book_tally(self.spec_events(), previous_start, current_start))
    }

    pub fn snapshot_at(&self, now: UnixMs) -> (r: BookSpeedSnapshot)
        requires
            self.wf(),
        ensures
            self.snapshot_at_spec(now, r),
            r == self.spec_snapshot_at(now),
    {
        let window_ms = self.config.window_ms;
        let current_start = now.saturating_sub_ms(window_ms);
        let previous_start = current_start.saturating_sub_ms(window_ms);
        let current = tally_events(&self.events, current_start.ms, now.ms);
        let previous = tally_events(&self.events, previous_start.ms, current_start.ms);
        let r = BookSpeedSnapshot { timestamp: now, window_ms, current, previous };
        proof {
            assert(self.snapshot_at_spec(now, r));
            let c = self.spec_snapshot_at(now);
            assert(self.snapshot_at_spec(now, c));
            assert(c.current == r.current);
            assert(c.previous == r.previous);
        }
        r
    }

    fn prune(&mut self, cutoff: u64)
        ensures
            final(self).events@ == old(self).events@.filter(keep_event_since(cutoff)),
            final(self).config == old(self).config,
            final(self).latest_time == old(self).latest_time,
    {
        let mut kept: VecDeque<BookConsumptionEvent> = VecDeque::new();
        let mut i: usize = 0;
        while i < self.events.len()
            invariant
                i <= self.events@.len(),
                kept@ == self.events@.take(i as int).filter(keep_event_since(cutoff)),
            decreases self.events@.len() - i,
        {
            proof {
                reveal_with_fuel(Seq::<_>::filter, 1);
                assert(self.events@.take((i + 1) as int).drop_last() == self.events@.take(i as int));
            }
            let e = self.events[i];
            if e.time.ms >= cutoff {
                kept.push_back(e);
            }
            i = i + 1;
        }
        proof {
            assert(self.events@.take(i as int) == self.events@);
        }
        self.events = kept;
    }
}

proof fn lemma_event_filter_keeps_bounds_push(
    s: Seq<BookConsumptionEvent>,
    x: BookConsumptionEvent,
    cutoff: u64,
    l: u64,
    w: u64,
)
    requires
        forall|i: int| 0 <= i < s.len() ==> #[trigger] s[i].time.ms <= l,
        x.time.ms <= l,
        cutoff == clamp_u64(l - retained_span(w)),
    ensures
        forall|i: int|
            0 <= i < s.push(x).filter(keep_event_since(cutoff)).len() ==> cutoff
                <= #[trigger] s.push(x).filter(keep_event_since(cutoff))[i].time.ms <= l,
{
    broadcast use vstd::seq_lib::group_filter_ensures;
    let t = s.push(x);
    assert forall|i: int| 0 <= i < t.len() implies #[trigger] t[i].time.ms <= l by {
        if i < s.len() {
            assert(t[i] == s[i]);
        }
    }
    let f = t.filter(keep_event_since(cutoff));
    assert forall|i: int| 0 <= i < f.len() implies cutoff <= #[trigger] f[i].time.ms <= l by {
        assert(keep_event_since(cutoff)(f[i]));
        assert(f.contains(f[i]));
        t.lemma_filter_contains_rev(keep_event_since(cutoff), f[i]);
    }
}

fn tally_events(events: &VecDeque<BookConsumptionEvent>, lo: u64, hi: u64) -> (r: BookWindowStats)
    ensures
        r.matches(book_tally(events@, lo, hi)),
{
    let mut stats = BookWindowStats { bid_levels: 0, ask_levels: 0, bid_qty: 0, ask_qty: 0 };
    let mut i: usize = 0;
    while i < events.len()
        invariant
            i <= events@.len(),
            stats.matches(book_tally(events@.take(i as int), lo, hi)),
        decreases events@.len() - i,
    {
        proof {
            assert(events@.take((i + 1) as int).drop_last() == events@.take(i as int));
        }
        let e = events[i];
        if lo < e.time.ms && e.time.ms <= hi {
            match e.side {
                BookSide::Bid => {
                    stats.bid_levels = sat_add_u64(stats.bid_levels, e.levels as u64);
                    stats.bid_qty = sat_add_u64(stats.bid_qty, e.qty.units);
                },
                BookSide::Ask => {
                    stats.ask_levels = sat_add_u64(stats.ask_levels, e.levels as u64);
                    stats.ask_qty = sat_add_u64(stats.ask_qty, e.qty.units);
                },
            }
        }
        i = i + 1;
    }
    proof {
        assert(events@.take(i as int) == events@);
    }
    stats
}

impl Default for SpeedConfig {
    fn default() -> (r: Self)
        ensures
            r.window_ms == 1_000,
    {
        SpeedConfig::default_config()
    }
}

impl Default for TradeSpeedEngine {
    fn default() -> (r: Self)
        ensures
            r.wf(),
            r.spec_config().window_ms == 1_000,
            r.spec_samples().len() == 0,
            r.spec_latest() == None::<UnixMs>,
    {
        TradeSpeedEngine::default_engine()
    }
}

impl Default for BookSpeedEngine {
    fn default() -> (r: Self)
        ensures
            r.wf(),
            r.spec_config().window_ms == 1_000,
            r.spec_events().len() == 0,
            r.spec_latest() == None::<UnixMs>,
    {
        BookSpeedEngine::default_engine()
    }
}

/// The exact statistics of a window, saturated.
pub open spec fn trade_stats_of(t: TradeTally) -> TradeWindowStats {
    TradeWindowStats {
        trade_count: clamp_u64(t.trades as int),
        buy_trade_count: clamp_u64(t.buys as int),
        sell_trade_count: clamp_u64(t.sells as int),
        buy_volume: clamp_u64(t.buy_volume as int),
        sell_volume: clamp_u64(t.sell_volume as int),
    }
}

pub open spec fn book_stats_of(t: BookTally) -> BookWindowStats {
    BookWindowStats {
        bid_levels: clamp_u64(t.bid_levels as int),
        ask_levels: clamp_u64(t.ask_levels as int),
        bid_qty: clamp_u64(t.bid_qty as int),
        ask_qty: clamp_u64(t.ask_qty as int),
    }
}

/// A Trade Speed snapshot depends only on the window and the retained
/// trades.
pub proof fn lemma_trade_snapshot_determined(a: TradeSpeedEngine, b: TradeSpeedEngine, now: UnixMs)
    requires
        a.spec_config() == b.spec_config(),
        a.spec_samples() == b.spec_samples(),
    ensures
        a.spec_snapshot_at(now) == b.spec_snapshot_at(now),
{
    let w = a.spec_config().window_ms;
    let current_start = clamp_u64(now.ms - w);
    let previous_start = clamp_u64(current_start - w);
    let r = TradeSpeedSnapshot {
        timestamp: now,
        window_ms: w,
        current: trade_stats_of(trade_tally(a.spec_samples(), current_start, now.ms)),
        previous: trade_stats_of(trade_tally(a.spec_samples(), previous_start, current_start)),
    };
    assert(a.snapshot_at_spec(now, r));
    assert(b.snapshot_at_spec(now, r));
    lemma_snapshot_unique(&a, now, r);
    lemma_snapshot_unique(&b, now, r);
}

/// A Book Speed snapshot depends only on the window and the retained
/// events.
pub proof fn lemma_book_snapshot_determined(a: BookSpeedEngine, b: BookSpeedEngine, now: UnixMs)
    requires
        a.spec_config() == b.spec_config(),
        a.spec_events() == b.spec_events(),
    ensures
        a.spec_snapshot_at(now) == b.spec_snapshot_at(now),
{
    let w = a.spec_config().window_ms;
    let current_start = clamp_u64(now.ms - w);
    let previous_start = clamp_u64(current_start - w);
    let r = BookSpeedSnapshot {
        timestamp: now,
        window_ms: w,
        current: book_stats_of(book_tally(a.spec_events(), current_start, now.ms)),
        previous: book_stats_of(book_tally(a.spec_events(), previous_start, current_start)),
    };
    assert(a.snapshot_at_spec(now, r));
    assert(b.snapshot_at_spec(now, r));
    let ca = a.spec_snapshot_at(now);
    assert(a.snapshot_at_spec(now, ca));
    assert(ca.current == r.current && ca.previous == r.previous);
    let cb = b.spec_snapshot_at(now);
    assert(b.snapshot_at_spec(now, cb));
    assert(cb.current == r.current && cb.previous == r.previous);
}

} // verus!
