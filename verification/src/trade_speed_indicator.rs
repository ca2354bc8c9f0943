//! The data behind the Trade Speed chart indicator: trades fed through a
//! Trade Speed engine, one snapshot kept per chart bar.
use std::collections::BTreeMap;

use vstd::prelude::*;

use crate::orderflow::speed::{
    SpeedConfig, TradeSpeedEngine, TradeSpeedSnapshot, latest_after_push, trade_push_accepts,
    trade_samples_after_push,
};
use crate::sort::{sort_by_time, time_sorted};
use crate::unit::{Trade, UnixMs, trades_to_vec};

verus! {

broadcast use vstd::laws_cmp::group_laws_cmp;

/// Window of the indicator's engine.
pub const DEFAULT_WINDOW_MS: u64 = 1_000;

/// Whether the indicator has data to show.
#[derive(Debug, Clone, Copy, PartialEq, Eq, Structural)]
pub enum IndicatorAvailability {
    /// Nothing has been plotted since the last reset.
    Unknown,
    /// At least one snapshot was plotted.
    Available,
}

/// Start of the bar of length `interval` containing `ms`.
pub open spec fn bucket_of(ms: u64, interval: u64) -> u64 {
    (ms - ms % interval) as u64
}

/// One trade through the engine: an accepted trade plots the engine's
/// snapshot at the start of its bar (replacing what was there).
pub open spec fn ingest_step(
    e0: TradeSpeedEngine,
    d0: Map<u64, TradeSpeedSnapshot>,
    t: Trade,
    interval: u64,
    e1: TradeSpeedEngine,
    d1: Map<u64, TradeSpeedSnapshot>,
) -> bool {
    let w = e0.spec_config().window_ms;
    &&& e1.wf()
    &&& e1.spec_config() == e0.spec_config()
    &&& e1.spec_samples() == trade_samples_after_push(e0.spec_samples(), e0.spec_latest(), w, t)
    &&& e1.spec_latest() == latest_after_push(e0.spec_latest(), w, t)
    &&& d1 == if trade_push_accepts(e0.spec_latest(), w, t) {
        d0.insert(bucket_of(t.time.ms, interval), e1.spec_snapshot_at(e1.spec_latest().unwrap()))
    } else {
        d0
    }
}

/// `es` and `ds` are the engine and plotted data before each trade and
/// after the last.
pub open spec fn ingest_chain(
    es: Seq<TradeSpeedEngine>,
    ds: Seq<Map<u64, TradeSpeedSnapshot>>,
    trades: Seq<Trade>,
    interval: u64,
) -> bool {
    &&& es.len() == trades.len() + 1
    &&& ds.len() == trades.len() + 1
    &&& forall|i: int|
        0 <= i < trades.len() ==> ingest_step(#[trigger] es[i], ds[i], trades[i], interval, es[i + 1], ds[i + 1])
}

/// Some trade of the chain was accepted by the engine.
pub open spec fn any_accepted(es: Seq<TradeSpeedEngine>, trades: Seq<Trade>) -> bool {
    exists|i: int|
        0 <= i < trades.len() && trade_push_accepts(
            (#[trigger] es[i]).spec_latest(),
            es[i].spec_config().window_ms,
            trades[i],
        )
}

pub struct TradeSpeedIndicator {
    engine: TradeSpeedEngine,
    data: BTreeMap<u64, TradeSpeedSnapshot>,
    interval_ms: Option<u64>,
    availability: IndicatorAvailability,
}

impl TradeSpeedIndicator {
    pub closed spec fn spec_engine(&self) -> TradeSpeedEngine {
        self.engine
    }

    /// Plotted snapshots by bar start.
    pub closed spec fn spec_data(&self) -> Map<u64, TradeSpeedSnapshot> {
        self.data@
    }

    /// Bar length of a time-based chart; none for other charts.
    pub closed spec fn spec_interval(&self) -> Option<u64> {
        self.interval_ms
    }

    pub closed spec fn spec_availability(&self) -> IndicatorAvailability {
        self.availability
    }

    pub open spec fn wf(&self) -> bool {
        &&& self.spec_engine().wf()
        &&& self.spec_interval() != Some(0u64)
    }

    /// What feeding `trades` does: nothing without bars or trades;
    /// otherwise the trades go through in chronological order.
    pub open spec fn ingest_post(self, trades: Seq<Trade>, fin: Self) -> bool {
        match self.spec_interval() {
            None => fin == self,
            Some(iv) => if trades.len() == 0 {
                fin == self
            } else {
                let ordered = time_sorted(trades);
                &&& fin.spec_interval() == self.spec_interval()
                &&& exists|es: Seq<TradeSpeedEngine>, ds: Seq<Map<u64, TradeSpeedSnapshot>>|
                    #[trigger] ingest_chain(es, ds, ordered, iv) && es[0] == self.spec_engine() && ds[0]
                        == self.spec_data() && es.last() == fin.spec_engine() && ds.last()
                        == fin.spec_data() && fin.spec_availability() == if any_accepted(es, ordered) {
                        IndicatorAvailability::Available
                    } else {
                        self.spec_availability()
                    }
            },
        }
    }

    /// Emptied, for a chart with bars of `interval_ms` (none when the chart
    /// is not time-based).
    pub open spec fn reset_post(self, interval_ms: Option<u64>, fin: Self) -> bool {
        &&& fin.wf()
        &&& fin.spec_engine().spec_config() == self.spec_engine().spec_config()
        &&& fin.spec_engine().spec_samples().len() == 0
        &&& fin.spec_engine().spec_latest().is_none()
        &&& fin.spec_data() == Map::<u64, TradeSpeedSnapshot>::empty()
        &&& fin.spec_interval() == interval_ms
        &&& fin.spec_availability() == IndicatorAvailability::Unknown
    }

    /// An empty indicator with a one-second engine and no chart yet.
    pub fn new() -> (r: Self)
        ensures
            r.wf(),
            r.spec_engine().spec_config().window_ms == DEFAULT_WINDOW_MS,
            r.spec_engine().spec_samples().len() == 0,
            r.spec_engine().spec_latest().is_none(),
            r.spec_data() == Map::<u64, TradeSpeedSnapshot>::empty(),
            r.spec_interval().is_none(),
            r.spec_availability() == IndicatorAvailability::Unknown,
    {
        TradeSpeedIndicator {
            engine: TradeSpeedEngine::new(SpeedConfig::new(DEFAULT_WINDOW_MS)),
            data: BTreeMap::new(),
            interval_ms: None,
            availability: IndicatorAvailability::Unknown,
        }
    }

    pub fn engine(&self) -> (r: &TradeSpeedEngine)
        ensures
            *r == self.spec_engine(),
    {
        &self.engine
    }

    /// Plotted snapshots by bar start, in time order.
    pub fn data(&self) -> (r: &BTreeMap<u64, TradeSpeedSnapshot>)
        ensures
            r@ == self.spec_data(),
    {
        &self.data
    }

    pub fn availability(&self) -> (r: IndicatorAvailability)
        ensures
            r == self.spec_availability(),
    {
        self.availability
    }

    /// Start over for a chart with bars of `interval_ms` (none when the
    /// chart is not time-based).
    pub fn reset_for_source(&mut self, interval_ms: Option<u64>)
        requires
            old(self).wf(),
            interval_ms != Some(0u64),
        ensures
            old(self).reset_post(interval_ms, *final(self)),
    {
        self.engine.clear();
        self.data.clear();
        self.interval_ms = interval_ms;
        self.availability = IndicatorAvailability::Unknown;
    }

    pub fn rebuild_from_source(&mut self, interval_ms: Option<u64>)
        requires
            old(self).wf(),
            interval_ms != Some(0u64),
        ensures
            old(self).reset_post(interval_ms, *final(self)),
    {
        self.reset_for_source(interval_ms);
    }

    pub fn on_basis_change(&mut self, interval_ms: Option<u64>)
        requires
            old(self).wf(),
            interval_ms != Some(0u64),
        ensures
            old(self).reset_post(interval_ms, *final(self)),
    {
        self.reset_for_source(interval_ms);
    }

    /// Start over for the chart and feed it a history of trades.
    pub fn seed_trades(&mut self, trades: &[Trade], interval_ms: Option<u64>)
        requires
            old(self).wf(),
            interval_ms != Some(0u64),
        ensures
            final(self).wf(),
            exists|mid: Self| #[trigger] old(self).reset_post(interval_ms, mid) && mid.ingest_post(trades@, *final(self)),
    {
        self.reset_for_source(interval_ms);
        let ghost mid = *self;
        self.ingest_trades(trades);
        proof {
            assert(old(self).reset_post(interval_ms, mid));
        }
    }

    /// Feed newly arrived trades.
    pub fn on_insert_trades(&mut self, trades: &[Trade])
        requires
            old(self).wf(),
        ensures
            final(self).wf(),
            old(self).ingest_post(trades@, *final(self)),
    {
        self.ingest_trades(trades);
    }

    /// Feed trades in chronological order (batches may arrive unordered);
    /// each accepted one plots the snapshot at the start of its bar.
    fn ingest_trades(&mut self, trades: &[Trade])
        requires
            old(self).wf(),
        ensures
            final(self).wf(),
            old(self).ingest_post(trades@, *final(self)),
    {
        let interval = match self.interval_ms {
            Some(iv) => iv,
            None => {
                return;
            },
        };
        if trades.len() == 0 {
            return;
        }
        let ordered = sort_by_time(trades_to_vec(trades));
        let ghost mut es: Seq<TradeSpeedEngine> = seq![self.engine];
        let ghost mut ds: Seq<Map<u64, TradeSpeedSnapshot>> = seq![self.data@];
        let mut touched = false;
        let mut i: usize = 0;
        while i < ordered.len()
            invariant
                interval > 0,
                self.interval_ms == Some(interval),
                self.interval_ms == old(self).interval_ms,
                self.engine.wf(),
                ordered@ == time_sorted(trades@),
                i <= ordered@.len(),
                ingest_chain(es, ds, ordered@.take(i as int), interval),
                es[0] == old(self).engine,
                ds[0] == old(self).data@,
                es.last() == self.engine,
                ds.last() == self.data@,
                touched == any_accepted(es, ordered@.take(i as int)),
                self.availability == old(self).availability,
            decreases ordered@.len() - i,
        {
            let t = ordered[i];
            let ghost before_e = self.engine;
            let ghost before_d = self.data@;
            let accepted = self.engine.push_trade(&t);
            if accepted {
                match self.engine.snapshot() {
                    Some(snapshot) => {
                        proof {
                            let ms = t.time.ms;
                            assert(ms % interval <= ms) by (nonlinear_arith)
                                requires
                                    interval > 0,
                            ;
                        }
                        let bucket = t.time.ms - t.time.ms % interval;
                        self.data.insert(bucket, snapshot);
                        touched = true;
                    },
                    None => {},
                }
            }
            proof {
                let prev = ordered@.take(i as int);
                let next = ordered@.take(i + 1);
                assert(next == prev.push(t));
                let es0 = es;
                let ds0 = ds;
                es = es.push(self.engine);
                ds = ds.push(self.data@);
                assert(ingest_step(before_e, before_d, t, interval, self.engine, self.data@));
                assert forall|k: int| 0 <= k < next.len() implies ingest_step(
                    #[trigger] es[k],
                    ds[k],
                    next[k],
                    interval,
                    es[k + 1],
                    ds[k + 1],
                ) by {
                    if k < prev.len() {
                        assert(es[k] == es0[k] && es[k + 1] == es0[k + 1]);
                        assert(ds[k] == ds0[k] && ds[k + 1] == ds0[k + 1]);
                        assert(next[k] == prev[k]);
                    }
                }
                if accepted {
                    assert(es[i as int] == before_e);
                    assert(next[i as int] == t);
                    assert(any_accepted(es, next));
                } else {
                    if any_accepted(es, next) {
                        let k = choose|k: int|
                            0 <= k < next.len() && trade_push_accepts(
                                (#[trigger] es[k]).spec_latest(),
                                es[k].spec_config().window_ms,
                                next[k],
                            );
                        if k < prev.len() {
                            assert(es[k] == es0[k]);
                            assert(next[k] == prev[k]);
                        }
                    }
                    if any_accepted(es0, prev) {
                        let k = choose|k: int|
                            0 <= k < prev.len() && trade_push_accepts(
                                (#[trigger] es0[k]).spec_latest(),
                                es0[k].spec_config().window_ms,
                                prev[k],
                            );
                        assert(es[k] == es0[k]);
                        assert(next[k] == prev[k]);
                    }
                }
            }
            i = i + 1;
        }
        if touched {
            self.availability = IndicatorAvailability::Available;
        }
        proof {
            assert(ordered@.take(i as int) == ordered@);
            assert(ingest_chain(es, ds, time_sorted(trades@), interval));
        }
    }
}

impl Default for TradeSpeedIndicator {
    fn default() -> (r: Self)
        ensures
            r.wf(),
            r.spec_engine().spec_config().window_ms == DEFAULT_WINDOW_MS,
            r.spec_engine().spec_samples().len() == 0,
            r.spec_engine().spec_latest().is_none(),
            r.spec_data() == Map::<u64, TradeSpeedSnapshot>::empty(),
            r.spec_interval().is_none(),
            r.spec_availability() == IndicatorAvailability::Unknown,
    {
        TradeSpeedIndicator::new()
    }
}

} // verus!
