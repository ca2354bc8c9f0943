//! Instrument-bound order-flow state machine shared by live and replay
//! feeds. It does not know where an event came from, so live and replayed
//! sessions cannot drift apart.
use vstd::prelude::*;

use crate::depth::{Depth, lemma_levels_determined};
use crate::market::{
    BookSide as MarketBookSide, DepthEventKind, InstrumentId, NormalizedBookLevel,
    NormalizedDepthEvent, NormalizedMarketEvent, NormalizedTrade, spec_to_trade,
};
use crate::orderflow::book_consumption::ConsumptionConfig;
use crate::orderflow::book_flow::{BookFlowEngine, BookFlowUpdate};
use crate::orderflow::mbo::{
    IcebergCandidate, IcebergConfig, MboBook, MboEvent, apply_event, icebergs, lemma_orders_determined,
};
use crate::orderflow::speed::{
    BookSide, SpeedConfig, TradeSpeedEngine, TradeSpeedSnapshot, latest_after_push,
    lemma_book_snapshot_determined, lemma_trade_snapshot_determined, trade_samples_after_push,
};
use crate::replay::{ReplayEvent, replay_event_instrument};
use crate::unit::Trade;

verus! {

#[derive(Debug, Clone, Copy, PartialEq, Eq, Structural)]
pub struct OrderFlowPipelineConfig {
    pub trade_speed: SpeedConfig,
    pub book_speed: SpeedConfig,
    pub consumption: ConsumptionConfig,
    pub iceberg: IcebergConfig,
}

impl OrderFlowPipelineConfig {
    /// Default settings of every stage.
    pub fn default_config() -> (r: Self)
        ensures
            r.trade_speed.window_ms == 1_000,
            r.book_speed.window_ms == 1_000,
            r.consumption.match_window_ms == 750,
            r.consumption.min_trade_match_ppm == 500_000,
            r.iceberg.min_refresh_count == 2,
            r.iceberg.min_total_filled.units == 0,
    {
        OrderFlowPipelineConfig {
            trade_speed: SpeedConfig::default_config(),
            book_speed: SpeedConfig::default_config(),
            consumption: ConsumptionConfig::default_config(),
            iceberg: IcebergConfig::default_config(),
        }
    }
}

/// What one processed event produced.
#[derive(Debug)]
pub struct OrderFlowPipelineUpdate {
    pub trade_speed: Option<TradeSpeedSnapshot>,
    pub book_flow: Option<BookFlowUpdate>,
    pub iceberg_candidates: Vec<IcebergCandidate>,
    pub ignored_unknown_aggressor: bool,
}

/// An event for another instrument than the one the pipeline is bound to.
#[derive(Debug)]
pub enum OrderFlowPipelineError {
    InstrumentMismatch { expected: Box<InstrumentId>, received: Box<InstrumentId> },
}

/// The speed-engine side that a market book side feeds.
pub open spec fn engine_side(s: MarketBookSide) -> BookSide {
    match s {
        MarketBookSide::Bid => BookSide::Bid,
        MarketBookSide::Ask => BookSide::Ask,
    }
}

/// One side of the book after the levels of an event were applied in order:
/// a zero quantity removes the level, any other quantity sets it.
pub open spec fn levels_applied(
    m: Map<i64, u64>,
    side: MarketBookSide,
    levels: Seq<NormalizedBookLevel>,
) -> Map<i64, u64>
    decreases levels.len(),
{
    if levels.len() == 0 {
        m
    } else {
        let before = levels_applied(m, side, levels.drop_last());
        let l = levels.last();
        if l.side != side {
            before
        } else if l.qty.units == 0 {
            before.remove(l.price.units)
        } else {
            before.insert(l.price.units, l.qty.units)
        }
    }
}

/// A snapshot starts from an empty side; a diff starts from the current one.
pub open spec fn depth_base(m: Map<i64, u64>, kind: DepthEventKind) -> Map<i64, u64> {
    match kind {
        DepthEventKind::Snapshot => Map::empty(),
        DepthEventKind::Diff => m,
    }
}

/// One side of the book after a depth event.
pub open spec fn side_after_event(m: Map<i64, u64>, side: MarketBookSide, e: NormalizedDepthEvent) -> Map<
    i64,
    u64,
> {
    levels_applied(depth_base(m, e.kind), side, e.levels@)
}

/// Level `i` of `levels` lists price `p` on `side`.
pub open spec fn lists(levels: Seq<NormalizedBookLevel>, side: MarketBookSide, p: i64, i: int) -> bool {
    0 <= i < levels.len() && levels[i].side == side && levels[i].price.units == p
}

/// Level `i` is the last one listing price `p` on `side`.
pub open spec fn lists_last(levels: Seq<NormalizedBookLevel>, side: MarketBookSide, p: i64, i: int) -> bool {
    &&& lists(levels, side, p, i)
    &&& forall|j: int| i < j < levels.len() ==> !#[trigger] lists(levels, side, p, j)
}

/// `book` holds exactly the prices that `levels` lists (last) on `side`
/// with a non-zero quantity, each at that quantity.
pub open spec fn holds_exactly(book: Map<i64, u64>, levels: Seq<NormalizedBookLevel>, side: MarketBookSide) -> bool {
    &&& forall|p: i64, i: int|
        #[trigger] lists_last(levels, side, p, i) ==> (book.contains_key(p) <==> levels[i].qty.units > 0) && (
        levels[i].qty.units > 0 ==> book[p] == levels[i].qty.units)
    &&& forall|p: i64|
        #[trigger] book.contains_key(p) ==> exists|i: int| lists_last(levels, side, p, i) && levels[i].qty.units > 0
}

proof fn lemma_levels_applied(m: Map<i64, u64>, side: MarketBookSide, levels: Seq<NormalizedBookLevel>)
    ensures
        forall|p: i64, i: int|
            #[trigger] lists_last(levels, side, p, i) ==> (levels_applied(m, side, levels).contains_key(p)
                <==> levels[i].qty.units > 0) && (levels[i].qty.units > 0 ==> levels_applied(
                m,
                side,
                levels,
            )[p] == levels[i].qty.units),
        forall|p: i64|
            #[trigger] levels_applied(m, side, levels).contains_key(p) ==> (m.contains_key(p) && forall|i: int|
                !#[trigger] lists(levels, side, p, i)) || exists|i: int|
                lists_last(levels, side, p, i) && levels[i].qty.units > 0,
    decreases levels.len(),
{
    if levels.len() > 0 {
        let init = levels.drop_last();
        let n = levels.len() - 1;
        let l = levels.last();
        lemma_levels_applied(m, side, init);
        let r0 = levels_applied(m, side, init);
        let r = levels_applied(m, side, levels);
        assert forall|p: i64, i: int| #[trigger] lists_last(levels, side, p, i) implies (r.contains_key(p)
            <==> levels[i].qty.units > 0) && (levels[i].qty.units > 0 ==> r[p] == levels[i].qty.units) by {
            if i < n {
                assert(!lists(levels, side, p, n));
                assert forall|j: int| i < j < init.len() implies !#[trigger] lists(init, side, p, j) by {
                    assert(!lists(levels, side, p, j));
                }
                assert(lists_last(init, side, p, i));
            }
        }
        assert forall|p: i64| #[trigger] r.contains_key(p) implies (m.contains_key(p) && forall|i: int|
            !#[trigger] lists(levels, side, p, i)) || exists|i: int|
            lists_last(levels, side, p, i) && levels[i].qty.units > 0 by {
            if lists(levels, side, p, n) {
                assert(lists_last(levels, side, p, n));
            } else {
                assert(r0.contains_key(p));
                if exists|i: int| lists_last(init, side, p, i) && init[i].qty.units > 0 {
                    let i = choose|i: int| lists_last(init, side, p, i) && init[i].qty.units > 0;
                    assert forall|j: int| i < j < levels.len() implies !#[trigger] lists(levels, side, p, j) by {
                        if j < n {
                            assert(!lists(init, side, p, j));
                        }
                    }
                    assert(lists_last(levels, side, p, i));
                } else {
                    assert forall|i: int| !#[trigger] lists(levels, side, p, i) by {
                        if 0 <= i < n {
                            assert(!lists(init, side, p, i));
                        }
                    }
                }
            }
        }
    }
}

/// A snapshot replaces the book: afterwards each side holds exactly the
/// prices the snapshot lists (last) on that side with a non-zero quantity,
/// at that quantity, whatever the book held before.
pub proof fn law_snapshot_replaces_the_book(
    p0: OrderFlowPipeline,
    d: NormalizedDepthEvent,
    r: OrderFlowPipelineUpdate,
    fin: OrderFlowPipeline,
)
    requires
        p0.depth_event_post(d, r, fin),
        d.kind == DepthEventKind::Snapshot,
    ensures
        holds_exactly(fin.spec_depth().spec_side(BookSide::Bid), d.levels@, MarketBookSide::Bid),
        holds_exactly(fin.spec_depth().spec_side(BookSide::Ask), d.levels@, MarketBookSide::Ask),
{
    lemma_levels_applied(Map::empty(), MarketBookSide::Bid, d.levels@);
    lemma_levels_applied(Map::empty(), MarketBookSide::Ask, d.levels@);
}

pub struct OrderFlowPipeline {
    instrument: InstrumentId,
    trade_speed: TradeSpeedEngine,
    book_flow: BookFlowEngine,
    depth: Depth,
    has_depth: bool,
    mbo: MboBook,
    iceberg_config: IcebergConfig,
}

impl OrderFlowPipeline {
    pub closed spec fn spec_instrument(&self) -> InstrumentId {
        self.instrument
    }

    pub closed spec fn spec_trade_speed(&self) -> TradeSpeedEngine {
        self.trade_speed
    }

    pub closed spec fn spec_book_flow(&self) -> BookFlowEngine {
        self.book_flow
    }

    pub closed spec fn spec_depth(&self) -> Depth {
        self.depth
    }

    /// A book image has been observed (a snapshot or a first diff).
    pub closed spec fn spec_has_depth(&self) -> bool {
        self.has_depth
    }

    pub closed spec fn spec_mbo(&self) -> MboBook {
        self.mbo
    }

    pub closed spec fn spec_iceberg_config(&self) -> IcebergConfig {
        self.iceberg_config
    }

    pub open spec fn wf(&self) -> bool {
        &&& self.spec_trade_speed().wf()
        &&& self.spec_book_flow().wf()
        &&& self.spec_depth().wf()
        &&& self.spec_mbo().wf()
    }

    /// Only the trade stages changed: what an accepted trade print does.
    pub open spec fn trade_post(self, trade: Trade, fin: Self) -> bool {
        let ts = self.spec_trade_speed();
        let w = ts.spec_config().window_ms;
        &&& fin.spec_trade_speed().spec_config() == ts.spec_config()
        &&& fin.spec_trade_speed().spec_samples() == trade_samples_after_push(
            ts.spec_samples(),
            ts.spec_latest(),
            w,
            trade,
        )
        &&& fin.spec_trade_speed().spec_latest() == latest_after_push(ts.spec_latest(), w, trade)
        &&& self.spec_book_flow().spec_detector().record_trades_post(
            seq![trade],
            fin.spec_book_flow().spec_detector(),
        )
        &&& fin.spec_book_flow().spec_speed() == self.spec_book_flow().spec_speed()
        &&& fin.spec_depth() == self.spec_depth()
        &&& fin.spec_has_depth() == self.spec_has_depth()
        &&& fin.spec_mbo() == self.spec_mbo()
    }

    /// What a processed trade print does and reports.
    pub open spec fn trade_event_post(self, t: NormalizedTrade, r: OrderFlowPipelineUpdate, fin: Self) -> bool {
        &&& r.book_flow.is_none()
        &&& r.iceberg_candidates@.len() == 0
        &&& match spec_to_trade(t) {
            None => {
                &&& r.ignored_unknown_aggressor
                &&& r.trade_speed.is_none()
                &&& fin == self
            },
            Some(trade) => {
                &&& !r.ignored_unknown_aggressor
                &&& self.trade_post(trade, fin)
                &&& match fin.spec_trade_speed().spec_latest() {
                    None => r.trade_speed.is_none(),
                    Some(now) => r.trade_speed == Some(fin.spec_trade_speed().spec_snapshot_at(now)),
                }
            },
        }
    }

    /// What a processed depth event does and reports.
    pub open spec fn depth_event_post(self, d: NormalizedDepthEvent, r: OrderFlowPipelineUpdate, fin: Self) -> bool {
        let bf = self.spec_book_flow();
        &&& r.trade_speed.is_none()
        &&& r.iceberg_candidates@.len() == 0
        &&& !r.ignored_unknown_aggressor
        &&& fin.spec_has_depth()
        &&& fin.spec_depth().spec_side(BookSide::Bid) == side_after_event(
            self.spec_depth().spec_side(BookSide::Bid),
            MarketBookSide::Bid,
            d,
        )
        &&& fin.spec_depth().spec_side(BookSide::Ask) == side_after_event(
            self.spec_depth().spec_side(BookSide::Ask),
            MarketBookSide::Ask,
            d,
        )
        &&& r.book_flow.is_some()
        &&& bf.spec_detector().process_depth_post(
            d.time,
            fin.spec_depth(),
            r.book_flow.unwrap().events@,
            fin.spec_book_flow().spec_detector(),
        )
        &&& fin.spec_book_flow().spec_speed().spec_config() == bf.spec_speed().spec_config()
        &&& (fin.spec_book_flow().spec_speed().spec_events(), fin.spec_book_flow().spec_speed().spec_latest())
            == crate::orderflow::speed::book_event_pushes(
            bf.spec_speed().spec_events(),
            bf.spec_speed().spec_latest(),
            bf.spec_speed().spec_config().window_ms,
            r.book_flow.unwrap().events@,
        )
        &&& match fin.spec_book_flow().spec_speed().spec_latest() {
            None => r.book_flow.unwrap().speed.is_none(),
            Some(t) => r.book_flow.unwrap().speed == Some(
                fin.spec_book_flow().spec_speed().spec_snapshot_at(t),
            ),
        }
        &&& fin.spec_trade_speed() == self.spec_trade_speed()
        &&& fin.spec_mbo() == self.spec_mbo()
    }

    /// What a processed market-by-order event does and reports.
    pub open spec fn mbo_event_post(self, e: MboEvent, r: OrderFlowPipelineUpdate, fin: Self) -> bool {
        &&& r.trade_speed.is_none()
        &&& r.book_flow.is_none()
        &&& !r.ignored_unknown_aggressor
        &&& (fin.spec_mbo().spec_orders(), fin.spec_mbo().spec_next_sequence()) == apply_event(
            self.spec_mbo().spec_orders(),
            self.spec_mbo().spec_next_sequence(),
            e,
        )
        &&& r.iceberg_candidates@ == icebergs(fin.spec_mbo().spec_order_seq(), self.spec_iceberg_config())
        &&& fin.spec_trade_speed() == self.spec_trade_speed()
        &&& fin.spec_book_flow() == self.spec_book_flow()
        &&& fin.spec_depth() == self.spec_depth()
        &&& fin.spec_has_depth() == self.spec_has_depth()
    }

    /// What `process` does with an event of the bound instrument.
    pub open spec fn process_post(self, event: ReplayEvent, r: OrderFlowPipelineUpdate, fin: Self) -> bool {
        &&& fin.spec_instrument() == self.spec_instrument()
        &&& fin.spec_iceberg_config() == self.spec_iceberg_config()
        &&& match event {
            ReplayEvent::Market(NormalizedMarketEvent::Trade(t)) => self.trade_event_post(t, r, fin),
            ReplayEvent::Market(NormalizedMarketEvent::Depth(d)) => self.depth_event_post(d, r, fin),
            ReplayEvent::Mbo { event: e, .. } => self.mbo_event_post(e, r, fin),
        }
    }

    pub fn new(instrument: InstrumentId, config: OrderFlowPipelineConfig) -> (r: Self)
        ensures
            r.wf(),
            r.spec_instrument() == instrument,
            r.spec_iceberg_config() == config.iceberg,
            !r.spec_has_depth(),
            r.spec_trade_speed().spec_config().window_ms == if config.trade_speed.window_ms >= 1 {
                config.trade_speed.window_ms
            } else {
                1
            },
            r.spec_trade_speed().spec_samples().len() == 0,
            r.spec_trade_speed().spec_latest().is_none(),
            r.spec_book_flow().spec_detector().spec_config()
                == crate::orderflow::book_consumption::consumption_config(
                config.consumption.match_window_ms,
                config.consumption.min_trade_match_ppm,
            ),
            !r.spec_book_flow().spec_detector().spec_has_previous(),
            r.spec_book_flow().spec_detector().spec_trades().len() == 0,
            r.spec_book_flow().spec_speed().spec_config().window_ms == if config.book_speed.window_ms
                >= 1 {
                config.book_speed.window_ms
            } else {
                1
            },
            r.spec_book_flow().spec_speed().spec_events().len() == 0,
            r.spec_book_flow().spec_speed().spec_latest().is_none(),
            r.spec_depth().spec_side(BookSide::Bid) == Map::<i64, u64>::empty(),
            r.spec_depth().spec_side(BookSide::Ask) == Map::<i64, u64>::empty(),
            r.spec_mbo().spec_orders() == Map::<u64, crate::orderflow::mbo::MboOrder>::empty(),
            r.spec_mbo().spec_next_sequence() == 1,
    {
        OrderFlowPipeline {
            instrument,
            trade_speed: TradeSpeedEngine::new(config.trade_speed),
            book_flow: BookFlowEngine::new(config.consumption, config.book_speed),
            depth: Depth::new(),
            has_depth: false,
            mbo: MboBook::new(),
            iceberg_config: config.iceberg,
        }
    }

    pub fn instrument(&self) -> (r: &InstrumentId)
        ensures
            *r == self.spec_instrument(),
    {
        &self.instrument
    }

    pub fn depth(&self) -> (r: &Depth)
        ensures
            *r == self.spec_depth(),
    {
        &self.depth
    }

    pub fn mbo(&self) -> (r: &MboBook)
        ensures
            *r == self.spec_mbo(),
    {
        &self.mbo
    }

    /// Every stage emptied, with the instrument and every setting kept.
    pub open spec fn cleared_from(self, before: Self) -> bool {
        &&& self.spec_instrument() == before.spec_instrument()
        &&& self.spec_iceberg_config() == before.spec_iceberg_config()
        &&& !self.spec_has_depth()
        &&& self.spec_trade_speed().spec_config() == before.spec_trade_speed().spec_config()
        &&& self.spec_trade_speed().spec_samples().len() == 0
        &&& self.spec_trade_speed().spec_latest().is_none()
        &&& self.spec_book_flow().spec_detector().spec_config()
            == before.spec_book_flow().spec_detector().spec_config()
        &&& !self.spec_book_flow().spec_detector().spec_has_previous()
        &&& self.spec_book_flow().spec_detector().spec_trades().len() == 0
        &&& self.spec_book_flow().spec_speed().spec_config() == before.spec_book_flow().spec_speed().spec_config()
        &&& self.spec_book_flow().spec_speed().spec_events().len() == 0
        &&& self.spec_book_flow().spec_speed().spec_latest().is_none()
        &&& self.spec_depth().spec_side(BookSide::Bid) == Map::<i64, u64>::empty()
        &&& self.spec_depth().spec_side(BookSide::Ask) == Map::<i64, u64>::empty()
        &&& self.spec_mbo().spec_orders() == Map::<u64, crate::orderflow::mbo::MboOrder>::empty()
        &&& self.spec_mbo().spec_next_sequence() == 1
    }

    /// Forget every stage's state; the instrument and settings stay.
    pub fn clear(&mut self)
        requires
            old(self).wf(),
        ensures
            final(self).wf(),
            final(self).cleared_from(*old(self)),
    {
        self.trade_speed.clear();
        self.book_flow.clear();
        self.depth = Depth::new();
        self.has_depth = false;
        self.mbo.clear();
    }

    /// Route one event of the bound instrument through the stages it feeds.
    /// An event of any other instrument is refused and changes nothing.
    pub fn process(&mut self, event: &ReplayEvent) -> (r: Result<
        OrderFlowPipelineUpdate,
        OrderFlowPipelineError,
    >)
        requires
            old(self).wf(),
        ensures
            final(self).wf(),
            r.is_ok() <==> replay_event_instrument(*event)@ == old(self).spec_instrument()@,
            match r {
                Ok(u) => old(self).process_post(*event, u, *final(self)),
                Err(OrderFlowPipelineError::InstrumentMismatch { expected, received }) => {
                    &&& *final(self) == *old(self)
                    &&& expected@ == old(self).spec_instrument()@
                    &&& received@ == replay_event_instrument(*event)@
                },
            },
    {
        let received = event.instrument();
        if !received.same_as(&self.instrument) {
            return Err(
                OrderFlowPipelineError::InstrumentMismatch {
                    expected: Box::new(self.instrument.duplicate()),
                    received: Box::new(received.duplicate()),
                },
            );
        }
        match event {
            ReplayEvent::Market(NormalizedMarketEvent::Trade(normalized)) => {
                match normalized.to_flowsurface_trade() {
                    Some(trade) => {
                        self.trade_speed.push_trade(&trade);
                        let one = vec![trade];
                        self.book_flow.record_trades(one.as_slice());
                        proof {
                            assert(one@ == seq![trade]);
                        }
                        let snapshot = self.trade_speed.snapshot();
                        Ok(
                            OrderFlowPipelineUpdate {
                                trade_speed: snapshot,
                                book_flow: None,
                                iceberg_candidates: Vec::new(),
                                ignored_unknown_aggressor: false,
                            },
                        )
                    },
                    None => Ok(
                        OrderFlowPipelineUpdate {
                            trade_speed: None,
                            book_flow: None,
                            iceberg_candidates: Vec::new(),
                            ignored_unknown_aggressor: true,
                        },
                    ),
                }
            },
            ReplayEvent::Market(NormalizedMarketEvent::Depth(depth_event)) => {
                self.apply_depth(depth_event);
                let book_update = self.book_flow.on_depth(depth_event.time, &self.depth);
                Ok(
                    OrderFlowPipelineUpdate {
                        trade_speed: None,
                        book_flow: Some(book_update),
                        iceberg_candidates: Vec::new(),
                        ignored_unknown_aggressor: false,
                    },
                )
            },
            ReplayEvent::Mbo { event: mbo_event, .. } => {
                self.mbo.apply(*mbo_event);
                let candidates = self.mbo.iceberg_candidates(self.iceberg_config);
                Ok(
                    OrderFlowPipelineUpdate {
                        trade_speed: None,
                        book_flow: None,
                        iceberg_candidates: candidates,
                        ignored_unknown_aggressor: false,
                    },
                )
            },
        }
    }

    /// Apply a depth event to the book. A snapshot replaces both sides; a
    /// diff without an earlier image still builds the observed state and
    /// marks it as the baseline.
    fn apply_depth(&mut self, event: &NormalizedDepthEvent)
        requires
            old(self).wf(),
        ensures
            final(self).wf(),
            final(self).spec_has_depth(),
            final(self).spec_depth().spec_side(BookSide::Bid) == side_after_event(
                old(self).spec_depth().spec_side(BookSide::Bid),
                MarketBookSide::Bid,
                *event,
            ),
            final(self).spec_depth().spec_side(BookSide::Ask) == side_after_event(
                old(self).spec_depth().spec_side(BookSide::Ask),
                MarketBookSide::Ask,
                *event,
            ),
            final(self).spec_instrument() == old(self).spec_instrument(),
            final(self).spec_iceberg_config() == old(self).spec_iceberg_config(),
            final(self).spec_trade_speed() == old(self).spec_trade_speed(),
            final(self).spec_book_flow() == old(self).spec_book_flow(),
            final(self).spec_mbo() == old(self).spec_mbo(),
    {
        match event.kind {
            DepthEventKind::Snapshot => {
                self.depth = Depth::new();
            },
            DepthEventKind::Diff => {},
        }
        self.has_depth = true;
        let ghost bid0 = self.depth.spec_side(BookSide::Bid);
        let ghost ask0 = self.depth.spec_side(BookSide::Ask);
        let mut i: usize = 0;
        while i < event.levels.len()
            invariant
                i <= event.levels@.len(),
                self.depth.wf(),
                bid0 == depth_base(old(self).spec_depth().spec_side(BookSide::Bid), event.kind),
                ask0 == depth_base(old(self).spec_depth().spec_side(BookSide::Ask), event.kind),
                self.depth.spec_side(BookSide::Bid) == levels_applied(
                    bid0,
                    MarketBookSide::Bid,
                    event.levels@.take(i as int),
                ),
                self.depth.spec_side(BookSide::Ask) == levels_applied(
                    ask0,
                    MarketBookSide::Ask,
                    event.levels@.take(i as int),
                ),
                self.has_depth,
                self.instrument == old(self).instrument,
                self.iceberg_config == old(self).iceberg_config,
                self.trade_speed == old(self).trade_speed,
                self.book_flow == old(self).book_flow,
                self.mbo == old(self).mbo,
            decreases event.levels@.len() - i,
        {
            let level = event.levels[i];
            proof {
                assert(event.levels@.take((i + 1) as int).drop_last() == event.levels@.take(i as int));
                assert(event.levels@.take((i + 1) as int).last() == level);
            }
            let side = match level.side {
                MarketBookSide::Bid => BookSide::Bid,
                MarketBookSide::Ask => BookSide::Ask,
            };
            if level.qty.is_zero() {
                self.depth.remove(side, level.price);
            } else {
                self.depth.insert(side, level.price, level.qty);
            }
            i = i + 1;
        }
        proof {
            assert(event.levels@.take(i as int) == event.levels@);
        }
    }
}

impl Default for OrderFlowPipelineConfig {
    fn default() -> (r: Self)
        ensures
            r.trade_speed.window_ms == 1_000,
            r.book_speed.window_ms == 1_000,
            r.consumption.match_window_ms == 750,
            r.consumption.min_trade_match_ppm == 500_000,
            r.iceberg.min_refresh_count == 2,
            r.iceberg.min_total_filled.units == 0,
    {
        OrderFlowPipelineConfig::default_config()
    }
}

/// Two pipelines in the same observable state: bound to the same
/// instrument with the same settings, every stage holding the same data.
pub open spec fn same_state(a: OrderFlowPipeline, b: OrderFlowPipeline) -> bool {
    let (ta, tb) = (a.spec_trade_speed(), b.spec_trade_speed());
    let (da, db) = (a.spec_book_flow().spec_detector(), b.spec_book_flow().spec_detector());
    let (sa, sb) = (a.spec_book_flow().spec_speed(), b.spec_book_flow().spec_speed());
    &&& a.spec_instrument()@ == b.spec_instrument()@
    &&& a.spec_iceberg_config() == b.spec_iceberg_config()
    &&& a.spec_has_depth() == b.spec_has_depth()
    &&& ta.spec_config() == tb.spec_config()
    &&& ta.spec_samples() == tb.spec_samples()
    &&& ta.spec_latest() == tb.spec_latest()
    &&& da.spec_config() == db.spec_config()
    &&& da.spec_has_previous() == db.spec_has_previous()
    &&& da.spec_trades() == db.spec_trades()
    &&& da.spec_previous_levels(BookSide::Bid) == db.spec_previous_levels(BookSide::Bid)
    &&& da.spec_previous_levels(BookSide::Ask) == db.spec_previous_levels(BookSide::Ask)
    &&& sa.spec_config() == sb.spec_config()
    &&& sa.spec_events() == sb.spec_events()
    &&& sa.spec_latest() == sb.spec_latest()
    &&& a.spec_depth().spec_levels(BookSide::Bid) == b.spec_depth().spec_levels(BookSide::Bid)
    &&& a.spec_depth().spec_levels(BookSide::Ask) == b.spec_depth().spec_levels(BookSide::Ask)
    &&& a.spec_mbo().spec_order_seq() == b.spec_mbo().spec_order_seq()
    &&& a.spec_mbo().spec_next_sequence() == b.spec_mbo().spec_next_sequence()
}

/// Two updates reporting the same thing.
pub open spec fn same_update(u: OrderFlowPipelineUpdate, v: OrderFlowPipelineUpdate) -> bool {
    &&& u.trade_speed == v.trade_speed
    &&& u.ignored_unknown_aggressor == v.ignored_unknown_aggressor
    &&& u.iceberg_candidates@ == v.iceberg_candidates@
    &&& match (u.book_flow, v.book_flow) {
        (None, None) => true,
        (Some(x), Some(y)) => x.events@ == y.events@ && x.speed == y.speed,
        _ => false,
    }
}

/// Processing is deterministic: pipelines in the same state, given events
/// with the same contents, end in the same state and report the same.
pub proof fn law_process_is_deterministic(
    a: OrderFlowPipeline,
    b: OrderFlowPipeline,
    ea: ReplayEvent,
    eb: ReplayEvent,
    ua: OrderFlowPipelineUpdate,
    ub: OrderFlowPipelineUpdate,
    fa: OrderFlowPipeline,
    fb: OrderFlowPipeline,
)
    requires
        a.wf(),
        b.wf(),
        fa.wf(),
        fb.wf(),
        same_state(a, b),
        ea@ == eb@,
        a.process_post(ea, ua, fa),
        b.process_post(eb, ub, fb),
    ensures
        same_state(fa, fb),
        same_update(ua, ub),
{
    match (ea, eb) {
        (
            ReplayEvent::Market(NormalizedMarketEvent::Trade(ta)),
            ReplayEvent::Market(NormalizedMarketEvent::Trade(tb)),
        ) => {
            assert(ta@ == tb@);
            assert(spec_to_trade(ta) == spec_to_trade(tb));
            assert(ua.iceberg_candidates@ =~= ub.iceberg_candidates@);
            match spec_to_trade(ta) {
                None => {},
                Some(trade) => {
                    let (da, db) = (fa.spec_book_flow().spec_detector(), fb.spec_book_flow().spec_detector());
                    assert(da.spec_previous_levels(BookSide::Bid) == a.spec_book_flow().spec_detector().spec_previous_levels(BookSide::Bid));
                    assert(da.spec_previous_levels(BookSide::Ask) == a.spec_book_flow().spec_detector().spec_previous_levels(BookSide::Ask));
                    assert(db.spec_previous_levels(BookSide::Bid) == b.spec_book_flow().spec_detector().spec_previous_levels(BookSide::Bid));
                    assert(db.spec_previous_levels(BookSide::Ask) == b.spec_book_flow().spec_detector().spec_previous_levels(BookSide::Ask));
                    match fa.spec_trade_speed().spec_latest() {
                        None => {},
                        Some(now) => {
                            lemma_trade_snapshot_determined(fa.spec_trade_speed(), fb.spec_trade_speed(), now);
                        },
                    }
                },
            }
        },
        (
            ReplayEvent::Market(NormalizedMarketEvent::Depth(xa)),
            ReplayEvent::Market(NormalizedMarketEvent::Depth(xb)),
        ) => {
            assert(xa@ == xb@);
            assert(xa.levels@ == xb.levels@ && xa.kind == xb.kind && xa.time == xb.time);
            let (pa, pb) = (fa.spec_depth(), fb.spec_depth());
            pa.lemma_wf_levels(BookSide::Bid);
            pa.lemma_wf_levels(BookSide::Ask);
            pb.lemma_wf_levels(BookSide::Bid);
            pb.lemma_wf_levels(BookSide::Ask);
            lemma_levels_determined(pa.spec_levels(BookSide::Bid), pb.spec_levels(BookSide::Bid));
            lemma_levels_determined(pa.spec_levels(BookSide::Ask), pb.spec_levels(BookSide::Ask));
            let (da, db) = (fa.spec_book_flow().spec_detector(), fb.spec_book_flow().spec_detector());
            assert(da.spec_previous_levels(BookSide::Bid) == pa.spec_levels(BookSide::Bid));
            assert(da.spec_previous_levels(BookSide::Ask) == pa.spec_levels(BookSide::Ask));
            assert(db.spec_previous_levels(BookSide::Bid) == pb.spec_levels(BookSide::Bid));
            assert(db.spec_previous_levels(BookSide::Ask) == pb.spec_levels(BookSide::Ask));
            let (ra, rb) = (ua.book_flow.unwrap(), ub.book_flow.unwrap());
            if !a.spec_book_flow().spec_detector().spec_has_previous() {
                assert(ra.events@ =~= rb.events@);
            }
            assert(ra.events@ == rb.events@);
            assert(ua.iceberg_candidates@ =~= ub.iceberg_candidates@);
            match fa.spec_book_flow().spec_speed().spec_latest() {
                None => {},
                Some(t) => {
                    lemma_book_snapshot_determined(fa.spec_book_flow().spec_speed(), fb.spec_book_flow().spec_speed(), t);
                },
            }
        },
        (ReplayEvent::Mbo { event: ma, .. }, ReplayEvent::Mbo { event: mb, .. }) => {
            assert(ma == mb);
            a.spec_mbo().lemma_wf_orders();
            b.spec_mbo().lemma_wf_orders();
            fa.spec_mbo().lemma_wf_orders();
            fb.spec_mbo().lemma_wf_orders();
            lemma_orders_determined(fa.spec_mbo().spec_order_seq(), fb.spec_mbo().spec_order_seq());
        },
        _ => {},
    }
}

} // verus!
