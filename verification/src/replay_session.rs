//! A replay session: playback state, seeking and speed control over an
//! archive, driving the same order-flow pipeline as live events.
use vstd::prelude::*;

use crate::market::InstrumentId;
use crate::depth::lemma_levels_determined;
use crate::orderflow::mbo::lemma_orders_determined;
use crate::orderflow::pipeline::{
    OrderFlowPipeline, OrderFlowPipelineConfig, OrderFlowPipelineError, OrderFlowPipelineUpdate,
    law_process_is_deterministic, same_state, same_update,
};
use crate::orderflow::speed::BookSide;
use crate::replay::{
    ReplayArchive, ReplayClock, ReplayEngine, ReplayEvent, clock_with_rate, drain_end, rate_of,
    replay_event_instrument, replay_event_time, same_contents, seek_point, start_anchor,
};
use crate::sort::Timed;
use crate::unit::{UnixMs, clamp_u64};

verus! {

#[derive(Debug, Clone, Copy, PartialEq, Eq, Structural)]
pub enum ReplayState {
    Paused,
    Playing,
    Finished,
}

impl Default for ReplayState {
    fn default() -> (r: Self)
        ensures
            r == ReplayState::Paused,
    {
        ReplayState::Paused
    }
}

/// An event handed to the pipeline and what it produced.
#[derive(Debug)]
pub struct ReplayDispatch {
    pub event: ReplayEvent,
    pub update: OrderFlowPipelineUpdate,
}

/// `states` are the pipeline before each dispatched event and after the
/// last: each event was of the bound instrument and was processed in turn.
pub open spec fn dispatch_chain(states: Seq<OrderFlowPipeline>, out: Seq<ReplayDispatch>) -> bool {
    &&& states.len() == out.len() + 1
    &&& forall|i: int| 0 <= i < states.len() ==> (#[trigger] states[i]).wf()
    &&& forall|i: int|
        0 <= i < out.len() ==> replay_event_instrument((#[trigger] out[i]).event)@
            == states[0].spec_instrument()@ && states[i].process_post(
            out[i].event,
            out[i].update,
            states[i + 1],
        )
}

/// Dispatching `events` in order took the pipeline from `p0` to `p1` and
/// produced `out`, one entry per event.
pub open spec fn dispatched(
    p0: OrderFlowPipeline,
    events: Seq<ReplayEvent>,
    out: Seq<ReplayDispatch>,
    p1: OrderFlowPipeline,
) -> bool {
    &&& out.len() == events.len()
    &&& forall|i: int|
        0 <= i < out.len() ==> (#[trigger] out[i]).event@ == events[i]@ && replay_event_time(out[i].event)
            == replay_event_time(events[i]) && replay_event_instrument(out[i].event)@
            == replay_event_instrument(events[i])@
    &&& exists|states: Seq<OrderFlowPipeline>|
        #[trigger] dispatch_chain(states, out) && states[0] == p0 && states.last() == p1
}

/// Dispatch stopped at event `k`, the first of another instrument, after
/// taking the pipeline from `p0` to `p1` with the events before it.
pub open spec fn dispatch_failed_at(
    p0: OrderFlowPipeline,
    events: Seq<ReplayEvent>,
    k: int,
    p1: OrderFlowPipeline,
) -> bool {
    &&& 0 <= k < events.len()
    &&& replay_event_instrument(events[k])@ != p0.spec_instrument()@
    &&& exists|out: Seq<ReplayDispatch>| #[trigger] dispatched(p0, events.take(k), out, p1)
}

/// What a failed dispatch reports.
pub open spec fn mismatch_reported(
    e: OrderFlowPipelineError,
    p0: OrderFlowPipeline,
    events: Seq<ReplayEvent>,
    p1: OrderFlowPipeline,
) -> bool {
    exists|k: int|
        #[trigger] dispatch_failed_at(p0, events, k, p1) && match e {
            OrderFlowPipelineError::InstrumentMismatch { expected, received } => {
                &&& expected@ == p0.spec_instrument()@
                &&& received@ == replay_event_instrument(events[k])@
            },
        }
}

/// Dispatching is insensitive to which copy of an event was handed out.
proof fn lemma_dispatched_same_contents(
    p0: OrderFlowPipeline,
    a: Seq<ReplayEvent>,
    b: Seq<ReplayEvent>,
    out: Seq<ReplayDispatch>,
    p1: OrderFlowPipeline,
)
    requires
        dispatched(p0, a, out, p1),
        same_contents(a, b),
    ensures
        dispatched(p0, b, out, p1),
{
    assert forall|i: int| 0 <= i < out.len() implies (#[trigger] out[i]).event@ == b[i]@
        && replay_event_time(out[i].event) == replay_event_time(b[i]) && replay_event_instrument(
        out[i].event,
    )@ == replay_event_instrument(b[i])@ by {
        assert(out[i].event@ == a[i]@);
        assert(a[i]@ == b[i]@);
    }
}

proof fn lemma_mismatch_same_contents(
    e: OrderFlowPipelineError,
    p0: OrderFlowPipeline,
    a: Seq<ReplayEvent>,
    b: Seq<ReplayEvent>,
    p1: OrderFlowPipeline,
)
    requires
        mismatch_reported(e, p0, a, p1),
        same_contents(a, b),
    ensures
        mismatch_reported(e, p0, b, p1),
{
    let k = choose|k: int|
        #[trigger] dispatch_failed_at(p0, a, k, p1) && match e {
            OrderFlowPipelineError::InstrumentMismatch { expected, received } => {
                &&& expected@ == p0.spec_instrument()@
                &&& received@ == replay_event_instrument(a[k])@
            },
        };
    let out = choose|out: Seq<ReplayDispatch>| #[trigger] dispatched(p0, a.take(k), out, p1);
    assert(a[k]@ == b[k]@);
    assert(same_contents(a.take(k), b.take(k))) by {
        assert forall|i: int| 0 <= i < k implies (#[trigger] a.take(k)[i])@ == b.take(k)[i]@
            && replay_event_time(a.take(k)[i]) == replay_event_time(b.take(k)[i])
            && replay_event_instrument(a.take(k)[i])@ == replay_event_instrument(b.take(k)[i])@ by {
            assert(a[i]@ == b[i]@);
        }
    }
    lemma_dispatched_same_contents(p0, a.take(k), b.take(k), out, p1);
    assert(dispatch_failed_at(p0, b, k, p1));
}

/// Pipelines emptied from sources bound to the same instrument with the
/// same settings are in the same state.
pub proof fn lemma_cleared_same_state(
    ca: OrderFlowPipeline,
    pa: OrderFlowPipeline,
    cb: OrderFlowPipeline,
    pb: OrderFlowPipeline,
)
    requires
        ca.wf(),
        cb.wf(),
        ca.cleared_from(pa),
        cb.cleared_from(pb),
        same_settings(pa, pb),
    ensures
        same_state(ca, cb),
{
    let (da, db) = (ca.spec_depth(), cb.spec_depth());
    da.lemma_wf_levels(BookSide::Bid);
    da.lemma_wf_levels(BookSide::Ask);
    db.lemma_wf_levels(BookSide::Bid);
    db.lemma_wf_levels(BookSide::Ask);
    lemma_levels_determined(da.spec_levels(BookSide::Bid), db.spec_levels(BookSide::Bid));
    lemma_levels_determined(da.spec_levels(BookSide::Ask), db.spec_levels(BookSide::Ask));
    ca.spec_mbo().lemma_wf_orders();
    cb.spec_mbo().lemma_wf_orders();
    lemma_orders_determined(ca.spec_mbo().spec_order_seq(), cb.spec_mbo().spec_order_seq());
    let (ta, tb) = (ca.spec_book_flow().spec_detector(), cb.spec_book_flow().spec_detector());
    ta.lemma_no_previous_levels(BookSide::Bid);
    ta.lemma_no_previous_levels(BookSide::Ask);
    tb.lemma_no_previous_levels(BookSide::Bid);
    tb.lemma_no_previous_levels(BookSide::Ask);
    assert(ta.spec_trades() =~= tb.spec_trades());
    assert(ca.spec_trade_speed().spec_samples() =~= cb.spec_trade_speed().spec_samples());
    assert(ca.spec_book_flow().spec_speed().spec_events() =~= cb.spec_book_flow().spec_speed().spec_events());
}

/// Bound to the same instrument with the same settings of every stage.
pub open spec fn same_settings(a: OrderFlowPipeline, b: OrderFlowPipeline) -> bool {
    &&& a.spec_instrument()@ == b.spec_instrument()@
    &&& a.spec_iceberg_config() == b.spec_iceberg_config()
    &&& a.spec_trade_speed().spec_config() == b.spec_trade_speed().spec_config()
    &&& a.spec_book_flow().spec_detector().spec_config() == b.spec_book_flow().spec_detector().spec_config()
    &&& a.spec_book_flow().spec_speed().spec_config() == b.spec_book_flow().spec_speed().spec_config()
}

/// Dispatching events with the same contents from pipelines in the same
/// state goes through the same states with the same updates.
pub proof fn lemma_dispatch_deterministic(
    sa: Seq<OrderFlowPipeline>,
    oa: Seq<ReplayDispatch>,
    sb: Seq<OrderFlowPipeline>,
    ob: Seq<ReplayDispatch>,
    k: int,
)
    requires
        dispatch_chain(sa, oa),
        dispatch_chain(sb, ob),
        oa.len() == ob.len(),
        forall|i: int| 0 <= i < oa.len() ==> (#[trigger] oa[i]).event@ == ob[i].event@,
        same_state(sa[0], sb[0]),
        0 <= k <= oa.len(),
    ensures
        same_state(sa[k], sb[k]),
        forall|i: int| 0 <= i < k ==> same_update((#[trigger] oa[i]).update, ob[i].update),
    decreases k,
{
    if k > 0 {
        lemma_dispatch_deterministic(sa, oa, sb, ob, k - 1);
        let i = k - 1;
        assert(sa[i].wf() && sa[i + 1].wf() && sb[i].wf() && sb[i + 1].wf());
        assert(sa[i].process_post(oa[i].event, oa[i].update, sa[i + 1]));
        assert(sb[i].process_post(ob[i].event, ob[i].update, sb[i + 1]));
        law_process_is_deterministic(
            sa[i],
            sb[i],
            oa[i].event,
            ob[i].event,
            oa[i].update,
            ob[i].update,
            sa[i + 1],
            sb[i + 1],
        );
    }
}

/// Seeking rebuilds identical state, whatever was played before: two
/// sessions over archives with the same contents, bound to the same
/// instrument with the same settings, that seek successfully to the same
/// time dispatch the same events with the same updates and end in the same
/// pipeline state.
pub proof fn law_seek_rebuilds_identical_state(
    events_a: Seq<ReplayEvent>,
    events_b: Seq<ReplayEvent>,
    t: u64,
    before_a: OrderFlowPipeline,
    before_b: OrderFlowPipeline,
    end_a: int,
    end_b: int,
    cleared_a: OrderFlowPipeline,
    cleared_b: OrderFlowPipeline,
    out_a: Seq<ReplayDispatch>,
    out_b: Seq<ReplayDispatch>,
    after_a: OrderFlowPipeline,
    after_b: OrderFlowPipeline,
)
    requires
        same_contents(events_a, events_b),
        same_settings(before_a, before_b),
        drain_end(events_a, 0, t, end_a),
        drain_end(events_b, 0, t, end_b),
        cleared_a.wf(),
        cleared_b.wf(),
        cleared_a.cleared_from(before_a),
        cleared_b.cleared_from(before_b),
        dispatched(cleared_a, events_a.subrange(0, end_a), out_a, after_a),
        dispatched(cleared_b, events_b.subrange(0, end_b), out_b, after_b),
    ensures
        end_a == end_b,
        out_a.len() == out_b.len(),
        forall|i: int| 0 <= i < out_a.len() ==> (#[trigger] out_a[i]).event@ == out_b[i].event@,
        forall|i: int| 0 <= i < out_a.len() ==> same_update((#[trigger] out_a[i]).update, out_b[i].update),
        same_state(after_a, after_b),
{
    if end_a < end_b {
        assert(events_b[end_a].spec_time() <= t);
        assert(replay_event_time(events_a[end_a]) == replay_event_time(events_b[end_a]));
    }
    if end_b < end_a {
        assert(events_a[end_b].spec_time() <= t);
        assert(replay_event_time(events_a[end_b]) == replay_event_time(events_b[end_b]));
    }
    assert(end_a == end_b);
    lemma_cleared_same_state(cleared_a, before_a, cleared_b, before_b);
    let sa = choose|states: Seq<OrderFlowPipeline>|
        #[trigger] dispatch_chain(states, out_a) && states[0] == cleared_a && states.last() == after_a;
    let sb = choose|states: Seq<OrderFlowPipeline>|
        #[trigger] dispatch_chain(states, out_b) && states[0] == cleared_b && states.last() == after_b;
    assert forall|i: int| 0 <= i < out_a.len() implies (#[trigger] out_a[i]).event@ == out_b[i].event@ by {
        assert(out_a[i].event@ == events_a.subrange(0, end_a)[i]@);
        assert(out_b[i].event@ == events_b.subrange(0, end_b)[i]@);
        assert(events_a[i]@ == events_b[i]@);
    }
    lemma_dispatch_deterministic(sa, out_a, sb, out_b, out_a.len() as int);
}

/// Playback over an archive that feeds one order-flow pipeline.
pub struct ReplaySession {
    replay: ReplayEngine,
    pipeline: OrderFlowPipeline,
    state: ReplayState,
}

impl ReplaySession {
    pub closed spec fn spec_replay(&self) -> ReplayEngine {
        self.replay
    }

    pub closed spec fn spec_pipeline(&self) -> OrderFlowPipeline {
        self.pipeline
    }

    pub closed spec fn spec_state(&self) -> ReplayState {
        self.state
    }

    pub open spec fn wf(&self) -> bool {
        self.spec_replay().wf() && self.spec_pipeline().wf()
    }

    /// A paused session at the start of `archive`.
    pub fn new(instrument: InstrumentId, archive: ReplayArchive, config: OrderFlowPipelineConfig) -> (r: Self)
        requires
            archive.wf(),
        ensures
            r.wf(),
            r.spec_state() == ReplayState::Paused,
            r.spec_replay().spec_events() == archive.spec_events(),
            r.spec_replay().spec_cursor() == 0,
            r.spec_replay().spec_clock().is_none(),
            r.spec_pipeline().spec_instrument() == instrument,
            r.spec_pipeline().cleared_from(r.spec_pipeline()),
            r.spec_pipeline().spec_iceberg_config() == config.iceberg,
    {
        ReplaySession {
            replay: ReplayEngine::new(archive),
            pipeline: OrderFlowPipeline::new(instrument, config),
            state: ReplayState::Paused,
        }
    }

    pub fn state(&self) -> (r: ReplayState)
        ensures
            r == self.spec_state(),
    {
        self.state
    }

    pub fn instrument(&self) -> (r: &InstrumentId)
        ensures
            *r == self.spec_pipeline().spec_instrument(),
    {
        self.pipeline.instrument()
    }

    /// Playback rate in thousandths.
    pub fn playback_rate(&self) -> (r: u32)
        ensures
            r == rate_of(self.spec_replay().spec_clock()),
    {
        self.replay.playback_rate()
    }

    pub fn remaining(&self) -> (r: usize)
        requires
            self.wf(),
        ensures
            r == self.spec_replay().spec_events().len() - self.spec_replay().spec_cursor(),
    {
        self.replay.remaining()
    }

    pub fn archive(&self) -> (r: &ReplayArchive)
        requires
            self.wf(),
        ensures
            r.wf(),
            r.spec_events() == self.spec_replay().spec_events(),
    {
        self.replay.archive()
    }

    /// Start playing; a finished session restarts from the beginning with
    /// an emptied pipeline.
    pub fn play(&mut self)
        requires
            old(self).wf(),
        ensures
            final(self).wf(),
            final(self).spec_state() == ReplayState::Playing,
            final(self).spec_replay().spec_events() == old(self).spec_replay().spec_events(),
            ({
                let r0 = old(self).spec_replay();
                let finished = r0.spec_cursor() >= r0.spec_events().len();
                let cursor = if finished { 0 } else { r0.spec_cursor() as int };
                let clock = if finished { None } else { r0.spec_clock() };
                &&& final(self).spec_replay().spec_cursor() == cursor
                &&& final(self).spec_replay().spec_clock() == clock_with_rate(
                    clock,
                    r0.spec_events(),
                    cursor,
                    rate_of(clock),
                )
                &&& finished ==> final(self).spec_pipeline().cleared_from(old(self).spec_pipeline())
                &&& !finished ==> final(self).spec_pipeline() == old(self).spec_pipeline()
            }),
    {
        if self.replay.is_finished() {
            self.replay.reset();
            self.pipeline.clear();
        }
        let rate = self.replay.playback_rate();
        self.replay.set_rate(rate);
        self.state = ReplayState::Playing;
    }

    /// Pause playback; a finished session stays finished.
    pub fn pause(&mut self)
        ensures
            final(self).spec_replay() == old(self).spec_replay(),
            final(self).spec_pipeline() == old(self).spec_pipeline(),
            final(self).spec_state() == if old(self).spec_state() == ReplayState::Finished {
                ReplayState::Finished
            } else {
                ReplayState::Paused
            },
    {
        if self.state != ReplayState::Finished {
            self.state = ReplayState::Paused;
        }
    }

    /// Change the playback rate (in thousandths).
    pub fn set_rate(&mut self, rate_milli: u32)
        requires
            old(self).wf(),
        ensures
            final(self).wf(),
            final(self).spec_state() == old(self).spec_state(),
            final(self).spec_pipeline() == old(self).spec_pipeline(),
            final(self).spec_replay().spec_events() == old(self).spec_replay().spec_events(),
            final(self).spec_replay().spec_cursor() == old(self).spec_replay().spec_cursor(),
            final(self).spec_replay().spec_clock() == clock_with_rate(
                old(self).spec_replay().spec_clock(),
                old(self).spec_replay().spec_events(),
                old(self).spec_replay().spec_cursor() as int,
                rate_milli,
            ),
    {
        self.replay.set_rate(rate_milli);
    }

    /// Rebuild the pipeline from the start of the archive up to and
    /// including market time `time`, then pause with the cursor on the
    /// first later event. The dispatched events are returned. An event of
    /// another instrument stops the rebuild with an error.
    pub fn seek(&mut self, time: UnixMs) -> (r: Result<Vec<ReplayDispatch>, OrderFlowPipelineError>)
        requires
            old(self).wf(),
        ensures
            final(self).wf(),
            final(self).spec_replay().spec_events() == old(self).spec_replay().spec_events(),
            ({
                let events = old(self).spec_replay().spec_events();
                exists|end: int, cleared: OrderFlowPipeline|
                    #![trigger drain_end(events, 0, time.ms, end), cleared.cleared_from(old(self).spec_pipeline())]
                    drain_end(events, 0, time.ms, end) && cleared.cleared_from(old(self).spec_pipeline())
                        && cleared.wf() && match r {
                        Ok(out) => {
                            &&& dispatched(
                                cleared,
                                events.subrange(0, end),
                                out@,
                                final(self).spec_pipeline(),
                            )
                            &&& final(self).spec_state() == ReplayState::Paused
                            &&& seek_point(
                                events,
                                clamp_u64(time.ms + 1),
                                final(self).spec_replay().spec_cursor() as int,
                            )
                            &&& final(self).spec_replay().spec_clock() == Some(
                                ReplayClock {
                                    playback_rate_milli: 1000,
                                    anchor_market_time: UnixMs { ms: clamp_u64(time.ms + 1) },
                                    elapsed_wall_ms: 0,
                                },
                            )
                        },
                        Err(e) => {
                            &&& mismatch_reported(
                                e,
                                cleared,
                                events.subrange(0, end),
                                final(self).spec_pipeline(),
                            )
                            &&& final(self).spec_state() == old(self).spec_state()
                            &&& final(self).spec_replay().spec_cursor() == end
                            &&& final(self).spec_replay().spec_clock().is_none()
                        },
                    }
            }),
    {
        self.pipeline.clear();
        let ghost cleared = self.pipeline;
        self.replay.reset();
        let events = self.replay.drain_until(time);
        let ghost end = self.replay.spec_cursor() as int;
        let ghost drained = events@;
        let out = match self.dispatch(events) {
            Ok(d) => d,
            Err(e) => {
                proof {
                    lemma_mismatch_same_contents(e, cleared, drained, self.replay.spec_events().subrange(0, end), self.pipeline);
                    assert(drain_end(self.replay.spec_events(), 0, time.ms, end));
                }
                return Err(e);
            },
        };
        proof {
            lemma_dispatched_same_contents(cleared, drained, self.replay.spec_events().subrange(0, end), out@, self.pipeline);
            assert(drain_end(self.replay.spec_events(), 0, time.ms, end));
        }
        self.replay.seek(time.saturating_add_ms(1));
        self.state = ReplayState::Paused;
        Ok(out)
    }

    /// Back to the start of the archive, paused, with an emptied pipeline.
    pub fn reset(&mut self)
        requires
            old(self).wf(),
        ensures
            final(self).wf(),
            final(self).spec_state() == ReplayState::Paused,
            final(self).spec_replay().spec_events() == old(self).spec_replay().spec_events(),
            final(self).spec_replay().spec_cursor() == 0,
            final(self).spec_replay().spec_clock().is_none(),
            final(self).spec_pipeline().cleared_from(old(self).spec_pipeline()),
    {
        self.replay.reset();
        self.pipeline.clear();
        self.state = ReplayState::Paused;
    }

    /// While playing, let wall time pass and dispatch every event that
    /// became due; the session finishes once the archive is exhausted.
    /// Otherwise nothing happens.
    pub fn advance(&mut self, wall_elapsed_ms: u64) -> (r: Result<Vec<ReplayDispatch>, OrderFlowPipelineError>)
        requires
            old(self).wf(),
        ensures
            final(self).wf(),
            final(self).spec_replay().spec_events() == old(self).spec_replay().spec_events(),
            old(self).spec_state() != ReplayState::Playing ==> {
                &&& r matches Ok(out) && out@.len() == 0
                &&& *final(self) == *old(self)
            },
            old(self).spec_state() == ReplayState::Playing ==> {
                let r0 = old(self).spec_replay();
                let c0 = match r0.spec_clock() {
                    Some(c) => c,
                    None => ReplayClock {
                        playback_rate_milli: 1000,
                        anchor_market_time: start_anchor(r0.spec_events(), r0.spec_cursor() as int),
                        elapsed_wall_ms: 0,
                    },
                };
                let c1 = ReplayClock { elapsed_wall_ms: clamp_u64(c0.elapsed_wall_ms + wall_elapsed_ms), ..c0 };
                let end = final(self).spec_replay().spec_cursor() as int;
                let due = r0.spec_events().subrange(r0.spec_cursor() as int, end);
                &&& final(self).spec_replay().spec_clock() == Some(c1)
                &&& drain_end(r0.spec_events(), r0.spec_cursor() as int, c1.spec_market_time().ms, end)
                &&& match r {
                    Ok(out) => {
                        &&& dispatched(old(self).spec_pipeline(), due, out@, final(self).spec_pipeline())
                        &&& final(self).spec_state() == if end >= r0.spec_events().len() {
                            ReplayState::Finished
                        } else {
                            ReplayState::Playing
                        }
                    },
                    Err(e) => {
                        &&& mismatch_reported(e, old(self).spec_pipeline(), due, final(self).spec_pipeline())
                        &&& final(self).spec_state() == ReplayState::Playing
                    },
                }
            },
    {
        if self.state != ReplayState::Playing {
            return Ok(Vec::new());
        }
        let ghost start = self.replay.spec_cursor() as int;
        let ghost p0 = self.pipeline;
        let events = self.replay.advance(wall_elapsed_ms);
        let ghost end = self.replay.spec_cursor() as int;
        let ghost drained = events@;
        let out = match self.dispatch(events) {
            Ok(d) => d,
            Err(e) => {
                proof {
                    lemma_mismatch_same_contents(e, p0, drained, self.replay.spec_events().subrange(start, end), self.pipeline);
                }
                return Err(e);
            },
        };
        proof {
            lemma_dispatched_same_contents(p0, drained, self.replay.spec_events().subrange(start, end), out@, self.pipeline);
        }
        if self.replay.is_finished() {
            self.state = ReplayState::Finished;
        }
        Ok(out)
    }

    /// Feed the events to the pipeline in order, stopping at the first
    /// event of another instrument.
    fn dispatch(&mut self, events: Vec<ReplayEvent>) -> (r: Result<Vec<ReplayDispatch>, OrderFlowPipelineError>)
        requires
            old(self).wf(),
        ensures
            final(self).wf(),
            final(self).spec_replay() == old(self).spec_replay(),
            final(self).spec_state() == old(self).spec_state(),
            final(self).spec_pipeline().spec_instrument() == old(self).spec_pipeline().spec_instrument(),
            match r {
                Ok(out) => dispatched(old(self).spec_pipeline(), events@, out@, final(self).spec_pipeline()),
                Err(e) => mismatch_reported(e, old(self).spec_pipeline(), events@, final(self).spec_pipeline()),
            },
    {
        let ghost ev = events@;
        let ghost p0 = self.pipeline;
        let ghost mut states: Seq<OrderFlowPipeline> = seq![self.pipeline];
        let mut out: Vec<ReplayDispatch> = Vec::new();
        for event in it: events.into_iter()
            invariant
                it.seq() == ev,
                self.pipeline.wf(),
                self.replay == old(self).replay,
                self.replay.wf(),
                self.state == old(self).state,
                p0 == old(self).pipeline,
                self.pipeline.spec_instrument() == p0.spec_instrument(),
                out@.len() == it.index(),
                forall|i: int| 0 <= i < out@.len() ==> (#[trigger] out@[i]).event == ev[i],
                dispatch_chain(states, out@),
                states[0] == p0,
                states.last() == self.pipeline,
        {
            let ghost before = self.pipeline;
            let ghost k = it.index() as int;
            match self.pipeline.process(&event) {
                Ok(update) => {
                    out.push(ReplayDispatch { event, update });
                    proof {
                        states = states.push(self.pipeline);
                        assert forall|i: int| 0 <= i < out@.len() implies replay_event_instrument(
                            (#[trigger] out@[i]).event,
                        )@ == states[0].spec_instrument()@ && states[i].process_post(
                            out@[i].event,
                            out@[i].update,
                            states[i + 1],
                        ) by {
                            if i < out@.len() - 1 {
                                assert(states[i] == states.drop_last()[i]);
                            }
                        }
                        assert forall|i: int| 0 <= i < states.len() implies (#[trigger] states[i]).wf() by {
                            if i < states.len() - 1 {
                                assert(states[i] == states.drop_last()[i]);
                            }
                        }
                    }
                },
                Err(e) => {
                    proof {
                        assert(ev.take(k).len() == out@.len());
                        assert forall|i: int| 0 <= i < out@.len() implies (#[trigger] out@[i]).event
                            == ev.take(k)[i] by {}
                        assert(dispatch_chain(states, out@));
                        assert(dispatched(p0, ev.take(k), out@, self.pipeline));
                        assert(dispatch_failed_at(p0, ev, k, self.pipeline));
                    }
                    return Err(e);
                },
            }
        }
        proof {
            assert(dispatch_chain(states, out@));
        }
        Ok(out)
    }
}

} // verus!
