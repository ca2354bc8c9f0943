//! Deterministic replay: chronologically sorted archives, a playback clock
//! with a rate, a cursor-based engine and a live-event recorder.
use vstd::prelude::*;

use crate::market::{
    InstrumentId, InstrumentView, MarketEventView, NormalizedMarketEvent, market_event_instrument,
    market_event_time,
};
use crate::orderflow::mbo::MboEvent;
use crate::sort::{sort_by_time, sorted_by_time, time_sorted, Timed};
use crate::unit::{clamp_u64, sat_add_u64, UnixMs};

verus! {

#[derive(Debug, Clone, PartialEq, Eq)]
pub enum ReplayEvent {
    Market(NormalizedMarketEvent),
    Mbo { instrument: InstrumentId, event: MboEvent },
}

pub enum ReplayEventView {
    Market(MarketEventView),
    Mbo { instrument: InstrumentView, event: MboEvent },
}

impl View for ReplayEvent {
    type V = ReplayEventView;

    open spec fn view(&self) -> ReplayEventView {
        match self {
            ReplayEvent::Market(e) => ReplayEventView::Market(e@),
            ReplayEvent::Mbo { instrument, event } => ReplayEventView::Mbo {
                instrument: instrument@,
                event: *event,
            },
        }
    }
}

pub open spec fn replay_event_time(e: ReplayEvent) -> UnixMs {
    match e {
        ReplayEvent::Market(m) => market_event_time(m),
        ReplayEvent::Mbo { event, .. } => event.time,
    }
}

pub open spec fn replay_event_instrument(e: ReplayEvent) -> InstrumentId {
    match e {
        ReplayEvent::Market(m) => market_event_instrument(m),
        ReplayEvent::Mbo { instrument, .. } => instrument,
    }
}

impl ReplayEvent {
    pub fn time(&self) -> (r: UnixMs)
        ensures
            r == replay_event_time(*self),
    {
        match self {
            ReplayEvent::Market(event) => event.time(),
            ReplayEvent::Mbo { event, .. } => event.time,
        }
    }

    pub fn instrument(&self) -> (r: &InstrumentId)
        ensures
            *r == replay_event_instrument(*self),
    {
        match self {
            ReplayEvent::Market(event) => event.instrument(),
            ReplayEvent::Mbo { instrument, .. } => instrument,
        }
    }

    /// A copy with equal contents.
    pub fn duplicate(&self) -> (r: Self)
        ensures
            r@ == self@,
            replay_event_time(r) == replay_event_time(*self),
            replay_event_instrument(r)@ == replay_event_instrument(*self)@,
    {
        match self {
            ReplayEvent::Market(e) => ReplayEvent::Market(e.duplicate()),
            ReplayEvent::Mbo { instrument, event } => ReplayEvent::Mbo {
                instrument: instrument.duplicate(),
                event: *event,
            },
        }
    }
}

impl Timed for ReplayEvent {
    open spec fn spec_time(&self) -> u64 {
        replay_event_time(*self).ms
    }

    fn time_ms(&self) -> (r: u64) {
        self.time().ms
    }
}

/// Element-wise contents of a sequence of events.
pub open spec fn same_contents(a: Seq<ReplayEvent>, b: Seq<ReplayEvent>) -> bool {
    &&& a.len() == b.len()
    &&& forall|k: int| 0 <= k < a.len() ==> (#[trigger] a[k])@ == b[k]@ && replay_event_time(a[k])
        == replay_event_time(b[k]) && replay_event_instrument(a[k])@ == replay_event_instrument(b[k])@
}

/// A chronologically sorted list of events.
#[derive(Debug)]
pub struct ReplayArchive {
    events: Vec<ReplayEvent>,
}

impl ReplayArchive {
    pub closed spec fn spec_events(&self) -> Seq<ReplayEvent> {
        self.events@
    }

    pub closed spec fn wf(&self) -> bool {
        sorted_by_time(self.events@)
    }

    /// An archive is always in chronological order.
    pub proof fn lemma_sorted(&self)
        requires
            self.wf(),
        ensures
            sorted_by_time(self.spec_events()),
    {
    }

    /// An archive of the events in stable chronological order.
    pub fn new(events: Vec<ReplayEvent>) -> (r: Self)
        ensures
            r.wf(),
            r.spec_events() == time_sorted(events@),
            sorted_by_time(r.spec_events()),
    {
        ReplayArchive { events: sort_by_time(events) }
    }

    /// An archive without events.
    pub fn empty() -> (r: Self)
        ensures
            r.wf(),
            r.spec_events().len() == 0,
    {
        ReplayArchive { events: Vec::new() }
    }

    pub fn events(&self) -> (r: &Vec<ReplayEvent>)
        ensures
            r@ == self.spec_events(),
    {
        &self.events
    }

    pub fn is_empty(&self) -> (r: bool)
        ensures
            r == (self.spec_events().len() == 0),
    {
        self.events.len() == 0
    }

    pub fn len(&self) -> (r: usize)
        ensures
            r == self.spec_events().len(),
    {
        self.events.len()
    }

    /// Times of the first and last events, if any.
    pub fn timerange(&self) -> (r: Option<(UnixMs, UnixMs)>)
        ensures
            self.spec_events().len() == 0 ==> r.is_none(),
            self.spec_events().len() > 0 ==> r == Some(
                (
                    replay_event_time(self.spec_events()[0]),
                    replay_event_time(self.spec_events().last()),
                ),
            ),
    {
        if self.events.len() == 0 {
            None
        } else {
            Some((self.events[0].time(), self.events[self.events.len() - 1].time()))
        }
    }
}

/// Playback rate bounds, in thousandths (0.05x to 100x).
pub const MIN_RATE_MILLI: u32 = 50;

pub const MAX_RATE_MILLI: u32 = 100_000;

/// A rate forced into the supported range.
pub open spec fn sanitize_rate(rate_milli: u32) -> u32 {
    if rate_milli < MIN_RATE_MILLI {
        MIN_RATE_MILLI
    } else if rate_milli > MAX_RATE_MILLI {
        MAX_RATE_MILLI
    } else {
        rate_milli
    }
}

/// Market milliseconds elapsed after `wall_ms` wall milliseconds at a rate
/// in thousandths, rounded to the nearest millisecond (halves up).
pub open spec fn scaled_ms(wall_ms: u64, rate_milli: u32) -> nat {
    ((wall_ms as nat * rate_milli as nat + 500) / 1000) as nat
}

/// Maps elapsed wall time to market time from an anchor, at a rate.
#[derive(Debug, Clone, Copy, PartialEq, Eq, Structural)]
pub struct ReplayClock {
    /// Playback rate in thousandths: 1000 is real time, 2000 double speed.
    pub playback_rate_milli: u32,
    pub anchor_market_time: UnixMs,
    pub elapsed_wall_ms: u64,
}

impl ReplayClock {
    /// Real-time playback from `anchor_market_time`.
    pub fn new(anchor_market_time: UnixMs) -> (r: Self)
        ensures
            r.playback_rate_milli == 1000,
            r.anchor_market_time == anchor_market_time,
            r.elapsed_wall_ms == 0,
    {
        ReplayClock { playback_rate_milli: 1000, anchor_market_time, elapsed_wall_ms: 0 }
    }

    pub fn set_rate(&mut self, rate_milli: u32)
        ensures
            final(self).playback_rate_milli == sanitize_rate(rate_milli),
            final(self).anchor_market_time == old(self).anchor_market_time,
            final(self).elapsed_wall_ms == old(self).elapsed_wall_ms,
    {
        self.playback_rate_milli = if rate_milli < MIN_RATE_MILLI {
            MIN_RATE_MILLI
        } else if rate_milli > MAX_RATE_MILLI {
            MAX_RATE_MILLI
        } else {
            rate_milli
        };
    }

    /// Re-anchor and restart the wall clock.
    pub fn reset(&mut self, anchor_market_time: UnixMs)
        ensures
            final(self).playback_rate_milli == old(self).playback_rate_milli,
            final(self).anchor_market_time == anchor_market_time,
            final(self).elapsed_wall_ms == 0,
    {
        self.anchor_market_time = anchor_market_time;
        self.elapsed_wall_ms = 0;
    }

    pub open spec fn spec_market_time(self) -> UnixMs {
        UnixMs {
            ms: clamp_u64(self.anchor_market_time.ms + scaled_ms(self.elapsed_wall_ms, self.playback_rate_milli)),
        }
    }

    /// Let `elapsed_ms` of wall time pass and report the market time.
    pub fn advance_wall_time(&mut self, elapsed_ms: u64) -> (r: UnixMs)
        ensures
            final(self).elapsed_wall_ms == clamp_u64(old(self).elapsed_wall_ms + elapsed_ms),
            final(self).playback_rate_milli == old(self).playback_rate_milli,
            final(self).anchor_market_time == old(self).anchor_market_time,
            r == final(self).spec_market_time(),
    {
        self.elapsed_wall_ms = sat_add_u64(self.elapsed_wall_ms, elapsed_ms);
        self.market_time()
    }

    /// Anchor plus scaled elapsed wall time, saturating.
    pub fn market_time(&self) -> (r: UnixMs)
        ensures
            r == self.spec_market_time(),
    {
        proof {
            assert(self.elapsed_wall_ms as nat * self.playback_rate_milli as nat <= 0xffff_ffff_ffff_ffff
                * 0xffff_ffff) by (nonlinear_arith)
                requires
                    self.elapsed_wall_ms <= 0xffff_ffff_ffff_ffffu64,
                    self.playback_rate_milli <= 0xffff_ffffu32,
            ;
        }
        let product: u128 = self.elapsed_wall_ms as u128 * self.playback_rate_milli as u128;
        let scaled: u128 = (product + 500) / 1000;
        let scaled: u64 = if scaled > u64::MAX as u128 {
            u64::MAX
        } else {
            scaled as u64
        };
        self.anchor_market_time.saturating_add_ms(scaled)
    }
}

/// The first index at or after `from` whose event is later than `t`
/// (the length when there is none).
pub open spec fn drain_end(s: Seq<ReplayEvent>, from: int, t: u64, end: int) -> bool {
    &&& from <= end <= s.len()
    &&& forall|i: int| from <= i < end ==> (#[trigger] s[i]).spec_time() <= t
    &&& end < s.len() ==> s[end].spec_time() > t
}

/// The seek position for `t`: everything before is earlier than `t`,
/// everything from it on is at or after `t`.
pub open spec fn seek_point(s: Seq<ReplayEvent>, t: u64, c: int) -> bool {
    &&& 0 <= c <= s.len()
    &&& forall|i: int| 0 <= i < c ==> (#[trigger] s[i]).spec_time() < t
    &&& forall|i: int| c <= i < s.len() ==> (#[trigger] s[i]).spec_time() >= t
}

/// Deterministic historical event source over a sorted archive.
pub struct ReplayEngine {
    archive: ReplayArchive,
    cursor: usize,
    clock: Option<ReplayClock>,
}

impl ReplayEngine {
    pub closed spec fn spec_events(&self) -> Seq<ReplayEvent> {
        self.archive.spec_events()
    }

    pub closed spec fn spec_cursor(&self) -> nat {
        self.cursor as nat
    }

    pub closed spec fn spec_clock(&self) -> Option<ReplayClock> {
        self.clock
    }

    pub closed spec fn wf(&self) -> bool {
        &&& self.archive.wf()
        &&& self.cursor <= self.archive.events@.len()
    }

    /// The engine's events stay in chronological order and its cursor
    /// within them.
    pub proof fn lemma_wf(&self)
        requires
            self.wf(),
        ensures
            sorted_by_time(self.spec_events()),
            self.spec_cursor() <= self.spec_events().len(),
    {
    }

    pub fn new(archive: ReplayArchive) -> (r: Self)
        requires
            archive.wf(),
        ensures
            r.wf(),
            r.spec_events() == archive.spec_events(),
            r.spec_cursor() == 0,
            r.spec_clock().is_none(),
    {
        ReplayEngine { archive, cursor: 0, clock: None }
    }

    pub fn archive(&self) -> (r: &ReplayArchive)
        requires
            self.wf(),
        ensures
            r.spec_events() == self.spec_events(),
            r.wf(),
    {
        &self.archive
    }

    pub fn cursor(&self) -> (r: usize)
        ensures
            r == self.spec_cursor(),
    {
        self.cursor
    }

    /// Events not yet handed out.
    pub fn remaining(&self) -> (r: usize)
        requires
            self.wf(),
        ensures
            r == self.spec_events().len() - self.spec_cursor(),
    {
        self.archive.events.len() - self.cursor
    }

    pub fn is_finished(&self) -> (r: bool)
        requires
            self.wf(),
        ensures
            r == (self.spec_cursor() >= self.spec_events().len()),
    {
        self.cursor >= self.archive.events.len()
    }

    /// Back to the first event, without a clock.
    pub fn reset(&mut self)
        requires
            old(self).wf(),
        ensures
            final(self).wf(),
            final(self).spec_events() == old(self).spec_events(),
            final(self).spec_cursor() == 0,
            final(self).spec_clock().is_none(),
    {
        self.cursor = 0;
        self.clock = None;
    }

    /// Seek to the first event whose timestamp is at or after `time`, with a
    /// real-time clock anchored at `time`.
    pub fn seek(&mut self, time: UnixMs)
        requires
            old(self).wf(),
        ensures
            final(self).wf(),
            final(self).spec_events() == old(self).spec_events(),
            seek_point(final(self).spec_events(), time.ms, final(self).spec_cursor() as int),
            final(self).spec_clock() == Some(
                ReplayClock { playback_rate_milli: 1000, anchor_market_time: time, elapsed_wall_ms: 0 },
            ),
    {
        let mut c: usize = 0;
        while c < self.archive.events.len() && self.archive.events[c].time_ms() < time.ms
            invariant
                self.archive.wf(),
                c <= self.archive.events@.len(),
                forall|i: int| 0 <= i < c ==> (#[trigger] self.archive.events@[i]).spec_time() < time.ms,
            decreases self.archive.events@.len() - c,
        {
            c = c + 1;
        }
        proof {
            assert forall|i: int| c <= i < self.archive.events@.len() implies (
            #[trigger] self.archive.events@[i]).spec_time() >= time.ms by {
                assert(self.archive.events@[c as int].spec_time() <= self.archive.events@[i].spec_time());
            }
        }
        self.cursor = c;
        self.clock = Some(ReplayClock::new(time));
    }

    /// Start the clock at `rate_milli` from the current event (or the last
    /// event once finished, or the epoch for an empty archive).
    pub fn start(&mut self, rate_milli: u32)
        requires
            old(self).wf(),
        ensures
            final(self).wf(),
            final(self).spec_events() == old(self).spec_events(),
            final(self).spec_cursor() == old(self).spec_cursor(),
            final(self).spec_clock() == Some(
                ReplayClock {
                    playback_rate_milli: sanitize_rate(rate_milli),
                    anchor_market_time: start_anchor(old(self).spec_events(), old(self).spec_cursor() as int),
                    elapsed_wall_ms: 0,
                },
            ),
    {
        let anchor = if self.cursor < self.archive.events.len() {
            self.archive.events[self.cursor].time()
        } else if self.archive.events.len() > 0 {
            self.archive.events[self.archive.events.len() - 1].time()
        } else {
            UnixMs::zero()
        };
        let mut clock = ReplayClock::new(anchor);
        clock.set_rate(rate_milli);
        self.clock = Some(clock);
    }

    /// Change the rate of the running clock, or start one.
    pub fn set_rate(&mut self, rate_milli: u32)
        requires
            old(self).wf(),
        ensures
            final(self).wf(),
            final(self).spec_events() == old(self).spec_events(),
            final(self).spec_cursor() == old(self).spec_cursor(),
            final(self).spec_clock() == clock_with_rate(
                old(self).spec_clock(),
                old(self).spec_events(),
                old(self).spec_cursor() as int,
                rate_milli,
            ),
    {
        match self.clock {
            Some(mut c) => {
                c.set_rate(rate_milli);
                self.clock = Some(c);
            },
            None => self.start(rate_milli),
        }
    }

    /// Rate of the clock in thousandths; real time without a clock.
    pub fn playback_rate(&self) -> (r: u32)
        ensures
            r == rate_of(self.spec_clock()),
    {
        match self.clock {
            Some(c) => c.playback_rate_milli,
            None => 1000,
        }
    }

    /// The event at the cursor, moving past it.
    pub fn next_event(&mut self) -> (r: Option<ReplayEvent>)
        requires
            old(self).wf(),
        ensures
            final(self).wf(),
            final(self).spec_events() == old(self).spec_events(),
            final(self).spec_clock() == old(self).spec_clock(),
            old(self).spec_cursor() >= old(self).spec_events().len() ==> {
                &&& r.is_none()
                &&& final(self).spec_cursor() == old(self).spec_cursor()
            },
            old(self).spec_cursor() < old(self).spec_events().len() ==> {
                &&& final(self).spec_cursor() == old(self).spec_cursor() + 1
                &&& r.is_some()
                &&& same_contents(seq![r.unwrap()], seq![old(self).spec_events()[old(self).spec_cursor() as int]])
            },
    {
        if self.cursor >= self.archive.events.len() {
            return None;
        }
        let e = self.archive.events[self.cursor].duplicate();
        self.cursor = self.cursor + 1;
        proof {
            let a = seq![e];
            let b = seq![self.archive.events@[self.cursor - 1]];
            assert(a[0] == e);
            assert(b[0] == self.archive.events@[self.cursor - 1]);
        }
        Some(e)
    }

    /// Hand out every event from the cursor up to and including time `t`,
    /// in order, and move the cursor past them.
    pub fn drain_until(&mut self, time: UnixMs) -> (r: Vec<ReplayEvent>)
        requires
            old(self).wf(),
        ensures
            final(self).wf(),
            final(self).spec_events() == old(self).spec_events(),
            final(self).spec_clock() == old(self).spec_clock(),
            drain_end(old(self).spec_events(), old(self).spec_cursor() as int, time.ms, final(self).spec_cursor() as int),
            same_contents(
                r@,
                old(self).spec_events().subrange(old(self).spec_cursor() as int, final(self).spec_cursor() as int),
            ),
    {
        let start = self.cursor;
        let mut out: Vec<ReplayEvent> = Vec::new();
        while self.cursor < self.archive.events.len() && self.archive.events[self.cursor].time_ms() <= time.ms
            invariant
                self.archive.wf(),
                self.archive == old(self).archive,
                self.clock == old(self).clock,
                start <= self.cursor <= self.archive.events@.len(),
                forall|i: int| start <= i < self.cursor ==> (#[trigger] self.archive.events@[i]).spec_time() <= time.ms,
                same_contents(out@, self.archive.events@.subrange(start as int, self.cursor as int)),
            decreases self.archive.events@.len() - self.cursor,
        {
            let e = self.archive.events[self.cursor].duplicate();
            out.push(e);
            self.cursor = self.cursor + 1;
            proof {
                let sub = self.archive.events@.subrange(start as int, self.cursor as int);
                assert forall|k: int| 0 <= k < out@.len() implies (#[trigger] out@[k])@ == sub[k]@
                    && replay_event_time(out@[k]) == replay_event_time(sub[k])
                    && replay_event_instrument(out@[k])@ == replay_event_instrument(sub[k])@ by {
                    if k < out@.len() - 1 {
                        assert(sub[k] == self.archive.events@.subrange(start as int, self.cursor - 1)[k]);
                    }
                }
            }
        }
        out
    }

    /// Let wall time pass (starting a real-time clock if none is running)
    /// and hand out every event up to the resulting market time.
    pub fn advance(&mut self, wall_elapsed_ms: u64) -> (r: Vec<ReplayEvent>)
        requires
            old(self).wf(),
        ensures
            final(self).wf(),
            final(self).spec_events() == old(self).spec_events(),
            ({
                let c0 = match old(self).spec_clock() {
                    Some(c) => c,
                    None => ReplayClock {
                        playback_rate_milli: 1000,
                        anchor_market_time: start_anchor(old(self).spec_events(), old(self).spec_cursor() as int),
                        elapsed_wall_ms: 0,
                    },
                };
                let c1 = ReplayClock { elapsed_wall_ms: clamp_u64(c0.elapsed_wall_ms + wall_elapsed_ms), ..c0 };
                &&& final(self).spec_clock() == Some(c1)
                &&& drain_end(
                    old(self).spec_events(),
                    old(self).spec_cursor() as int,
                    c1.spec_market_time().ms,
                    final(self).spec_cursor() as int,
                )
                &&& same_contents(
                    r@,
                    old(self).spec_events().subrange(
                        old(self).spec_cursor() as int,
                        final(self).spec_cursor() as int,
                    ),
                )
            }),
    {
        if self.clock.is_none() {
            self.start(1000);
        }
        let mut clock = match self.clock {
            Some(c) => c,
            None => ReplayClock::new(UnixMs::zero()),
        };
        let target = clock.advance_wall_time(wall_elapsed_ms);
        self.clock = Some(clock);
        self.drain_until(target)
    }
}

/// The clock after a rate change: a running clock keeps its anchor and
/// elapsed time; without one, a clock starts at the cursor.
pub open spec fn clock_with_rate(
    clock: Option<ReplayClock>,
    events: Seq<ReplayEvent>,
    cursor: int,
    rate_milli: u32,
) -> Option<ReplayClock> {
    match clock {
        Some(c) => Some(ReplayClock { playback_rate_milli: sanitize_rate(rate_milli), ..c }),
        None => Some(
            ReplayClock {
                playback_rate_milli: sanitize_rate(rate_milli),
                anchor_market_time: start_anchor(events, cursor),
                elapsed_wall_ms: 0,
            },
        ),
    }
}

/// Rate of an optional clock in thousandths; real time without one.
pub open spec fn rate_of(clock: Option<ReplayClock>) -> u32 {
    match clock {
        Some(c) => c.playback_rate_milli,
        None => 1000,
    }
}

/// Market time the clock starts from: the event at the cursor, else the last
/// event, else the epoch.
pub open spec fn start_anchor(s: Seq<ReplayEvent>, cursor: int) -> UnixMs {
    if cursor < s.len() {
        replay_event_time(s[cursor])
    } else if s.len() > 0 {
        replay_event_time(s.last())
    } else {
        UnixMs { ms: 0 }
    }
}

/// Collects live events into a replay archive, counting events that arrived
/// earlier than one already seen.
pub struct ReplayRecorder {
    events: Vec<ReplayEvent>,
    last_seen: Option<UnixMs>,
    out_of_order_events: u64,
}

impl ReplayRecorder {
    pub closed spec fn spec_events(&self) -> Seq<ReplayEvent> {
        self.events@
    }

    pub closed spec fn spec_last_seen(&self) -> Option<UnixMs> {
        self.last_seen
    }

    pub closed spec fn spec_out_of_order(&self) -> u64 {
        self.out_of_order_events
    }

    pub fn new() -> (r: Self)
        ensures
            r.spec_events().len() == 0,
            r.spec_last_seen().is_none(),
            r.spec_out_of_order() == 0,
    {
        ReplayRecorder { events: Vec::new(), last_seen: None, out_of_order_events: 0 }
    }

    /// Append an event; count it as out of order when it is earlier than the
    /// latest time seen so far.
    pub fn record(&mut self, event: ReplayEvent)
        ensures
            final(self).spec_events() == old(self).spec_events().push(event),
            final(self).spec_out_of_order() == match old(self).spec_last_seen() {
                Some(l) => if replay_event_time(event).ms < l.ms {
                    clamp_u64(old(self).spec_out_of_order() + 1)
                } else {
                    old(self).spec_out_of_order()
                },
                None => old(self).spec_out_of_order(),
            },
            final(self).spec_last_seen() == Some(
                match old(self).spec_last_seen() {
                    Some(l) => if l.ms >= replay_event_time(event).ms {
                        l
                    } else {
                        replay_event_time(event)
                    },
                    None => replay_event_time(event),
                },
            ),
    {
        let time = event.time();
        match self.last_seen {
            Some(last) => {
                if time.ms < last.ms {
                    self.out_of_order_events = sat_add_u64(self.out_of_order_events, 1);
                }
                self.last_seen = Some(last.later(time));
            },
            None => {
                self.last_seen = Some(time);
            },
        }
        self.events.push(event);
    }

    /// Record the events in order.
    pub fn record_many(&mut self, events: Vec<ReplayEvent>)
        ensures
            final(self).spec_events() == old(self).spec_events() + events@,
    {
        let ghost ev = events@;
        for e in it: events.into_iter()
            invariant
                it.seq() == ev,
                self.spec_events() == old(self).spec_events() + ev.take(it.index() as int),
        {
            proof {
                assert(ev.take(it.index() + 1) == ev.take(it.index() as int).push(e));
            }
            self.record(e);
        }
        proof {
            assert(ev.take(ev.len() as int) == ev);
        }
    }

    pub fn out_of_order_events(&self) -> (r: u64)
        ensures
            r == self.spec_out_of_order(),
    {
        self.out_of_order_events
    }

    pub fn len(&self) -> (r: usize)
        ensures
            r == self.spec_events().len(),
    {
        self.events.len()
    }

    pub fn is_empty(&self) -> (r: bool)
        ensures
            r == (self.spec_events().len() == 0),
    {
        self.events.len() == 0
    }

    /// The recorded events as a chronologically sorted archive.
    pub fn finish(self) -> (r: ReplayArchive)
        ensures
            r.wf(),
            r.spec_events() == time_sorted(self.spec_events()),
    {
        ReplayArchive::new(self.events)
    }
}

impl Default for ReplayRecorder {
    fn default() -> (r: Self)
        ensures
            r.spec_events().len() == 0,
            r.spec_last_seen().is_none(),
            r.spec_out_of_order() == 0,
    {
        ReplayRecorder::new()
    }
}

/// Draining is non-repeating: draining again up to the same time, from
/// where the first drain stopped, hands out nothing.
pub proof fn law_drain_until_is_non_repeating(s: Seq<ReplayEvent>, from: int, t: u64, end: int, again: int)
    requires
        drain_end(s, from, t, end),
        drain_end(s, end, t, again),
    ensures
        again == end,
{
    if again > end {
        assert(s[end].spec_time() <= t);
    }
}

} // verus!
