//! Book Flow: confirmed consumption events feeding Book Speed, so that every
//! consumer (panels, heatmaps, replay) shares one definition.
use vstd::prelude::*;

use crate::depth::Depth;
use crate::orderflow::book_consumption::{BookConsumptionDetector, ConsumptionConfig, consumption_config};
use crate::orderflow::speed::{
    BookConsumptionEvent, BookSide, BookSpeedEngine, BookSpeedSnapshot, SpeedConfig,
    book_event_pushes,
};
use crate::unit::{Trade, UnixMs};

verus! {

/// Events confirmed by one book update and the Book Speed afterwards.
#[derive(Debug)]
pub struct BookFlowUpdate {
    pub events: Vec<BookConsumptionEvent>,
    pub speed: Option<BookSpeedSnapshot>,
}

/// Consumption detection composed with Book Speed aggregation.
pub struct BookFlowEngine {
    detector: BookConsumptionDetector,
    speed: BookSpeedEngine,
}

impl BookFlowEngine {
    pub closed spec fn spec_detector(&self) -> BookConsumptionDetector {
        self.detector
    }

    pub closed spec fn spec_speed(&self) -> BookSpeedEngine {
        self.speed
    }

    pub open spec fn wf(&self) -> bool {
        self.spec_detector().wf() && self.spec_speed().wf()
    }

    pub fn new(consumption: ConsumptionConfig, speed: SpeedConfig) -> (r: Self)
        ensures
            r.wf(),
            r.spec_detector().spec_config() == consumption_config(
                consumption.match_window_ms,
                consumption.min_trade_match_ppm,
            ),
            !r.spec_detector().spec_has_previous(),
            r.spec_detector().spec_trades().len() == 0,
            r.spec_speed().spec_config().window_ms == if speed.window_ms >= 1 {
                speed.window_ms
            } else {
                1
            },
            r.spec_speed().spec_events().len() == 0,
            r.spec_speed().spec_latest() == None::<UnixMs>,
    {
        BookFlowEngine {
            detector: BookConsumptionDetector::new(consumption),
            speed: BookSpeedEngine::new(speed),
        }
    }

    pub fn default_engine() -> (r: Self)
        ensures
            r.wf(),
            r.spec_detector().spec_config() == consumption_config(750, 500_000),
            !r.spec_detector().spec_has_previous(),
            r.spec_detector().spec_trades().len() == 0,
            r.spec_speed().spec_config().window_ms == 1_000,
            r.spec_speed().spec_events().len() == 0,
            r.spec_speed().spec_latest() == None::<UnixMs>,
    {
        Self::new(ConsumptionConfig::default_config(), SpeedConfig::default_config())
    }

    /// Record trade prints with the detector.
    pub fn record_trades(&mut self, trades: &[Trade])
        requires
            old(self).wf(),
        ensures
            final(self).wf(),
            final(self).spec_speed() == old(self).spec_speed(),
            old(self).spec_detector().record_trades_post(trades@, final(self).spec_detector()),
    {
        self.detector.record_trades(trades);
    }

    /// Detect consumption against the previous book state, feed every
    /// confirmed event to Book Speed, and report the events with the speed
    /// snapshot afterwards.
    pub fn on_depth(&mut self, now: UnixMs, depth: &Depth) -> (r: BookFlowUpdate)
        requires
            old(self).wf(),
            depth.wf(),
        ensures
            final(self).wf(),
            old(self).spec_detector().process_depth_post(now, *depth, r.events@, final(self).spec_detector()),
            (final(self).spec_speed().spec_events(), final(self).spec_speed().spec_latest())
                == book_event_pushes(
                old(self).spec_speed().spec_events(),
                old(self).spec_speed().spec_latest(),
                old(self).spec_speed().spec_config().window_ms,
                r.events@,
            ),
            final(self).spec_speed().spec_config() == old(self).spec_speed().spec_config(),
            match final(self).spec_speed().spec_latest() {
                None => r.speed.is_none(),
                Some(t) => r.speed == Some(final(self).spec_speed().spec_snapshot_at(t)),
            },
    {
        let events = self.detector.process_depth(now, depth);
        self.speed.push_all(&events);
        let speed = self.speed.snapshot();
        BookFlowUpdate { events, speed }
    }

    pub fn clear(&mut self)
        requires
            old(self).wf(),
        ensures
            final(self).wf(),
            final(self).spec_detector().spec_config() == old(self).spec_detector().spec_config(),
            !final(self).spec_detector().spec_has_previous(),
            final(self).spec_detector().spec_trades().len() == 0,
            final(self).spec_speed().spec_config() == old(self).spec_speed().spec_config(),
            final(self).spec_speed().spec_events().len() == 0,
            final(self).spec_speed().spec_latest() == None::<UnixMs>,
    {
        self.detector.clear();
        self.speed.clear();
    }

    pub fn detector(&self) -> (r: &BookConsumptionDetector)
        ensures
            *r == self.spec_detector(),
    {
        &self.detector
    }

    pub fn speed(&self) -> (r: &BookSpeedEngine)
        ensures
            *r == self.spec_speed(),
    {
        &self.speed
    }
}

impl Default for BookFlowEngine {
    fn default() -> (r: Self)
        ensures
            r.wf(),
            r.spec_detector().spec_config() == consumption_config(750, 500_000),
            !r.spec_detector().spec_has_previous(),
            r.spec_detector().spec_trades().len() == 0,
            r.spec_speed().spec_config().window_ms == 1_000,
            r.spec_speed().spec_events().len() == 0,
            r.spec_speed().spec_latest() == None::<UnixMs>,
    {
        BookFlowEngine::default_engine()
    }
}

} // verus!
