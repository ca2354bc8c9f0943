//! Provider-neutral market protocol: instruments, normalized trades and
//! depth events, and a queue-backed adapter with sequence-gap detection.
use vstd::prelude::*;
use std::collections::VecDeque;

use crate::unit::{Price, Qty, Trade, UnixMs};

verus! {

#[derive(Debug, Clone, Copy, PartialEq, Eq, Structural, Hash)]
pub enum AssetClass {
    Crypto,
    Stock,
    Futures,
    Options,
}

#[derive(Debug, Clone, PartialEq, Eq, Hash)]
pub enum MarketVenue {
    Twse,
    Taifex,
    Cme,
    Nyse,
    Nasdaq,
    Crypto(String),
    Custom(String),
}

/// A venue with its name as characters.
pub enum VenueView {
    Twse,
    Taifex,
    Cme,
    Nyse,
    Nasdaq,
    Crypto(Seq<char>),
    Custom(Seq<char>),
}

impl View for MarketVenue {
    type V = VenueView;

    open spec fn view(&self) -> VenueView {
        match self {
            MarketVenue::Twse => VenueView::Twse,
            MarketVenue::Taifex => VenueView::Taifex,
            MarketVenue::Cme => VenueView::Cme,
            MarketVenue::Nyse => VenueView::Nyse,
            MarketVenue::Nasdaq => VenueView::Nasdaq,
            MarketVenue::Crypto(s) => VenueView::Crypto(s@),
            MarketVenue::Custom(s) => VenueView::Custom(s@),
        }
    }
}

impl MarketVenue {
    /// Same venue.
    pub fn same_as(&self, other: &Self) -> (r: bool)
        ensures
            r == (self@ == other@),
    {
        match self {
            MarketVenue::Twse => match other {
                MarketVenue::Twse => true,
                _ => false,
            },
            MarketVenue::Taifex => match other {
                MarketVenue::Taifex => true,
                _ => false,
            },
            MarketVenue::Cme => match other {
                MarketVenue::Cme => true,
                _ => false,
            },
            MarketVenue::Nyse => match other {
                MarketVenue::Nyse => true,
                _ => false,
            },
            MarketVenue::Nasdaq => match other {
                MarketVenue::Nasdaq => true,
                _ => false,
            },
            MarketVenue::Crypto(a) => match other {
                MarketVenue::Crypto(b) => *a == *b,
                _ => false,
            },
            MarketVenue::Custom(a) => match other {
                MarketVenue::Custom(b) => *a == *b,
                _ => false,
            },
        }
    }

    /// A copy with equal contents.
    pub fn duplicate(&self) -> (r: Self)
        ensures
            r@ == self@,
    {
        match self {
            MarketVenue::Twse => MarketVenue::Twse,
            MarketVenue::Taifex => MarketVenue::Taifex,
            MarketVenue::Cme => MarketVenue::Cme,
            MarketVenue::Nyse => MarketVenue::Nyse,
            MarketVenue::Nasdaq => MarketVenue::Nasdaq,
            MarketVenue::Crypto(s) => MarketVenue::Crypto(s.clone()),
            MarketVenue::Custom(s) => MarketVenue::Custom(s.clone()),
        }
    }

    /// Display name of the venue.
    pub fn name(&self) -> (r: String)
        ensures
            r@ == venue_name(self@),
    {
        match self {
            MarketVenue::Twse => "TWSE".to_owned(),
            MarketVenue::Taifex => "TAIFEX".to_owned(),
            MarketVenue::Cme => "CME".to_owned(),
            MarketVenue::Nyse => "NYSE".to_owned(),
            MarketVenue::Nasdaq => "NASDAQ".to_owned(),
            MarketVenue::Crypto(name) => name.clone(),
            MarketVenue::Custom(name) => name.clone(),
        }
    }
}

/// Display name of a venue: the exchange code, or the given name.
pub open spec fn venue_name(v: VenueView) -> Seq<char> {
    match v {
        VenueView::Twse => "TWSE"@,
        VenueView::Taifex => "TAIFEX"@,
        VenueView::Cme => "CME"@,
        VenueView::Nyse => "NYSE"@,
        VenueView::Nasdaq => "NASDAQ"@,
        VenueView::Crypto(s) => s,
        VenueView::Custom(s) => s,
    }
}

#[derive(Debug, Clone, PartialEq, Eq, Hash)]
pub struct InstrumentId {
    pub venue: MarketVenue,
    pub symbol: String,
    pub asset_class: AssetClass,
}

/// An instrument with its strings as characters.
pub struct InstrumentView {
    pub venue: VenueView,
    pub symbol: Seq<char>,
    pub asset_class: AssetClass,
}

impl View for InstrumentId {
    type V = InstrumentView;

    open spec fn view(&self) -> InstrumentView {
        InstrumentView { venue: self.venue@, symbol: self.symbol@, asset_class: self.asset_class }
    }
}

impl InstrumentId {
    pub fn new(venue: MarketVenue, symbol: &str, asset_class: AssetClass) -> (r: Self)
        ensures
            r.venue@ == venue@,
            r.symbol@ == symbol@,
            r.asset_class == asset_class,
    {
        InstrumentId { venue, symbol: symbol.to_owned(), asset_class }
    }

    /// A TWSE-listed stock.
    pub fn twse(symbol: &str) -> (r: Self)
        ensures
            r.venue@ == VenueView::Twse,
            r.symbol@ == symbol@,
            r.asset_class == AssetClass::Stock,
    {
        Self::new(MarketVenue::Twse, symbol, AssetClass::Stock)
    }

    /// A TAIFEX future.
    pub fn taifex_future(symbol: &str) -> (r: Self)
        ensures
            r.venue@ == VenueView::Taifex,
            r.symbol@ == symbol@,
            r.asset_class == AssetClass::Futures,
    {
        Self::new(MarketVenue::Taifex, symbol, AssetClass::Futures)
    }

    /// A TAIFEX option.
    pub fn taifex_option(symbol: &str) -> (r: Self)
        ensures
            r.venue@ == VenueView::Taifex,
            r.symbol@ == symbol@,
            r.asset_class == AssetClass::Options,
    {
        Self::new(MarketVenue::Taifex, symbol, AssetClass::Options)
    }

    /// Same venue, symbol and asset class.
    pub fn same_as(&self, other: &Self) -> (r: bool)
        ensures
            r == (self@ == other@),
    {
        self.venue.same_as(&other.venue) && self.symbol == other.symbol && self.asset_class
            == other.asset_class
    }

    /// A copy with equal contents.
    pub fn duplicate(&self) -> (r: Self)
        ensures
            r@ == self@,
    {
        InstrumentId {
            venue: self.venue.duplicate(),
            symbol: self.symbol.clone(),
            asset_class: self.asset_class,
        }
    }
}

#[derive(Debug, Clone, Copy, PartialEq, Eq, Structural)]
pub enum AggressorSide {
    Buy,
    Sell,
    Unknown,
}

#[derive(Debug, Clone, Copy, PartialEq, Eq, Structural)]
pub enum BookSide {
    Bid,
    Ask,
}

#[derive(Debug, Clone, Copy, PartialEq, Eq, Structural)]
pub enum DepthEventKind {
    Snapshot,
    Diff,
}

#[derive(Debug, Clone, PartialEq, Eq)]
pub struct NormalizedTrade {
    pub instrument: InstrumentId,
    pub time: UnixMs,
    pub price: Price,
    pub qty: Qty,
    pub aggressor: AggressorSide,
    /// Optional venue/exchange sequence number for gap detection.
    pub sequence: Option<u64>,
}

/// A normalized trade with its strings as characters.
pub struct TradeView {
    pub instrument: InstrumentView,
    pub time: UnixMs,
    pub price: Price,
    pub qty: Qty,
    pub aggressor: AggressorSide,
    pub sequence: Option<u64>,
}

impl View for NormalizedTrade {
    type V = TradeView;

    open spec fn view(&self) -> TradeView {
        TradeView {
            instrument: self.instrument@,
            time: self.time,
            price: self.price,
            qty: self.qty,
            aggressor: self.aggressor,
            sequence: self.sequence,
        }
    }
}

impl NormalizedTrade {
    /// A copy with equal contents.
    pub fn duplicate(&self) -> (r: Self)
        ensures
            r@ == self@,
    {
        NormalizedTrade {
            instrument: self.instrument.duplicate(),
            time: self.time,
            price: self.price,
            qty: self.qty,
            aggressor: self.aggressor,
            sequence: self.sequence,
        }
    }

    /// The trade in the order-flow model. A print whose aggressor is unknown
    /// is rejected, never guessed.
    pub fn to_flowsurface_trade(&self) -> (r: Option<Trade>)
        ensures
            r == spec_to_trade(*self),
    {
        let is_sell = match self.aggressor {
            AggressorSide::Buy => false,
            AggressorSide::Sell => true,
            AggressorSide::Unknown => {
                return None;
            },
        };
        Some(Trade { time: self.time, is_sell, price: self.price, qty: self.qty })
    }
}

pub open spec fn spec_to_trade(t: NormalizedTrade) -> Option<Trade> {
    match t.aggressor {
        AggressorSide::Unknown => None,
        AggressorSide::Buy => Some(Trade { time: t.time, is_sell: false, price: t.price, qty: t.qty }),
        AggressorSide::Sell => Some(Trade { time: t.time, is_sell: true, price: t.price, qty: t.qty }),
    }
}

#[derive(Debug, Clone, Copy, PartialEq, Eq, Structural)]
pub struct NormalizedBookLevel {
    pub side: BookSide,
    pub price: Price,
    pub qty: Qty,
}

#[derive(Debug, Clone, PartialEq, Eq)]
pub struct NormalizedDepthEvent {
    pub instrument: InstrumentId,
    pub time: UnixMs,
    pub kind: DepthEventKind,
    pub sequence: Option<u64>,
    pub levels: Vec<NormalizedBookLevel>,
}

/// A depth event with its contents as plain values.
pub struct DepthEventView {
    pub instrument: InstrumentView,
    pub time: UnixMs,
    pub kind: DepthEventKind,
    pub sequence: Option<u64>,
    pub levels: Seq<NormalizedBookLevel>,
}

impl View for NormalizedDepthEvent {
    type V = DepthEventView;

    open spec fn view(&self) -> DepthEventView {
        DepthEventView {
            instrument: self.instrument@,
            time: self.time,
            kind: self.kind,
            sequence: self.sequence,
            levels: self.levels@,
        }
    }
}

impl NormalizedDepthEvent {
    /// A copy with equal contents.
    pub fn duplicate(&self) -> (r: Self)
        ensures
            r@ == self@,
    {
        let mut levels: Vec<NormalizedBookLevel> = Vec::new();
        let mut i: usize = 0;
        while i < self.levels.len()
            invariant
                i <= self.levels@.len(),
                levels@ == self.levels@.take(i as int),
            decreases self.levels@.len() - i,
        {
            levels.push(self.levels[i]);
            i = i + 1;
            proof {
                assert(levels@ == self.levels@.take(i as int));
            }
        }
        proof {
            assert(self.levels@.take(i as int) == self.levels@);
        }
        NormalizedDepthEvent {
            instrument: self.instrument.duplicate(),
            time: self.time,
            kind: self.kind,
            sequence: self.sequence,
            levels,
        }
    }
}

#[derive(Debug, Clone, PartialEq, Eq)]
pub enum NormalizedMarketEvent {
    Trade(NormalizedTrade),
    Depth(NormalizedDepthEvent),
}

pub enum MarketEventView {
    Trade(TradeView),
    Depth(DepthEventView),
}

impl View for NormalizedMarketEvent {
    type V = MarketEventView;

    open spec fn view(&self) -> MarketEventView {
        match self {
            NormalizedMarketEvent::Trade(t) => MarketEventView::Trade(t@),
            NormalizedMarketEvent::Depth(d) => MarketEventView::Depth(d@),
        }
    }
}

pub open spec fn market_event_instrument(e: NormalizedMarketEvent) -> InstrumentId {
    match e {
        NormalizedMarketEvent::Trade(t) => t.instrument,
        NormalizedMarketEvent::Depth(d) => d.instrument,
    }
}

pub open spec fn market_event_time(e: NormalizedMarketEvent) -> UnixMs {
    match e {
        NormalizedMarketEvent::Trade(t) => t.time,
        NormalizedMarketEvent::Depth(d) => d.time,
    }
}

pub open spec fn market_event_sequence(e: NormalizedMarketEvent) -> Option<u64> {
    match e {
        NormalizedMarketEvent::Trade(t) => t.sequence,
        NormalizedMarketEvent::Depth(d) => d.sequence,
    }
}

impl NormalizedMarketEvent {
    /// A copy with equal contents.
    pub fn duplicate(&self) -> (r: Self)
        ensures
            r@ == self@,
            market_event_time(r) == market_event_time(*self),
            market_event_instrument(r)@ == market_event_instrument(*self)@,
    {
        match self {
            NormalizedMarketEvent::Trade(t) => NormalizedMarketEvent::Trade(t.duplicate()),
            NormalizedMarketEvent::Depth(d) => NormalizedMarketEvent::Depth(d.duplicate()),
        }
    }

    pub fn instrument(&self) -> (r: &InstrumentId)
        ensures
            *r == market_event_instrument(*self),
    {
        match self {
            NormalizedMarketEvent::Trade(event) => &event.instrument,
            NormalizedMarketEvent::Depth(event) => &event.instrument,
        }
    }

    pub fn time(&self) -> (r: UnixMs)
        ensures
            r == market_event_time(*self),
    {
        match self {
            NormalizedMarketEvent::Trade(event) => event.time,
            NormalizedMarketEvent::Depth(event) => event.time,
        }
    }

    pub fn sequence(&self) -> (r: Option<u64>)
        ensures
            r == market_event_sequence(*self),
    {
        match self {
            NormalizedMarketEvent::Trade(event) => event.sequence,
            NormalizedMarketEvent::Depth(event) => event.sequence,
        }
    }
}

#[derive(Debug, Clone, Copy, PartialEq, Eq, Structural)]
pub struct MarketCapabilities {
    pub trades: bool,
    pub l1: bool,
    pub l2: bool,
    pub mbo: bool,
    pub historical_trades: bool,
    pub historical_depth: bool,
}

impl MarketCapabilities {
    /// Live trades with L1 and L2 books, nothing historical, no MBO.
    pub fn l2_orderflow() -> (r: Self)
        ensures
            r.trades && r.l1 && r.l2,
            !r.mbo && !r.historical_trades && !r.historical_depth,
    {
        MarketCapabilities {
            trades: true,
            l1: true,
            l2: true,
            mbo: false,
            historical_trades: false,
            historical_depth: false,
        }
    }

    /// No capability at all.
    pub fn none() -> (r: Self)
        ensures
            !r.trades && !r.l1 && !r.l2 && !r.mbo && !r.historical_trades && !r.historical_depth,
    {
        MarketCapabilities {
            trades: false,
            l1: false,
            l2: false,
            mbo: false,
            historical_trades: false,
            historical_depth: false,
        }
    }
}

impl Default for MarketCapabilities {
    fn default() -> (r: Self)
        ensures
            !r.trades && !r.l1 && !r.l2 && !r.mbo && !r.historical_trades && !r.historical_depth,
    {
        MarketCapabilities::none()
    }
}

#[derive(Debug, Clone, PartialEq, Eq)]
pub enum MarketAdapterError {
    Disconnected,
    SequenceGap { expected: u64, received: u64 },
    Other(String),
}

/// Provider-neutral adapter boundary: network and API specifics stay behind
/// it, the rest of the application consumes only normalized events.
pub trait MarketDataAdapter {
    fn name(&self) -> &str;

    fn venue(&self) -> &MarketVenue;

    fn capabilities(&self) -> MarketCapabilities;

    fn drain_events(&mut self) -> Result<Vec<NormalizedMarketEvent>, MarketAdapterError>;
}

pub open spec fn l2_orderflow_capabilities() -> MarketCapabilities {
    MarketCapabilities {
        trades: true,
        l1: true,
        l2: true,
        mbo: false,
        historical_trades: false,
        historical_depth: false,
    }
}

/// Queue-backed adapter: the hand-off point for broker SDKs, callbacks and
/// local gateways.
pub struct QueueMarketAdapter {
    name: String,
    venue: MarketVenue,
    capabilities: MarketCapabilities,
    events: VecDeque<NormalizedMarketEvent>,
    last_sequence: Option<u64>,
    enforce_sequence: bool,
}

/// Whether a push is refused as a sequence gap, and the sequence number
/// that was expected.
pub open spec fn gap_expected(enforce: bool, last: Option<u64>, seq: Option<u64>) -> Option<u64> {
    if enforce && seq.is_some() && last.is_some() && seq.unwrap() != crate::unit::clamp_u64(
        last.unwrap() + 1,
    ) {
        Some(crate::unit::clamp_u64(last.unwrap() + 1))
    } else {
        None
    }
}

impl QueueMarketAdapter {
    pub closed spec fn spec_name(&self) -> Seq<char> {
        self.name@
    }

    pub closed spec fn spec_venue(&self) -> VenueView {
        self.venue@
    }

    pub closed spec fn spec_capabilities(&self) -> MarketCapabilities {
        self.capabilities
    }

    /// Queued events, oldest first.
    pub closed spec fn spec_events(&self) -> Seq<NormalizedMarketEvent> {
        self.events@
    }

    pub closed spec fn spec_last_sequence(&self) -> Option<u64> {
        self.last_sequence
    }

    pub closed spec fn spec_enforce(&self) -> bool {
        self.enforce_sequence
    }

    /// What `push` does: with enforcement on, a sequenced event must carry
    /// the successor of the last sequence seen; otherwise it is refused with
    /// the expected and received numbers and nothing changes. An accepted
    /// event is queued last and, when enforced and sequenced, becomes the
    /// last sequence seen.
    pub open spec fn push_post(
        self,
        event: NormalizedMarketEvent,
        r: Result<(), MarketAdapterError>,
        post: Self,
    ) -> bool {
        &&& post.spec_name() == self.spec_name()
        &&& post.spec_venue() == self.spec_venue()
        &&& post.spec_capabilities() == self.spec_capabilities()
        &&& post.spec_enforce() == self.spec_enforce()
        &&& match gap_expected(self.spec_enforce(), self.spec_last_sequence(), market_event_sequence(event)) {
            Some(expected) => {
                &&& r == Err::<(), MarketAdapterError>(
                    MarketAdapterError::SequenceGap {
                        expected,
                        received: market_event_sequence(event).unwrap(),
                    },
                )
                &&& post.spec_events() == self.spec_events()
                &&& post.spec_last_sequence() == self.spec_last_sequence()
            },
            None => {
                &&& r == Ok::<(), MarketAdapterError>(())
                &&& post.spec_events() == self.spec_events().push(event)
                &&& post.spec_last_sequence() == if self.spec_enforce() && market_event_sequence(
                    event,
                ).is_some() {
                    market_event_sequence(event)
                } else {
                    self.spec_last_sequence()
                }
            },
        }
    }

    pub fn new(name: &str, venue: MarketVenue, capabilities: MarketCapabilities) -> (r: Self)
        ensures
            r.spec_name() == name@,
            r.spec_venue() == venue@,
            r.spec_capabilities() == capabilities,
            r.spec_events().len() == 0,
            r.spec_last_sequence() == None::<u64>,
            !r.spec_enforce(),
    {
        QueueMarketAdapter {
            name: name.to_owned(),
            venue,
            capabilities,
            events: VecDeque::new(),
            last_sequence: None,
            enforce_sequence: false,
        }
    }

    /// A TWSE stock gateway with L2 order-flow capabilities.
    pub fn taiwan_stock_gateway(name: &str) -> (r: Self)
        ensures
            r.spec_name() == name@,
            r.spec_venue() == VenueView::Twse,
            r.spec_capabilities() == l2_orderflow_capabilities(),
            r.spec_events().len() == 0,
            r.spec_last_sequence() == None::<u64>,
            !r.spec_enforce(),
    {
        Self::new(name, MarketVenue::Twse, MarketCapabilities::l2_orderflow())
    }

    /// A TAIFEX futures gateway with L2 order-flow capabilities.
    pub fn taiwan_futures_gateway(name: &str) -> (r: Self)
        ensures
            r.spec_name() == name@,
            r.spec_venue() == VenueView::Taifex,
            r.spec_capabilities() == l2_orderflow_capabilities(),
            r.spec_events().len() == 0,
            r.spec_last_sequence() == None::<u64>,
            !r.spec_enforce(),
    {
        Self::new(name, MarketVenue::Taifex, MarketCapabilities::l2_orderflow())
    }

    /// Turn gap detection on or off; turning it off forgets the last sequence.
    pub fn set_sequence_enforcement(&mut self, enabled: bool)
        ensures
            final(self).spec_enforce() == enabled,
            final(self).spec_last_sequence() == if enabled {
                old(self).spec_last_sequence()
            } else {
                None
            },
            final(self).spec_events() == old(self).spec_events(),
            final(self).spec_name() == old(self).spec_name(),
            final(self).spec_venue() == old(self).spec_venue(),
            final(self).spec_capabilities() == old(self).spec_capabilities(),
    {
        self.enforce_sequence = enabled;
        if !enabled {
            self.last_sequence = None;
        }
    }

    /// Queue an event. With enforcement on, a sequenced event must carry the
    /// successor of the last sequence seen; otherwise it is refused with the
    /// expected and received numbers and nothing changes.
    pub fn push(&mut self, event: NormalizedMarketEvent) -> (r: Result<(), MarketAdapterError>)
        ensures
            final(self).spec_name() == old(self).spec_name(),
            final(self).spec_venue() == old(self).spec_venue(),
            final(self).spec_capabilities() == old(self).spec_capabilities(),
            final(self).spec_enforce() == old(self).spec_enforce(),
            old(self).push_post(event, r, *final(self)),
    {
        if self.enforce_sequence {
            match event.sequence() {
                Some(sequence) => {
                    match self.last_sequence {
                        Some(last) => {
                            let expected = crate::unit::sat_add_u64(last, 1);
                            if sequence != expected {
                                return Err(MarketAdapterError::SequenceGap { expected, received: sequence });
                            }
                        },
                        None => {},
                    }
                    self.last_sequence = Some(sequence);
                },
                None => {},
            }
        }
        self.events.push_back(event);
        Ok(())
    }

    pub fn queued_len(&self) -> (r: usize)
        ensures
            r == self.spec_events().len(),
    {
        self.events.len()
    }

    /// Hand out every queued event, oldest first, leaving the queue empty.
    pub fn drain_queued(&mut self) -> (r: Vec<NormalizedMarketEvent>)
        ensures
            r@ == old(self).spec_events(),
            final(self).spec_events().len() == 0,
            final(self).spec_last_sequence() == old(self).spec_last_sequence(),
            final(self).spec_enforce() == old(self).spec_enforce(),
            final(self).spec_name() == old(self).spec_name(),
            final(self).spec_venue() == old(self).spec_venue(),
            final(self).spec_capabilities() == old(self).spec_capabilities(),
    {
        let ghost queued = self.events@;
        let mut out: Vec<NormalizedMarketEvent> = Vec::new();
        while self.events.len() > 0
            invariant
                out@ + self.events@ == queued,
                self.name == old(self).name,
                self.venue == old(self).venue,
                self.capabilities == old(self).capabilities,
                self.last_sequence == old(self).last_sequence,
                self.enforce_sequence == old(self).enforce_sequence,
            decreases self.events@.len(),
        {
            match self.events.pop_front() {
                Some(event) => {
                    proof {
                        assert(out@.push(event) + self.events@ =~= queued);
                    }
                    out.push(event);
                },
                None => {},
            }
        }
        proof {
            assert(out@ =~= queued);
        }
        out
    }

    pub fn adapter_name(&self) -> (r: &str)
        ensures
            r@ == self.spec_name(),
    {
        self.name.as_str()
    }

    pub fn adapter_venue(&self) -> (r: &MarketVenue)
        ensures
            r@ == self.spec_venue(),
    {
        &self.venue
    }

    pub fn adapter_capabilities(&self) -> (r: MarketCapabilities)
        ensures
            r == self.spec_capabilities(),
    {
        self.capabilities
    }
}

/// With gap detection on and a last sequence `last`, an event carrying a
/// sequence number is queued exactly when that number is `last + 1`
/// (saturating); any other number, an older or repeated one included, is
/// refused as a gap naming the expected and the received number, and the
/// queue and the last sequence stay as they were.
pub proof fn law_push_accepts_only_the_successor(
    a: QueueMarketAdapter,
    event: NormalizedMarketEvent,
    r: Result<(), MarketAdapterError>,
    post: QueueMarketAdapter,
)
    requires
        a.push_post(event, r, post),
        a.spec_enforce(),
        a.spec_last_sequence() is Some,
        market_event_sequence(event) is Some,
    ensures
        ({
            let last = a.spec_last_sequence().unwrap();
            let s = market_event_sequence(event).unwrap();
            let expected: u64 = if last == u64::MAX {
                last
            } else {
                (last + 1) as u64
            };
            &&& r is Ok <==> s == expected
            &&& r is Ok ==> post.spec_events() == a.spec_events().push(event) && post.spec_last_sequence()
                == Some(s)
            &&& r is Err ==> r == Err::<(), MarketAdapterError>(
                MarketAdapterError::SequenceGap { expected, received: s },
            ) && post.spec_events() == a.spec_events() && post.spec_last_sequence()
                == a.spec_last_sequence()
        }),
{
}

impl MarketDataAdapter for QueueMarketAdapter {
    fn name(&self) -> (r: &str)
        ensures
            r@ == self.spec_name(),
    {
        self.adapter_name()
    }

    fn venue(&self) -> (r: &MarketVenue)
        ensures
            r@ == self.spec_venue(),
    {
        self.adapter_venue()
    }

    fn capabilities(&self) -> (r: MarketCapabilities)
        ensures
            r == self.spec_capabilities(),
    {
        self.adapter_capabilities()
    }

    /// Never fails: every queued event, oldest first.
    fn drain_events(&mut self) -> (r: Result<Vec<NormalizedMarketEvent>, MarketAdapterError>)
        ensures
            r matches Ok(v) && v@ == old(self).spec_events(),
            final(self).spec_events().len() == 0,
            final(self).spec_last_sequence() == old(self).spec_last_sequence(),
            final(self).spec_enforce() == old(self).spec_enforce(),
    {
        Ok(self.drain_queued())
    }
}

} // verus!
