//! Chart indicators and the markets each is offered for.
use vstd::prelude::*;

verus! {

/// Kind of market a ticker trades on.
#[derive(Debug, Clone, Copy, PartialEq, Eq, Structural)]
pub enum MarketKind {
    Spot,
    LinearPerps,
    InversePerps,
}

/// An indicator type with the list offered for each kind of market.
pub trait Indicator: Sized {
    spec fn spec_for_market(market: MarketKind) -> Seq<Self>;

    fn for_market(market: MarketKind) -> (r: Vec<Self>)
        ensures
            r@ == Self::spec_for_market(market);
}

#[derive(Debug, Clone, Copy, PartialEq, Eq, Structural, Hash)]
pub enum KlineIndicator {
    Volume,
    BarAnalysis,
    CumulativeDelta,
    TradeSpeed250ms,
    TradeSpeed500ms,
    TradeSpeed,
    TradeSpeed2s,
    TradeSpeed5s,
    TradeSpeed10s,
    OpenInterest,
}

/// Kline indicators offered for spot tickers; perpetuals add open interest.
pub open spec fn kline_for_spot() -> Seq<KlineIndicator> {
    seq![
        KlineIndicator::Volume,
        KlineIndicator::BarAnalysis,
        KlineIndicator::CumulativeDelta,
        KlineIndicator::TradeSpeed250ms,
        KlineIndicator::TradeSpeed500ms,
        KlineIndicator::TradeSpeed,
        KlineIndicator::TradeSpeed2s,
        KlineIndicator::TradeSpeed5s,
        KlineIndicator::TradeSpeed10s,
    ]
}

pub open spec fn kline_for_perps() -> Seq<KlineIndicator> {
    kline_for_spot().push(KlineIndicator::OpenInterest)
}

/// Display names of the kline indicators.
pub open spec fn kline_label(k: KlineIndicator) -> Seq<char> {
    match k {
        KlineIndicator::Volume => "Volume"@,
        KlineIndicator::BarAnalysis => "Bar Analysis"@,
        KlineIndicator::CumulativeDelta => "CVD"@,
        KlineIndicator::TradeSpeed250ms => "Trade Speed 250ms"@,
        KlineIndicator::TradeSpeed500ms => "Trade Speed 500ms"@,
        KlineIndicator::TradeSpeed => "Trade Speed 1s"@,
        KlineIndicator::TradeSpeed2s => "Trade Speed 2s"@,
        KlineIndicator::TradeSpeed5s => "Trade Speed 5s"@,
        KlineIndicator::TradeSpeed10s => "Trade Speed 10s"@,
        KlineIndicator::OpenInterest => "Open Interest"@,
    }
}

impl KlineIndicator {
    pub fn label(self) -> (r: &'static str)
        ensures
            r@ == kline_label(self),
    {
        match self {
            KlineIndicator::Volume => "Volume",
            KlineIndicator::BarAnalysis => "Bar Analysis",
            KlineIndicator::CumulativeDelta => "CVD",
            KlineIndicator::TradeSpeed250ms => "Trade Speed 250ms",
            KlineIndicator::TradeSpeed500ms => "Trade Speed 500ms",
            KlineIndicator::TradeSpeed => "Trade Speed 1s",
            KlineIndicator::TradeSpeed2s => "Trade Speed 2s",
            KlineIndicator::TradeSpeed5s => "Trade Speed 5s",
            KlineIndicator::TradeSpeed10s => "Trade Speed 10s",
            KlineIndicator::OpenInterest => "Open Interest",
        }
    }
}

impl Indicator for KlineIndicator {
    open spec fn spec_for_market(market: MarketKind) -> Seq<KlineIndicator> {
        match market {
            MarketKind::Spot => kline_for_spot(),
            _ => kline_for_perps(),
        }
    }

    fn for_market(market: MarketKind) -> (r: Vec<KlineIndicator>) {
        let mut r = vec![
            KlineIndicator::Volume,
            KlineIndicator::BarAnalysis,
            KlineIndicator::CumulativeDelta,
            KlineIndicator::TradeSpeed250ms,
            KlineIndicator::TradeSpeed500ms,
            KlineIndicator::TradeSpeed,
            KlineIndicator::TradeSpeed2s,
            KlineIndicator::TradeSpeed5s,
            KlineIndicator::TradeSpeed10s,
        ];
        proof {
            assert(r@ =~= kline_for_spot());
        }
        match market {
            MarketKind::Spot => {},
            _ => r.push(KlineIndicator::OpenInterest),
        }
        r
    }
}

/// Every kline indicator is offered for at least one kind of market.
pub proof fn law_every_kline_indicator_is_offered(k: KlineIndicator)
    ensures
        kline_for_spot().contains(k) || kline_for_perps().contains(k),
{
    let p = kline_for_perps();
    match k {
        KlineIndicator::Volume => assert(p[0] == k),
        KlineIndicator::BarAnalysis => assert(p[1] == k),
        KlineIndicator::CumulativeDelta => assert(p[2] == k),
        KlineIndicator::TradeSpeed250ms => assert(p[3] == k),
        KlineIndicator::TradeSpeed500ms => assert(p[4] == k),
        KlineIndicator::TradeSpeed => assert(p[5] == k),
        KlineIndicator::TradeSpeed2s => assert(p[6] == k),
        KlineIndicator::TradeSpeed5s => assert(p[7] == k),
        KlineIndicator::TradeSpeed10s => assert(p[8] == k),
        KlineIndicator::OpenInterest => assert(p[9] == k),
    }
}

#[derive(Debug, Clone, Copy, PartialEq, Eq, Structural, Hash)]
pub enum HeatmapIndicator {
    Volume,
}

impl HeatmapIndicator {
    pub fn label(self) -> (r: &'static str)
        ensures
            r@ == "Volume"@,
    {
        "Volume"
    }
}

impl Indicator for HeatmapIndicator {
    open spec fn spec_for_market(market: MarketKind) -> Seq<HeatmapIndicator> {
        seq![HeatmapIndicator::Volume]
    }

    fn for_market(market: MarketKind) -> (r: Vec<HeatmapIndicator>) {
        let r = vec![HeatmapIndicator::Volume];
        proof {
            assert(r@ =~= seq![HeatmapIndicator::Volume]);
        }
        r
    }
}

/// Any indicator shown in the UI.
#[derive(Debug, Clone, Copy, PartialEq, Eq, Structural)]
pub enum UiIndicator {
    Heatmap(HeatmapIndicator),
    Kline(KlineIndicator),
}

impl From<KlineIndicator> for UiIndicator {
    fn from(k: KlineIndicator) -> (r: Self) {
        UiIndicator::Kline(k)
    }
}

impl vstd::std_specs::convert::FromSpecImpl<KlineIndicator> for UiIndicator {
    open spec fn obeys_from_spec() -> bool {
        true
    }

    open spec fn from_spec(k: KlineIndicator) -> UiIndicator {
        UiIndicator::Kline(k)
    }
}

impl From<HeatmapIndicator> for UiIndicator {
    fn from(h: HeatmapIndicator) -> (r: Self) {
        UiIndicator::Heatmap(h)
    }
}

impl vstd::std_specs::convert::FromSpecImpl<HeatmapIndicator> for UiIndicator {
    open spec fn obeys_from_spec() -> bool {
        true
    }

    open spec fn from_spec(h: HeatmapIndicator) -> UiIndicator {
        UiIndicator::Heatmap(h)
    }
}

} // verus!
