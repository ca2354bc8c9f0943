//! Advanced order-flow detectors: large trades, liquidity stacking and pull
//! candidates, absorption, stop runs and large resting orders.
use vstd::prelude::*;

use crate::depth::{BookLevel, Depth, level_map, prices_increasing, shown_qty};
use crate::orderflow::book_consumption::RATIO_SCALE;
use crate::orderflow::speed::{BookSide, TradeSpeedSnapshot};
use crate::unit::{clamp_i64, clamp_u64, sat_add_u64, sat_sub_i64, Price, PriceStep, Qty, Trade, UnixMs};

verus! {

#[derive(Debug, Clone, Copy, PartialEq, Eq, Structural)]
pub enum AggressiveSide {
    Buy,
    Sell,
}

/// A single print at or above the size threshold.
#[derive(Debug, Clone, Copy, PartialEq, Eq, Structural)]
pub struct LargeTradeSignal {
    pub time: UnixMs,
    pub side: AggressiveSide,
    pub price: Price,
    pub qty: Qty,
}

pub open spec fn aggressor_of(is_sell: bool) -> AggressiveSide {
    if is_sell {
        AggressiveSide::Sell
    } else {
        AggressiveSide::Buy
    }
}

/// A signal exactly when the print's size reaches `min_qty`.
pub fn detect_large_trade(trade: &Trade, min_qty: Qty) -> (r: Option<LargeTradeSignal>)
    ensures
        r.is_some() == (trade.qty.units >= min_qty.units),
        r.is_some() ==> r == Some(
            LargeTradeSignal {
                time: trade.time,
                side: aggressor_of(trade.is_sell),
                price: trade.price,
                qty: trade.qty,
            },
        ),
{
    if trade.qty.units >= min_qty.units {
        Some(
            LargeTradeSignal {
                time: trade.time,
                side: if trade.is_sell {
                    AggressiveSide::Sell
                } else {
                    AggressiveSide::Buy
                },
                price: trade.price,
                qty: trade.qty,
            },
        )
    } else {
        None
    }
}

#[derive(Debug, Clone, Copy, PartialEq, Eq, Structural)]
pub enum LiquidityChangeKind {
    Stack,
    /// A material depth reduction that was not listed as confirmed execution.
    /// It remains a candidate because aggregate L2 alone cannot prove intent.
    PullCandidate,
}

/// A material change of displayed quantity at one price.
#[derive(Debug, Clone, Copy, PartialEq, Eq, Structural)]
pub struct LiquidityChangeSignal {
    pub side: BookSide,
    pub price: Price,
    pub before: Qty,
    pub after: Qty,
    pub kind: LiquidityChangeKind,
    /// Relative absolute change versus the previous displayed quantity,
    /// `|after - before| / before`, in parts per million, rounded down; new
    /// liquidity (nothing displayed before) counts as a full change.
    pub change_ratio_ppm: u128,
}

/// The signal (if any) at price `p`, given the two states of one side.
pub open spec fn liquidity_signal_at(
    previous: Map<i64, u64>,
    current: Map<i64, u64>,
    p: i64,
    side: BookSide,
    min_change_ppm: u32,
    min_before_qty: Qty,
    consumed: Set<i64>,
) -> Option<LiquidityChangeSignal> {
    let before: u64 = if previous.contains_key(p) { previous[p] } else { 0 };
    let after: u64 = if current.contains_key(p) { current[p] } else { 0 };
    let reference: u64 = if before >= after { before } else { after };
    let change: u64 = if before >= after { (before - after) as u64 } else { (after - before) as u64 };
    let min_ppm: u32 = if min_change_ppm <= RATIO_SCALE { min_change_ppm } else { RATIO_SCALE };
    if before == after || reference < min_before_qty.units || reference == 0 {
        None
    } else if (change as int) * (RATIO_SCALE as int) < (min_ppm as int) * (reference as int) {
        None
    } else if after <= before && consumed.contains(p) {
        None
    } else {
        Some(
            LiquidityChangeSignal {
                side,
                price: Price { units: p },
                before: Qty { units: before },
                after: Qty { units: after },
                kind: if after > before {
                    LiquidityChangeKind::Stack
                } else {
                    LiquidityChangeKind::PullCandidate
                },
                change_ratio_ppm: if before > 0 {
                    ((change as int) * (RATIO_SCALE as int) / (before as int)) as u128
                } else {
                    RATIO_SCALE as u128
                },
            },
        )
    }
}

/// Prices listed as already confirmed consumption.
pub open spec fn price_set(prices: Seq<Price>) -> Set<i64> {
    Set::new(|p: i64| exists|i: int| 0 <= i < prices.len() && prices[i].units == p)
}

/// `r` lists, in strictly increasing price order, exactly the prices where
/// a signal is due, each with that signal.
pub open spec fn liquidity_signals_exact(
    r: Seq<LiquidityChangeSignal>,
    previous: Map<i64, u64>,
    current: Map<i64, u64>,
    side: BookSide,
    min_change_ppm: u32,
    min_before_qty: Qty,
    consumed: Set<i64>,
) -> bool {
    &&& forall|a: int, b: int| 0 <= a < b < r.len() ==> r[a].price.units < r[b].price.units
    &&& forall|k: int|
        0 <= k < r.len() ==> liquidity_signal_at(
            previous,
            current,
            (#[trigger] r[k]).price.units,
            side,
            min_change_ppm,
            min_before_qty,
            consumed,
        ) == Some(r[k])
    &&& forall|p: i64|
        #[trigger] liquidity_signal_at(
            previous,
            current,
            p,
            side,
            min_change_ppm,
            min_before_qty,
            consumed,
        ).is_some() ==> exists|k: int| 0 <= k < r.len() && r[k].price.units == p
}

fn price_listed(prices: &Vec<Price>, p: i64) -> (r: bool)
    ensures
        r == price_set(prices@).contains(p),
{
    let mut i: usize = 0;
    while i < prices.len()
        invariant
            i <= prices@.len(),
            forall|m: int| 0 <= m < i ==> #[trigger] prices@[m].units != p,
        decreases prices@.len() - i,
    {
        if prices[i].units == p {
            return true;
        }
        i = i + 1;
    }
    false
}

fn signal_at(
    previous: &Depth,
    current: &Depth,
    p: Price,
    side: BookSide,
    min_change_ppm: u32,
    min_before_qty: Qty,
    consumed: &Vec<Price>,
) -> (r: Option<LiquidityChangeSignal>)
    requires
        previous.wf(),
        current.wf(),
    ensures
        r == liquidity_signal_at(
            previous.spec_side(side),
            current.spec_side(side),
            p.units,
            side,
            min_change_ppm,
            min_before_qty,
            price_set(consumed@),
        ),
{
    let before = previous.qty_at(side, p).units;
    let after = current.qty_at(side, p).units;
    let reference = if before >= after { before } else { after };
    let change = if before >= after { before - after } else { after - before };
    let min_ppm = if min_change_ppm <= RATIO_SCALE { min_change_ppm } else { RATIO_SCALE };
    if before == after || reference < min_before_qty.units || reference == 0 {
        return None;
    }
    proof {
        assert(change as int * 1_000_000 <= 1_000_000 * 0xffff_ffff_ffff_ffff) by (nonlinear_arith)
            requires
                change <= 0xffff_ffff_ffff_ffffu64,
        ;
        assert(min_ppm as int * reference as int <= 1_000_000 * 0xffff_ffff_ffff_ffff) by (nonlinear_arith)
            requires
                min_ppm <= 1_000_000,
                reference <= 0xffff_ffff_ffff_ffffu64,
        ;
        assert(change as int * 1_000_000 / reference as int <= 1_000_000) by (nonlinear_arith)
            requires
                change <= reference,
                reference > 0,
        ;
    }
    let lhs: u128 = change as u128 * RATIO_SCALE as u128;
    if lhs < min_ppm as u128 * reference as u128 {
        return None;
    }
    if after <= before && price_listed(consumed, p.units) {
        return None;
    }
    let ratio: u128 = if before > 0 {
        lhs / (before as u128)
    } else {
        RATIO_SCALE as u128
    };
    Some(
        LiquidityChangeSignal {
            side,
            price: p,
            before: Qty { units: before },
            after: Qty { units: after },
            kind: if after > before {
                LiquidityChangeKind::Stack
            } else {
                LiquidityChangeKind::PullCandidate
            },
            change_ratio_ppm: ratio,
        },
    )
}

/// Material stacking and pull candidates on one side between two book
/// states: every price present in either state, in increasing order, whose
/// displayed quantity changed by at least `min_change_ppm` of the larger of
/// the two quantities, that larger quantity being at least `min_before_qty`;
/// reductions at prices in `confirmed_consumed_prices` are left out.
pub fn detect_liquidity_changes(
    previous: &Depth,
    current: &Depth,
    side: BookSide,
    min_change_ppm: u32,
    min_before_qty: Qty,
    confirmed_consumed_prices: &Vec<Price>,
) -> (r: Vec<LiquidityChangeSignal>)
    requires
        previous.wf(),
        current.wf(),
    ensures
        liquidity_signals_exact(
            r@,
            previous.spec_side(side),
            current.spec_side(side),
            side,
            min_change_ppm,
            min_before_qty,
            price_set(confirmed_consumed_prices@),
        ),
{
    let a = previous.levels(side);
    let b = current.levels(side);
    let ghost pm = previous.spec_side(side);
    let ghost cm = current.spec_side(side);
    let ghost consumed = price_set(confirmed_consumed_prices@);
    let mut out: Vec<LiquidityChangeSignal> = Vec::new();
    let mut i: usize = 0;
    let mut j: usize = 0;
    while i < a.len() || j < b.len()
        invariant
            i <= a@.len(),
            j <= b@.len(),
            prices_increasing(a@),
            prices_increasing(b@),
            a@ == previous.spec_levels(side),
            b@ == current.spec_levels(side),
            pm == level_map(a@),
            cm == level_map(b@),
            pm == previous.spec_side(side),
            cm == current.spec_side(side),
            consumed == price_set(confirmed_consumed_prices@),
            previous.wf(),
            current.wf(),
            forall|x: int, y: int| 0 <= x < y < out@.len() ==> out@[x].price.units < out@[y].price.units,
            forall|k: int|
                0 <= k < out@.len() ==> liquidity_signal_at(
                    pm,
                    cm,
                    (#[trigger] out@[k]).price.units,
                    side,
                    min_change_ppm,
                    min_before_qty,
                    consumed,
                ) == Some(out@[k]),
            forall|k: int|
                0 <= k < out@.len() ==> (i < a@.len() ==> (#[trigger] out@[k]).price.units
                    < a@[i as int].price.units),
            forall|k: int|
                0 <= k < out@.len() ==> (j < b@.len() ==> (#[trigger] out@[k]).price.units
                    < b@[j as int].price.units),
            forall|m: int|
                0 <= m < i ==> (j < b@.len() ==> (#[trigger] a@[m]).price.units < b@[j as int].price.units),
            forall|m: int|
                0 <= m < j ==> (i < a@.len() ==> (#[trigger] b@[m]).price.units < a@[i as int].price.units),
            forall|p: i64|
                #[trigger] liquidity_signal_at(
                    pm,
                    cm,
                    p,
                    side,
                    min_change_ppm,
                    min_before_qty,
                    consumed,
                ).is_some() && ((exists|m: int| 0 <= m < i && a@[m].price.units == p) || (exists|m: int|
                    0 <= m < j && b@[m].price.units == p)) ==> exists|k: int|
                    0 <= k < out@.len() && out@[k].price.units == p,
        decreases a@.len() + b@.len() - i - j,
    {
        let take_a = j >= b.len() || (i < a.len() && a[i].price.units <= b[j].price.units);
        let take_b = i >= a.len() || (j < b.len() && b[j].price.units <= a[i].price.units);
        let p = if take_a { a[i].price } else { b[j].price };
        let s = signal_at(previous, current, p, side, min_change_ppm, min_before_qty, confirmed_consumed_prices);
        let ghost old_out = out@;
        let ghost oi = i;
        let ghost oj = j;
        match s {
            Some(sig) => {
                out.push(sig);
            },
            None => {},
        }
        if take_a {
            i = i + 1;
        }
        if take_b {
            j = j + 1;
        }
        proof {
            assert forall|p2: i64|
                #[trigger] liquidity_signal_at(
                    pm,
                    cm,
                    p2,
                    side,
                    min_change_ppm,
                    min_before_qty,
                    consumed,
                ).is_some() && ((exists|m: int| 0 <= m < i && a@[m].price.units == p2) || (exists|m: int|
                    0 <= m < j && b@[m].price.units == p2)) implies exists|k: int|
                0 <= k < out@.len() && out@[k].price.units == p2 by {
                if p2 == p.units {
                    assert(s == liquidity_signal_at(pm, cm, p.units, side, min_change_ppm, min_before_qty, consumed));
                    assert(s.is_some());
                    assert(out@.len() == old_out.len() + 1);
                    assert(out@[out@.len() - 1] == s.unwrap());
                    assert(s.unwrap().price.units == p.units);
                    assert(out@[out@.len() - 1].price.units == p2);
                } else {
                    if exists|m: int| 0 <= m < i && a@[m].price.units == p2 {
                        let m = choose|m: int| 0 <= m < i && a@[m].price.units == p2;
                        if m == oi {
                            assert(a@[m].price.units == p.units);
                        }
                        assert(m < oi);
                    } else {
                        let m = choose|m: int| 0 <= m < j && b@[m].price.units == p2;
                        if m == oj {
                            assert(b@[m].price.units == p.units);
                        }
                        assert(m < oj);
                    }
                    let k = choose|k: int| 0 <= k < old_out.len() && old_out[k].price.units == p2;
                    assert(out@[k] == old_out[k]);
                }
            }
            assert forall|k: int|
                0 <= k < out@.len() && i < a@.len() implies (#[trigger] out@[k]).price.units
                < a@[i as int].price.units by {
                {
                    if k < old_out.len() {
                        assert(out@[k] == old_out[k]);
                        if oi < a@.len() {
                            assert(a@[oi as int].price.units <= a@[i as int].price.units);
                        }
                    }
                }
            }
            assert forall|k: int|
                0 <= k < out@.len() && j < b@.len() implies (#[trigger] out@[k]).price.units
                < b@[j as int].price.units by {
                {
                    if k < old_out.len() {
                        assert(out@[k] == old_out[k]);
                        if oj < b@.len() {
                            assert(b@[oj as int].price.units <= b@[j as int].price.units);
                        }
                    }
                }
            }
        }
    }
    proof {
        assert forall|p: i64|
            #[trigger] liquidity_signal_at(
                pm,
                cm,
                p,
                side,
                min_change_ppm,
                min_before_qty,
                consumed,
            ).is_some() implies exists|k: int| 0 <= k < out@.len() && out@[k].price.units == p by {
            if !pm.contains_key(p) && !cm.contains_key(p) {
            } else if pm.contains_key(p) {
                let m = choose|m: int| 0 <= m < a@.len() && a@[m].price.units == p;
                assert(0 <= m < i && a@[m].price.units == p);
            } else {
                let m = choose|m: int| 0 <= m < b@.len() && b@[m].price.units == p;
                assert(0 <= m < j && b@[m].price.units == p);
            }
        }
    }
    out
}

/// Thresholds for absorption.
#[derive(Debug, Clone, Copy, PartialEq, Eq, Structural)]
pub struct AbsorptionConfig {
    pub min_aggressive_qty: Qty,
    pub max_price_move_ticks: u32,
}

impl AbsorptionConfig {
    /// No size threshold and at most one tick of movement.
    pub fn default_config() -> (r: Self)
        ensures
            r.min_aggressive_qty.units == 0,
            r.max_price_move_ticks == 1,
    {
        AbsorptionConfig { min_aggressive_qty: Qty { units: 0 }, max_price_move_ticks: 1 }
    }
}

/// Aggressive flow that failed to move price materially.
#[derive(Debug, Clone, Copy, PartialEq, Eq, Structural)]
pub struct AbsorptionSignal {
    /// Side initiating the aggressive flow that failed to move price materially.
    pub aggressive_side: AggressiveSide,
    /// Resting side inferred to have absorbed the pressure.
    pub resting_side: BookSide,
    pub aggressive_qty: Qty,
    pub start_price: Price,
    pub end_price: Price,
    pub move_ticks: u64,
}

/// Total size of the aggressive buys (`is_sell == false`) or sells.
pub open spec fn aggressive_volume(trades: Seq<Trade>, sells: bool) -> nat
    decreases trades.len(),
{
    if trades.len() == 0 {
        0
    } else {
        aggressive_volume(trades.drop_last(), sells) + if trades.last().is_sell == sells {
            trades.last().qty.units as nat
        } else {
            0
        }
    }
}

/// Whole ticks moved from `start` to `end` in one direction (zero when the
/// move went the other way); a zero step counts as one unit.
pub open spec fn spec_directional_ticks(start: Price, end: Price, step: PriceStep, upward: bool) -> u64 {
    let step_units: int = if step.units >= 0 { step.units as int } else { -(step.units as int) };
    let step_units: int = if step_units >= 1 { step_units } else { 1 };
    let movement: int = if upward {
        clamp_i64(end.units - start.units) as int
    } else {
        clamp_i64(start.units - end.units) as int
    };
    let movement: int = if movement >= 0 { movement } else { 0 };
    (movement / step_units) as u64
}

pub fn directional_ticks(start: Price, end: Price, step: PriceStep, upward: bool) -> (r: u64)
    ensures
        r == spec_directional_ticks(start, end, step, upward),
{
    let step_units: u64 = if step.units >= 0 {
        step.units as u64
    } else if step.units == i64::MIN {
        0x8000_0000_0000_0000u64
    } else {
        (-step.units) as u64
    };
    let step_units: u64 = if step_units >= 1 { step_units } else { 1 };
    let movement: i64 = if upward {
        sat_sub_i64(end.units, start.units)
    } else {
        sat_sub_i64(start.units, end.units)
    };
    let movement: u64 = if movement >= 0 { movement as u64 } else { 0 };
    movement / step_units
}

/// Sum the aggressive buy and sell sizes, each saturating.
fn aggressive_volumes(trades: &[Trade]) -> (r: (u64, u64))
    ensures
        r.0 == clamp_u64(aggressive_volume(trades@, false) as int),
        r.1 == clamp_u64(aggressive_volume(trades@, true) as int),
{
    let mut buy: u64 = 0;
    let mut sell: u64 = 0;
    let mut i: usize = 0;
    while i < trades.len()
        invariant
            i <= trades@.len(),
            buy == clamp_u64(aggressive_volume(trades@.take(i as int), false) as int),
            sell == clamp_u64(aggressive_volume(trades@.take(i as int), true) as int),
        decreases trades@.len() - i,
    {
        proof {
            assert(trades@.take((i + 1) as int).drop_last() == trades@.take(i as int));
        }
        let t = trades[i];
        if t.is_sell {
            sell = sat_add_u64(sell, t.qty.units);
        } else {
            buy = sat_add_u64(buy, t.qty.units);
        }
        i = i + 1;
    }
    proof {
        assert(trades@.take(i as int) == trades@);
    }
    (buy, sell)
}

/// The buy-side signal of `detect_absorption`, if due.
pub open spec fn buy_absorption(
    trades: Seq<Trade>,
    start: Price,
    end: Price,
    step: PriceStep,
    config: AbsorptionConfig,
) -> Option<AbsorptionSignal> {
    let qty = clamp_u64(aggressive_volume(trades, false) as int);
    let ticks = spec_directional_ticks(start, end, step, true);
    if qty >= config.min_aggressive_qty.units && ticks <= config.max_price_move_ticks {
        Some(
            AbsorptionSignal {
                aggressive_side: AggressiveSide::Buy,
                resting_side: BookSide::Ask,
                aggressive_qty: Qty { units: qty },
                start_price: start,
                end_price: end,
                move_ticks: ticks,
            },
        )
    } else {
        None
    }
}

/// The sell-side signal of `detect_absorption`, if due.
pub open spec fn sell_absorption(
    trades: Seq<Trade>,
    start: Price,
    end: Price,
    step: PriceStep,
    config: AbsorptionConfig,
) -> Option<AbsorptionSignal> {
    let qty = clamp_u64(aggressive_volume(trades, true) as int);
    let ticks = spec_directional_ticks(start, end, step, false);
    if qty >= config.min_aggressive_qty.units && ticks <= config.max_price_move_ticks {
        Some(
            AbsorptionSignal {
                aggressive_side: AggressiveSide::Sell,
                resting_side: BookSide::Bid,
                aggressive_qty: Qty { units: qty },
                start_price: start,
                end_price: end,
                move_ticks: ticks,
            },
        )
    } else {
        None
    }
}

pub open spec fn option_seq<A>(o: Option<A>) -> Seq<A> {
    match o {
        Some(x) => seq![x],
        None => Seq::empty(),
    }
}

/// Absorption: enough aggressive buying that price moved up by at most the
/// allowed ticks (asks absorbed), then the same for selling and downward
/// movement (bids absorbed). Nothing for no trades or a zero tick size.
pub fn detect_absorption(
    trades: &[Trade],
    start_price: Price,
    end_price: Price,
    step: PriceStep,
    config: AbsorptionConfig,
) -> (r: Vec<AbsorptionSignal>)
    ensures
        trades@.len() == 0 || step.units == 0 ==> r@.len() == 0,
        !(trades@.len() == 0 || step.units == 0) ==> r@ == option_seq(
            buy_absorption(trades@, start_price, end_price, step, config),
        ) + option_seq(sell_absorption(trades@, start_price, end_price, step, config)),
{
    let mut out: Vec<AbsorptionSignal> = Vec::new();
    if trades.len() == 0 || step.units == 0 {
        return out;
    }
    let (buy_qty, sell_qty) = aggressive_volumes(trades);
    let upward_ticks = directional_ticks(start_price, end_price, step, true);
    let downward_ticks = directional_ticks(start_price, end_price, step, false);
    if buy_qty >= config.min_aggressive_qty.units && upward_ticks <= config.max_price_move_ticks as u64 {
        out.push(
            AbsorptionSignal {
                aggressive_side: AggressiveSide::Buy,
                resting_side: BookSide::Ask,
                aggressive_qty: Qty { units: buy_qty },
                start_price,
                end_price,
                move_ticks: upward_ticks,
            },
        );
    }
    let ghost first = out@;
    if sell_qty >= config.min_aggressive_qty.units && downward_ticks <= config.max_price_move_ticks as u64 {
        out.push(
            AbsorptionSignal {
                aggressive_side: AggressiveSide::Sell,
                resting_side: BookSide::Bid,
                aggressive_qty: Qty { units: sell_qty },
                start_price,
                end_price,
                move_ticks: downward_ticks,
            },
        );
    }
    proof {
        assert(first == option_seq(buy_absorption(trades@, start_price, end_price, step, config)));
        assert(out@ == first + option_seq(sell_absorption(trades@, start_price, end_price, step, config)));
    }
    out
}

/// Thresholds for a stop run.
#[derive(Debug, Clone, Copy, PartialEq, Eq, Structural)]
pub struct StopRunConfig {
    pub min_swept_levels: u32,
    pub min_sweep_qty: Qty,
    pub min_reversal_ticks: u32,
    pub max_reversal_ms: u64,
}

impl StopRunConfig {
    /// Two swept levels, no size threshold, two ticks of reversal within 2 s.
    pub fn default_config() -> (r: Self)
        ensures
            r.min_swept_levels == 2,
            r.min_sweep_qty.units == 0,
            r.min_reversal_ticks == 2,
            r.max_reversal_ms == 2_000,
    {
        StopRunConfig {
            min_swept_levels: 2,
            min_sweep_qty: Qty { units: 0 },
            min_reversal_ticks: 2,
            max_reversal_ms: 2_000,
        }
    }
}

/// A sweep through several levels and the price observed after it.
#[derive(Debug, Clone, Copy, PartialEq, Eq, Structural)]
pub struct StopRunObservation {
    pub swept_side: BookSide,
    pub swept_levels: u32,
    pub sweep_qty: Qty,
    pub extreme_price: Price,
    pub post_price: Price,
    pub reversal_elapsed_ms: u64,
}

#[derive(Debug, Clone, Copy, PartialEq, Eq, Structural)]
pub struct StopRunSignal {
    pub swept_side: BookSide,
    pub swept_levels: u32,
    pub sweep_qty: Qty,
    pub reversal_ticks: u64,
    pub reversal_elapsed_ms: u64,
}

/// Ticks by which price came back from the extreme: down after an ask
/// sweep, up after a bid sweep.
pub open spec fn reversal_ticks_of(o: StopRunObservation, step: PriceStep) -> u64 {
    match o.swept_side {
        BookSide::Ask => spec_directional_ticks(o.post_price, o.extreme_price, step, true),
        BookSide::Bid => spec_directional_ticks(o.extreme_price, o.post_price, step, true),
    }
}

/// A stop run: a sweep of enough levels and size, reversed by enough ticks
/// quickly enough.
pub fn detect_stop_run(observation: StopRunObservation, step: PriceStep, config: StopRunConfig) -> (r:
    Option<StopRunSignal>)
    ensures
        r.is_some() == (observation.swept_levels >= config.min_swept_levels
            && observation.sweep_qty.units >= config.min_sweep_qty.units
            && observation.reversal_elapsed_ms <= config.max_reversal_ms && step.units != 0
            && reversal_ticks_of(observation, step) >= config.min_reversal_ticks),
        r.is_some() ==> r == Some(
            StopRunSignal {
                swept_side: observation.swept_side,
                swept_levels: observation.swept_levels,
                sweep_qty: observation.sweep_qty,
                reversal_ticks: reversal_ticks_of(observation, step),
                reversal_elapsed_ms: observation.reversal_elapsed_ms,
            },
        ),
{
    if observation.swept_levels < config.min_swept_levels
        || observation.sweep_qty.units < config.min_sweep_qty.units
        || observation.reversal_elapsed_ms > config.max_reversal_ms || step.units == 0 {
        return None;
    }
    let reversal_ticks = match observation.swept_side {
        BookSide::Ask => directional_ticks(observation.post_price, observation.extreme_price, step, true),
        BookSide::Bid => directional_ticks(observation.extreme_price, observation.post_price, step, true),
    };
    if reversal_ticks < config.min_reversal_ticks as u64 {
        return None;
    }
    Some(
        StopRunSignal {
            swept_side: observation.swept_side,
            swept_levels: observation.swept_levels,
            sweep_qty: observation.sweep_qty,
            reversal_ticks,
            reversal_elapsed_ms: observation.reversal_elapsed_ms,
        },
    )
}

/// A stop run's reversal is counted back from the extreme of the sweep:
/// upward after a bid sweep (a downward run), downward after an ask sweep
/// (an upward run), in whole ticks of `|step|` (a zero step counts as one
/// unit), a move the wrong way counting as none. A signal reports exactly
/// that count, and a sweep that meets every other threshold is refused
/// only when that count falls short.
pub proof fn law_stop_run_counts_the_reversal(
    o: StopRunObservation,
    step: PriceStep,
    config: StopRunConfig,
    r: Option<StopRunSignal>,
)
    requires
        r.is_some() == (o.swept_levels >= config.min_swept_levels && o.sweep_qty.units
            >= config.min_sweep_qty.units && o.reversal_elapsed_ms <= config.max_reversal_ms && step.units
            != 0 && reversal_ticks_of(o, step) >= config.min_reversal_ticks),
        r.is_some() ==> r == Some(
            StopRunSignal {
                swept_side: o.swept_side,
                swept_levels: o.swept_levels,
                sweep_qty: o.sweep_qty,
                reversal_ticks: reversal_ticks_of(o, step),
                reversal_elapsed_ms: o.reversal_elapsed_ms,
            },
        ),
    ensures
        ({
            let back: int = if o.swept_side == BookSide::Bid {
                o.post_price.units - o.extreme_price.units
            } else {
                o.extreme_price.units - o.post_price.units
            };
            let back: int = if back < 0 {
                0
            } else if back > i64::MAX {
                i64::MAX as int
            } else {
                back
            };
            let tick: int = if step.units < 0 {
                -step.units
            } else {
                step.units as int
            };
            let tick: int = if tick < 1 {
                1
            } else {
                tick
            };
            &&& r matches Some(sig) ==> sig.reversal_ticks == back / tick && sig.swept_side == o.swept_side
                && back / tick >= config.min_reversal_ticks
            &&& (r is None && o.swept_levels >= config.min_swept_levels && o.sweep_qty.units
                >= config.min_sweep_qty.units && o.reversal_elapsed_ms <= config.max_reversal_ms
                && step.units != 0) ==> back / tick < config.min_reversal_ticks
        }),
{
}

/// A resting level at or above the size threshold.
#[derive(Debug, Clone, Copy, PartialEq, Eq, Structural)]
pub struct LargeRestingOrder {
    pub side: BookSide,
    pub price: Price,
    pub qty: Qty,
}

/// The levels of `levels` whose size reaches `min_qty`, in order.
pub open spec fn large_levels(levels: Seq<BookLevel>, side: BookSide, min_qty: Qty) -> Seq<
    LargeRestingOrder,
>
    decreases levels.len(),
{
    if levels.len() == 0 {
        Seq::empty()
    } else {
        let rest = large_levels(levels.drop_last(), side, min_qty);
        let l = levels.last();
        if l.qty.units >= min_qty.units {
            rest.push(LargeRestingOrder { side, price: l.price, qty: l.qty })
        } else {
            rest
        }
    }
}

fn collect_large(levels: &Vec<BookLevel>, side: BookSide, min_qty: Qty, out: &mut Vec<LargeRestingOrder>)
    ensures
        final(out)@ == old(out)@ + large_levels(levels@, side, min_qty),
{
    let ghost start = out@;
    let mut i: usize = 0;
    while i < levels.len()
        invariant
            i <= levels@.len(),
            out@ == start + large_levels(levels@.take(i as int), side, min_qty),
        decreases levels@.len() - i,
    {
        proof {
            assert(levels@.take((i + 1) as int).drop_last() == levels@.take(i as int));
        }
        let l = levels[i];
        if l.qty.units >= min_qty.units {
            out.push(LargeRestingOrder { side, price: l.price, qty: l.qty });
        }
        i = i + 1;
    }
    proof {
        assert(levels@.take(i as int) == levels@);
    }
}

/// Resting levels at or above `min_qty`: bids in increasing price order,
/// then asks in increasing price order.
pub fn detect_large_resting_orders(depth: &Depth, min_qty: Qty) -> (r: Vec<LargeRestingOrder>)
    requires
        depth.wf(),
    ensures
        r@ == large_levels(depth.spec_levels(BookSide::Bid), BookSide::Bid, min_qty) + large_levels(
            depth.spec_levels(BookSide::Ask),
            BookSide::Ask,
            min_qty,
        ),
{
    let mut out: Vec<LargeRestingOrder> = Vec::new();
    collect_large(depth.levels(BookSide::Bid), BookSide::Bid, min_qty, &mut out);
    collect_large(depth.levels(BookSide::Ask), BookSide::Ask, min_qty, &mut out);
    proof {
        assert(out@ == Seq::<LargeRestingOrder>::empty() + large_levels(
            depth.spec_levels(BookSide::Bid),
            BookSide::Bid,
            min_qty,
        ) + large_levels(depth.spec_levels(BookSide::Ask), BookSide::Ask, min_qty));
    }
    out
}

/// Thresholds for a collapse of volume speed.
#[derive(Debug, Clone, Copy, PartialEq, Eq, Structural)]
pub struct ExhaustionConfig {
    /// Smallest volume rate of the earlier snapshot, in quantity units per second.
    pub min_previous_volume_rate: u64,
    /// The later / earlier volume-rate ratio must be at most this, in parts
    /// per million.
    pub max_remaining_ratio_ppm: u32,
}

impl ExhaustionConfig {
    pub fn default_config() -> (r: Self)
        ensures
            r.min_previous_volume_rate == 0,
            r.max_remaining_ratio_ppm == 350_000,
    {
        ExhaustionConfig { min_previous_volume_rate: 0, max_remaining_ratio_ppm: 350_000 }
    }
}

impl Default for ExhaustionConfig {
    fn default() -> (r: Self)
        ensures
            r.min_previous_volume_rate == 0,
            r.max_remaining_ratio_ppm == 350_000,
    {
        ExhaustionConfig::default_config()
    }
}

/// Volume speed collapsed after an active window; the side that was
/// pressing is read from the earlier window's delta.
#[derive(Debug, Clone, Copy, PartialEq, Eq, Structural)]
pub struct ExhaustionSignal {
    /// Quantity units per second, rounded down.
    pub previous_volume_rate: u128,
    /// Quantity units per second, rounded down.
    pub current_volume_rate: u128,
    pub previous_side: Option<AggressiveSide>,
    /// Later / earlier volume rate in parts per million, rounded down.
    pub remaining_ratio_ppm: u32,
}

/// The side with more volume in the snapshot's current window, if any.
pub open spec fn pressing_side(s: TradeSpeedSnapshot) -> Option<AggressiveSide> {
    if s.current.buy_volume > s.current.sell_volume {
        Some(AggressiveSide::Buy)
    } else if s.current.sell_volume > s.current.buy_volume {
        Some(AggressiveSide::Sell)
    } else {
        None
    }
}

/// No signal unless the earlier rate is positive and reaches the minimum
/// and the later rate fell to at most the allowed share of it.
pub open spec fn exhaustion_of(
    previous: TradeSpeedSnapshot,
    current: TradeSpeedSnapshot,
    config: ExhaustionConfig,
) -> Option<ExhaustionSignal> {
    let p = previous.spec_volume_rate();
    let c = current.spec_volume_rate();
    if p < config.min_previous_volume_rate || p == 0 {
        None
    } else if c * (RATIO_SCALE as int) > (config.max_remaining_ratio_ppm as int) * p {
        None
    } else {
        Some(
            ExhaustionSignal {
                previous_volume_rate: p as u128,
                current_volume_rate: c as u128,
                previous_side: pressing_side(previous),
                remaining_ratio_ppm: (c * (RATIO_SCALE as int) / p) as u32,
            },
        )
    }
}

/// Compare the volume speed of two snapshots for a collapse.
pub fn detect_exhaustion(
    previous: TradeSpeedSnapshot,
    current: TradeSpeedSnapshot,
    config: ExhaustionConfig,
) -> (r: Option<ExhaustionSignal>)
    ensures
        r == exhaustion_of(previous, current, config),
{
    let p = previous.volume_rate();
    let c = current.volume_rate();
    if p < config.min_previous_volume_rate as u128 || p == 0 {
        return None;
    }
    assert(c <= 2 * (u64::MAX as int) * 1000) by (nonlinear_arith)
        requires
            c == current.spec_volume_rate(),
    {
        let w: int = if current.window_ms == 0 { 1 } else { current.window_ms as int };
        assert((current.current.buy_volume + current.current.sell_volume) * 1000 / w
            <= (current.current.buy_volume + current.current.sell_volume) * 1000);
    }
    assert(p <= 2 * (u64::MAX as int) * 1000) by (nonlinear_arith)
        requires
            p == previous.spec_volume_rate(),
    {
        let w: int = if previous.window_ms == 0 { 1 } else { previous.window_ms as int };
        assert((previous.current.buy_volume + previous.current.sell_volume) * 1000 / w
            <= (previous.current.buy_volume + previous.current.sell_volume) * 1000);
    }
    let scaled: u128 = c * RATIO_SCALE as u128;
    let max_ppm: u128 = config.max_remaining_ratio_ppm as u128;
    assert(max_ppm * p <= (u32::MAX as int) * (2 * (u64::MAX as int) * 1000)) by (nonlinear_arith)
        requires
            max_ppm <= u32::MAX,
            p <= 2 * (u64::MAX as int) * 1000,
    ;
    if scaled > max_ppm * p {
        return None;
    }
    let ratio: u128 = scaled / p;
    assert(ratio <= max_ppm) by (nonlinear_arith)
        requires
            ratio == scaled / p,
            scaled <= max_ppm * p,
            p > 0,
    ;
    let side = if previous.current.buy_volume > previous.current.sell_volume {
        Some(AggressiveSide::Buy)
    } else if previous.current.sell_volume > previous.current.buy_volume {
        Some(AggressiveSide::Sell)
    } else {
        None
    };
    Some(
        ExhaustionSignal {
            previous_volume_rate: p,
            current_volume_rate: c,
            previous_side: side,
            remaining_ratio_ppm: ratio as u32,
        },
    )
}

impl Default for AbsorptionConfig {
    fn default() -> (r: Self)
        ensures
            r.min_aggressive_qty.units == 0,
            r.max_price_move_ticks == 1,
    {
        AbsorptionConfig::default_config()
    }
}

impl Default for StopRunConfig {
    fn default() -> (r: Self)
        ensures
            r.min_swept_levels == 2,
            r.min_sweep_qty.units == 0,
            r.min_reversal_ticks == 2,
            r.max_reversal_ms == 2_000,
    {
        StopRunConfig::default_config()
    }
}

} // verus!
