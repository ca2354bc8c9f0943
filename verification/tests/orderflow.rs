use flowsurface_data::depth::Depth;
use flowsurface_data::orderflow::advanced::{
    AbsorptionConfig, AggressiveSide, ExhaustionConfig, LiquidityChangeKind, StopRunConfig,
    StopRunObservation, detect_absorption, detect_exhaustion, detect_large_resting_orders,
    detect_large_trade, detect_liquidity_changes, detect_stop_run, directional_ticks,
};
use flowsurface_data::orderflow::book_consumption::{BookConsumptionDetector, ConsumptionConfig};
use flowsurface_data::orderflow::book_flow::BookFlowEngine;
use flowsurface_data::orderflow::mbo::{IcebergConfig, MboAction, MboBook, MboEvent, MboSide};
use flowsurface_data::orderflow::speed::{
    BookConsumptionEvent, BookSide, BookSpeedEngine, SpeedConfig, TradeSpeedEngine,
    TradeSpeedSnapshot, TradeWindowStats,
};
use flowsurface_data::orderflow::window::SpeedWindow;
use flowsurface_data::trade_speed_indicator::{IndicatorAvailability, TradeSpeedIndicator};
use flowsurface_data::unit::{Price, PriceStep, Qty, Trade, UnixMs};

fn p(value: f64) -> Price {
    Price::from_units((value * 1e8).round() as i64)
}

fn q(value: f64) -> Qty {
    Qty::from_units((value * 1e8).round() as u64)
}

fn step(value: f64) -> PriceStep {
    PriceStep { units: p(value).units }
}

fn trade(ms: u64, is_sell: bool, price: f64, qty: f64) -> Trade {
    Trade { time: UnixMs::new(ms), is_sell, price: p(price), qty: q(qty) }
}

fn depth(bids: &[(f64, f64)], asks: &[(f64, f64)]) -> Depth {
    let mut depth = Depth::default();
    for &(px, size) in bids {
        depth.insert(BookSide::Bid, p(px), q(size));
    }
    for &(px, size) in asks {
        depth.insert(BookSide::Ask, p(px), q(size));
    }
    depth
}

/// Count per second over a window.
fn per_sec(count: u64, window_ms: u64) -> f64 {
    count as f64 * 1000.0 / window_ms as f64
}

/// Quantity units per second over a window, in whole quantity.
fn qty_per_sec(units: u64, window_ms: u64) -> f64 {
    units as f64 / 1e8 * 1000.0 / window_ms as f64
}

// ---- trade and book speed ----

#[test]
fn trade_speed_reports_directional_rates() {
    let mut engine = TradeSpeedEngine::new(SpeedConfig::new(1_000));
    engine.push_trade(&trade(100, false, 100.0, 2.0));
    engine.push_trade(&trade(500, false, 100.0, 0.5));
    engine.push_trade(&trade(900, true, 100.0, 1.0));
    let s = engine.snapshot_at(UnixMs::new(1_000));
    let w = s.window_ms;
    assert_eq!(per_sec(s.current.trade_count, w), 3.0);
    assert_eq!(per_sec(s.current.buy_trade_count, w), 2.0);
    assert_eq!(per_sec(s.current.sell_trade_count, w), 1.0);
    assert!((qty_per_sec(s.current.total_volume(), w) - 3.5).abs() < 1e-12);
    assert!((qty_per_sec(s.current.buy_volume, w) - 2.5).abs() < 1e-12);
    assert!((qty_per_sec(s.current.sell_volume, w) - 1.0).abs() < 1e-12);
    let delta = qty_per_sec(s.current.buy_volume, w) - qty_per_sec(s.current.sell_volume, w);
    assert!((delta - 1.5).abs() < 1e-12);
}

#[test]
fn trade_speed_compares_with_previous_window() {
    let mut engine = TradeSpeedEngine::new(SpeedConfig::new(1_000));
    engine.push_trade(&trade(500, false, 100.0, 1.0));
    engine.push_trade(&trade(1_200, false, 100.0, 1.0));
    engine.push_trade(&trade(1_500, false, 100.0, 1.0));
    engine.push_trade(&trade(1_800, true, 100.0, 1.0));
    let s = engine.snapshot_at(UnixMs::new(2_000));
    let w = s.window_ms;
    let rate = per_sec(s.current.trade_count, w);
    let previous_rate = per_sec(s.previous.trade_count, w);
    assert_eq!(rate, 3.0);
    assert_eq!((rate - previous_rate) / (w as f64 / 1000.0), 2.0);
    assert_eq!((rate - previous_rate) / previous_rate * 100.0, 200.0);
}

#[test]
fn book_speed_tracks_consumed_levels() {
    let mut engine = BookSpeedEngine::new(SpeedConfig::new(1_000));
    engine.push(BookConsumptionEvent {
        time: UnixMs::new(200),
        side: BookSide::Ask,
        levels: 3,
        qty: q(10.0),
    });
    engine.push(BookConsumptionEvent {
        time: UnixMs::new(700),
        side: BookSide::Bid,
        levels: 2,
        qty: q(4.0),
    });
    let s = engine.snapshot_at(UnixMs::new(1_000));
    assert_eq!(per_sec(s.current.ask_levels, s.window_ms), 3.0);
    assert_eq!(per_sec(s.current.bid_levels, s.window_ms), 2.0);
}

#[test]
fn trade_older_than_retention_is_rejected() {
    let mut engine = TradeSpeedEngine::new(SpeedConfig::new(1_000));
    assert!(engine.push_trade(&trade(5_000, false, 100.0, 1.0)));
    // Retention is two windows behind the newest trade.
    assert!(!engine.push_trade(&trade(2_999, false, 100.0, 1.0)));
    assert!(engine.push_trade(&trade(3_000, true, 100.0, 1.0)));
    assert_eq!(engine.len(), 2);
    let s = engine.snapshot().unwrap();
    assert_eq!(s.timestamp, UnixMs::new(5_000));
    assert!(s.buy_dominant());
    assert!(!s.sell_dominant());
}

#[test]
fn push_trades_counts_accepted_prints() {
    let mut engine = TradeSpeedEngine::default();
    let trades = [
        trade(10_000, false, 100.0, 1.0),
        trade(1_000, false, 100.0, 1.0),
        trade(9_500, true, 100.0, 1.0),
    ];
    assert_eq!(engine.push_trades(&trades), 2);
    engine.clear();
    assert!(engine.is_empty());
    assert!(engine.snapshot().is_none());
}

#[test]
fn speed_config_never_has_a_zero_window() {
    assert_eq!(SpeedConfig::new(0).window_ms, 1);
    assert_eq!(SpeedConfig::new(1_000).retained_ms(), 2_000);
    assert_eq!(SpeedConfig::new(u64::MAX).retained_ms(), u64::MAX);
    assert_eq!(SpeedConfig::default().window_ms, 1_000);
}

// ---- windows ----

#[test]
fn all_windows_are_strictly_increasing() {
    let values: Vec<u64> = SpeedWindow::all().into_iter().map(SpeedWindow::millis).collect();
    assert_eq!(values, vec![250, 500, 1_000, 2_000, 5_000, 10_000]);
    assert!(values.windows(2).all(|pair| pair[0] < pair[1]));
}

#[test]
fn config_conversion_preserves_window() {
    for window in SpeedWindow::all() {
        let config: SpeedConfig = window.into();
        assert_eq!(config.window_ms, window.millis());
    }
}

#[test]
fn window_labels_and_default() {
    assert_eq!(SpeedWindow::default(), SpeedWindow::S1);
    assert_eq!(SpeedWindow::Ms250.label(), "250ms");
    assert_eq!(SpeedWindow::S10.label(), "10s");
    assert_eq!(SpeedWindow::S2.to_config().window_ms, 2_000);
}

// ---- book consumption ----

#[test]
fn cancellation_without_trade_is_not_consumption() {
    let mut detector = BookConsumptionDetector::default();
    let before = depth(&[(99.0, 10.0)], &[(101.0, 10.0)]);
    let after = depth(&[(99.0, 5.0)], &[(101.0, 4.0)]);

    assert!(detector.process_depth(UnixMs::new(1_000), &before).is_empty());
    assert!(detector.process_depth(UnixMs::new(1_100), &after).is_empty());
}

#[test]
fn aggressive_buy_confirms_ask_consumption() {
    let mut detector = BookConsumptionDetector::default();
    let before = depth(&[], &[(101.0, 10.0)]);
    let after = depth(&[], &[(101.0, 4.0)]);

    detector.process_depth(UnixMs::new(1_000), &before);
    detector.record_trades(&[trade(1_050, false, 101.0, 6.0)]);
    let events = detector.process_depth(UnixMs::new(1_100), &after);

    assert_eq!(events.len(), 1);
    assert_eq!(events[0].side, BookSide::Ask);
    assert_eq!(events[0].levels, 0);
    assert_eq!(events[0].qty, q(6.0));
}

#[test]
fn aggressive_sell_confirms_bid_level_consumed() {
    let mut detector = BookConsumptionDetector::default();
    let before = depth(&[(99.0, 3.0)], &[]);
    let after = depth(&[], &[]);

    detector.process_depth(UnixMs::new(2_000), &before);
    detector.record_trades(&[trade(2_050, true, 99.0, 3.0)]);
    let events = detector.process_depth(UnixMs::new(2_100), &after);

    assert_eq!(events.len(), 1);
    assert_eq!(events[0].side, BookSide::Bid);
    assert_eq!(events[0].levels, 1);
    assert_eq!(events[0].qty, q(3.0));
}

#[test]
fn wrong_aggressor_side_does_not_confirm_reduction() {
    let mut detector = BookConsumptionDetector::default();
    let before = depth(&[], &[(101.0, 5.0)]);
    let after = depth(&[], &[(101.0, 1.0)]);

    detector.process_depth(UnixMs::new(3_000), &before);
    detector.record_trades(&[trade(3_050, true, 101.0, 5.0)]);
    assert!(detector.process_depth(UnixMs::new(3_100), &after).is_empty());
}

#[test]
fn matched_trade_volume_cannot_be_reused() {
    let mut detector = BookConsumptionDetector::new(ConsumptionConfig::new(1_000, 500_000));
    let first = depth(&[], &[(101.0, 10.0)]);
    let second = depth(&[], &[(101.0, 6.0)]);
    let third = depth(&[], &[(101.0, 2.0)]);

    detector.process_depth(UnixMs::new(4_000), &first);
    detector.record_trades(&[trade(4_050, false, 101.0, 4.0)]);

    let first_events = detector.process_depth(UnixMs::new(4_100), &second);
    assert_eq!(first_events.len(), 1);

    // The same four units were consumed by the first match and cannot
    // explain the next four-unit depth reduction.
    let second_events = detector.process_depth(UnixMs::new(4_200), &third);
    assert!(second_events.is_empty());
}

#[test]
fn insufficient_trade_match_is_rejected() {
    let mut detector = BookConsumptionDetector::new(ConsumptionConfig::new(1_000, 750_000));
    let before = depth(&[], &[(101.0, 10.0)]);
    let after = depth(&[], &[(101.0, 2.0)]); // removed 8

    detector.process_depth(UnixMs::new(5_000), &before);
    detector.record_trades(&[trade(5_050, false, 101.0, 4.0)]); // only 50%
    assert!(detector.process_depth(UnixMs::new(5_100), &after).is_empty());
}

#[test]
fn trades_outside_the_match_window_do_not_confirm() {
    let mut detector = BookConsumptionDetector::new(ConsumptionConfig::new(100, 500_000));
    detector.process_depth(UnixMs::new(6_000), &depth(&[], &[(101.0, 10.0)]));
    detector.record_trades(&[trade(6_000, false, 101.0, 6.0)]);
    assert!(detector.process_depth(UnixMs::new(6_500), &depth(&[], &[(101.0, 4.0)])).is_empty());
}

#[test]
fn consumption_config_is_clamped() {
    let c = ConsumptionConfig::new(0, 2_000_000);
    assert_eq!(c.match_window_ms, 1);
    assert_eq!(c.min_trade_match_ppm, 1_000_000);
    let d = ConsumptionConfig::default();
    assert_eq!((d.match_window_ms, d.min_trade_match_ppm), (750, 500_000));
}

// ---- book flow ----

fn ask_depth(ask_qty: f64) -> Depth {
    let mut depth = Depth::default();
    if ask_qty > 0.0 {
        depth.insert(BookSide::Ask, p(101.0), q(ask_qty));
    }
    depth
}

fn buy_trade(ms: u64, qty: f64) -> Trade {
    trade(ms, false, 101.0, qty)
}

#[test]
fn confirmed_consumption_immediately_updates_book_speed() {
    let mut flow = BookFlowEngine::new(ConsumptionConfig::new(1_000, 500_000), SpeedConfig::new(1_000));

    flow.on_depth(UnixMs::new(1_000), &ask_depth(5.0));
    flow.record_trades(&[buy_trade(1_050, 5.0)]);
    let update = flow.on_depth(UnixMs::new(1_100), &ask_depth(0.0));

    assert_eq!(update.events.len(), 1);
    assert_eq!(update.events[0].side, BookSide::Ask);
    assert_eq!(update.events[0].levels, 1);

    let speed = update.speed.expect("speed snapshot");
    assert_eq!(per_sec(speed.current.ask_levels, speed.window_ms), 1.0);
    assert_eq!(qty_per_sec(speed.current.ask_qty, speed.window_ms), 5.0);
    assert_eq!(per_sec(speed.current.bid_levels, speed.window_ms), 0.0);
}

#[test]
fn cancellation_produces_no_speed_pressure() {
    let mut flow = BookFlowEngine::default();
    flow.on_depth(UnixMs::new(2_000), &ask_depth(5.0));
    let update = flow.on_depth(UnixMs::new(2_100), &ask_depth(0.0));

    assert!(update.events.is_empty());
    assert!(update.speed.is_none());
}

// ---- market by order ----

fn mbo(t: u64, id: u64, action: MboAction, side: MboSide, price: f64, qty: f64) -> MboEvent {
    MboEvent { time: UnixMs::new(t), order_id: id, side, price: p(price), qty: q(qty), action }
}

#[test]
fn queue_ahead_respects_order_arrival_sequence() {
    let mut book = MboBook::default();
    book.apply(mbo(1, 10, MboAction::Add, MboSide::Bid, 100.0, 5.0));
    book.apply(mbo(2, 11, MboAction::Add, MboSide::Bid, 100.0, 3.0));

    assert_eq!(book.queue_ahead_qty(10), Some(Qty::zero()));
    assert_eq!(book.queue_ahead_qty(11), Some(q(5.0)));
}

#[test]
fn fill_reduces_displayed_quantity_and_accumulates_execution() {
    let mut book = MboBook::default();
    book.apply(mbo(1, 10, MboAction::Add, MboSide::Ask, 101.0, 10.0));
    book.apply(mbo(2, 10, MboAction::Fill, MboSide::Ask, 101.0, 4.0));

    let order = book.get(10).unwrap();
    assert_eq!(order.remaining, q(6.0));
    assert_eq!(order.total_filled, q(4.0));
}

#[test]
fn repeated_reload_becomes_iceberg_candidate() {
    let mut book = MboBook::default();
    book.apply(mbo(1, 42, MboAction::Add, MboSide::Ask, 101.0, 5.0));

    book.apply(mbo(2, 42, MboAction::Fill, MboSide::Ask, 101.0, 5.0));
    book.apply(mbo(3, 42, MboAction::Add, MboSide::Ask, 101.0, 5.0));
    book.apply(mbo(4, 42, MboAction::Fill, MboSide::Ask, 101.0, 5.0));
    book.apply(mbo(5, 42, MboAction::Modify, MboSide::Ask, 101.0, 5.0));

    let candidates =
        book.iceberg_candidates(IcebergConfig { min_refresh_count: 2, min_total_filled: q(10.0) });

    assert_eq!(candidates.len(), 1);
    assert_eq!(candidates[0].order_id, 42);
    assert_eq!(candidates[0].refresh_count, 2);
    assert_eq!(candidates[0].total_filled, q(10.0));
}

#[test]
fn cancel_removes_order_from_queue() {
    let mut book = MboBook::default();
    book.apply(mbo(1, 10, MboAction::Add, MboSide::Bid, 100.0, 5.0));
    book.apply(mbo(2, 10, MboAction::Cancel, MboSide::Bid, 100.0, 0.0));
    assert!(book.get(10).is_none());
}

#[test]
fn level_quantity_and_unordered_batches() {
    let mut book = MboBook::new();
    // Out of order on purpose: the batch is applied chronologically.
    book.apply_many(&[
        mbo(3, 7, MboAction::Fill, MboSide::Bid, 100.0, 1.0),
        mbo(1, 7, MboAction::Add, MboSide::Bid, 100.0, 4.0),
        mbo(2, 8, MboAction::Add, MboSide::Bid, 100.0, 2.0),
    ]);
    assert_eq!(book.len(), 2);
    assert_eq!(book.level_qty(MboSide::Bid, p(100.0)), q(5.0));
    assert_eq!(book.level_qty(MboSide::Ask, p(100.0)), Qty::zero());
    assert_eq!(book.queue_ahead_qty(8), Some(q(3.0)));
    assert_eq!(book.queue_ahead_qty(9), None);
    book.clear();
    assert!(book.is_empty());
}

// ---- advanced signals ----

#[test]
fn large_trade_threshold_is_deterministic() {
    assert!(detect_large_trade(&trade(1, false, 100.0, 10.0), q(10.0)).is_some());
    assert!(detect_large_trade(&trade(1, false, 100.0, 9.9), q(10.0)).is_none());
}

#[test]
fn large_trade_reports_the_aggressor() {
    let s = detect_large_trade(&trade(7, true, 100.0, 12.0), q(10.0)).unwrap();
    assert_eq!(s.side, AggressiveSide::Sell);
    assert_eq!(s.time, UnixMs::new(7));
    assert_eq!(s.qty, q(12.0));
}

#[test]
fn confirmed_execution_is_not_mislabeled_as_pull() {
    let before = depth(&[], &[(101.0, 10.0)]);
    let after = depth(&[], &[(101.0, 2.0)]);
    let consumed = vec![p(101.0)];
    let signals =
        detect_liquidity_changes(&before, &after, BookSide::Ask, 500_000, q(1.0), &consumed);
    assert!(signals.is_empty());
}

#[test]
fn material_new_liquidity_is_stack() {
    let before = Depth::default();
    let after = depth(&[(99.0, 10.0)], &[]);

    let signals = detect_liquidity_changes(&before, &after, BookSide::Bid, 500_000, q(5.0), &Vec::new());
    assert_eq!(signals.len(), 1);
    assert_eq!(signals[0].kind, LiquidityChangeKind::Stack);
}

#[test]
fn unconfirmed_reduction_is_a_pull_candidate() {
    let before = depth(&[], &[(101.0, 10.0), (102.0, 10.0)]);
    let after = depth(&[], &[(101.0, 2.0), (102.0, 9.0)]);
    let signals = detect_liquidity_changes(&before, &after, BookSide::Ask, 500_000, q(1.0), &Vec::new());
    assert_eq!(signals.len(), 1);
    assert_eq!(signals[0].kind, LiquidityChangeKind::PullCandidate);
    assert_eq!(signals[0].price, p(101.0));
    assert_eq!(signals[0].change_ratio_ppm, 800_000);
}

#[test]
fn stack_ratio_is_measured_against_the_previous_quantity() {
    let before = depth(&[(99.0, 1.0), (98.0, 4.0)], &[]);
    let after = depth(&[(99.0, 2.0), (98.0, 10.0), (97.0, 3.0)], &[]);
    let signals = detect_liquidity_changes(&before, &after, BookSide::Bid, 500_000, q(1.0), &Vec::new());
    assert_eq!(signals.len(), 3);
    // 97: new liquidity counts as a full change.
    assert_eq!(signals[0].price, p(97.0));
    assert_eq!(signals[0].change_ratio_ppm, 1_000_000);
    // 98: from 4 to 10 is 150% of what was shown before.
    assert_eq!(signals[1].price, p(98.0));
    assert_eq!(signals[1].change_ratio_ppm, 1_500_000);
    // 99: one lot to two doubles the level.
    assert_eq!(signals[2].price, p(99.0));
    assert_eq!(signals[2].kind, LiquidityChangeKind::Stack);
    assert_eq!(signals[2].change_ratio_ppm, 1_000_000);
}

#[test]
fn heavy_buying_without_upward_progress_flags_ask_absorption() {
    let trades = [trade(1, false, 100.0, 6.0), trade(2, false, 100.0, 5.0)];
    let signals = detect_absorption(
        &trades,
        p(100.0),
        p(100.5),
        step(0.5),
        AbsorptionConfig { min_aggressive_qty: q(10.0), max_price_move_ticks: 1 },
    );

    assert!(signals.iter().any(|signal| {
        signal.aggressive_side == AggressiveSide::Buy && signal.resting_side == BookSide::Ask
    }));
}

#[test]
fn absorption_needs_trades_and_a_tick_size() {
    let trades = [trade(1, true, 100.0, 20.0)];
    assert!(detect_absorption(&[], p(100.0), p(100.0), step(0.5), AbsorptionConfig::default()).is_empty());
    assert!(detect_absorption(&trades, p(100.0), p(100.0), step(0.0), AbsorptionConfig::default()).is_empty());
    let signals = detect_absorption(&trades, p(100.0), p(99.0), step(0.5), AbsorptionConfig::default());
    // Two ticks of downward movement exceed the one allowed by default, so
    // the selling was not absorbed; the (empty) buying passes the zero
    // threshold without upward movement.
    assert_eq!(signals.len(), 1);
    assert_eq!(signals[0].aggressive_side, AggressiveSide::Buy);
    assert_eq!(signals[0].aggressive_qty, Qty::zero());
    assert_eq!(directional_ticks(p(100.0), p(99.0), step(0.5), false), 2);
    assert_eq!(directional_ticks(p(100.0), p(99.0), step(0.5), true), 0);
}

#[test]
fn multi_level_sweep_with_fast_reversal_flags_stop_run() {
    let signal = detect_stop_run(
        StopRunObservation {
            swept_side: BookSide::Ask,
            swept_levels: 4,
            sweep_qty: q(20.0),
            extreme_price: p(102.0),
            post_price: p(100.5),
            reversal_elapsed_ms: 500,
        },
        step(0.5),
        StopRunConfig {
            min_swept_levels: 3,
            min_sweep_qty: q(10.0),
            min_reversal_ticks: 2,
            max_reversal_ms: 1_000,
        },
    )
    .expect("stop run");

    assert_eq!(signal.reversal_ticks, 3);
}

#[test]
fn slow_reversal_is_not_a_stop_run() {
    let observation = StopRunObservation {
        swept_side: BookSide::Bid,
        swept_levels: 4,
        sweep_qty: q(20.0),
        extreme_price: p(98.0),
        post_price: p(100.0),
        reversal_elapsed_ms: 5_000,
    };
    assert!(detect_stop_run(observation, step(0.5), StopRunConfig::default()).is_none());
}

#[test]
fn large_resting_orders_scan_both_sides() {
    let d = depth(&[(99.0, 12.0)], &[(101.0, 15.0), (102.0, 2.0)]);
    let signals = detect_large_resting_orders(&d, q(10.0));
    assert_eq!(signals.len(), 2);
}

// ---- trade speed indicator ----

#[test]
fn indicator_plots_one_snapshot_per_bar() {
    let mut indicator = TradeSpeedIndicator::default();
    indicator.seed_trades(
        &[trade(1_900, false, 100.0, 1.0), trade(1_100, true, 100.0, 2.0), trade(2_500, false, 100.0, 3.0)],
        Some(1_000),
    );
    assert_eq!(indicator.availability(), IndicatorAvailability::Available);
    let buckets: Vec<u64> = indicator.data().keys().copied().collect();
    assert_eq!(buckets, vec![1_000, 2_000]);
    // The 1s bar shows the snapshot after its last (chronologically) trade.
    let first = indicator.data()[&1_000];
    assert_eq!(first.timestamp, UnixMs::new(1_900));
    assert_eq!(first.current.trade_count, 2);
}

#[test]
fn indicator_needs_time_bars() {
    let mut indicator = TradeSpeedIndicator::new();
    indicator.on_insert_trades(&[trade(1_000, false, 100.0, 1.0)]);
    assert!(indicator.data().is_empty());
    assert_eq!(indicator.availability(), IndicatorAvailability::Unknown);
    indicator.rebuild_from_source(None);
    indicator.on_insert_trades(&[trade(1_000, false, 100.0, 1.0)]);
    assert!(indicator.data().is_empty());
    indicator.on_basis_change(Some(500));
    indicator.on_insert_trades(&[trade(1_200, false, 100.0, 1.0)]);
    assert_eq!(indicator.data().keys().copied().collect::<Vec<u64>>(), vec![1_000]);
    assert_eq!(indicator.engine().len(), 1);
}

fn window_stats(buy: f64, sell: f64) -> TradeWindowStats {
    TradeWindowStats {
        trade_count: 0,
        buy_trade_count: 0,
        sell_trade_count: 0,
        buy_volume: q(buy).units,
        sell_volume: q(sell).units,
    }
}

/// A one-second snapshot whose current window traded `buy` and `sell`.
fn speed_snapshot(buy: f64, sell: f64) -> TradeSpeedSnapshot {
    TradeSpeedSnapshot {
        timestamp: UnixMs::new(0),
        window_ms: 1_000,
        current: window_stats(buy, sell),
        previous: window_stats(0.0, 0.0),
    }
}

#[test]
fn speed_collapse_flags_exhaustion() {
    // 100 per second with a delta of +30, then 20 per second.
    let previous = speed_snapshot(65.0, 35.0);
    let current = speed_snapshot(10.0, 10.0);

    let signal = detect_exhaustion(
        previous,
        current,
        ExhaustionConfig { min_previous_volume_rate: q(50.0).units, max_remaining_ratio_ppm: 300_000 },
    )
    .expect("exhaustion");

    assert_eq!(signal.previous_side, Some(AggressiveSide::Buy));
    assert_eq!(signal.remaining_ratio_ppm, 200_000);
}

#[test]
fn exhaustion_needs_an_active_previous_window_and_a_real_collapse() {
    let config = ExhaustionConfig { min_previous_volume_rate: q(50.0).units, max_remaining_ratio_ppm: 300_000 };
    // The earlier window was too quiet.
    assert!(detect_exhaustion(speed_snapshot(20.0, 20.0), speed_snapshot(1.0, 0.0), config).is_none());
    // The later window kept 40% of the speed.
    assert!(detect_exhaustion(speed_snapshot(50.0, 50.0), speed_snapshot(20.0, 20.0), config).is_none());
    // Nothing traded before: never a collapse.
    assert!(detect_exhaustion(speed_snapshot(0.0, 0.0), speed_snapshot(0.0, 0.0), ExhaustionConfig::default()).is_none());
    // Exactly at the allowed share, with a balanced earlier window.
    let signal = detect_exhaustion(speed_snapshot(50.0, 50.0), speed_snapshot(15.0, 15.0), config).unwrap();
    assert_eq!(signal.previous_side, None);
    assert_eq!(signal.remaining_ratio_ppm, 300_000);
    assert_eq!(signal.previous_volume_rate, q(100.0).units as u128);
    assert_eq!(signal.current_volume_rate, q(30.0).units as u128);
    // A selling earlier window over two seconds.
    let mut earlier = speed_snapshot(10.0, 190.0);
    earlier.window_ms = 2_000;
    let signal = detect_exhaustion(earlier, speed_snapshot(5.0, 5.0), config).unwrap();
    assert_eq!(signal.previous_side, Some(AggressiveSide::Sell));
    assert_eq!(signal.remaining_ratio_ppm, 100_000);
}
