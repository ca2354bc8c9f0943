use flowsurface_data::market::{
    AggressorSide, AssetClass, BookSide as MarketBookSide, DepthEventKind, InstrumentId,
    MarketAdapterError, MarketCapabilities, MarketDataAdapter, MarketVenue, NormalizedBookLevel,
    NormalizedDepthEvent, NormalizedMarketEvent, NormalizedTrade, QueueMarketAdapter,
};
use flowsurface_data::market_gateway::{
    GatewayError, GatewayFrame, GatewayLine, MARKET_GATEWAY_SCHEMA_VERSION, check_frame,
    classify_line,
};
use flowsurface_data::text::{is_blank_line, trimmed};
use flowsurface_data::orderflow::book_consumption::ConsumptionConfig;
use flowsurface_data::orderflow::mbo::{IcebergConfig, MboAction, MboEvent, MboSide};
use flowsurface_data::orderflow::speed::BookSide;
use flowsurface_data::orderflow::pipeline::{
    OrderFlowPipeline, OrderFlowPipelineConfig, OrderFlowPipelineError,
};
use flowsurface_data::replay::{ReplayArchive, ReplayClock, ReplayEngine, ReplayEvent, ReplayRecorder};
use flowsurface_data::replay_session::{ReplaySession, ReplayState};
use flowsurface_data::unit::{Price, Qty, UnixMs};

fn p(value: f64) -> Price {
    Price::from_units((value * 1e8).round() as i64)
}

fn q(value: f64) -> Qty {
    Qty::from_units((value * 1e8).round() as u64)
}

fn per_sec(count: u64, window_ms: u64) -> f64 {
    count as f64 * 1000.0 / window_ms as f64
}

fn qty_per_sec(units: u64, window_ms: u64) -> f64 {
    units as f64 / 1e8 * 1000.0 / window_ms as f64
}

// ---- market model ----

fn market_trade(sequence: Option<u64>, aggressor: AggressorSide) -> NormalizedMarketEvent {
    NormalizedMarketEvent::Trade(NormalizedTrade {
        instrument: InstrumentId::taifex_future("TXF"),
        time: UnixMs::new(1_000),
        price: p(20_000.0),
        qty: q(2.0),
        aggressor,
        sequence,
    })
}

#[test]
fn taifex_future_has_correct_asset_class() {
    let id = InstrumentId::taifex_future("TXF");
    assert_eq!(id.venue, MarketVenue::Taifex);
    assert_eq!(id.asset_class, AssetClass::Futures);
}

#[test]
fn known_aggressor_converts_to_existing_trade_model() {
    let NormalizedMarketEvent::Trade(event) = market_trade(None, AggressorSide::Buy) else {
        unreachable!();
    };
    let converted = event.to_flowsurface_trade().expect("known aggressor");
    assert!(!converted.is_sell);
    assert_eq!(converted.qty, q(2.0));
}

#[test]
fn unknown_aggressor_is_not_silently_guessed() {
    let NormalizedMarketEvent::Trade(event) = market_trade(None, AggressorSide::Unknown) else {
        unreachable!();
    };
    assert!(event.to_flowsurface_trade().is_none());
}

#[test]
fn queue_adapter_drains_events_in_order() {
    let mut adapter = QueueMarketAdapter::taiwan_futures_gateway("test");
    adapter.push(market_trade(None, AggressorSide::Buy)).unwrap();
    adapter.push(market_trade(None, AggressorSide::Sell)).unwrap();

    assert_eq!(adapter.queued_len(), 2);
    let drained = adapter.drain_events().unwrap();
    assert_eq!(drained.len(), 2);
    assert_eq!(adapter.queued_len(), 0);
}

#[test]
fn sequence_gap_is_detected_before_event_is_queued() {
    let mut adapter = QueueMarketAdapter::taiwan_futures_gateway("test");
    adapter.set_sequence_enforcement(true);
    adapter.push(market_trade(Some(10), AggressorSide::Buy)).unwrap();

    let err = adapter.push(market_trade(Some(12), AggressorSide::Buy)).expect_err("gap should fail");

    assert_eq!(err, MarketAdapterError::SequenceGap { expected: 11, received: 12 });
    assert_eq!(adapter.queued_len(), 1);
}

#[test]
fn drained_events_keep_arrival_order() {
    let mut adapter = QueueMarketAdapter::taiwan_stock_gateway("bridge");
    adapter.set_sequence_enforcement(true);
    adapter.push(market_trade(Some(1), AggressorSide::Sell)).unwrap();
    adapter.push(market_trade(None, AggressorSide::Buy)).unwrap();
    adapter.push(market_trade(Some(2), AggressorSide::Buy)).unwrap();
    let drained = adapter.drain_queued();
    let sequences: Vec<Option<u64>> = drained.iter().map(|e| e.sequence()).collect();
    assert_eq!(sequences, vec![Some(1), None, Some(2)]);
    assert_eq!(adapter.adapter_name(), "bridge");
    assert_eq!(adapter.adapter_venue(), &MarketVenue::Twse);
}

#[test]
fn capabilities_and_venue_names() {
    let c = MarketCapabilities::l2_orderflow();
    assert!(c.trades && c.l1 && c.l2 && !c.mbo);
    let none = MarketCapabilities::none();
    assert!(!none.trades && !none.l2);
    assert_eq!(MarketVenue::Taifex.name(), "TAIFEX");
    assert_eq!(MarketVenue::Crypto("Binance".to_owned()).name(), "Binance");
    assert_eq!(InstrumentId::twse("2330").asset_class, AssetClass::Stock);
    assert_eq!(InstrumentId::taifex_option("TXO").asset_class, AssetClass::Options);
}

// ---- gateway protocol ----

#[test]
fn current_schema_frame_is_accepted() {
    let frame = GatewayFrame::new(market_trade(Some(1), AggressorSide::Buy));
    assert_eq!(frame.version, MARKET_GATEWAY_SCHEMA_VERSION);
    assert_eq!(check_frame(frame).unwrap(), market_trade(Some(1), AggressorSide::Buy));
}

#[test]
fn newer_schema_frame_is_rejected() {
    let frame = GatewayFrame { version: MARKET_GATEWAY_SCHEMA_VERSION + 1, event: market_trade(None, AggressorSide::Buy) };
    assert!(matches!(
        check_frame(frame),
        Err(GatewayError::Version { expected: 1, received: 2 })
    ));
}

#[test]
fn gateway_lines_are_classified() {
    assert_eq!(classify_line(0, ""), GatewayLine::EndOfStream);
    assert_eq!(classify_line(1, "\n"), GatewayLine::Skip);
    assert_eq!(classify_line(4, " \t\r\n"), GatewayLine::Skip);
    assert_eq!(classify_line(3, "{}\n"), GatewayLine::Frame);
    assert!(is_blank_line(""));
    assert!(!is_blank_line(" x "));
    assert_eq!(trimmed("  a b \t\n"), "a b");
    assert_eq!(trimmed(" \n "), "");
    assert_eq!(trimmed("x"), "x");
}

// ---- replay ----

fn instrument() -> InstrumentId {
    InstrumentId::new(MarketVenue::Taifex, "TXF", AssetClass::Futures)
}

fn other_instrument() -> InstrumentId {
    InstrumentId::new(MarketVenue::Taifex, "MXF", AssetClass::Futures)
}

fn event(ms: u64) -> ReplayEvent {
    ReplayEvent::Market(NormalizedMarketEvent::Trade(NormalizedTrade {
        instrument: instrument(),
        time: UnixMs::new(ms),
        price: p(20_000.0),
        qty: q(1.0),
        aggressor: AggressorSide::Buy,
        sequence: None,
    }))
}

fn times(archive: &ReplayArchive) -> Vec<u64> {
    archive.events().iter().map(|e| e.time().as_u64()).collect()
}

#[test]
fn archive_sorts_events_chronologically() {
    let archive = ReplayArchive::new(vec![event(300), event(100), event(200)]);
    assert_eq!(times(&archive), vec![100, 200, 300]);
}

#[test]
fn seek_points_to_first_event_at_or_after_target() {
    let archive = ReplayArchive::new(vec![event(100), event(200), event(300)]);
    let mut replay = ReplayEngine::new(archive);
    replay.seek(UnixMs::new(200));
    assert_eq!(replay.next_event().unwrap().time(), UnixMs::new(200));
}

#[test]
fn drain_until_is_deterministic_and_non_repeating() {
    let archive = ReplayArchive::new(vec![event(100), event(200), event(300)]);
    let mut replay = ReplayEngine::new(archive);

    assert_eq!(replay.drain_until(UnixMs::new(200)).len(), 2);
    assert_eq!(replay.drain_until(UnixMs::new(200)).len(), 0);
    assert_eq!(replay.drain_until(UnixMs::new(500)).len(), 1);
    assert!(replay.is_finished());
}

#[test]
fn playback_rate_scales_market_clock() {
    let archive = ReplayArchive::new(vec![event(1_000), event(2_000), event(3_000)]);
    let mut replay = ReplayEngine::new(archive);
    replay.start(2_000);

    // At 2x speed, 500 ms of wall time advances market time by 1,000 ms.
    let ready = replay.advance(500);
    assert_eq!(ready.len(), 2); // events at 1000 and 2000
    assert_eq!(replay.remaining(), 1);
}

#[test]
fn recorder_counts_out_of_order_input_but_finishes_sorted() {
    let mut recorder = ReplayRecorder::default();
    recorder.record(event(200));
    recorder.record(event(100));
    recorder.record(event(300));
    assert_eq!(recorder.out_of_order_events(), 1);

    let archive = recorder.finish();
    assert_eq!(times(&archive), vec![100, 200, 300]);
}

#[test]
fn rate_is_clamped_to_supported_range() {
    let mut clock = ReplayClock::new(UnixMs::new(1_000));
    clock.set_rate(1);
    assert_eq!(clock.playback_rate_milli, 50);
    clock.set_rate(1_000_000);
    assert_eq!(clock.playback_rate_milli, 100_000);
    clock.set_rate(1_500);
    // 1 ms of wall time at 1.5x rounds half up to 2 ms.
    assert_eq!(clock.advance_wall_time(1), UnixMs::new(1_002));
    assert_eq!(clock.advance_wall_time(u64::MAX), UnixMs::new(u64::MAX));
}

#[test]
fn engine_without_clock_reports_real_time() {
    let mut replay = ReplayEngine::new(ReplayArchive::new(vec![event(100)]));
    assert_eq!(replay.playback_rate(), 1_000);
    replay.set_rate(3_000);
    assert_eq!(replay.playback_rate(), 3_000);
    assert_eq!(replay.archive().timerange(), Some((UnixMs::new(100), UnixMs::new(100))));
    assert!(ReplayArchive::empty().timerange().is_none());
    replay.reset();
    assert_eq!(replay.cursor(), 0);
    assert!(replay.next_event().is_some());
    assert!(replay.next_event().is_none());
}

#[test]
fn recorder_accepts_batches_in_order() {
    let mut recorder = ReplayRecorder::new();
    recorder.record_many(vec![event(5), event(3), event(4)]);
    assert_eq!(recorder.len(), 3);
    assert_eq!(recorder.out_of_order_events(), 2);
    assert!(!recorder.is_empty());
}

// ---- pipeline ----

fn trade_event(time: u64, side: AggressorSide, qty: f64) -> ReplayEvent {
    ReplayEvent::Market(NormalizedMarketEvent::Trade(NormalizedTrade {
        instrument: instrument(),
        time: UnixMs::new(time),
        price: p(101.0),
        qty: q(qty),
        aggressor: side,
        sequence: None,
    }))
}

fn depth_event(time: u64, kind: DepthEventKind, ask_qty: f64) -> ReplayEvent {
    ReplayEvent::Market(NormalizedMarketEvent::Depth(NormalizedDepthEvent {
        instrument: instrument(),
        time: UnixMs::new(time),
        kind,
        sequence: None,
        levels: vec![NormalizedBookLevel { side: MarketBookSide::Ask, price: p(101.0), qty: q(ask_qty) }],
    }))
}

#[test]
fn live_or_replay_trade_drives_same_trade_speed_engine() {
    let mut pipeline = OrderFlowPipeline::new(instrument(), OrderFlowPipelineConfig::default());
    let update = pipeline.process(&trade_event(1_000, AggressorSide::Buy, 2.0)).unwrap();
    let speed = update.trade_speed.expect("trade speed");
    assert_eq!(per_sec(speed.current.buy_trade_count, speed.window_ms), 1.0);
    assert_eq!(qty_per_sec(speed.current.buy_volume, speed.window_ms), 2.0);
}

#[test]
fn replayed_trade_plus_depth_drives_book_speed() {
    let mut pipeline = OrderFlowPipeline::new(
        instrument(),
        OrderFlowPipelineConfig {
            consumption: ConsumptionConfig::new(1_000, 500_000),
            ..OrderFlowPipelineConfig::default()
        },
    );

    pipeline.process(&depth_event(1_000, DepthEventKind::Snapshot, 5.0)).unwrap();
    pipeline.process(&trade_event(1_050, AggressorSide::Buy, 5.0)).unwrap();
    let update = pipeline.process(&depth_event(1_100, DepthEventKind::Diff, 0.0)).unwrap();

    let book = update.book_flow.expect("book update");
    assert_eq!(book.events.len(), 1);
    let speed = book.speed.expect("book speed");
    assert_eq!(per_sec(speed.current.ask_levels, speed.window_ms), 1.0);
    assert_eq!(qty_per_sec(speed.current.ask_qty, speed.window_ms), 5.0);
}

#[test]
fn unknown_aggressor_is_ignored_not_guessed() {
    let mut pipeline = OrderFlowPipeline::new(instrument(), OrderFlowPipelineConfig::default());
    let update = pipeline.process(&trade_event(1_000, AggressorSide::Unknown, 2.0)).unwrap();
    assert!(update.ignored_unknown_aggressor);
    assert!(update.trade_speed.is_none());
}

#[test]
fn instrument_mismatch_is_rejected() {
    let mut pipeline = OrderFlowPipeline::new(instrument(), OrderFlowPipelineConfig::default());
    let event = ReplayEvent::Market(NormalizedMarketEvent::Trade(NormalizedTrade {
        instrument: other_instrument(),
        time: UnixMs::new(1_000),
        price: p(101.0),
        qty: q(1.0),
        aggressor: AggressorSide::Buy,
        sequence: None,
    }));

    assert!(matches!(pipeline.process(&event), Err(OrderFlowPipelineError::InstrumentMismatch { .. })));
}

#[test]
fn mbo_reloads_surface_iceberg_candidate() {
    let mut pipeline = OrderFlowPipeline::new(
        instrument(),
        OrderFlowPipelineConfig {
            iceberg: IcebergConfig { min_refresh_count: 2, min_total_filled: q(10.0) },
            ..OrderFlowPipelineConfig::default()
        },
    );

    let make = |time, action, qty| ReplayEvent::Mbo {
        instrument: instrument(),
        event: MboEvent {
            time: UnixMs::new(time),
            order_id: 42,
            side: MboSide::Ask,
            price: p(101.0),
            qty: q(qty),
            action,
        },
    };

    pipeline.process(&make(1, MboAction::Add, 5.0)).unwrap();
    pipeline.process(&make(2, MboAction::Fill, 5.0)).unwrap();
    pipeline.process(&make(3, MboAction::Add, 5.0)).unwrap();
    pipeline.process(&make(4, MboAction::Fill, 5.0)).unwrap();
    let update = pipeline.process(&make(5, MboAction::Modify, 5.0)).unwrap();

    assert_eq!(update.iceberg_candidates.len(), 1);
    assert_eq!(update.iceberg_candidates[0].order_id, 42);
}

#[test]
fn snapshot_replaces_book_and_diff_updates_it() {
    let mut pipeline = OrderFlowPipeline::new(instrument(), OrderFlowPipelineConfig::default());
    pipeline.process(&depth_event(1, DepthEventKind::Diff, 3.0)).unwrap();
    assert_eq!(pipeline.depth().qty_at(BookSide::Ask, p(101.0)), q(3.0));
    pipeline.process(&depth_event(2, DepthEventKind::Snapshot, 7.0)).unwrap();
    assert_eq!(pipeline.depth().levels(BookSide::Ask).len(), 1);
    assert_eq!(pipeline.depth().qty_at(BookSide::Ask, p(101.0)), q(7.0));
    pipeline.process(&depth_event(3, DepthEventKind::Diff, 0.0)).unwrap();
    assert!(pipeline.depth().levels(BookSide::Ask).is_empty());
    pipeline.clear();
    assert!(pipeline.mbo().is_empty());
    assert_eq!(pipeline.instrument(), &instrument());
}

// ---- replay session ----

fn session_trade(ms: u64, qty: f64) -> ReplayEvent {
    ReplayEvent::Market(NormalizedMarketEvent::Trade(NormalizedTrade {
        instrument: instrument(),
        time: UnixMs::new(ms),
        price: p(20_000.0),
        qty: q(qty),
        aggressor: AggressorSide::Buy,
        sequence: None,
    }))
}

#[test]
fn paused_session_does_not_emit_events() {
    let archive = ReplayArchive::new(vec![session_trade(1_000, 1.0)]);
    let mut session = ReplaySession::new(instrument(), archive, OrderFlowPipelineConfig::default());
    assert!(session.advance(5_000).unwrap().is_empty());
}

#[test]
fn play_advances_same_orderflow_pipeline() {
    let archive = ReplayArchive::new(vec![session_trade(1_000, 2.0), session_trade(2_000, 3.0)]);
    let mut session = ReplaySession::new(instrument(), archive, OrderFlowPipelineConfig::default());
    session.play();
    let batch = session.advance(1_000).unwrap();
    assert_eq!(batch.len(), 2);
    let last = batch.last().unwrap().update.trade_speed.expect("speed");
    assert!(qty_per_sec(last.current.buy_volume, last.window_ms) > 0.0);
    assert_eq!(session.state(), ReplayState::Finished);
}

#[test]
fn seek_rebuilds_pipeline_state_from_start() {
    let archive =
        ReplayArchive::new(vec![session_trade(1_000, 1.0), session_trade(2_000, 2.0), session_trade(3_000, 3.0)]);
    let mut session = ReplaySession::new(instrument(), archive, OrderFlowPipelineConfig::default());
    let rebuilt = session.seek(UnixMs::new(2_000)).unwrap();
    assert_eq!(rebuilt.len(), 2);
    assert_eq!(session.remaining(), 1);
    assert_eq!(session.state(), ReplayState::Paused);
}

#[test]
fn finished_play_restarts_from_beginning() {
    let archive = ReplayArchive::new(vec![session_trade(1_000, 1.0)]);
    let mut session = ReplaySession::new(instrument(), archive, OrderFlowPipelineConfig::default());
    session.play();
    session.advance(10).unwrap();
    assert_eq!(session.state(), ReplayState::Finished);
    session.play();
    assert_eq!(session.state(), ReplayState::Playing);
    assert_eq!(session.remaining(), 1);
}

#[test]
fn session_pause_reset_and_rate() {
    let archive = ReplayArchive::new(vec![session_trade(1_000, 1.0), session_trade(5_000, 1.0)]);
    let mut session = ReplaySession::new(instrument(), archive, OrderFlowPipelineConfig::default());
    assert_eq!(session.playback_rate(), 1_000);
    session.set_rate(4_000);
    assert_eq!(session.playback_rate(), 4_000);
    session.play();
    assert_eq!(session.advance(500).unwrap().len(), 1);
    assert_eq!(session.advance(500).unwrap().len(), 1);
    assert_eq!(session.state(), ReplayState::Finished);
    session.pause();
    assert_eq!(session.state(), ReplayState::Finished);
    session.reset();
    assert_eq!(session.state(), ReplayState::Paused);
    assert_eq!(session.remaining(), 2);
    assert_eq!(session.archive().len(), 2);
    assert_eq!(session.instrument(), &instrument());
}

#[test]
fn session_stops_at_an_event_of_another_instrument() {
    let foreign = ReplayEvent::Market(NormalizedMarketEvent::Trade(NormalizedTrade {
        instrument: other_instrument(),
        time: UnixMs::new(1_500),
        price: p(1.0),
        qty: q(1.0),
        aggressor: AggressorSide::Sell,
        sequence: None,
    }));
    let archive = ReplayArchive::new(vec![session_trade(1_000, 1.0), foreign]);
    let mut session = ReplaySession::new(instrument(), archive, OrderFlowPipelineConfig::default());
    match session.seek(UnixMs::new(2_000)) {
        Err(OrderFlowPipelineError::InstrumentMismatch { expected, received }) => {
            assert_eq!(*expected, instrument());
            assert_eq!(*received, other_instrument());
        },
        other => panic!("unexpected {:?}", other.map(|v| v.len())),
    }
}

#[test]
fn seek_after_playback_matches_seek_from_fresh_session() {
    let events = || vec![session_trade(1_000, 1.0), session_trade(2_000, 2.0), session_trade(3_000, 3.0)];
    let mut played = ReplaySession::new(instrument(), ReplayArchive::new(events()), OrderFlowPipelineConfig::default());
    played.play();
    played.advance(5_000).unwrap();
    let mut fresh = ReplaySession::new(instrument(), ReplayArchive::new(events()), OrderFlowPipelineConfig::default());
    let a = played.seek(UnixMs::new(2_000)).unwrap();
    let b = fresh.seek(UnixMs::new(2_000)).unwrap();
    assert_eq!(a.len(), b.len());
    for (x, y) in a.iter().zip(b.iter()) {
        assert_eq!(x.update.trade_speed, y.update.trade_speed);
        assert_eq!(x.event, y.event);
    }
    assert_eq!(played.remaining(), fresh.remaining());
}
