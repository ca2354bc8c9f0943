use flowsurface_data::drawing::{
    DrawingKind, DrawingPoint, DrawingStore, DrawingX, MagnetMode, default_next_id,
    fibonacci_extension_prices, fibonacci_retracement_prices, snap_price, snap_to_ohlc,
};
use flowsurface_data::drawing_overlay::{
    Draft, DrawingOverlay, DrawingTool, KeyModifiers, OhlcPrices, OverlayKey, OverlayOutcome,
    ToolbarAction, control_points, drawing_x_delta, kind_from_points, replace_control_point,
    shift_x, storage_file, toolbar_actions, translate_kind,
};
use flowsurface_data::indicator::{
    HeatmapIndicator, Indicator, KlineIndicator, MarketKind, UiIndicator,
};
use flowsurface_data::unit::{Price, PriceStep, UnixMs};

fn p(value: f64) -> Price {
    Price::from_units((value * 1e8).round() as i64)
}

fn point(value: f64) -> DrawingPoint {
    DrawingPoint::time(UnixMs::new(1_000), p(value))
}

fn pt(t: u64, v: f64) -> DrawingPoint {
    DrawingPoint::time(UnixMs::new(t), p(v))
}

// ---- store ----

#[test]
fn add_delete_undo_redo_round_trip() {
    let mut store = DrawingStore::default();
    let id = store.add(DrawingKind::HorizontalLine { price: p(100.0) });
    assert_eq!(store.drawings().len(), 1);

    assert!(store.delete(id));
    assert!(store.drawings().is_empty());

    assert!(store.undo());
    assert_eq!(store.drawings().len(), 1);
    assert_eq!(store.drawings()[0].id, id);

    assert!(store.redo());
    assert!(store.drawings().is_empty());
}

#[test]
fn locked_drawing_rejects_geometry_changes() {
    let mut store = DrawingStore::default();
    let id = store.add(DrawingKind::TrendLine { start: point(100.0), end: point(101.0) });

    assert!(store.set_locked(id, true));
    assert!(!store.replace_kind(id, DrawingKind::HorizontalLine { price: p(99.0) }));

    assert!(matches!(store.get(id).unwrap().kind, DrawingKind::TrendLine { .. }));
}

#[test]
fn hidden_drawings_are_filtered_from_visible_iterator() {
    let mut store = DrawingStore::default();
    let a = store.add(DrawingKind::HorizontalLine { price: p(100.0) });
    store.add(DrawingKind::HorizontalLine { price: p(101.0) });
    assert!(store.set_hidden(a, true));

    assert_eq!(store.visible_drawings().len(), 1);
}

#[test]
fn persisted_store_recovers_next_id() {
    let mut store = DrawingStore::default();
    let id = store.add(DrawingKind::HorizontalLine { price: p(100.0) });
    // A loaded store keeps its drawings; normalizing it must keep new ids
    // clear of them.
    let mut loaded = store;
    loaded.normalize_after_load();

    let next = loaded.add(DrawingKind::HorizontalLine { price: p(101.0) });
    assert!(next > id);
}

#[test]
fn undo_after_edit_restores_previous_state() {
    let mut store = DrawingStore::new();
    let id = store.add(DrawingKind::VerticalLine { x: DrawingX::Tick(3) });
    assert!(store.replace_kind(id, DrawingKind::VerticalLine { x: DrawingX::Tick(9) }));
    assert!(store.undo());
    assert!(matches!(store.get(id).unwrap().kind, DrawingKind::VerticalLine { x: DrawingX::Tick(3) }));
    assert!(store.can_redo());
    assert!(store.redo());
    assert!(matches!(store.get(id).unwrap().kind, DrawingKind::VerticalLine { x: DrawingX::Tick(9) }));
    // A new edit drops the redo stack.
    assert!(store.undo());
    assert!(store.set_hidden(id, true));
    assert!(!store.can_redo());
    assert!(!store.redo());
}

#[test]
fn selection_follows_adds_and_deletes() {
    let mut store = DrawingStore::new();
    assert_eq!(default_next_id(), 1);
    let a = store.add(DrawingKind::HorizontalLine { price: p(1.0) });
    assert_eq!(a, 1);
    assert_eq!(store.selected(), Some(a));
    assert!(!store.select(Some(99)));
    assert_eq!(store.selected(), Some(a));
    assert!(store.select(None));
    assert_eq!(store.selected(), None);
    assert!(store.select(Some(a)));
    assert!(store.delete(a));
    assert_eq!(store.selected(), None);
    assert!(!store.delete(a));
    assert!(!store.can_redo());
    assert!(store.can_undo());
}

#[test]
fn clear_is_undoable_and_noop_when_empty() {
    let mut store = DrawingStore::new();
    store.clear();
    assert!(!store.can_undo());
    store.add(DrawingKind::HorizontalLine { price: p(1.0) });
    store.add(DrawingKind::HorizontalLine { price: p(2.0) });
    store.clear();
    assert!(store.drawings().is_empty());
    assert_eq!(store.selected(), None);
    assert!(store.undo());
    assert_eq!(store.drawings().len(), 2);
}

#[test]
fn setting_the_current_flag_records_nothing() {
    let mut store = DrawingStore::new();
    let id = store.add(DrawingKind::HorizontalLine { price: p(1.0) });
    assert!(store.undo());
    assert!(store.redo());
    assert!(store.set_locked(id, false));
    // Still redo-free history with one undo step for the add.
    assert!(store.undo());
    assert!(!store.can_undo());
    assert!(!store.set_locked(id, true));
}

// ---- magnets ----

#[test]
fn weak_magnet_snaps_only_nearby_prices() {
    let step = PriceStep { units: p(0.5).units };
    let candidates = [p(100.0), p(101.0)];

    assert_eq!(snap_price(p(100.4), &candidates, step, MagnetMode::Weak), p(100.0));
    assert_eq!(snap_price(p(110.0), &candidates, step, MagnetMode::Weak), p(110.0));
    assert_eq!(snap_price(p(110.0), &candidates, step, MagnetMode::Strong), p(101.0));
}

#[test]
fn magnet_off_or_without_candidates_keeps_price() {
    let step = PriceStep { units: p(0.5).units };
    assert_eq!(snap_price(p(100.4), &[p(100.0)], step, MagnetMode::Off), p(100.4));
    assert_eq!(snap_price(p(100.4), &[], step, MagnetMode::Strong), p(100.4));
    assert_eq!(MagnetMode::default(), MagnetMode::Off);
}

#[test]
fn ohlc_snap_prefers_first_of_equally_near_prices() {
    let step = PriceStep { units: p(1.0).units };
    // open and close are both 1.0 away; the open comes first.
    let r = snap_to_ohlc(p(100.0), p(99.0), p(105.0), p(95.0), p(101.0), step, MagnetMode::Strong);
    assert_eq!(r, p(99.0));
    let r = snap_to_ohlc(p(104.0), p(99.0), p(105.0), p(95.0), p(101.0), step, MagnetMode::Weak);
    assert_eq!(r, p(105.0));
}

// ---- overlay geometry ----

#[test]
fn translate_moves_both_time_and_price() {
    let kind = DrawingKind::TrendLine { start: pt(1000, 100.0), end: pt(2000, 101.0) };
    let moved = translate_kind(&kind, pt(5000, 100.0), pt(5500, 102.0));
    let DrawingKind::TrendLine { start, end } = moved else { panic!("trend") };
    assert_eq!(start.x, DrawingX::Time(UnixMs::new(1500)));
    assert_eq!(end.x, DrawingX::Time(UnixMs::new(2500)));
    assert_eq!(start.price, p(102.0));
    assert_eq!(end.price, p(103.0));
}

#[test]
fn dragging_there_and_back_restores_the_drawing() {
    let kinds = vec![
        DrawingKind::TrendLine { start: pt(1000, 100.0), end: pt(2000, 101.0) },
        DrawingKind::Text { at: pt(3000, 99.5), text: "note".to_string() },
        DrawingKind::Brush { points: vec![pt(1000, 100.0), pt(1100, 100.5), pt(1200, 99.0)] },
        DrawingKind::HorizontalLine { price: p(100.0) },
    ];
    for kind in kinds {
        let there = translate_kind(&kind, pt(5000, 100.0), pt(4200, 103.25));
        assert_ne!(format!("{:?}", there), format!("{:?}", kind));
        let back = translate_kind(&there, pt(4200, 103.25), pt(5000, 100.0));
        assert_eq!(format!("{:?}", back), format!("{:?}", kind));
    }
}

#[test]
fn one_point_builds_horizontal_ray() {
    let point = pt(1, 100.0);
    let kind = kind_from_points(DrawingTool::HorizontalRay, vec![point]);
    assert!(matches!(kind, Some(DrawingKind::HorizontalRay { .. })));
}

#[test]
fn three_points_build_parallel_channel() {
    let kind = kind_from_points(DrawingTool::ParallelChannel, vec![pt(1, 100.0), pt(2, 101.0), pt(1, 102.0)]);
    assert!(matches!(kind, Some(DrawingKind::ParallelChannel { .. })));
}

#[test]
fn control_point_resize_changes_only_target_endpoint() {
    let kind = DrawingKind::TrendLine { start: pt(1, 100.0), end: pt(2, 101.0) };
    let resized = replace_control_point(&kind, 1, pt(3, 105.0));
    let DrawingKind::TrendLine { start, end } = resized else { panic!("trend") };
    assert_eq!(start, pt(1, 100.0));
    assert_eq!(end, pt(3, 105.0));
}

#[test]
fn text_tool_waits_for_keyboard_content() {
    assert!(kind_from_points(DrawingTool::Text, vec![pt(1, 100.0)]).is_none());
}

#[test]
fn two_points_build_fibonacci_retracement() {
    let kind = kind_from_points(DrawingTool::FibRetracement, vec![pt(1, 100.0), pt(2, 110.0)]);
    assert!(matches!(kind, Some(DrawingKind::FibRetracement { .. })));
}

#[test]
fn too_few_points_build_nothing() {
    assert!(kind_from_points(DrawingTool::TrendLine, vec![pt(1, 100.0)]).is_none());
    assert!(kind_from_points(DrawingTool::Select, vec![pt(1, 100.0)]).is_none());
    assert!(kind_from_points(DrawingTool::Brush, vec![pt(1, 1.0), pt(2, 2.0)]).is_none());
}

#[test]
fn brush_handles_are_its_ends() {
    let brush = DrawingKind::Brush { points: vec![pt(1, 1.0), pt(2, 2.0), pt(3, 3.0)] };
    assert_eq!(control_points(&brush), vec![pt(1, 1.0), pt(3, 3.0)]);
    let moved = replace_control_point(&brush, 1, pt(9, 9.0));
    assert_eq!(control_points(&moved), vec![pt(1, 1.0), pt(9, 9.0)]);
    let short = DrawingKind::Brush { points: vec![pt(1, 1.0)] };
    assert!(control_points(&short).is_empty());
    assert!(control_points(&DrawingKind::HorizontalLine { price: p(1.0) }).is_empty());
}

#[test]
fn mixed_axes_do_not_shift_and_ticks_saturate() {
    assert_eq!(drawing_x_delta(DrawingX::Tick(5), DrawingX::Time(UnixMs::new(9))), 0);
    assert_eq!(drawing_x_delta(DrawingX::Tick(5), DrawingX::Tick(2)), -3);
    assert_eq!(shift_x(DrawingX::Tick(2), -5), DrawingX::Tick(0));
    assert_eq!(shift_x(DrawingX::Tick(u64::MAX), 1), DrawingX::Tick(u64::MAX));
    assert_eq!(shift_x(DrawingX::Time(UnixMs::new(10)), -3), DrawingX::Time(UnixMs::new(7)));
}

#[test]
fn tool_labels_and_points() {
    assert_eq!(DrawingTool::all().len(), 12);
    assert_eq!(DrawingTool::Select.label(), "SEL");
    assert_eq!(DrawingTool::FibExtension.label(), "EXT");
    assert_eq!(DrawingTool::ParallelChannel.points_required(), 3);
    assert_eq!(DrawingTool::Brush.points_required(), 0);
    assert_eq!(DrawingTool::default(), DrawingTool::Select);
}

// ---- indicators ----

#[test]
fn perpetuals_add_open_interest() {
    let spot = KlineIndicator::for_market(MarketKind::Spot);
    let perps = KlineIndicator::for_market(MarketKind::LinearPerps);
    assert_eq!(spot.len(), 9);
    assert_eq!(perps.len(), 10);
    assert!(!spot.contains(&KlineIndicator::OpenInterest));
    assert_eq!(perps[9], KlineIndicator::OpenInterest);
    assert_eq!(KlineIndicator::for_market(MarketKind::InversePerps), perps);
    assert_eq!(HeatmapIndicator::for_market(MarketKind::Spot), vec![HeatmapIndicator::Volume]);
}

#[test]
fn indicator_labels_and_ui_wrapping() {
    assert_eq!(KlineIndicator::CumulativeDelta.label(), "CVD");
    assert_eq!(KlineIndicator::TradeSpeed.label(), "Trade Speed 1s");
    assert_eq!(HeatmapIndicator::Volume.label(), "Volume");
    let ui: UiIndicator = KlineIndicator::Volume.into();
    assert_eq!(ui, UiIndicator::Kline(KlineIndicator::Volume));
    let ui: UiIndicator = HeatmapIndicator::Volume.into();
    assert_eq!(ui, UiIndicator::Heatmap(HeatmapIndicator::Volume));
}

// ---- overlay decisions ----

fn no_mods() -> KeyModifiers {
    KeyModifiers { control: false, alt: false, logo: false }
}

fn ctrl() -> KeyModifiers {
    KeyModifiers { control: true, alt: false, logo: false }
}

#[test]
fn one_click_tools_add_at_once() {
    let mut overlay = DrawingOverlay::new(DrawingStore::new(), "drawings/x.json".to_owned());
    assert_eq!(overlay.apply_toolbar_action(ToolbarAction::Tool(DrawingTool::HorizontalLine)), OverlayOutcome::Redraw);
    assert_eq!(overlay.press(pt(1, 100.0), None, None), OverlayOutcome::Persist);
    assert_eq!(overlay.store().drawings().len(), 1);
    assert_eq!(overlay.release(), OverlayOutcome::Ignored);
    assert_eq!(overlay.storage_file(), "drawings/x.json");
}

#[test]
fn two_point_tool_completes_on_second_click_without_release() {
    let mut overlay = DrawingOverlay::new(DrawingStore::new(), String::new());
    overlay.set_tool(DrawingTool::TrendLine);
    assert_eq!(overlay.press(pt(1, 100.0), None, None), OverlayOutcome::Redraw);
    assert!(matches!(overlay.draft(), Some(Draft::Points { .. })));
    assert_eq!(overlay.press(pt(2, 101.0), None, None), OverlayOutcome::Persist);
    assert!(overlay.draft().is_none());
    assert!(matches!(overlay.store().drawings()[0].kind, DrawingKind::TrendLine { .. }));
}

#[test]
fn release_drops_an_unfinished_point_draft() {
    let mut overlay = DrawingOverlay::new(DrawingStore::new(), String::new());
    overlay.set_tool(DrawingTool::Rectangle);
    overlay.press(pt(1, 100.0), None, None);
    assert_eq!(overlay.release(), OverlayOutcome::Ignored);
    assert!(overlay.draft().is_none());
    // The next click starts over.
    assert_eq!(overlay.press(pt(2, 101.0), None, None), OverlayOutcome::Redraw);
    assert!(overlay.store().drawings().is_empty());
}

#[test]
fn brush_stroke_is_added_on_release() {
    let mut overlay = DrawingOverlay::new(DrawingStore::new(), String::new());
    overlay.set_tool(DrawingTool::Brush);
    overlay.press(pt(1, 1.0), None, None);
    assert_eq!(overlay.cursor_moved(pt(2, 2.0)), OverlayOutcome::Redraw);
    assert_eq!(overlay.cursor_moved(pt(3, 3.0)), OverlayOutcome::Redraw);
    assert_eq!(overlay.release(), OverlayOutcome::Persist);
    match &overlay.store().drawings()[0].kind {
        DrawingKind::Brush { points } => assert_eq!(points.len(), 3),
        other => panic!("unexpected {other:?}"),
    }
    assert_eq!(overlay.cursor_moved(pt(4, 4.0)), OverlayOutcome::Ignored);
}

#[test]
fn select_then_drag_moves_the_drawing() {
    let mut store = DrawingStore::new();
    let id = store.add(DrawingKind::TrendLine { start: pt(1000, 100.0), end: pt(2000, 101.0) });
    let mut overlay = DrawingOverlay::new(store, String::new());
    assert_eq!(overlay.press(pt(1500, 100.0), None, Some(id)), OverlayOutcome::Redraw);
    assert_eq!(overlay.store().selected(), Some(id));
    overlay.cursor_moved(pt(2000, 102.0));
    assert!(overlay.drag_preview().is_some());
    assert_eq!(overlay.release(), OverlayOutcome::Persist);
    let DrawingKind::TrendLine { start, end } = overlay.store().get(id).unwrap().kind else { panic!("trend") };
    assert_eq!(start, pt(1500, 102.0));
    assert_eq!(end, pt(2500, 103.0));
    // A click on empty chart clears the selection.
    overlay.press(pt(0, 0.0), None, None);
    assert_eq!(overlay.store().selected(), None);
}

#[test]
fn handle_resize_and_locked_drawings() {
    let mut store = DrawingStore::new();
    let id = store.add(DrawingKind::Ray { start: pt(1, 1.0), through: pt(2, 2.0) });
    let mut overlay = DrawingOverlay::new(store, String::new());
    overlay.press(pt(5, 5.0), Some((id, 1)), None);
    overlay.cursor_moved(pt(6, 6.0));
    assert!(overlay.resize_preview().is_some());
    assert_eq!(overlay.release(), OverlayOutcome::Persist);
    let DrawingKind::Ray { through, .. } = overlay.store().get(id).unwrap().kind else { panic!("ray") };
    assert_eq!(through, pt(6, 6.0));
    // Locked: no resize starts.
    assert_eq!(overlay.apply_toolbar_action(ToolbarAction::Lock), OverlayOutcome::Persist);
    assert!(overlay.store().get(id).unwrap().locked);
    overlay.press(pt(5, 5.0), Some((id, 0)), None);
    assert!(overlay.resize_preview().is_none());
}

#[test]
fn text_is_typed_trimmed_and_added_on_enter() {
    let mut overlay = DrawingOverlay::new(DrawingStore::new(), String::new());
    overlay.set_tool(DrawingTool::Text);
    overlay.press(pt(1, 1.0), None, None);
    assert_eq!(overlay.key(&OverlayKey::Character("  hi".to_owned()), no_mods()), OverlayOutcome::Redraw);
    assert_eq!(overlay.key(&OverlayKey::Character("x".to_owned()), no_mods()), OverlayOutcome::Redraw);
    assert_eq!(overlay.key(&OverlayKey::Backspace, no_mods()), OverlayOutcome::Redraw);
    assert_eq!(overlay.key(&OverlayKey::Character(" ".to_owned()), no_mods()), OverlayOutcome::Redraw);
    assert_eq!(overlay.key(&OverlayKey::Enter, no_mods()), OverlayOutcome::Persist);
    match &overlay.store().drawings()[0].kind {
        DrawingKind::Text { text, .. } => assert_eq!(text, "hi"),
        other => panic!("unexpected {other:?}"),
    }
}

#[test]
fn keyboard_commands() {
    let mut overlay = DrawingOverlay::new(DrawingStore::new(), String::new());
    overlay.set_tool(DrawingTool::VerticalLine);
    overlay.press(pt(1, 1.0), None, None);
    assert_eq!(overlay.key(&OverlayKey::Character("z".to_owned()), ctrl()), OverlayOutcome::Persist);
    assert!(overlay.store().drawings().is_empty());
    assert_eq!(overlay.key(&OverlayKey::Character("y".to_owned()), ctrl()), OverlayOutcome::Persist);
    assert_eq!(overlay.store().drawings().len(), 1);
    assert_eq!(overlay.key(&OverlayKey::Character("z".to_owned()), no_mods()), OverlayOutcome::Ignored);
    assert_eq!(overlay.key(&OverlayKey::Delete, no_mods()), OverlayOutcome::Persist);
    assert!(overlay.store().drawings().is_empty());
    assert_eq!(overlay.key(&OverlayKey::Escape, no_mods()), OverlayOutcome::Redraw);
    assert_eq!(overlay.tool(), DrawingTool::Select);
    assert_eq!(overlay.key(&OverlayKey::Other, no_mods()), OverlayOutcome::Ignored);
}

#[test]
fn magnet_cycles_and_snaps_market_points() {
    let mut overlay = DrawingOverlay::new(DrawingStore::new(), String::new());
    let bar = Some(OhlcPrices { open: p(99.0), high: p(105.0), low: p(95.0), close: p(101.0) });
    let tick = PriceStep { units: p(1.0).units };
    assert_eq!(overlay.market_point(7, p(104.0), bar, tick, true).price, p(104.0));
    overlay.apply_toolbar_action(ToolbarAction::Magnet);
    assert_eq!(overlay.magnet(), MagnetMode::Weak);
    let point = overlay.market_point(7, p(104.0), bar, tick, true);
    assert_eq!(point, DrawingPoint::time(UnixMs::new(7), p(105.0)));
    overlay.apply_toolbar_action(ToolbarAction::Magnet);
    overlay.apply_toolbar_action(ToolbarAction::Magnet);
    assert_eq!(overlay.magnet(), MagnetMode::Off);
    assert_eq!(overlay.market_point(7, p(104.0), None, tick, false), DrawingPoint::tick(7, p(104.0)));
}

#[test]
fn toolbar_lists_tools_then_commands() {
    let actions = toolbar_actions();
    assert_eq!(actions.len(), 18);
    assert_eq!(actions[0], ToolbarAction::Tool(DrawingTool::Select));
    assert_eq!(actions[17], ToolbarAction::Magnet);
    assert_eq!(ToolbarAction::Magnet.label(MagnetMode::Strong), "MAG2");
    assert_eq!(ToolbarAction::Tool(DrawingTool::Brush).label(MagnetMode::Off), "BR");
}

#[test]
fn storage_file_is_sanitized() {
    assert_eq!(storage_file("BTCUSDT@Binance", "1m"), "drawings/BTCUSDT_Binance_1m.json");
    assert_eq!(storage_file("2330.TW", "Tick(50)"), "drawings/2330_TW_Tick_50_.json");
}

// ---- fibonacci levels ----

#[test]
fn retracement_contains_halfway_price() {
    let levels = fibonacci_retracement_prices(p(100.0), p(110.0));
    let (_, halfway) = levels.iter().find(|(ratio, _)| *ratio == 500).expect("50% level");
    assert_eq!(*halfway, p(105.0));
}

#[test]
fn extension_projects_original_move_from_third_point() {
    let levels = fibonacci_extension_prices(p(100.0), p(110.0), p(105.0));
    let (_, one_x) = levels.iter().find(|(ratio, _)| *ratio == 1_000).expect("100% extension");
    assert_eq!(*one_x, p(115.0));
}

#[test]
fn fibonacci_levels_list_every_ratio_in_order() {
    let retracement = fibonacci_retracement_prices(p(110.0), p(100.0));
    let ratios: Vec<u32> = retracement.iter().map(|(r, _)| *r).collect();
    assert_eq!(ratios, vec![0, 236, 382, 500, 618, 786, 1_000]);
    assert_eq!(retracement[0].1, p(110.0));
    assert_eq!(retracement[1].1, p(107.64));
    assert_eq!(retracement[6].1, p(100.0));
    let extension = fibonacci_extension_prices(p(100.0), p(110.0), p(105.0));
    let ratios: Vec<u32> = extension.iter().map(|(r, _)| *r).collect();
    assert_eq!(ratios, vec![0, 618, 1_000, 1_272, 1_618, 2_000, 2_618, 4_236]);
    assert_eq!(extension[7].1, p(147.36));
}

#[test]
fn fibonacci_levels_round_half_units_away_from_zero() {
    // A span of one unit: 0.5 units at the halfway ratio rounds away from zero.
    let up = fibonacci_retracement_prices(Price::from_units(0), Price::from_units(1));
    assert_eq!(up[3].1, Price::from_units(1));
    let down = fibonacci_retracement_prices(Price::from_units(0), Price::from_units(-1));
    assert_eq!(down[3].1, Price::from_units(-1));
    // 0.236 of one unit rounds to zero.
    assert_eq!(up[1].1, Price::from_units(0));
}
