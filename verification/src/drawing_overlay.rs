//! Drawing tools and the geometry edits behind the chart's drawing overlay:
//! building a drawing from clicked points, its control points, resizing by
//! a control point and dragging by a delta.
use vstd::prelude::*;

use crate::drawing::{
    DrawingId, DrawingKind, DrawingKindView, DrawingPoint, DrawingStore, DrawingView, DrawingX,
    MagnetMode, StoreHistory, StoreView, first_position, has_drawing, next_id_after_load, recorded,
    redone, snap_spec, store_after_add, undone, valid_selection, view_after_delete, view_with_drawing,
};
use crate::text::trimmed;
use crate::unit::{Price, PriceStep, UnixMs, clamp_i64, clamp_u64, sat_add_i64, sat_sub_i64};
use vstd::string::{StrSliceExecFns, StringExecFns};

verus! {

#[derive(Debug, Clone, Copy, PartialEq, Eq, Structural)]
pub enum DrawingTool {
    Select,
    TrendLine,
    HorizontalLine,
    HorizontalRay,
    VerticalLine,
    Ray,
    Rectangle,
    ParallelChannel,
    FibRetracement,
    FibExtension,
    Text,
    Brush,
}

impl Default for DrawingTool {
    fn default() -> (r: Self)
        ensures
            r == DrawingTool::Select,
    {
        DrawingTool::Select
    }
}

/// The toolbar label of each tool.
pub open spec fn tool_label(t: DrawingTool) -> Seq<char> {
    match t {
        DrawingTool::Select => "SEL"@,
        DrawingTool::TrendLine => "TL"@,
        DrawingTool::HorizontalLine => "H"@,
        DrawingTool::HorizontalRay => "HRAY"@,
        DrawingTool::VerticalLine => "V"@,
        DrawingTool::Ray => "RAY"@,
        DrawingTool::Rectangle => "BOX"@,
        DrawingTool::ParallelChannel => "CH"@,
        DrawingTool::FibRetracement => "FIB"@,
        DrawingTool::FibExtension => "EXT"@,
        DrawingTool::Text => "TXT"@,
        DrawingTool::Brush => "BR"@,
    }
}

/// How many clicked points complete a drawing of each tool (0: not built
/// from clicks).
pub open spec fn tool_points(t: DrawingTool) -> nat {
    match t {
        DrawingTool::Select | DrawingTool::Brush => 0,
        DrawingTool::HorizontalLine | DrawingTool::HorizontalRay | DrawingTool::VerticalLine
        | DrawingTool::Text => 1,
        DrawingTool::TrendLine | DrawingTool::Ray | DrawingTool::Rectangle
        | DrawingTool::FibRetracement => 2,
        DrawingTool::ParallelChannel | DrawingTool::FibExtension => 3,
    }
}

/// Every tool in toolbar order.
pub open spec fn all_tools() -> Seq<DrawingTool> {
    seq![
        DrawingTool::Select,
        DrawingTool::TrendLine,
        DrawingTool::HorizontalLine,
        DrawingTool::HorizontalRay,
        DrawingTool::VerticalLine,
        DrawingTool::Ray,
        DrawingTool::Rectangle,
        DrawingTool::ParallelChannel,
        DrawingTool::FibRetracement,
        DrawingTool::FibExtension,
        DrawingTool::Text,
        DrawingTool::Brush,
    ]
}

impl DrawingTool {
    pub fn all() -> (r: Vec<DrawingTool>)
        ensures
            r@ == all_tools(),
    {
        let r = vec![
            DrawingTool::Select,
            DrawingTool::TrendLine,
            DrawingTool::HorizontalLine,
            DrawingTool::HorizontalRay,
            DrawingTool::VerticalLine,
            DrawingTool::Ray,
            DrawingTool::Rectangle,
            DrawingTool::ParallelChannel,
            DrawingTool::FibRetracement,
            DrawingTool::FibExtension,
            DrawingTool::Text,
            DrawingTool::Brush,
        ];
        proof {
            assert(r@ =~= all_tools());
        }
        r
    }

    pub fn label(self) -> (r: &'static str)
        ensures
            r@ == tool_label(self),
    {
        match self {
            DrawingTool::Select => "SEL",
            DrawingTool::TrendLine => "TL",
            DrawingTool::HorizontalLine => "H",
            DrawingTool::HorizontalRay => "HRAY",
            DrawingTool::VerticalLine => "V",
            DrawingTool::Ray => "RAY",
            DrawingTool::Rectangle => "BOX",
            DrawingTool::ParallelChannel => "CH",
            DrawingTool::FibRetracement => "FIB",
            DrawingTool::FibExtension => "EXT",
            DrawingTool::Text => "TXT",
            DrawingTool::Brush => "BR",
        }
    }

    pub fn points_required(self) -> (r: usize)
        ensures
            r == tool_points(self),
    {
        match self {
            DrawingTool::Select | DrawingTool::Brush => 0,
            DrawingTool::HorizontalLine | DrawingTool::HorizontalRay | DrawingTool::VerticalLine
            | DrawingTool::Text => 1,
            DrawingTool::TrendLine | DrawingTool::Ray | DrawingTool::Rectangle
            | DrawingTool::FibRetracement => 2,
            DrawingTool::ParallelChannel | DrawingTool::FibExtension => 3,
        }
    }
}

/// The drawing a tool builds from clicked points, when there are enough.
/// Selection, brush strokes and text are not built from clicks alone.
pub open spec fn kind_from_points_spec(tool: DrawingTool, p: Seq<DrawingPoint>) -> Option<DrawingKindView> {
    if p.len() < tool_points(tool) {
        None
    } else {
        match tool {
            DrawingTool::Select | DrawingTool::Brush | DrawingTool::Text => None,
            DrawingTool::HorizontalLine => Some(DrawingKindView::HorizontalLine { price: p[0].price }),
            DrawingTool::HorizontalRay => Some(
                DrawingKindView::HorizontalRay { start: p[0].x, price: p[0].price },
            ),
            DrawingTool::VerticalLine => Some(DrawingKindView::VerticalLine { x: p[0].x }),
            DrawingTool::TrendLine => Some(DrawingKindView::TrendLine { start: p[0], end: p[1] }),
            DrawingTool::Ray => Some(DrawingKindView::Ray { start: p[0], through: p[1] }),
            DrawingTool::Rectangle => Some(DrawingKindView::Rectangle { start: p[0], end: p[1] }),
            DrawingTool::ParallelChannel => Some(
                DrawingKindView::ParallelChannel { start: p[0], end: p[1], offset: p[2] },
            ),
            DrawingTool::FibRetracement => Some(DrawingKindView::FibRetracement { start: p[0], end: p[1] }),
            DrawingTool::FibExtension => Some(
                DrawingKindView::FibExtension { start: p[0], end: p[1], projection: p[2] },
            ),
        }
    }
}

/// Build the drawing of `tool` from clicked points.
pub fn kind_from_points(tool: DrawingTool, points: Vec<DrawingPoint>) -> (r: Option<DrawingKind>)
    ensures
        match kind_from_points_spec(tool, points@) {
            None => r.is_none(),
            Some(k) => r.is_some() && r.unwrap()@ == k,
        },
{
    if points.len() < tool.points_required() {
        return None;
    }
    match tool {
        DrawingTool::Select | DrawingTool::Brush | DrawingTool::Text => None,
        DrawingTool::HorizontalLine => Some(DrawingKind::HorizontalLine { price: points[0].price }),
        DrawingTool::HorizontalRay => Some(
            DrawingKind::HorizontalRay { start: points[0].x, price: points[0].price },
        ),
        DrawingTool::VerticalLine => Some(DrawingKind::VerticalLine { x: points[0].x }),
        DrawingTool::TrendLine => Some(DrawingKind::TrendLine { start: points[0], end: points[1] }),
        DrawingTool::Ray => Some(DrawingKind::Ray { start: points[0], through: points[1] }),
        DrawingTool::Rectangle => Some(DrawingKind::Rectangle { start: points[0], end: points[1] }),
        DrawingTool::ParallelChannel => Some(
            DrawingKind::ParallelChannel { start: points[0], end: points[1], offset: points[2] },
        ),
        DrawingTool::FibRetracement => Some(
            DrawingKind::FibRetracement { start: points[0], end: points[1] },
        ),
        DrawingTool::FibExtension => Some(
            DrawingKind::FibExtension { start: points[0], end: points[1], projection: points[2] },
        ),
    }
}

/// The handles of a drawing that can be dragged to resize it; a brush
/// stroke of two or more points has its two ends.
pub open spec fn control_points_spec(k: DrawingKindView) -> Seq<DrawingPoint> {
    match k {
        DrawingKindView::TrendLine { start, end } => seq![start, end],
        DrawingKindView::Rectangle { start, end } => seq![start, end],
        DrawingKindView::FibRetracement { start, end } => seq![start, end],
        DrawingKindView::Ray { start, through } => seq![start, through],
        DrawingKindView::HorizontalRay { start, price } => seq![DrawingPoint { x: start, price }],
        DrawingKindView::ParallelChannel { start, end, offset } => seq![start, end, offset],
        DrawingKindView::FibExtension { start, end, projection } => seq![start, end, projection],
        DrawingKindView::Text { at, .. } => seq![at],
        DrawingKindView::Brush { points } => if points.len() >= 2 {
            seq![points[0], points.last()]
        } else {
            seq![]
        },
        DrawingKindView::HorizontalLine { .. } => seq![],
        DrawingKindView::VerticalLine { .. } => seq![],
    }
}

pub fn control_points(kind: &DrawingKind) -> (r: Vec<DrawingPoint>)
    ensures
        r@ == control_points_spec(kind@),
{
    let r = match kind {
        DrawingKind::TrendLine { start, end } => vec![*start, *end],
        DrawingKind::Rectangle { start, end } => vec![*start, *end],
        DrawingKind::FibRetracement { start, end } => vec![*start, *end],
        DrawingKind::Ray { start, through } => vec![*start, *through],
        DrawingKind::HorizontalRay { start, price } => vec![DrawingPoint { x: *start, price: *price }],
        DrawingKind::ParallelChannel { start, end, offset } => vec![*start, *end, *offset],
        DrawingKind::FibExtension { start, end, projection } => vec![*start, *end, *projection],
        DrawingKind::Text { at, .. } => vec![*at],
        DrawingKind::Brush { points } => {
            if points.len() >= 2 {
                vec![points[0], points[points.len() - 1]]
            } else {
                Vec::new()
            }
        },
        DrawingKind::HorizontalLine { .. } => Vec::new(),
        DrawingKind::VerticalLine { .. } => Vec::new(),
    };
    proof {
        assert(r@ =~= control_points_spec(kind@));
    }
    r
}

/// The new point `p` for the handle being moved (`i == at`), the handle's
/// current point `kept` for the others.
pub open spec fn pick(i: nat, at: nat, p: DrawingPoint, kept: DrawingPoint) -> DrawingPoint {
    if i == at {
        p
    } else {
        kept
    }
}

/// The drawing with its control point `index` moved to `p`.
pub open spec fn replace_control_point_spec(k: DrawingKindView, index: nat, p: DrawingPoint) -> DrawingKindView {
    match k {
        DrawingKindView::TrendLine { start, end } => DrawingKindView::TrendLine {
            start: pick(index, 0, p, start),
            end: pick(index, 1, p, end),
        },
        DrawingKindView::Ray { start, through } => DrawingKindView::Ray {
            start: pick(index, 0, p, start),
            through: pick(index, 1, p, through),
        },
        DrawingKindView::HorizontalRay { start, price } => if index == 0 {
            DrawingKindView::HorizontalRay { start: p.x, price: p.price }
        } else {
            k
        },
        DrawingKindView::Rectangle { start, end } => DrawingKindView::Rectangle {
            start: pick(index, 0, p, start),
            end: pick(index, 1, p, end),
        },
        DrawingKindView::ParallelChannel { start, end, offset } => DrawingKindView::ParallelChannel {
            start: pick(index, 0, p, start),
            end: pick(index, 1, p, end),
            offset: pick(index, 2, p, offset),
        },
        DrawingKindView::FibRetracement { start, end } => DrawingKindView::FibRetracement {
            start: pick(index, 0, p, start),
            end: pick(index, 1, p, end),
        },
        DrawingKindView::FibExtension { start, end, projection } => DrawingKindView::FibExtension {
            start: pick(index, 0, p, start),
            end: pick(index, 1, p, end),
            projection: pick(index, 2, p, projection),
        },
        DrawingKindView::Text { at, text } => DrawingKindView::Text { at: pick(index, 0, p, at), text },
        DrawingKindView::Brush { points } => DrawingKindView::Brush {
            points: if index == 0 && points.len() > 0 {
                points.update(0, p)
            } else if index == 1 && points.len() >= 2 {
                points.update(points.len() - 1, p)
            } else {
                points
            },
        },
        DrawingKindView::HorizontalLine { .. } => k,
        DrawingKindView::VerticalLine { .. } => k,
    }
}

fn pick_point(index: usize, at: usize, p: DrawingPoint, kept: DrawingPoint) -> (r: DrawingPoint)
    ensures
        r == pick(index as nat, at as nat, p, kept),
{
    if index == at {
        p
    } else {
        kept
    }
}

/// Move control point `index` of a drawing to `point`.
pub fn replace_control_point(kind: &DrawingKind, index: usize, point: DrawingPoint) -> (r: DrawingKind)
    ensures
        r@ == replace_control_point_spec(kind@, index as nat, point),
{
    match kind {
        DrawingKind::TrendLine { start, end } => DrawingKind::TrendLine {
            start: pick_point(index, 0, point, *start),
            end: pick_point(index, 1, point, *end),
        },
        DrawingKind::Ray { start, through } => DrawingKind::Ray {
            start: pick_point(index, 0, point, *start),
            through: pick_point(index, 1, point, *through),
        },
        DrawingKind::HorizontalRay { start, price } => {
            if index == 0 {
                DrawingKind::HorizontalRay { start: point.x, price: point.price }
            } else {
                DrawingKind::HorizontalRay { start: *start, price: *price }
            }
        },
        DrawingKind::Rectangle { start, end } => DrawingKind::Rectangle {
            start: pick_point(index, 0, point, *start),
            end: pick_point(index, 1, point, *end),
        },
        DrawingKind::ParallelChannel { start, end, offset } => DrawingKind::ParallelChannel {
            start: pick_point(index, 0, point, *start),
            end: pick_point(index, 1, point, *end),
            offset: pick_point(index, 2, point, *offset),
        },
        DrawingKind::FibRetracement { start, end } => DrawingKind::FibRetracement {
            start: pick_point(index, 0, point, *start),
            end: pick_point(index, 1, point, *end),
        },
        DrawingKind::FibExtension { start, end, projection } => DrawingKind::FibExtension {
            start: pick_point(index, 0, point, *start),
            end: pick_point(index, 1, point, *end),
            projection: pick_point(index, 2, point, *projection),
        },
        DrawingKind::Text { at, text } => DrawingKind::Text {
            at: pick_point(index, 0, point, *at),
            text: text.clone(),
        },
        DrawingKind::Brush { points } => {
            let mut copy: Vec<DrawingPoint> = Vec::new();
            let mut i: usize = 0;
            while i < points.len()
                invariant
                    i <= points@.len(),
                    copy@ == points@.take(i as int),
                decreases points@.len() - i,
            {
                copy.push(points[i]);
                i = i + 1;
                proof {
                    assert(copy@ == points@.take(i as int));
                }
            }
            proof {
                assert(points@.take(i as int) == points@);
            }
            if index == 0 && copy.len() > 0 {
                copy.set(0, point);
            } else if index == 1 && copy.len() >= 2 {
                let last = copy.len() - 1;
                copy.set(last, point);
            }
            DrawingKind::Brush { points: copy }
        },
        DrawingKind::HorizontalLine { price } => DrawingKind::HorizontalLine { price: *price },
        DrawingKind::VerticalLine { x } => DrawingKind::VerticalLine { x: *x },
    }
}

/// Horizontal distance from `start` to `current` when both are times or
/// both are bar indices (saturated to `i64`); 0 when they differ in kind.
pub open spec fn x_delta_spec(start: DrawingX, current: DrawingX) -> i64 {
    match (start, current) {
        (DrawingX::Time(a), DrawingX::Time(b)) => clamp_i64(b.ms - a.ms),
        (DrawingX::Tick(a), DrawingX::Tick(b)) => clamp_i64(b - a),
        _ => 0,
    }
}

/// A horizontal position moved by `delta`, saturating.
pub open spec fn shift_x_spec(x: DrawingX, delta: i64) -> DrawingX {
    match x {
        DrawingX::Time(t) => DrawingX::Time(UnixMs { ms: clamp_u64(t.ms + delta) }),
        DrawingX::Tick(i) => DrawingX::Tick(clamp_u64(i + delta)),
    }
}

pub fn drawing_x_delta(start: DrawingX, current: DrawingX) -> (r: i64)
    ensures
        r == x_delta_spec(start, current),
{
    let (a, b) = match (start, current) {
        (DrawingX::Time(a), DrawingX::Time(b)) => (a.ms, b.ms),
        (DrawingX::Tick(a), DrawingX::Tick(b)) => (a, b),
        _ => {
            return 0;
        },
    };
    let delta: i128 = b as i128 - a as i128;
    if delta > i64::MAX as i128 {
        i64::MAX
    } else if delta < i64::MIN as i128 {
        i64::MIN
    } else {
        delta as i64
    }
}

pub fn shift_x(x: DrawingX, delta: i64) -> (r: DrawingX)
    ensures
        r == shift_x_spec(x, delta),
{
    match x {
        DrawingX::Time(time) => DrawingX::Time(time.saturating_add_signed(delta)),
        DrawingX::Tick(index) => {
            let moved: i128 = index as i128 + delta as i128;
            DrawingX::Tick(
                if moved < 0 {
                    0
                } else if moved > u64::MAX as i128 {
                    u64::MAX
                } else {
                    moved as u64
                },
            )
        },
    }
}

/// A point moved by an x delta and a price delta, saturating.
pub open spec fn shift_point_spec(p: DrawingPoint, dx: i64, dp: i64) -> DrawingPoint {
    DrawingPoint { x: shift_x_spec(p.x, dx), price: Price { units: clamp_i64(p.price.units + dp) } }
}

fn shift_point(p: DrawingPoint, dx: i64, dp: i64) -> (r: DrawingPoint)
    ensures
        r == shift_point_spec(p, dx, dp),
{
    DrawingPoint { x: shift_x(p.x, dx), price: Price { units: sat_add_i64(p.price.units, dp) } }
}

/// The drawing dragged by the move from `start` to `current`: every point
/// shifts by the same time (or bar) and price delta.
pub open spec fn translate_spec(k: DrawingKindView, start: DrawingPoint, current: DrawingPoint) -> DrawingKindView {
    let dx = x_delta_spec(start.x, current.x);
    let dp = clamp_i64(current.price.units - start.price.units);
    let sp = |q: DrawingPoint| shift_point_spec(q, dx, dp);
    match k {
        DrawingKindView::TrendLine { start: a, end } => DrawingKindView::TrendLine { start: sp(a), end: sp(end) },
        DrawingKindView::Ray { start: a, through } => DrawingKindView::Ray { start: sp(a), through: sp(through) },
        DrawingKindView::HorizontalLine { price } => DrawingKindView::HorizontalLine {
            price: Price { units: clamp_i64(price.units + dp) },
        },
        DrawingKindView::HorizontalRay { start: a, price } => DrawingKindView::HorizontalRay {
            start: shift_x_spec(a, dx),
            price: Price { units: clamp_i64(price.units + dp) },
        },
        DrawingKindView::VerticalLine { x } => DrawingKindView::VerticalLine { x: shift_x_spec(x, dx) },
        DrawingKindView::Rectangle { start: a, end } => DrawingKindView::Rectangle { start: sp(a), end: sp(end) },
        DrawingKindView::ParallelChannel { start: a, end, offset } => DrawingKindView::ParallelChannel {
            start: sp(a),
            end: sp(end),
            offset: sp(offset),
        },
        DrawingKindView::FibRetracement { start: a, end } => DrawingKindView::FibRetracement {
            start: sp(a),
            end: sp(end),
        },
        DrawingKindView::FibExtension { start: a, end, projection } => DrawingKindView::FibExtension {
            start: sp(a),
            end: sp(end),
            projection: sp(projection),
        },
        DrawingKindView::Text { at, text } => DrawingKindView::Text { at: sp(at), text },
        DrawingKindView::Brush { points } => DrawingKindView::Brush { points: points.map_values(sp) },
    }
}

/// Drag a drawing by the move from `start` to `current`.
pub fn translate_kind(kind: &DrawingKind, start: DrawingPoint, current: DrawingPoint) -> (r: DrawingKind)
    ensures
        r@ == translate_spec(kind@, start, current),
{
    let dp = sat_sub_i64(current.price.units, start.price.units);
    let dx = drawing_x_delta(start.x, current.x);
    match kind {
        DrawingKind::TrendLine { start: a, end } => DrawingKind::TrendLine {
            start: shift_point(*a, dx, dp),
            end: shift_point(*end, dx, dp),
        },
        DrawingKind::Ray { start: a, through } => DrawingKind::Ray {
            start: shift_point(*a, dx, dp),
            through: shift_point(*through, dx, dp),
        },
        DrawingKind::HorizontalLine { price } => DrawingKind::HorizontalLine {
            price: Price { units: sat_add_i64(price.units, dp) },
        },
        DrawingKind::HorizontalRay { start: a, price } => DrawingKind::HorizontalRay {
            start: shift_x(*a, dx),
            price: Price { units: sat_add_i64(price.units, dp) },
        },
        DrawingKind::VerticalLine { x } => DrawingKind::VerticalLine { x: shift_x(*x, dx) },
        DrawingKind::Rectangle { start: a, end } => DrawingKind::Rectangle {
            start: shift_point(*a, dx, dp),
            end: shift_point(*end, dx, dp),
        },
        DrawingKind::ParallelChannel { start: a, end, offset } => DrawingKind::ParallelChannel {
            start: shift_point(*a, dx, dp),
            end: shift_point(*end, dx, dp),
            offset: shift_point(*offset, dx, dp),
        },
        DrawingKind::FibRetracement { start: a, end } => DrawingKind::FibRetracement {
            start: shift_point(*a, dx, dp),
            end: shift_point(*end, dx, dp),
        },
        DrawingKind::FibExtension { start: a, end, projection } => DrawingKind::FibExtension {
            start: shift_point(*a, dx, dp),
            end: shift_point(*end, dx, dp),
            projection: shift_point(*projection, dx, dp),
        },
        DrawingKind::Text { at, text } => DrawingKind::Text { at: shift_point(*at, dx, dp), text: text.clone() },
        DrawingKind::Brush { points } => {
            let ghost sp = |q: DrawingPoint| shift_point_spec(q, dx, dp);
            let mut moved: Vec<DrawingPoint> = Vec::new();
            let mut i: usize = 0;
            while i < points.len()
                invariant
                    i <= points@.len(),
                    moved@.len() == i,
                    forall|k: int| 0 <= k < i ==> #[trigger] moved@[k] == shift_point_spec(points@[k], dx, dp),
                decreases points@.len() - i,
            {
                moved.push(shift_point(points[i], dx, dp));
                i = i + 1;
            }
            proof {
                assert(moved@ =~= points@.map_values(sp));
            }
            DrawingKind::Brush { points: moved }
        },
    }
}

/// Resizing moves exactly the grabbed handle: the control points afterwards
/// are the old ones with handle `index` replaced by the new point.
pub proof fn law_resize_moves_only_target(k: DrawingKindView, index: nat, p: DrawingPoint)
    requires
        index < control_points_spec(k).len(),
    ensures
        control_points_spec(replace_control_point_spec(k, index, p)) == control_points_spec(k).update(
            index as int,
            p,
        ),
{
    let a = control_points_spec(replace_control_point_spec(k, index, p));
    let b = control_points_spec(k).update(index as int, p);
    match k {
        DrawingKindView::Brush { points } => {
            let q = if index == 0 {
                points.update(0, p)
            } else {
                points.update(points.len() - 1, p)
            };
            assert(q.len() == points.len());
            assert(a =~= b);
        },
        _ => {
            assert(a =~= b);
        },
    }
}

/// A drag that ends where it started leaves the drawing unchanged.
pub proof fn law_drag_in_place_is_identity(k: DrawingKindView, at: DrawingPoint)
    ensures
        translate_spec(k, at, at) == k,
{
    let sp = |q: DrawingPoint| shift_point_spec(q, 0, 0);
    assert(forall|q: DrawingPoint| #[trigger] sp(q) == q);
    match k {
        DrawingKindView::Brush { points } => {
            assert(points.map_values(sp) =~= points);
        },
        _ => {},
    }
}

/// The horizontal move from `a` to `b`, unsaturated: the difference of two
/// times or of two bar indices, 0 when they differ in kind.
pub open spec fn x_move(a: DrawingX, b: DrawingX) -> int {
    match (a, b) {
        (DrawingX::Time(s), DrawingX::Time(t)) => t.ms - s.ms,
        (DrawingX::Tick(s), DrawingX::Tick(t)) => t - s,
        _ => 0,
    }
}

/// `x` moved by `dx` stays a valid time or bar index.
pub open spec fn x_shift_exact(x: DrawingX, dx: int) -> bool {
    match x {
        DrawingX::Time(t) => 0 <= t.ms + dx <= u64::MAX,
        DrawingX::Tick(i) => 0 <= i + dx <= u64::MAX,
    }
}

/// `p` moved by `dx` and `dp` needs no saturation.
pub open spec fn point_shift_exact(p: DrawingPoint, dx: int, dp: int) -> bool {
    x_shift_exact(p.x, dx) && i64::MIN <= p.price.units + dp <= i64::MAX
}

/// Every coordinate of the drawing moved by `dx` and `dp` needs no saturation.
pub open spec fn drag_exact(k: DrawingKindView, dx: int, dp: int) -> bool {
    let ok = |q: DrawingPoint| point_shift_exact(q, dx, dp);
    match k {
        DrawingKindView::TrendLine { start, end } => ok(start) && ok(end),
        DrawingKindView::Ray { start, through } => ok(start) && ok(through),
        DrawingKindView::HorizontalLine { price } => i64::MIN <= price.units + dp <= i64::MAX,
        DrawingKindView::HorizontalRay { start, price } => x_shift_exact(start, dx) && i64::MIN
            <= price.units + dp <= i64::MAX,
        DrawingKindView::VerticalLine { x } => x_shift_exact(x, dx),
        DrawingKindView::Rectangle { start, end } => ok(start) && ok(end),
        DrawingKindView::ParallelChannel { start, end, offset } => ok(start) && ok(end) && ok(offset),
        DrawingKindView::FibRetracement { start, end } => ok(start) && ok(end),
        DrawingKindView::FibExtension { start, end, projection } => ok(start) && ok(end) && ok(
            projection,
        ),
        DrawingKindView::Text { at, text } => ok(at),
        DrawingKindView::Brush { points } => forall|i: int|
            0 <= i < points.len() ==> point_shift_exact(#[trigger] points[i], dx, dp),
    }
}

proof fn lemma_x_shift_back(x: DrawingX, dx: i64)
    requires
        x_shift_exact(x, dx as int),
        dx > i64::MIN,
    ensures
        shift_x_spec(shift_x_spec(x, dx), -dx as i64) == x,
{
}

proof fn lemma_point_shift_back(p: DrawingPoint, dx: i64, dp: i64)
    requires
        point_shift_exact(p, dx as int, dp as int),
        dx > i64::MIN,
        dp > i64::MIN,
    ensures
        shift_point_spec(shift_point_spec(p, dx, dp), -dx as i64, -dp as i64) == p,
{
    lemma_x_shift_back(p.x, dx);
}

/// Dragging a drawing by the move from `start` to `current` and then back
/// from `current` to `start` gives the drawing back, whenever neither move
/// nor any moved coordinate has to saturate.
pub proof fn law_drag_there_and_back(k: DrawingKindView, start: DrawingPoint, current: DrawingPoint)
    requires
        i64::MIN < x_move(start.x, current.x) <= i64::MAX,
        i64::MIN < current.price.units - start.price.units <= i64::MAX,
        drag_exact(k, x_move(start.x, current.x), current.price.units - start.price.units),
    ensures
        translate_spec(translate_spec(k, start, current), current, start) == k,
{
    let dx = x_delta_spec(start.x, current.x);
    let dp = clamp_i64(current.price.units - start.price.units);
    assert(dx == x_move(start.x, current.x));
    assert(x_delta_spec(current.x, start.x) == -dx);
    assert(clamp_i64(start.price.units - current.price.units) == -dp);
    let there = |q: DrawingPoint| shift_point_spec(q, dx, dp);
    let back = |q: DrawingPoint| shift_point_spec(q, -dx as i64, -dp as i64);
    assert forall|q: DrawingPoint| point_shift_exact(q, dx as int, dp as int) implies #[trigger] back(
        there(q),
    ) == q by {
        lemma_point_shift_back(q, dx, dp);
    }
    match k {
        DrawingKindView::HorizontalRay { start: a, price } => {
            lemma_x_shift_back(a, dx);
        },
        DrawingKindView::VerticalLine { x } => {
            lemma_x_shift_back(x, dx);
        },
        DrawingKindView::Brush { points } => {
            assert(points.map_values(there).map_values(back) =~= points) by {
                assert forall|i: int| 0 <= i < points.len() implies points.map_values(there).map_values(
                    back,
                )[i] == #[trigger] points[i] by {
                    assert(point_shift_exact(points[i], dx as int, dp as int));
                    assert(back(there(points[i])) == points[i]);
                }
            }
        },
        _ => {},
    }
}

/// A toolbar button.
#[derive(Debug, Clone, Copy, PartialEq, Eq, Structural)]
pub enum ToolbarAction {
    Tool(DrawingTool),
    Undo,
    Redo,
    Delete,
    Lock,
    Hide,
    Magnet,
}

/// The caption of each toolbar button; the magnet button shows its mode.
pub open spec fn action_label(a: ToolbarAction, magnet: MagnetMode) -> Seq<char> {
    match a {
        ToolbarAction::Tool(t) => tool_label(t),
        ToolbarAction::Undo => "UNDO"@,
        ToolbarAction::Redo => "REDO"@,
        ToolbarAction::Delete => "DEL"@,
        ToolbarAction::Lock => "LOCK"@,
        ToolbarAction::Hide => "HIDE"@,
        ToolbarAction::Magnet => match magnet {
            MagnetMode::Off => "MAG0"@,
            MagnetMode::Weak => "MAG1"@,
            MagnetMode::Strong => "MAG2"@,
        },
    }
}

impl ToolbarAction {
    pub fn label(self, magnet: MagnetMode) -> (r: &'static str)
        ensures
            r@ == action_label(self, magnet),
    {
        match self {
            ToolbarAction::Tool(t) => t.label(),
            ToolbarAction::Undo => "UNDO",
            ToolbarAction::Redo => "REDO",
            ToolbarAction::Delete => "DEL",
            ToolbarAction::Lock => "LOCK",
            ToolbarAction::Hide => "HIDE",
            ToolbarAction::Magnet => match magnet {
                MagnetMode::Off => "MAG0",
                MagnetMode::Weak => "MAG1",
                MagnetMode::Strong => "MAG2",
            },
        }
    }
}

/// The toolbar from top to bottom: every tool, then the commands.
pub open spec fn toolbar_actions_spec() -> Seq<ToolbarAction> {
    all_tools().map_values(|t: DrawingTool| ToolbarAction::Tool(t)) + seq![
        ToolbarAction::Undo,
        ToolbarAction::Redo,
        ToolbarAction::Delete,
        ToolbarAction::Lock,
        ToolbarAction::Hide,
        ToolbarAction::Magnet,
    ]
}

pub fn toolbar_actions() -> (r: Vec<ToolbarAction>)
    ensures
        r@ == toolbar_actions_spec(),
{
    let tools = DrawingTool::all();
    let mut out: Vec<ToolbarAction> = Vec::new();
    let mut i: usize = 0;
    while i < tools.len()
        invariant
            i <= tools@.len(),
            tools@ == all_tools(),
            out@ == tools@.take(i as int).map_values(|t: DrawingTool| ToolbarAction::Tool(t)),
        decreases tools@.len() - i,
    {
        out.push(ToolbarAction::Tool(tools[i]));
        i = i + 1;
        proof {
            assert(out@ =~= tools@.take(i as int).map_values(|t: DrawingTool| ToolbarAction::Tool(t)));
        }
    }
    out.push(ToolbarAction::Undo);
    out.push(ToolbarAction::Redo);
    out.push(ToolbarAction::Delete);
    out.push(ToolbarAction::Lock);
    out.push(ToolbarAction::Hide);
    out.push(ToolbarAction::Magnet);
    proof {
        assert(tools@.take(i as int) == tools@);
        assert(out@ =~= toolbar_actions_spec());
    }
    out
}

/// The magnet button cycles off, weak, strong.
pub open spec fn next_magnet(m: MagnetMode) -> MagnetMode {
    match m {
        MagnetMode::Off => MagnetMode::Weak,
        MagnetMode::Weak => MagnetMode::Strong,
        MagnetMode::Strong => MagnetMode::Off,
    }
}

/// A drawing under construction.
#[derive(Debug)]
pub enum Draft {
    Points { tool: DrawingTool, points: Vec<DrawingPoint> },
    Brush(Vec<DrawingPoint>),
    Text { at: DrawingPoint, text: String },
}

pub enum DraftView {
    Points { tool: DrawingTool, points: Seq<DrawingPoint> },
    Brush(Seq<DrawingPoint>),
    Text { at: DrawingPoint, text: Seq<char> },
}

impl View for Draft {
    type V = DraftView;

    open spec fn view(&self) -> DraftView {
        match self {
            Draft::Points { tool, points } => DraftView::Points { tool: *tool, points: points@ },
            Draft::Brush(points) => DraftView::Brush(points@),
            Draft::Text { at, text } => DraftView::Text { at: *at, text: text@ },
        }
    }
}

pub open spec fn draft_view(d: Option<Draft>) -> Option<DraftView> {
    match d {
        Some(x) => Some(x@),
        None => None,
    }
}

/// A drawing being dragged from `start` to `current`.
#[derive(Debug)]
pub struct DragPreview {
    pub id: DrawingId,
    pub start: DrawingPoint,
    pub current: DrawingPoint,
    pub original: DrawingKind,
}

pub struct DragView {
    pub id: DrawingId,
    pub start: DrawingPoint,
    pub current: DrawingPoint,
    pub original: DrawingKindView,
}

/// A drawing being resized by one of its handles.
#[derive(Debug)]
pub struct ResizePreview {
    pub id: DrawingId,
    pub control_index: usize,
    pub current: DrawingPoint,
    pub original: DrawingKind,
}

pub struct ResizeView {
    pub id: DrawingId,
    pub control_index: usize,
    pub current: DrawingPoint,
    pub original: DrawingKindView,
}

pub open spec fn drag_view(d: Option<DragPreview>) -> Option<DragView> {
    match d {
        Some(g) => Some(DragView { id: g.id, start: g.start, current: g.current, original: g.original@ }),
        None => None,
    }
}

pub open spec fn resize_view(d: Option<ResizePreview>) -> Option<ResizeView> {
    match d {
        Some(g) => Some(
            ResizeView { id: g.id, control_index: g.control_index, current: g.current, original: g.original@ },
        ),
        None => None,
    }
}

/// What the chart should do after an input event.
#[derive(Debug, Clone, Copy, PartialEq, Eq, Structural)]
pub enum OverlayOutcome {
    /// The event was not for the overlay.
    Ignored,
    /// Captured; redraw.
    Redraw,
    /// Captured; redraw and save the drawings.
    Persist,
}

/// A key press as the overlay distinguishes it.
#[derive(Debug)]
pub enum OverlayKey {
    Enter,
    Escape,
    Backspace,
    Delete,
    Character(String),
    Other,
}

pub enum OverlayKeyView {
    Enter,
    Escape,
    Backspace,
    Delete,
    Character(Seq<char>),
    Other,
}

impl View for OverlayKey {
    type V = OverlayKeyView;

    open spec fn view(&self) -> OverlayKeyView {
        match self {
            OverlayKey::Enter => OverlayKeyView::Enter,
            OverlayKey::Escape => OverlayKeyView::Escape,
            OverlayKey::Backspace => OverlayKeyView::Backspace,
            OverlayKey::Delete => OverlayKeyView::Delete,
            OverlayKey::Character(s) => OverlayKeyView::Character(s@),
            OverlayKey::Other => OverlayKeyView::Other,
        }
    }
}

#[derive(Debug, Clone, Copy, PartialEq, Eq, Structural)]
pub struct KeyModifiers {
    pub control: bool,
    pub alt: bool,
    pub logo: bool,
}

/// A bar's prices, the magnet's targets.
#[derive(Debug, Clone, Copy, PartialEq, Eq, Structural)]
pub struct OhlcPrices {
    pub open: Price,
    pub high: Price,
    pub low: Price,
    pub close: Price,
}

/// Everything the overlay's decisions depend on.
pub struct OverlayModel {
    pub history: StoreHistory,
    pub tool: DrawingTool,
    pub magnet: MagnetMode,
    pub draft: Option<DraftView>,
    pub drag: Option<DragView>,
    pub resize: Option<ResizeView>,
}

pub open spec fn with_history(m: OverlayModel, h: StoreHistory) -> OverlayModel {
    OverlayModel { history: h, ..m }
}

/// Choosing a tool abandons any drawing, drag or resize in progress.
pub open spec fn tool_selected(m: OverlayModel, t: DrawingTool) -> OverlayModel {
    OverlayModel { tool: t, draft: None, drag: None, resize: None, ..m }
}

/// The history with a new selection (selection records no undo step).
pub open spec fn select_history(h: StoreHistory, sel: Option<DrawingId>) -> StoreHistory {
    StoreHistory { current: StoreView { selected: sel, ..h.current }, ..h }
}

/// The history after replacing the geometry of a drawing, which only
/// happens for a present, unlocked one.
pub open spec fn replace_history(h: StoreHistory, id: DrawingId, kind: DrawingKindView) -> StoreHistory {
    let s = h.current.drawings;
    let p = first_position(s, id);
    if has_drawing(s, id) && !s[p].locked {
        recorded(h, view_with_drawing(h.current, p, DrawingView { kind, ..s[p] }))
    } else {
        h
    }
}

/// Delete the selected drawing, if there is one.
pub open spec fn delete_selected_step(m: OverlayModel) -> (OverlayModel, OverlayOutcome) {
    let h = m.history;
    let s = h.current.drawings;
    match h.current.selected {
        Some(id) => if has_drawing(s, id) {
            (with_history(m, recorded(h, view_after_delete(h.current, id, first_position(s, id)))), OverlayOutcome::Persist)
        } else {
            (m, OverlayOutcome::Redraw)
        },
        None => (m, OverlayOutcome::Redraw),
    }
}

/// Flip the lock (or the hidden flag) of the selected drawing.
pub open spec fn toggle_selected_step(m: OverlayModel, lock: bool) -> (OverlayModel, OverlayOutcome) {
    let h = m.history;
    let s = h.current.drawings;
    match h.current.selected {
        Some(id) => if has_drawing(s, id) {
            let p = first_position(s, id);
            let d = s[p];
            let flipped = if lock {
                DrawingView { locked: !d.locked, ..d }
            } else {
                DrawingView { hidden: !d.hidden, ..d }
            };
            (with_history(m, recorded(h, view_with_drawing(h.current, p, flipped))), OverlayOutcome::Persist)
        } else {
            (m, OverlayOutcome::Redraw)
        },
        None => (m, OverlayOutcome::Redraw),
    }
}

pub open spec fn undo_step(m: OverlayModel) -> (OverlayModel, OverlayOutcome) {
    if m.history.undo.len() > 0 {
        (with_history(m, undone(m.history)), OverlayOutcome::Persist)
    } else {
        (m, OverlayOutcome::Redraw)
    }
}

pub open spec fn redo_step(m: OverlayModel) -> (OverlayModel, OverlayOutcome) {
    if m.history.redo.len() > 0 {
        (with_history(m, redone(m.history)), OverlayOutcome::Persist)
    } else {
        (m, OverlayOutcome::Redraw)
    }
}

/// A toolbar button press.
pub open spec fn toolbar_step(m: OverlayModel, a: ToolbarAction) -> (OverlayModel, OverlayOutcome) {
    match a {
        ToolbarAction::Tool(t) => (tool_selected(m, t), OverlayOutcome::Redraw),
        ToolbarAction::Undo => undo_step(m),
        ToolbarAction::Redo => redo_step(m),
        ToolbarAction::Delete => delete_selected_step(m),
        ToolbarAction::Lock => toggle_selected_step(m, true),
        ToolbarAction::Hide => toggle_selected_step(m, false),
        ToolbarAction::Magnet => (OverlayModel { magnet: next_magnet(m.magnet), ..m }, OverlayOutcome::Redraw),
    }
}

/// A clicked point for a tool built from points: text starts a text
/// draft; one-point tools build at once; others collect points into a
/// draft of their own and build once there are enough.
pub open spec fn draft_step(draft: Option<DraftView>, tool: DrawingTool, point: DrawingPoint) -> (
    Option<DraftView>,
    Option<DrawingKindView>,
) {
    if tool == DrawingTool::Text {
        (Some(DraftView::Text { at: point, text: Seq::empty() }), None)
    } else if tool_points(tool) == 1 {
        (draft, kind_from_points_spec(tool, seq![point]))
    } else {
        match draft {
            Some(DraftView::Points { tool: t, points }) => if t == tool {
                let ps = points.push(point);
                if ps.len() >= tool_points(tool) {
                    (None, kind_from_points_spec(tool, ps))
                } else {
                    (Some(DraftView::Points { tool, points: ps }), None)
                }
            } else {
                (Some(DraftView::Points { tool, points: seq![point] }), None)
            },
            _ => (Some(DraftView::Points { tool, points: seq![point] }), None),
        }
    }
}

/// A press on the chart at `point`. `control_hit` is the handle of the
/// selected drawing under the cursor, `drawing_hit` the nearest visible
/// drawing under it (both found geometrically by the caller).
pub open spec fn press_step(
    m: OverlayModel,
    point: DrawingPoint,
    control_hit: Option<(DrawingId, usize)>,
    drawing_hit: Option<DrawingId>,
) -> (OverlayModel, OverlayOutcome) {
    let h = m.history;
    let s = h.current.drawings;
    match m.tool {
        DrawingTool::Select => match control_hit {
            Some((id, ci)) => {
                let p = first_position(s, id);
                if has_drawing(s, id) && !s[p].locked {
                    (
                        OverlayModel {
                            resize: Some(ResizeView { id, control_index: ci, current: point, original: s[p].kind }),
                            ..m
                        },
                        OverlayOutcome::Redraw,
                    )
                } else {
                    (m, OverlayOutcome::Redraw)
                }
            },
            None => match drawing_hit {
                Some(id) => {
                    let p = first_position(s, id);
                    if has_drawing(s, id) {
                        let m1 = with_history(m, select_history(h, Some(id)));
                        if !s[p].locked {
                            (
                                OverlayModel {
                                    drag: Some(DragView { id, start: point, current: point, original: s[p].kind }),
                                    ..m1
                                },
                                OverlayOutcome::Redraw,
                            )
                        } else {
                            (m1, OverlayOutcome::Redraw)
                        }
                    } else {
                        (m, OverlayOutcome::Redraw)
                    }
                },
                None => (with_history(m, select_history(h, None)), OverlayOutcome::Redraw),
            },
        },
        DrawingTool::Brush => (OverlayModel { draft: Some(DraftView::Brush(seq![point])), ..m }, OverlayOutcome::Redraw),
        t => {
            let (d, k) = draft_step(m.draft, t, point);
            match k {
                Some(kind) => (OverlayModel { draft: d, history: store_after_add(h, kind), ..m }, OverlayOutcome::Persist),
                None => (OverlayModel { draft: d, ..m }, OverlayOutcome::Redraw),
            }
        },
    }
}

/// The cursor moved to `point`: a resize, else a drag, else a brush
/// stroke follows it.
pub open spec fn cursor_step(m: OverlayModel, point: DrawingPoint) -> (OverlayModel, OverlayOutcome) {
    match m.resize {
        Some(r) => (OverlayModel { resize: Some(ResizeView { current: point, ..r }), ..m }, OverlayOutcome::Redraw),
        None => match m.drag {
            Some(g) => (OverlayModel { drag: Some(DragView { current: point, ..g }), ..m }, OverlayOutcome::Redraw),
            None => match m.draft {
                Some(DraftView::Brush(ps)) => (
                    OverlayModel { draft: Some(DraftView::Brush(ps.push(point))), ..m },
                    OverlayOutcome::Redraw,
                ),
                _ => (m, OverlayOutcome::Ignored),
            },
        },
    }
}

/// The button was released: a resize or drag is committed (and saved),
/// else the draft is taken and a brush stroke of two or more points added.
pub open spec fn release_step(m: OverlayModel) -> (OverlayModel, OverlayOutcome) {
    let h = m.history;
    match m.resize {
        Some(r) => (
            OverlayModel {
                resize: None,
                history: replace_history(h, r.id, replace_control_point_spec(r.original, r.control_index as nat, r.current)),
                ..m
            },
            OverlayOutcome::Persist,
        ),
        None => match m.drag {
            Some(g) => (
                OverlayModel {
                    drag: None,
                    history: replace_history(h, g.id, translate_spec(g.original, g.start, g.current)),
                    ..m
                },
                OverlayOutcome::Persist,
            ),
            None => {
                let m1 = OverlayModel { draft: None, ..m };
                match m.draft {
                    Some(DraftView::Brush(ps)) => if ps.len() >= 2 {
                        (with_history(m1, store_after_add(h, DrawingKindView::Brush { points: ps })), OverlayOutcome::Persist)
                    } else {
                        (m1, OverlayOutcome::Redraw)
                    },
                    _ => (m1, OverlayOutcome::Ignored),
                }
            },
        },
    }
}

/// A key press that is not text input.
pub open spec fn command_key_step(m: OverlayModel, key: OverlayKeyView, mods: KeyModifiers) -> (OverlayModel, OverlayOutcome) {
    match key {
        OverlayKeyView::Escape => (tool_selected(m, DrawingTool::Select), OverlayOutcome::Redraw),
        OverlayKeyView::Delete | OverlayKeyView::Backspace => delete_selected_step(m),
        OverlayKeyView::Character(c) => if c == "z"@ && mods.control {
            undo_step(m)
        } else if c == "y"@ && mods.control {
            redo_step(m)
        } else {
            (m, OverlayOutcome::Ignored)
        },
        _ => (m, OverlayOutcome::Ignored),
    }
}

/// A key press: typed into a text draft first, otherwise a command.
pub open spec fn key_step(m: OverlayModel, key: OverlayKeyView, mods: KeyModifiers) -> (OverlayModel, OverlayOutcome) {
    match m.draft {
        Some(DraftView::Text { at, text }) => match key {
            OverlayKeyView::Enter => {
                let v = crate::text::trim_spec(text);
                let m1 = OverlayModel { draft: None, ..m };
                if v.len() > 0 {
                    (with_history(m1, store_after_add(m.history, DrawingKindView::Text { at, text: v })), OverlayOutcome::Persist)
                } else {
                    (m1, OverlayOutcome::Redraw)
                }
            },
            OverlayKeyView::Escape => (OverlayModel { draft: None, ..m }, OverlayOutcome::Redraw),
            OverlayKeyView::Backspace => (
                OverlayModel {
                    draft: Some(DraftView::Text { at, text: if text.len() > 0 { text.drop_last() } else { text } }),
                    ..m
                },
                OverlayOutcome::Redraw,
            ),
            OverlayKeyView::Character(c) => if !mods.control && !mods.logo && !mods.alt {
                (OverlayModel { draft: Some(DraftView::Text { at, text: text + c }), ..m }, OverlayOutcome::Redraw)
            } else {
                command_key_step(m, key, mods)
            },
            _ => command_key_step(m, key, mods),
        },
        _ => command_key_step(m, key, mods),
    }
}

/// The market point under the cursor: its bar and price, the price pulled
/// to the bar's prices by the magnet when it is on.
pub open spec fn market_point_spec(
    magnet: MagnetMode,
    interval: u64,
    price: Price,
    bar: Option<OhlcPrices>,
    tick: PriceStep,
    time_based: bool,
) -> DrawingPoint {
    let snapped = match bar {
        Some(k) => if magnet != MagnetMode::Off {
            snap_spec(price, seq![k.open, k.high, k.low, k.close], tick, magnet)
        } else {
            price
        },
        None => price,
    };
    DrawingPoint {
        x: if time_based {
            DrawingX::Time(UnixMs { ms: interval })
        } else {
            DrawingX::Tick(interval)
        },
        price: snapped,
    }
}

/// The drawing tools' state over a drawing store: the active tool and
/// magnet, and the drawing, drag or resize in progress.
pub struct DrawingOverlay {
    store: DrawingStore,
    tool: DrawingTool,
    magnet: MagnetMode,
    draft: Option<Draft>,
    drag: Option<DragPreview>,
    resize: Option<ResizePreview>,
    storage_file: String,
}

impl DrawingOverlay {
    pub closed spec fn spec_store(&self) -> DrawingStore {
        self.store
    }

    pub closed spec fn spec_storage_file(&self) -> Seq<char> {
        self.storage_file@
    }

    pub closed spec fn model(&self) -> OverlayModel {
        OverlayModel {
            history: self.store.history(),
            tool: self.tool,
            magnet: self.magnet,
            draft: draft_view(self.draft),
            drag: drag_view(self.drag),
            resize: resize_view(self.resize),
        }
    }

    /// An overlay over a loaded store (normalized), with the select tool,
    /// the magnet off and nothing in progress.
    pub fn new(store: DrawingStore, storage_file: String) -> (r: Self)
        ensures
            r.model().history.current.drawings == store@.drawings,
            r.model().history.current.next_id == next_id_after_load(store@.drawings, store@.next_id),
            r.model().history.current.selected == valid_selection(store@.drawings, store@.selected),
            r.model().history.undo.len() == 0,
            r.model().history.redo.len() == 0,
            r.model().tool == DrawingTool::Select,
            r.model().magnet == MagnetMode::Off,
            r.model().draft.is_none(),
            r.model().drag.is_none(),
            r.model().resize.is_none(),
            r.spec_storage_file() == storage_file@,
    {
        let mut store = store;
        store.normalize_after_load();
        DrawingOverlay {
            store,
            tool: DrawingTool::Select,
            magnet: MagnetMode::Off,
            draft: None,
            drag: None,
            resize: None,
            storage_file,
        }
    }

    pub fn store(&self) -> (r: &DrawingStore)
        ensures
            *r == self.spec_store(),
            r.history() == self.model().history,
    {
        &self.store
    }

    pub fn tool(&self) -> (r: DrawingTool)
        ensures
            r == self.model().tool,
    {
        self.tool
    }

    pub fn magnet(&self) -> (r: MagnetMode)
        ensures
            r == self.model().magnet,
    {
        self.magnet
    }

    pub fn draft(&self) -> (r: &Option<Draft>)
        ensures
            draft_view(*r) == self.model().draft,
    {
        &self.draft
    }

    pub fn storage_file(&self) -> (r: &str)
        ensures
            r@ == self.spec_storage_file(),
    {
        self.storage_file.as_str()
    }

    /// Choose a tool, abandoning whatever is in progress.
    pub fn set_tool(&mut self, tool: DrawingTool)
        ensures
            final(self).model() == tool_selected(old(self).model(), tool),
            final(self).spec_storage_file() == old(self).spec_storage_file(),
    {
        self.tool = tool;
        self.draft = None;
        self.drag = None;
        self.resize = None;
    }

    /// The market point under the cursor (see `market_point_spec`).
    pub fn market_point(
        &self,
        interval: u64,
        price: Price,
        bar: Option<OhlcPrices>,
        tick: PriceStep,
        time_based: bool,
    ) -> (r: DrawingPoint)
        ensures
            r == market_point_spec(self.model().magnet, interval, price, bar, tick, time_based),
    {
        let snapped = match bar {
            Some(k) => {
                if self.magnet != MagnetMode::Off {
                    crate::drawing::snap_to_ohlc(price, k.open, k.high, k.low, k.close, tick, self.magnet)
                } else {
                    price
                }
            },
            None => price,
        };
        DrawingPoint {
            x: if time_based {
                DrawingX::Time(UnixMs::new(interval))
            } else {
                DrawingX::Tick(interval)
            },
            price: snapped,
        }
    }

    fn delete_selected(&mut self) -> (r: OverlayOutcome)
        ensures
            (final(self).model(), r) == delete_selected_step(old(self).model()),
            final(self).spec_storage_file() == old(self).spec_storage_file(),
    {
        match self.store.selected() {
            Some(id) => {
                if self.store.delete(id) {
                    OverlayOutcome::Persist
                } else {
                    OverlayOutcome::Redraw
                }
            },
            None => OverlayOutcome::Redraw,
        }
    }

    fn toggle_selected(&mut self, lock: bool) -> (r: OverlayOutcome)
        ensures
            (final(self).model(), r) == toggle_selected_step(old(self).model(), lock),
            final(self).spec_storage_file() == old(self).spec_storage_file(),
    {
        match self.store.selected() {
            Some(id) => {
                let flag = match self.store.get(id) {
                    Some(d) => if lock {
                        d.locked
                    } else {
                        d.hidden
                    },
                    None => false,
                };
                let changed = if lock {
                    self.store.set_locked(id, !flag)
                } else {
                    self.store.set_hidden(id, !flag)
                };
                if changed {
                    OverlayOutcome::Persist
                } else {
                    OverlayOutcome::Redraw
                }
            },
            None => OverlayOutcome::Redraw,
        }
    }

    fn undo(&mut self) -> (r: OverlayOutcome)
        ensures
            (final(self).model(), r) == undo_step(old(self).model()),
            final(self).spec_storage_file() == old(self).spec_storage_file(),
    {
        if self.store.undo() {
            OverlayOutcome::Persist
        } else {
            OverlayOutcome::Redraw
        }
    }

    fn redo(&mut self) -> (r: OverlayOutcome)
        ensures
            (final(self).model(), r) == redo_step(old(self).model()),
            final(self).spec_storage_file() == old(self).spec_storage_file(),
    {
        if self.store.redo() {
            OverlayOutcome::Persist
        } else {
            OverlayOutcome::Redraw
        }
    }

    /// A toolbar button was pressed.
    pub fn apply_toolbar_action(&mut self, action: ToolbarAction) -> (r: OverlayOutcome)
        ensures
            (final(self).model(), r) == toolbar_step(old(self).model(), action),
            final(self).spec_storage_file() == old(self).spec_storage_file(),
    {
        match action {
            ToolbarAction::Tool(tool) => {
                self.set_tool(tool);
                OverlayOutcome::Redraw
            },
            ToolbarAction::Undo => self.undo(),
            ToolbarAction::Redo => self.redo(),
            ToolbarAction::Delete => self.delete_selected(),
            ToolbarAction::Lock => self.toggle_selected(true),
            ToolbarAction::Hide => self.toggle_selected(false),
            ToolbarAction::Magnet => {
                self.magnet = match self.magnet {
                    MagnetMode::Off => MagnetMode::Weak,
                    MagnetMode::Weak => MagnetMode::Strong,
                    MagnetMode::Strong => MagnetMode::Off,
                };
                OverlayOutcome::Redraw
            },
        }
    }

    fn add_draft_point(&mut self, tool: DrawingTool, point: DrawingPoint) -> (r: OverlayOutcome)
        requires
            tool != DrawingTool::Select,
            tool != DrawingTool::Brush,
        ensures
            ({
                let (d, k) = draft_step(old(self).model().draft, tool, point);
                let m = old(self).model();
                &&& final(self).model() == match k {
                    Some(kind) => OverlayModel { draft: d, history: store_after_add(m.history, kind), ..m },
                    None => OverlayModel { draft: d, ..m },
                }
                &&& r == if k.is_some() {
                    OverlayOutcome::Persist
                } else {
                    OverlayOutcome::Redraw
                }
            }),
            final(self).spec_storage_file() == old(self).spec_storage_file(),
    {
        if tool == DrawingTool::Text {
            self.draft = Some(Draft::Text { at: point, text: String::new() });
            return OverlayOutcome::Redraw;
        }
        let required = tool.points_required();
        if required == 1 {
            let one = vec![point];
            proof {
                assert(one@ =~= seq![point]);
            }
            return match kind_from_points(tool, one) {
                Some(kind) => {
                    self.store.add(kind);
                    OverlayOutcome::Persist
                },
                None => OverlayOutcome::Redraw,
            };
        }
        let previous = self.draft.take();
        match previous {
            Some(Draft::Points { tool: existing, points }) => {
                if existing == tool {
                    let mut points = points;
                    points.push(point);
                    if points.len() >= required {
                        match kind_from_points(tool, points) {
                            Some(kind) => {
                                self.store.add(kind);
                                OverlayOutcome::Persist
                            },
                            None => OverlayOutcome::Redraw,
                        }
                    } else {
                        self.draft = Some(Draft::Points { tool, points });
                        OverlayOutcome::Redraw
                    }
                } else {
                    let one = vec![point];
                    proof {
                        assert(one@ =~= seq![point]);
                    }
                    self.draft = Some(Draft::Points { tool, points: one });
                    OverlayOutcome::Redraw
                }
            },
            _ => {
                let one = vec![point];
                proof {
                    assert(one@ =~= seq![point]);
                }
                self.draft = Some(Draft::Points { tool, points: one });
                OverlayOutcome::Redraw
            },
        }
    }

    /// A press on the chart (see `press_step`).
    pub fn press(
        &mut self,
        point: DrawingPoint,
        control_hit: Option<(DrawingId, usize)>,
        drawing_hit: Option<DrawingId>,
    ) -> (r: OverlayOutcome)
        ensures
            (final(self).model(), r) == press_step(old(self).model(), point, control_hit, drawing_hit),
            final(self).spec_storage_file() == old(self).spec_storage_file(),
    {
        match self.tool {
            DrawingTool::Select => {
                match control_hit {
                    Some((id, control_index)) => {
                        match self.store.get(id) {
                            Some(d) => {
                                if !d.locked {
                                    self.resize = Some(
                                        ResizePreview { id, control_index, current: point, original: d.kind.duplicate() },
                                    );
                                }
                            },
                            None => {},
                        }
                    },
                    None => {
                        match drawing_hit {
                            Some(id) => {
                                self.store.select(Some(id));
                                match self.store.get(id) {
                                    Some(d) => {
                                        if !d.locked {
                                            self.drag = Some(
                                                DragPreview { id, start: point, current: point, original: d.kind.duplicate() },
                                            );
                                        }
                                    },
                                    None => {},
                                }
                            },
                            None => {
                                self.store.select(None);
                            },
                        }
                    },
                }
                OverlayOutcome::Redraw
            },
            DrawingTool::Brush => {
                let one = vec![point];
                proof {
                    assert(one@ =~= seq![point]);
                }
                self.draft = Some(Draft::Brush(one));
                OverlayOutcome::Redraw
            },
            tool => self.add_draft_point(tool, point),
        }
    }

    /// The cursor moved (see `cursor_step`).
    pub fn cursor_moved(&mut self, point: DrawingPoint) -> (r: OverlayOutcome)
        ensures
            (final(self).model(), r) == cursor_step(old(self).model(), point),
            final(self).spec_storage_file() == old(self).spec_storage_file(),
    {
        match self.resize.take() {
            Some(mut resize) => {
                resize.current = point;
                self.resize = Some(resize);
                return OverlayOutcome::Redraw;
            },
            None => {},
        }
        match self.drag.take() {
            Some(mut drag) => {
                drag.current = point;
                self.drag = Some(drag);
                return OverlayOutcome::Redraw;
            },
            None => {},
        }
        match self.draft.take() {
            Some(Draft::Brush(points)) => {
                let mut points = points;
                points.push(point);
                self.draft = Some(Draft::Brush(points));
                OverlayOutcome::Redraw
            },
            other => {
                self.draft = other;
                OverlayOutcome::Ignored
            },
        }
    }

    /// The button was released (see `release_step`).
    pub fn release(&mut self) -> (r: OverlayOutcome)
        ensures
            (final(self).model(), r) == release_step(old(self).model()),
            final(self).spec_storage_file() == old(self).spec_storage_file(),
    {
        match self.resize.take() {
            Some(resize) => {
                let resized = replace_control_point(&resize.original, resize.control_index, resize.current);
                self.store.replace_kind(resize.id, resized);
                return OverlayOutcome::Persist;
            },
            None => {},
        }
        match self.drag.take() {
            Some(drag) => {
                let shifted = translate_kind(&drag.original, drag.start, drag.current);
                self.store.replace_kind(drag.id, shifted);
                return OverlayOutcome::Persist;
            },
            None => {},
        }
        match self.draft.take() {
            Some(Draft::Brush(points)) => {
                if points.len() >= 2 {
                    self.store.add(DrawingKind::Brush { points });
                    OverlayOutcome::Persist
                } else {
                    OverlayOutcome::Redraw
                }
            },
            _ => OverlayOutcome::Ignored,
        }
    }

    fn command_key(&mut self, key: &OverlayKey, mods: KeyModifiers) -> (r: OverlayOutcome)
        ensures
            (final(self).model(), r) == command_key_step(old(self).model(), key@, mods),
            final(self).spec_storage_file() == old(self).spec_storage_file(),
    {
        match key {
            OverlayKey::Escape => {
                self.set_tool(DrawingTool::Select);
                OverlayOutcome::Redraw
            },
            OverlayKey::Delete | OverlayKey::Backspace => self.delete_selected(),
            OverlayKey::Character(c) => {
                proof {
                    reveal_strlit("z");
                    reveal_strlit("y");
                    assert("z"@ =~= seq!['z']);
                    assert("y"@ =~= seq!['y']);
                }
                if is_single_char(c.as_str(), 'z') && mods.control {
                    self.undo()
                } else if is_single_char(c.as_str(), 'y') && mods.control {
                    self.redo()
                } else {
                    OverlayOutcome::Ignored
                }
            },
            _ => OverlayOutcome::Ignored,
        }
    }

    /// A key press (see `key_step`).
    pub fn key(&mut self, key: &OverlayKey, mods: KeyModifiers) -> (r: OverlayOutcome)
        ensures
            (final(self).model(), r) == key_step(old(self).model(), key@, mods),
            final(self).spec_storage_file() == old(self).spec_storage_file(),
    {
        let previous = self.draft.take();
        match previous {
            Some(Draft::Text { at, text }) => {
                match key {
                    OverlayKey::Enter => {
                        let value = trimmed(text.as_str());
                        if value.unicode_len() > 0 {
                            self.store.add(DrawingKind::Text { at, text: value });
                            OverlayOutcome::Persist
                        } else {
                            OverlayOutcome::Redraw
                        }
                    },
                    OverlayKey::Escape => OverlayOutcome::Redraw,
                    OverlayKey::Backspace => {
                        let n = text.as_str().unicode_len();
                        let kept = if n > 0 {
                            String::from_str(text.as_str().substring_char(0, n - 1))
                        } else {
                            text
                        };
                        proof {
                            if n > 0 {
                                assert(kept@ =~= text@.drop_last());
                            }
                        }
                        self.draft = Some(Draft::Text { at, text: kept });
                        OverlayOutcome::Redraw
                    },
                    OverlayKey::Character(c) => {
                        if !mods.control && !mods.logo && !mods.alt {
                            let mut typed = text;
                            typed.append(c.as_str());
                            self.draft = Some(Draft::Text { at, text: typed });
                            OverlayOutcome::Redraw
                        } else {
                            self.draft = Some(Draft::Text { at, text });
                            self.command_key(key, mods)
                        }
                    },
                    _ => {
                        self.draft = Some(Draft::Text { at, text });
                        self.command_key(key, mods)
                    },
                }
            },
            other => {
                self.draft = other;
                self.command_key(key, mods)
            },
        }
    }

    /// The drawing a resize in progress would give.
    pub fn resize_preview(&self) -> (r: Option<DrawingKind>)
        ensures
            match self.model().resize {
                None => r.is_none(),
                Some(v) => r.is_some() && r.unwrap()@ == replace_control_point_spec(
                    v.original,
                    v.control_index as nat,
                    v.current,
                ),
            },
    {
        match &self.resize {
            Some(resize) => Some(replace_control_point(&resize.original, resize.control_index, resize.current)),
            None => None,
        }
    }

    /// The drawing a drag in progress would give.
    pub fn drag_preview(&self) -> (r: Option<DrawingKind>)
        ensures
            match self.model().drag {
                None => r.is_none(),
                Some(v) => r.is_some() && r.unwrap()@ == translate_spec(v.original, v.start, v.current),
            },
    {
        match &self.drag {
            Some(drag) => Some(translate_kind(&drag.original, drag.start, drag.current)),
            None => None,
        }
    }
}

/// `s` is the one-character text `c`.
fn is_single_char(s: &str, c: char) -> (r: bool)
    ensures
        r == (s@ == seq![c]),
{
    let n = s.unicode_len();
    if n != 1 {
        return false;
    }
    let first = s.get_char(0);
    proof {
        if first == c {
            assert(s@ =~= seq![c]);
        }
    }
    first == c
}

/// An ASCII letter or digit.
pub open spec fn ascii_alphanumeric(c: char) -> bool {
    ||| ('0' <= c && c <= '9')
    ||| ('a' <= c && c <= 'z')
    ||| ('A' <= c && c <= 'Z')
}

/// The text with every character other than an ASCII letter or digit
/// replaced by `_`.
pub open spec fn file_safe(s: Seq<char>) -> Seq<char> {
    s.map_values(|c: char| if ascii_alphanumeric(c) { c } else { '_' })
}

/// Where the drawings of a chart are kept.
pub open spec fn storage_file_spec(symbol_and_exchange: Seq<char>, basis: Seq<char>) -> Seq<char> {
    "drawings/"@ + file_safe(symbol_and_exchange + "-"@ + basis) + ".json"@
}

fn is_ascii_alphanumeric(c: char) -> (r: bool)
    ensures
        r == ascii_alphanumeric(c),
{
    ('0' <= c && c <= '9') || ('a' <= c && c <= 'z') || ('A' <= c && c <= 'Z')
}

/// The drawings file of a chart, from its ticker (symbol and exchange) and
/// its basis, both as displayed.
pub fn storage_file(symbol_and_exchange: &str, basis: &str) -> (r: String)
    ensures
        r@ == storage_file_spec(symbol_and_exchange@, basis@),
{
    let mut raw = String::from_str(symbol_and_exchange);
    raw.append("-");
    raw.append(basis);
    let n = raw.as_str().unicode_len();
    let mut out = String::from_str("drawings/");
    let ghost prefix = out@;
    let mut i: usize = 0;
    while i < n
        invariant
            n == raw@.len(),
            i <= n,
            out@ == prefix + file_safe(raw@.take(i as int)),
        decreases n - i,
    {
        let c = raw.as_str().get_char(i);
        if is_ascii_alphanumeric(c) {
            out.append(raw.as_str().substring_char(i, i + 1));
        } else {
            out.append("_");
        }
        proof {
            reveal_strlit("_");
            assert(raw@.subrange(i as int, i + 1) =~= seq![c]);
            assert("_"@ =~= seq!['_']);
            assert(file_safe(raw@.take(i + 1)) =~= file_safe(raw@.take(i as int)).push(
                if ascii_alphanumeric(c) { c } else { '_' },
            ));
        }
        i = i + 1;
    }
    out.append(".json");
    proof {
        assert(raw@.take(n as int) =~= raw@);
    }
    out
}

} // verus!
