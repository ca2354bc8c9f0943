//! Chart drawings: their geometry, a store with selection, locking, hiding
//! and undo/redo history, and price magnets.
use vstd::prelude::*;

use crate::unit::{Price, PriceStep, UnixMs, clamp_i64, clamp_u64};

verus! {

pub type DrawingId = u64;

/// Horizontal position of a drawing point: a time or a bar index.
#[derive(Debug, Clone, Copy, PartialEq, Eq, Structural)]
pub enum DrawingX {
    Time(UnixMs),
    Tick(u64),
}

#[derive(Debug, Clone, Copy, PartialEq, Eq, Structural)]
pub struct DrawingPoint {
    pub x: DrawingX,
    pub price: Price,
}

impl DrawingPoint {
    pub fn time(time: UnixMs, price: Price) -> (r: Self)
        ensures
            r == (DrawingPoint { x: DrawingX::Time(time), price }),
    {
        DrawingPoint { x: DrawingX::Time(time), price }
    }

    pub fn tick(index: u64, price: Price) -> (r: Self)
        ensures
            r == (DrawingPoint { x: DrawingX::Tick(index), price }),
    {
        DrawingPoint { x: DrawingX::Tick(index), price }
    }
}

#[derive(Debug)]
pub enum DrawingKind {
    TrendLine { start: DrawingPoint, end: DrawingPoint },
    Ray { start: DrawingPoint, through: DrawingPoint },
    HorizontalLine { price: Price },
    HorizontalRay { start: DrawingX, price: Price },
    VerticalLine { x: DrawingX },
    Rectangle { start: DrawingPoint, end: DrawingPoint },
    ParallelChannel { start: DrawingPoint, end: DrawingPoint, offset: DrawingPoint },
    FibRetracement { start: DrawingPoint, end: DrawingPoint },
    FibExtension { start: DrawingPoint, end: DrawingPoint, projection: DrawingPoint },
    Text { at: DrawingPoint, text: String },
    Brush { points: Vec<DrawingPoint> },
}

/// A drawing kind with its text and points as sequences.
pub enum DrawingKindView {
    TrendLine { start: DrawingPoint, end: DrawingPoint },
    Ray { start: DrawingPoint, through: DrawingPoint },
    HorizontalLine { price: Price },
    HorizontalRay { start: DrawingX, price: Price },
    VerticalLine { x: DrawingX },
    Rectangle { start: DrawingPoint, end: DrawingPoint },
    ParallelChannel { start: DrawingPoint, end: DrawingPoint, offset: DrawingPoint },
    FibRetracement { start: DrawingPoint, end: DrawingPoint },
    FibExtension { start: DrawingPoint, end: DrawingPoint, projection: DrawingPoint },
    Text { at: DrawingPoint, text: Seq<char> },
    Brush { points: Seq<DrawingPoint> },
}

impl View for DrawingKind {
    type V = DrawingKindView;

    open spec fn view(&self) -> DrawingKindView {
        match self {
            DrawingKind::TrendLine { start, end } => DrawingKindView::TrendLine { start: *start, end: *end },
            DrawingKind::Ray { start, through } => DrawingKindView::Ray { start: *start, through: *through },
            DrawingKind::HorizontalLine { price } => DrawingKindView::HorizontalLine { price: *price },
            DrawingKind::HorizontalRay { start, price } => DrawingKindView::HorizontalRay {
                start: *start,
                price: *price,
            },
            DrawingKind::VerticalLine { x } => DrawingKindView::VerticalLine { x: *x },
            DrawingKind::Rectangle { start, end } => DrawingKindView::Rectangle { start: *start, end: *end },
            DrawingKind::ParallelChannel { start, end, offset } => DrawingKindView::ParallelChannel {
                start: *start,
                end: *end,
                offset: *offset,
            },
            DrawingKind::FibRetracement { start, end } => DrawingKindView::FibRetracement {
                start: *start,
                end: *end,
            },
            DrawingKind::FibExtension { start, end, projection } => DrawingKindView::FibExtension {
                start: *start,
                end: *end,
                projection: *projection,
            },
            DrawingKind::Text { at, text } => DrawingKindView::Text { at: *at, text: text@ },
            DrawingKind::Brush { points } => DrawingKindView::Brush { points: points@ },
        }
    }
}

fn copy_points(points: &Vec<DrawingPoint>) -> (r: Vec<DrawingPoint>)
    ensures
        r@ == points@,
{
    let mut out: Vec<DrawingPoint> = Vec::new();
    let mut i: usize = 0;
    while i < points.len()
        invariant
            i <= points@.len(),
            out@ == points@.take(i as int),
        decreases points@.len() - i,
    {
        out.push(points[i]);
        i = i + 1;
        proof {
            assert(out@ == points@.take(i as int));
        }
    }
    proof {
        assert(points@.take(i as int) == points@);
    }
    out
}

impl DrawingKind {
    /// A copy with equal contents.
    pub fn duplicate(&self) -> (r: Self)
        ensures
            r@ == self@,
    {
        match self {
            DrawingKind::TrendLine { start, end } => DrawingKind::TrendLine { start: *start, end: *end },
            DrawingKind::Ray { start, through } => DrawingKind::Ray { start: *start, through: *through },
            DrawingKind::HorizontalLine { price } => DrawingKind::HorizontalLine { price: *price },
            DrawingKind::HorizontalRay { start, price } => DrawingKind::HorizontalRay {
                start: *start,
                price: *price,
            },
            DrawingKind::VerticalLine { x } => DrawingKind::VerticalLine { x: *x },
            DrawingKind::Rectangle { start, end } => DrawingKind::Rectangle { start: *start, end: *end },
            DrawingKind::ParallelChannel { start, end, offset } => DrawingKind::ParallelChannel {
                start: *start,
                end: *end,
                offset: *offset,
            },
            DrawingKind::FibRetracement { start, end } => DrawingKind::FibRetracement {
                start: *start,
                end: *end,
            },
            DrawingKind::FibExtension { start, end, projection } => DrawingKind::FibExtension {
                start: *start,
                end: *end,
                projection: *projection,
            },
            DrawingKind::Text { at, text } => DrawingKind::Text { at: *at, text: text.clone() },
            DrawingKind::Brush { points } => DrawingKind::Brush { points: copy_points(points) },
        }
    }
}

#[derive(Debug)]
pub struct Drawing {
    pub id: DrawingId,
    pub kind: DrawingKind,
    pub locked: bool,
    pub hidden: bool,
}

pub struct DrawingView {
    pub id: DrawingId,
    pub kind: DrawingKindView,
    pub locked: bool,
    pub hidden: bool,
}

impl View for Drawing {
    type V = DrawingView;

    open spec fn view(&self) -> DrawingView {
        DrawingView { id: self.id, kind: self.kind@, locked: self.locked, hidden: self.hidden }
    }
}

impl Drawing {
    /// A copy with equal contents.
    pub fn duplicate(&self) -> (r: Self)
        ensures
            r@ == self@,
    {
        Drawing { id: self.id, kind: self.kind.duplicate(), locked: self.locked, hidden: self.hidden }
    }
}

pub open spec fn drawings_view(s: Seq<Drawing>) -> Seq<DrawingView> {
    s.map_values(|d: Drawing| d@)
}

/// The contents of a store: drawings, selection and the next id to hand out.
pub struct StoreView {
    pub drawings: Seq<DrawingView>,
    pub selected: Option<DrawingId>,
    pub next_id: DrawingId,
}

/// The current contents with the undo and redo stacks (most recent last).
pub struct StoreHistory {
    pub current: StoreView,
    pub undo: Seq<StoreView>,
    pub redo: Seq<StoreView>,
}

/// The history after an edit that produced `next`: the previous contents
/// go on the undo stack and the redo stack is dropped.
pub open spec fn recorded(h: StoreHistory, next: StoreView) -> StoreHistory {
    StoreHistory { current: next, undo: h.undo.push(h.current), redo: Seq::empty() }
}

/// The history after an undo: the last undo entry becomes current and the
/// current contents go on the redo stack. Nothing changes without an entry.
pub open spec fn undone(h: StoreHistory) -> StoreHistory {
    if h.undo.len() == 0 {
        h
    } else {
        StoreHistory { current: h.undo.last(), undo: h.undo.drop_last(), redo: h.redo.push(h.current) }
    }
}

/// The history after a redo, symmetric to `undone`.
pub open spec fn redone(h: StoreHistory) -> StoreHistory {
    if h.redo.len() == 0 {
        h
    } else {
        StoreHistory { current: h.redo.last(), undo: h.undo.push(h.current), redo: h.redo.drop_last() }
    }
}

/// A drawing with this id is present.
pub open spec fn has_drawing(s: Seq<DrawingView>, id: DrawingId) -> bool {
    exists|i: int| 0 <= i < s.len() && #[trigger] s[i].id == id
}

/// `i` is the first position of a drawing with this id.
pub open spec fn is_first_position(s: Seq<DrawingView>, id: DrawingId, i: int) -> bool {
    &&& 0 <= i < s.len()
    &&& s[i].id == id
    &&& forall|j: int| 0 <= j < i ==> #[trigger] s[j].id != id
}

/// The first position of a drawing with this id (meaningful when present).
pub open spec fn first_position(s: Seq<DrawingView>, id: DrawingId) -> int {
    choose|i: int| is_first_position(s, id, i)
}

/// The first position of an id is the one index with that id and none
/// before it.
pub proof fn lemma_first_position(s: Seq<DrawingView>, id: DrawingId, i: int)
    requires
        is_first_position(s, id, i),
    ensures
        first_position(s, id) == i,
{
    let c = first_position(s, id);
    assert(is_first_position(s, id, c));
    if c < i {
        assert(s[c].id != id);
    }
    if i < c {
        assert(s[i].id != id);
    }
}

/// Every drawing id is distinct and below the next id handed out.
pub open spec fn ids_fresh(v: StoreView) -> bool {
    &&& forall|i: int| 0 <= i < v.drawings.len() ==> (#[trigger] v.drawings[i]).id < v.next_id
    &&& forall|i: int, j: int|
        0 <= i < j < v.drawings.len() ==> (#[trigger] v.drawings[i]).id != (#[trigger] v.drawings[j]).id
}

/// The current contents and every saved state have fresh ids.
pub open spec fn history_ids_fresh(h: StoreHistory) -> bool {
    &&& ids_fresh(h.current)
    &&& forall|i: int| 0 <= i < h.undo.len() ==> ids_fresh(#[trigger] h.undo[i])
    &&& forall|i: int| 0 <= i < h.redo.len() ==> ids_fresh(#[trigger] h.redo[i])
}

/// The largest drawing id, 0 for none.
pub open spec fn max_drawing_id(s: Seq<DrawingView>) -> u64
    decreases s.len(),
{
    if s.len() == 0 {
        0
    } else {
        let m = max_drawing_id(s.drop_last());
        if s.last().id > m {
            s.last().id
        } else {
            m
        }
    }
}

/// The id `add` hands out: the next id, at least 1.
pub open spec fn id_to_hand_out(next_id: DrawingId) -> DrawingId {
    if next_id >= 1 {
        next_id
    } else {
        1
    }
}

/// Contents after adding a drawing of this kind under `id`, selected.
pub open spec fn view_after_add(v: StoreView, id: DrawingId, kind: DrawingKindView) -> StoreView {
    StoreView {
        drawings: v.drawings.push(DrawingView { id, kind, locked: false, hidden: false }),
        selected: Some(id),
        next_id: clamp_u64(id + 1),
    }
}

/// The history after adding a drawing of this kind under the id the store
/// hands out.
pub open spec fn store_after_add(h: StoreHistory, kind: DrawingKindView) -> StoreHistory {
    recorded(h, view_after_add(h.current, id_to_hand_out(h.current.next_id), kind))
}

/// Contents after deleting the drawing at position `p` with this id; its
/// selection is dropped.
pub open spec fn view_after_delete(v: StoreView, id: DrawingId, p: int) -> StoreView {
    StoreView {
        drawings: v.drawings.remove(p),
        selected: if v.selected == Some(id) {
            None
        } else {
            v.selected
        },
        next_id: v.next_id,
    }
}

/// Contents with the drawing at position `p` replaced.
pub open spec fn view_with_drawing(v: StoreView, p: int, d: DrawingView) -> StoreView {
    StoreView { drawings: v.drawings.update(p, d), ..v }
}

/// The selection an id can be restored to after loading: kept only if
/// the drawing exists.
pub open spec fn valid_selection(s: Seq<DrawingView>, selected: Option<DrawingId>) -> Option<DrawingId> {
    match selected {
        Some(id) => if has_drawing(s, id) {
            Some(id)
        } else {
            None
        },
        None => None,
    }
}

/// The next id after loading: past every persisted id, and at least 1.
pub open spec fn next_id_after_load(s: Seq<DrawingView>, next_id: DrawingId) -> DrawingId {
    let past = clamp_u64(max_drawing_id(s) + 1);
    let a = if next_id >= past {
        next_id
    } else {
        past
    };
    if a >= 1 {
        a
    } else {
        1
    }
}

proof fn lemma_max_drawing_id(s: Seq<DrawingView>)
    ensures
        forall|i: int| 0 <= i < s.len() ==> (#[trigger] s[i]).id <= max_drawing_id(s),
    decreases s.len(),
{
    if s.len() > 0 {
        lemma_max_drawing_id(s.drop_last());
        assert forall|i: int| 0 <= i < s.len() implies (#[trigger] s[i]).id <= max_drawing_id(s) by {
            if i < s.len() - 1 {
                assert(s[i] == s.drop_last()[i]);
            }
        }
    }
}

proof fn lemma_view_push(v: Seq<Drawing>, d: Drawing)
    ensures
        drawings_view(v.push(d)) == drawings_view(v).push(d@),
{
    assert(drawings_view(v.push(d)) =~= drawings_view(v).push(d@));
}

proof fn lemma_view_remove(v: Seq<Drawing>, i: int)
    requires
        0 <= i < v.len(),
    ensures
        drawings_view(v.remove(i)) == drawings_view(v).remove(i),
{
    assert(drawings_view(v.remove(i)) =~= drawings_view(v).remove(i));
}

proof fn lemma_view_update(v: Seq<Drawing>, i: int, d: Drawing)
    requires
        0 <= i < v.len(),
    ensures
        drawings_view(v.update(i, d)) == drawings_view(v).update(i, d@),
{
    assert(drawings_view(v.update(i, d)) =~= drawings_view(v).update(i, d@));
}

proof fn lemma_fresh_undone(h: StoreHistory)
    ensures
        history_ids_fresh(h) ==> history_ids_fresh(undone(h)),
{
    if history_ids_fresh(h) && h.undo.len() > 0 {
        let u = undone(h);
        assert(ids_fresh(h.undo[h.undo.len() - 1]));
        assert forall|i: int| 0 <= i < u.undo.len() implies ids_fresh(#[trigger] u.undo[i]) by {
            assert(u.undo[i] == h.undo[i]);
        }
        assert forall|i: int| 0 <= i < u.redo.len() implies ids_fresh(#[trigger] u.redo[i]) by {
            if i < h.redo.len() {
                assert(u.redo[i] == h.redo[i]);
            }
        }
    }
}

proof fn lemma_fresh_redone(h: StoreHistory)
    ensures
        history_ids_fresh(h) ==> history_ids_fresh(redone(h)),
{
    if history_ids_fresh(h) && h.redo.len() > 0 {
        let u = redone(h);
        assert(ids_fresh(h.redo[h.redo.len() - 1]));
        assert forall|i: int| 0 <= i < u.redo.len() implies ids_fresh(#[trigger] u.redo[i]) by {
            assert(u.redo[i] == h.redo[i]);
        }
        assert forall|i: int| 0 <= i < u.undo.len() implies ids_fresh(#[trigger] u.undo[i]) by {
            if i < h.undo.len() {
                assert(u.undo[i] == h.undo[i]);
            }
        }
    }
}

/// The first id a store hands out.
pub fn default_next_id() -> (r: DrawingId)
    ensures
        r == 1,
{
    1
}

struct StoreSnapshot {
    drawings: Vec<Drawing>,
    selected: Option<DrawingId>,
    next_id: DrawingId,
}

impl View for StoreSnapshot {
    type V = StoreView;

    closed spec fn view(&self) -> StoreView {
        StoreView { drawings: drawings_view(self.drawings@), selected: self.selected, next_id: self.next_id }
    }
}

spec fn snapshots_view(s: Seq<StoreSnapshot>) -> Seq<StoreView> {
    s.map_values(|x: StoreSnapshot| x@)
}

fn copy_drawings(drawings: &Vec<Drawing>) -> (r: Vec<Drawing>)
    ensures
        drawings_view(r@) == drawings_view(drawings@),
{
    let mut out: Vec<Drawing> = Vec::new();
    let mut i: usize = 0;
    while i < drawings.len()
        invariant
            i <= drawings@.len(),
            out@.len() == i,
            forall|k: int| 0 <= k < i ==> (#[trigger] out@[k])@ == drawings@[k]@,
        decreases drawings@.len() - i,
    {
        out.push(drawings[i].duplicate());
        i = i + 1;
    }
    proof {
        assert(drawings_view(out@) =~= drawings_view(drawings@));
    }
    out
}

/// Drawings with their selection and an undo/redo history of every edit.
pub struct DrawingStore {
    drawings: Vec<Drawing>,
    selected: Option<DrawingId>,
    next_id: DrawingId,
    undo_stack: Vec<StoreSnapshot>,
    redo_stack: Vec<StoreSnapshot>,
}

impl View for DrawingStore {
    type V = StoreView;

    closed spec fn view(&self) -> StoreView {
        StoreView { drawings: drawings_view(self.drawings@), selected: self.selected, next_id: self.next_id }
    }
}

impl Default for DrawingStore {
    fn default() -> (r: Self)
        ensures
            r@.drawings.len() == 0,
            r@.selected.is_none(),
            r@.next_id == 1,
            r.history().undo.len() == 0,
            r.history().redo.len() == 0,
    {
        DrawingStore::new()
    }
}

impl DrawingStore {
    /// States an undo would go back to, oldest first.
    pub closed spec fn spec_undo(&self) -> Seq<StoreView> {
        snapshots_view(self.undo_stack@)
    }

    /// States a redo would go forward to, the next one last.
    pub closed spec fn spec_redo(&self) -> Seq<StoreView> {
        snapshots_view(self.redo_stack@)
    }

    pub open spec fn history(&self) -> StoreHistory {
        StoreHistory { current: self@, undo: self.spec_undo(), redo: self.spec_redo() }
    }

    /// An empty store whose first drawing gets id 1.
    pub fn new() -> (r: Self)
        ensures
            r@.drawings.len() == 0,
            r@.selected.is_none(),
            r@.next_id == 1,
            r.history().undo.len() == 0,
            r.history().redo.len() == 0,
    {
        DrawingStore {
            drawings: Vec::new(),
            selected: None,
            next_id: default_next_id(),
            undo_stack: Vec::new(),
            redo_stack: Vec::new(),
        }
    }

    /// A store with persisted contents and no history.
    pub fn restored(drawings: Vec<Drawing>, selected: Option<DrawingId>, next_id: DrawingId) -> (r: Self)
        ensures
            r@ == (StoreView { drawings: drawings_view(drawings@), selected, next_id }),
            r.history().undo.len() == 0,
            r.history().redo.len() == 0,
    {
        let r = DrawingStore { drawings, selected, next_id, undo_stack: Vec::new(), redo_stack: Vec::new() };
        proof {
            assert(snapshots_view(r.undo_stack@) =~= Seq::<StoreView>::empty());
            assert(snapshots_view(r.redo_stack@) =~= Seq::<StoreView>::empty());
        }
        r
    }

    /// The id the next drawing is given (at least 1).
    pub fn next_id(&self) -> (r: DrawingId)
        ensures
            r == self@.next_id,
    {
        self.next_id
    }

    pub fn drawings(&self) -> (r: &[Drawing])
        ensures
            drawings_view(r@) == self@.drawings,
    {
        self.drawings.as_slice()
    }

    /// The drawings that are not hidden, in order.
    pub fn visible_drawings(&self) -> (r: Vec<&Drawing>)
        ensures
            r@.map_values(|d: &Drawing| d@) == self@.drawings.filter(|d: DrawingView| !d.hidden),
    {
        let ghost f = |d: DrawingView| !d.hidden;
        let mut out: Vec<&Drawing> = Vec::new();
        let mut i: usize = 0;
        while i < self.drawings.len()
            invariant
                i <= self.drawings@.len(),
                f == (|d: DrawingView| !d.hidden),
                out@.map_values(|d: &Drawing| d@) == drawings_view(self.drawings@.take(i as int)).filter(f),
            decreases self.drawings@.len() - i,
        {
            let ghost t0 = drawings_view(self.drawings@.take(i as int));
            let d = &self.drawings[i];
            let ghost before = out@;
            if !d.hidden {
                out.push(d);
                proof {
                    assert(out@.map_values(|d: &Drawing| d@) =~= before.map_values(|d: &Drawing| d@).push(d@));
                }
            }
            i = i + 1;
            proof {
                let t1 = drawings_view(self.drawings@.take(i as int));
                assert(t1 =~= t0.push(d@));
                t0.lemma_filter_push(d@, f);
            }
        }
        proof {
            assert(self.drawings@.take(i as int) == self.drawings@);
        }
        out
    }

    pub fn selected(&self) -> (r: Option<DrawingId>)
        ensures
            r == self@.selected,
    {
        self.selected
    }

    /// Position of the first drawing with this id.
    fn position(&self, id: DrawingId) -> (r: Option<usize>)
        ensures
            match r {
                None => !has_drawing(self@.drawings, id),
                Some(i) => is_first_position(self@.drawings, id, i as int) && first_position(
                    self@.drawings,
                    id,
                ) == i,
            },
    {
        let mut i: usize = 0;
        while i < self.drawings.len()
            invariant
                i <= self.drawings@.len(),
                forall|j: int| 0 <= j < i ==> #[trigger] self@.drawings[j].id != id,
            decreases self.drawings@.len() - i,
        {
            if self.drawings[i].id == id {
                proof {
                    assert(self@.drawings[i as int].id == id);
                    lemma_first_position(self@.drawings, id, i as int);
                }
                return Some(i);
            }
            assert(self@.drawings[i as int].id != id);
            i = i + 1;
        }
        None
    }

    /// The first drawing with this id.
    pub fn get(&self, id: DrawingId) -> (r: Option<&Drawing>)
        ensures
            match r {
                None => !has_drawing(self@.drawings, id),
                Some(d) => has_drawing(self@.drawings, id) && d@ == self@.drawings[first_position(
                    self@.drawings,
                    id,
                )],
            },
    {
        match self.position(id) {
            Some(i) => Some(&self.drawings[i]),
            None => None,
        }
    }

    /// Add a drawing under the next id, select it, and return the id.
    pub fn add(&mut self, kind: DrawingKind) -> (r: DrawingId)
        ensures
            r == id_to_hand_out(old(self)@.next_id),
            final(self).history() == recorded(old(self).history(), view_after_add(old(self)@, r, kind@)),
            (forall|i: int| 0 <= i < old(self)@.drawings.len() ==> (#[trigger] old(self)@.drawings[i]).id
                < old(self)@.next_id) ==> !has_drawing(old(self)@.drawings, r),
            history_ids_fresh(old(self).history()) && old(self)@.next_id < u64::MAX ==> history_ids_fresh(
                final(self).history(),
            ),
    {
        self.record_history();
        let id = if self.next_id >= 1 {
            self.next_id
        } else {
            1
        };
        self.next_id = if id < u64::MAX {
            id + 1
        } else {
            u64::MAX
        };
        let d = Drawing { id, kind, locked: false, hidden: false };
        let ghost dv = d@;
        let ghost before = self.drawings@;
        self.drawings.push(d);
        self.selected = Some(id);
        proof {
            lemma_view_push(before, d);
            assert(self@ == view_after_add(old(self)@, id, kind@));
        }
        id
    }

    /// Replace the geometry of an unlocked drawing; a locked or missing one
    /// is left as it is and `false` is returned.
    pub fn replace_kind(&mut self, id: DrawingId, kind: DrawingKind) -> (r: bool)
        ensures
            r == (has_drawing(old(self)@.drawings, id) && !old(self)@.drawings[first_position(
                old(self)@.drawings,
                id,
            )].locked),
            r ==> {
                let p = first_position(old(self)@.drawings, id);
                final(self).history() == recorded(
                    old(self).history(),
                    view_with_drawing(old(self)@, p, DrawingView { kind: kind@, ..old(self)@.drawings[p] }),
                )
            },
            !r ==> final(self).history() == old(self).history(),
            history_ids_fresh(old(self).history()) ==> history_ids_fresh(final(self).history()),
    {
        let index = match self.position(id) {
            Some(i) => i,
            None => {
                return false;
            },
        };
        if self.drawings[index].locked {
            return false;
        }
        self.record_history();
        let ghost before = self.drawings@;
        let mut d = self.drawings.remove(index);
        d.kind = kind;
        self.drawings.insert(index, d);
        proof {
            assert(self.drawings@ =~= before.update(index as int, d));
            lemma_view_update(before, index as int, d);
            assert(self@ == view_with_drawing(
                old(self)@,
                index as int,
                DrawingView { kind: kind@, ..old(self)@.drawings[index as int] },
            ));
        }
        true
    }

    /// Delete the first drawing with this id, dropping its selection.
    pub fn delete(&mut self, id: DrawingId) -> (r: bool)
        ensures
            r == has_drawing(old(self)@.drawings, id),
            r ==> final(self).history() == recorded(
                old(self).history(),
                view_after_delete(old(self)@, id, first_position(old(self)@.drawings, id)),
            ),
            !r ==> final(self).history() == old(self).history(),
            history_ids_fresh(old(self).history()) ==> history_ids_fresh(final(self).history()),
    {
        let index = match self.position(id) {
            Some(i) => i,
            None => {
                return false;
            },
        };
        self.record_history();
        let ghost before = self.drawings@;
        self.drawings.remove(index);
        if self.selected == Some(id) {
            self.selected = None;
        }
        proof {
            lemma_view_remove(before, index as int);
            assert(self@ == view_after_delete(old(self)@, id, index as int));
            if ids_fresh(old(self)@) {
                let s = old(self)@.drawings;
                let t = self@.drawings;
                assert forall|i: int, j: int| 0 <= i < j < t.len() implies (#[trigger] t[i]).id != (
                #[trigger] t[j]).id by {
                    let a = if i < index { i } else { i + 1 };
                    let b = if j < index { j } else { j + 1 };
                    assert(t[i] == s[a] && t[j] == s[b]);
                }
                assert forall|i: int| 0 <= i < t.len() implies (#[trigger] t[i]).id < self@.next_id by {
                    let a = if i < index { i } else { i + 1 };
                    assert(t[i] == s[a]);
                }
            }
        }
        true
    }

    /// Remove every drawing; nothing is recorded for an empty store.
    pub fn clear(&mut self)
        ensures
            old(self)@.drawings.len() == 0 ==> final(self).history() == old(self).history(),
            old(self)@.drawings.len() > 0 ==> final(self).history() == recorded(
                old(self).history(),
                StoreView { drawings: Seq::empty(), selected: None, next_id: old(self)@.next_id },
            ),
            history_ids_fresh(old(self).history()) ==> history_ids_fresh(final(self).history()),
    {
        if self.drawings.len() == 0 {
            return;
        }
        self.record_history();
        self.drawings.clear();
        self.selected = None;
        proof {
            assert(self@.drawings =~= Seq::<DrawingView>::empty());
        }
    }

    /// Select a drawing by id, or clear the selection; an unknown id is
    /// refused. Selection is not an edit and records no history.
    pub fn select(&mut self, id: Option<DrawingId>) -> (r: bool)
        ensures
            r == match id {
                Some(x) => has_drawing(old(self)@.drawings, x),
                None => true,
            },
            r ==> final(self).history() == (StoreHistory {
                current: StoreView { selected: id, ..old(self)@ },
                ..old(self).history()
            }),
            !r ==> final(self).history() == old(self).history(),
            history_ids_fresh(old(self).history()) ==> history_ids_fresh(final(self).history()),
    {
        match id {
            Some(x) => {
                if self.position(x).is_none() {
                    return false;
                }
            },
            None => {},
        }
        self.selected = id;
        true
    }

    /// Lock or unlock a drawing; setting the current value is a success
    /// that records nothing.
    pub fn set_locked(&mut self, id: DrawingId, locked: bool) -> (r: bool)
        ensures
            r == has_drawing(old(self)@.drawings, id),
            ({
                let p = first_position(old(self)@.drawings, id);
                if r && old(self)@.drawings[p].locked != locked {
                    final(self).history() == recorded(
                        old(self).history(),
                        view_with_drawing(old(self)@, p, DrawingView { locked, ..old(self)@.drawings[p] }),
                    )
                } else {
                    final(self).history() == old(self).history()
                }
            }),
            history_ids_fresh(old(self).history()) ==> history_ids_fresh(final(self).history()),
    {
        let index = match self.position(id) {
            Some(i) => i,
            None => {
                return false;
            },
        };
        if self.drawings[index].locked == locked {
            return true;
        }
        self.record_history();
        let ghost before = self.drawings@;
        let mut d = self.drawings.remove(index);
        d.locked = locked;
        self.drawings.insert(index, d);
        proof {
            assert(self.drawings@ =~= before.update(index as int, d));
            lemma_view_update(before, index as int, d);
            assert(self@ == view_with_drawing(
                old(self)@,
                index as int,
                DrawingView { locked, ..old(self)@.drawings[index as int] },
            ));
        }
        true
    }

    /// Hide or show a drawing; setting the current value is a success that
    /// records nothing.
    pub fn set_hidden(&mut self, id: DrawingId, hidden: bool) -> (r: bool)
        ensures
            r == has_drawing(old(self)@.drawings, id),
            ({
                let p = first_position(old(self)@.drawings, id);
                if r && old(self)@.drawings[p].hidden != hidden {
                    final(self).history() == recorded(
                        old(self).history(),
                        view_with_drawing(old(self)@, p, DrawingView { hidden, ..old(self)@.drawings[p] }),
                    )
                } else {
                    final(self).history() == old(self).history()
                }
            }),
            history_ids_fresh(old(self).history()) ==> history_ids_fresh(final(self).history()),
    {
        let index = match self.position(id) {
            Some(i) => i,
            None => {
                return false;
            },
        };
        if self.drawings[index].hidden == hidden {
            return true;
        }
        self.record_history();
        let ghost before = self.drawings@;
        let mut d = self.drawings.remove(index);
        d.hidden = hidden;
        self.drawings.insert(index, d);
        proof {
            assert(self.drawings@ =~= before.update(index as int, d));
            lemma_view_update(before, index as int, d);
            assert(self@ == view_with_drawing(
                old(self)@,
                index as int,
                DrawingView { hidden, ..old(self)@.drawings[index as int] },
            ));
        }
        true
    }

    pub fn can_undo(&self) -> (r: bool)
        ensures
            r == (self.history().undo.len() > 0),
    {
        self.undo_stack.len() > 0
    }

    pub fn can_redo(&self) -> (r: bool)
        ensures
            r == (self.history().redo.len() > 0),
    {
        self.redo_stack.len() > 0
    }

    /// Go back to the state before the last edit, keeping the current one
    /// for redo.
    pub fn undo(&mut self) -> (r: bool)
        ensures
            r == (old(self).history().undo.len() > 0),
            final(self).history() == undone(old(self).history()),
            history_ids_fresh(old(self).history()) ==> history_ids_fresh(final(self).history()),
    {
        let ghost h = self.history();
        match self.undo_stack.pop() {
            None => false,
            Some(previous) => {
                let s = self.snapshot();
                self.redo_stack.push(s);
                self.restore(previous);
                proof {
                    assert(snapshots_view(self.undo_stack@) =~= h.undo.drop_last());
                    assert(snapshots_view(self.redo_stack@) =~= h.redo.push(h.current));
                    lemma_fresh_undone(h);
                }
                true
            },
        }
    }

    /// Re-apply the last undone edit, keeping the current state for undo.
    pub fn redo(&mut self) -> (r: bool)
        ensures
            r == (old(self).history().redo.len() > 0),
            final(self).history() == redone(old(self).history()),
            history_ids_fresh(old(self).history()) ==> history_ids_fresh(final(self).history()),
    {
        let ghost h = self.history();
        match self.redo_stack.pop() {
            None => false,
            Some(next) => {
                let s = self.snapshot();
                self.undo_stack.push(s);
                self.restore(next);
                proof {
                    assert(snapshots_view(self.redo_stack@) =~= h.redo.drop_last());
                    assert(snapshots_view(self.undo_stack@) =~= h.undo.push(h.current));
                    lemma_fresh_redone(h);
                }
                true
            },
        }
    }

    /// After loading a persisted store: drop a selection of a missing
    /// drawing, move the next id past every persisted id, and forget the
    /// history.
    pub fn normalize_after_load(&mut self)
        ensures
            final(self)@.drawings == old(self)@.drawings,
            final(self)@.next_id == next_id_after_load(old(self)@.drawings, old(self)@.next_id),
            final(self)@.selected == valid_selection(old(self)@.drawings, old(self)@.selected),
            final(self).history().undo.len() == 0,
            final(self).history().redo.len() == 0,
            (forall|i: int|
                0 <= i < old(self)@.drawings.len() ==> (#[trigger] old(self)@.drawings[i]).id < u64::MAX)
                ==> forall|i: int|
                0 <= i < final(self)@.drawings.len() ==> (#[trigger] final(self)@.drawings[i]).id
                    < final(self)@.next_id,
    {
        let mut max_id: u64 = 0;
        let mut i: usize = 0;
        while i < self.drawings.len()
            invariant
                i <= self.drawings@.len(),
                max_id == max_drawing_id(drawings_view(self.drawings@.take(i as int))),
            decreases self.drawings@.len() - i,
        {
            proof {
                let t1 = drawings_view(self.drawings@.take((i + 1) as int));
                assert(t1.drop_last() =~= drawings_view(self.drawings@.take(i as int)));
            }
            if self.drawings[i].id > max_id {
                max_id = self.drawings[i].id;
            }
            i = i + 1;
        }
        proof {
            assert(self.drawings@.take(i as int) == self.drawings@);
            lemma_max_drawing_id(self@.drawings);
        }
        let past = if max_id < u64::MAX {
            max_id + 1
        } else {
            u64::MAX
        };
        let a = if self.next_id >= past {
            self.next_id
        } else {
            past
        };
        self.next_id = if a >= 1 {
            a
        } else {
            1
        };
        match self.selected {
            Some(id) => {
                if self.position(id).is_none() {
                    self.selected = None;
                }
            },
            None => {},
        }
        self.undo_stack.clear();
        self.redo_stack.clear();
        proof {
            assert(snapshots_view(self.undo_stack@) =~= Seq::<StoreView>::empty());
            assert(snapshots_view(self.redo_stack@) =~= Seq::<StoreView>::empty());
        }
    }

    fn snapshot(&self) -> (r: StoreSnapshot)
        ensures
            r@ == self@,
    {
        StoreSnapshot { drawings: copy_drawings(&self.drawings), selected: self.selected, next_id: self.next_id }
    }

    fn record_history(&mut self)
        ensures
            final(self)@ == old(self)@,
            final(self).history() == recorded(old(self).history(), old(self)@),
    {
        let s = self.snapshot();
        self.undo_stack.push(s);
        self.redo_stack.clear();
        proof {
            assert(snapshots_view(self.undo_stack@) == snapshots_view(old(self).undo_stack@).push(old(self)@));
            assert(snapshots_view(self.redo_stack@) == Seq::<StoreView>::empty());
        }
    }

    fn restore(&mut self, snapshot: StoreSnapshot)
        ensures
            final(self)@ == snapshot@,
            final(self).undo_stack == old(self).undo_stack,
            final(self).redo_stack == old(self).redo_stack,
    {
        self.drawings = snapshot.drawings;
        self.selected = snapshot.selected;
        self.next_id = snapshot.next_id;
    }
}

/// Undoing an edit brings back the contents and undo stack from before the
/// edit, and makes the edited contents redoable.
pub proof fn law_undo_reverts_edit(h: StoreHistory, edited: StoreView)
    ensures
        undone(recorded(h, edited)) == (StoreHistory { current: h.current, undo: h.undo, redo: seq![edited] }),
{
    let r = recorded(h, edited);
    assert(r.undo.drop_last() =~= h.undo);
    assert(Seq::<StoreView>::empty().push(edited) =~= seq![edited]);
}

/// Redo right after an undo gives back the exact history before the undo.
pub proof fn law_redo_after_undo(h: StoreHistory)
    requires
        h.undo.len() > 0,
    ensures
        redone(undone(h)) == h,
{
    let u = undone(h);
    assert(u.redo.drop_last() =~= h.redo);
    assert(u.undo.push(u.current) =~= h.undo);
}

/// Undo right after a redo gives back the exact history before the redo.
pub proof fn law_undo_after_redo(h: StoreHistory)
    requires
        h.redo.len() > 0,
    ensures
        undone(redone(h)) == h,
{
    let u = redone(h);
    assert(u.undo.drop_last() =~= h.undo);
    assert(u.redo.push(u.current) =~= h.redo);
}

/// Once a loaded store is normalized, the next drawing added gets an id that
/// no persisted drawing has (ids at the very top of the range excepted).
pub proof fn law_loaded_ids_do_not_collide(s: Seq<DrawingView>, next_id: DrawingId)
    requires
        forall|i: int| 0 <= i < s.len() ==> (#[trigger] s[i]).id < u64::MAX,
    ensures
        !has_drawing(s, id_to_hand_out(next_id_after_load(s, next_id))),
{
    lemma_max_drawing_id(s);
    let id = id_to_hand_out(next_id_after_load(s, next_id));
    assert forall|i: int| 0 <= i < s.len() implies #[trigger] s[i].id != id by {
        assert(s[i].id <= max_drawing_id(s));
    }
}

/// How strongly a drawn price is pulled to nearby market prices.
#[derive(Debug, Clone, Copy, PartialEq, Eq, Structural)]
pub enum MagnetMode {
    Off,
    Weak,
    Strong,
}

impl Default for MagnetMode {
    fn default() -> (r: Self)
        ensures
            r == MagnetMode::Off,
    {
        MagnetMode::Off
    }
}

/// Distance between two prices in price units.
pub open spec fn price_distance(a: Price, b: Price) -> nat {
    if a.units >= b.units {
        (a.units - b.units) as nat
    } else {
        (b.units - a.units) as nat
    }
}

/// `k` is the first of the candidates nearest to `target`.
pub open spec fn is_nearest(target: Price, c: Seq<Price>, k: int) -> bool {
    &&& 0 <= k < c.len()
    &&& forall|j: int| 0 <= j < c.len() ==> price_distance(target, c[k]) <= price_distance(target, #[trigger] c[j])
    &&& forall|j: int| 0 <= j < k ==> price_distance(target, #[trigger] c[j]) > price_distance(target, c[k])
}

pub open spec fn nearest_index(target: Price, c: Seq<Price>) -> int {
    choose|k: int| is_nearest(target, c, k)
}

/// Three ticks (a tick being at least one price unit), saturating.
pub open spec fn weak_threshold(step: PriceStep) -> nat {
    let size: int = if step.units >= 0 {
        step.units as int
    } else {
        -(step.units as int)
    };
    let tick: int = if size >= 1 {
        size
    } else {
        1
    };
    clamp_u64(tick * 3) as nat
}

/// The price a magnet gives for `target` with `nearest` the nearest
/// candidate: weak snaps only within three ticks, strong always.
pub open spec fn snapped(target: Price, nearest: Price, step: PriceStep, mode: MagnetMode) -> Price {
    match mode {
        MagnetMode::Off => target,
        MagnetMode::Strong => nearest,
        MagnetMode::Weak => if price_distance(target, nearest) <= weak_threshold(step) {
            nearest
        } else {
            target
        },
    }
}

/// What `snap_price` returns; with no candidates or the magnet off the
/// price is kept.
pub open spec fn snap_spec(target: Price, c: Seq<Price>, step: PriceStep, mode: MagnetMode) -> Price {
    if mode == MagnetMode::Off || c.len() == 0 {
        target
    } else {
        snapped(target, c[nearest_index(target, c)], step, mode)
    }
}

/// The nearest candidate (first on a tie) is unique.
pub proof fn lemma_nearest_unique(target: Price, c: Seq<Price>, k: int)
    requires
        is_nearest(target, c, k),
    ensures
        nearest_index(target, c) == k,
{
    let n = nearest_index(target, c);
    assert(is_nearest(target, c, n));
    if n < k {
        assert(price_distance(target, c[n]) > price_distance(target, c[k]));
        assert(price_distance(target, c[k]) <= price_distance(target, c[n]));
    }
    if k < n {
        assert(price_distance(target, c[k]) > price_distance(target, c[n]));
        assert(price_distance(target, c[n]) <= price_distance(target, c[k]));
    }
}

fn distance(a: Price, b: Price) -> (r: u64)
    ensures
        r == price_distance(a, b),
{
    let d: i128 = a.units as i128 - b.units as i128;
    if d >= 0 {
        d as u64
    } else {
        (-d) as u64
    }
}

/// Snap `target` to the nearest of `candidates` (the first one on a tie).
pub fn snap_price(target: Price, candidates: &[Price], step: PriceStep, mode: MagnetMode) -> (r: Price)
    ensures
        r == snap_spec(target, candidates@, step, mode),
{
    if mode == MagnetMode::Off || candidates.len() == 0 {
        return target;
    }
    let mut best: usize = 0;
    let mut best_distance: u64 = distance(target, candidates[0]);
    let mut i: usize = 1;
    while i < candidates.len()
        invariant
            1 <= i <= candidates@.len(),
            is_nearest(target, candidates@.take(i as int), best as int),
            best_distance == price_distance(target, candidates@[best as int]),
        decreases candidates@.len() - i,
    {
        let d = distance(target, candidates[i]);
        let ghost t = candidates@.take((i + 1) as int);
        proof {
            assert forall|j: int| 0 <= j < i implies t[j] == candidates@.take(i as int)[j] by {}
        }
        if d < best_distance {
            best = i;
            best_distance = d;
        }
        i = i + 1;
        proof {
            assert(t == candidates@.take(i as int));
            assert forall|j: int| 0 <= j < t.len() implies price_distance(target, t[best as int]) <= price_distance(
                target,
                #[trigger] t[j],
            ) by {
                if j < i - 1 {
                    assert(t[j] == candidates@.take((i - 1) as int)[j]);
                }
            }
        }
    }
    proof {
        assert(candidates@.take(i as int) == candidates@);
        lemma_nearest_unique(target, candidates@, best as int);
    }
    let nearest = candidates[best];
    match mode {
        MagnetMode::Off => target,
        MagnetMode::Strong => nearest,
        MagnetMode::Weak => {
            let size: u64 = if step.units >= 0 {
                step.units as u64
            } else {
                (-(step.units as i128)) as u64
            };
            let tick: u64 = if size >= 1 {
                size
            } else {
                1
            };
            let threshold: u64 = if tick <= u64::MAX / 3 {
                tick * 3
            } else {
                u64::MAX
            };
            if best_distance <= threshold {
                nearest
            } else {
                target
            }
        },
    }
}

/// Snap `target` to the nearest of a bar's open, high, low and close.
pub fn snap_to_ohlc(
    target: Price,
    open: Price,
    high: Price,
    low: Price,
    close: Price,
    step: PriceStep,
    mode: MagnetMode,
) -> (r: Price)
    ensures
        r == snap_spec(target, seq![open, high, low, close], step, mode),
{
    let candidates = vec![open, high, low, close];
    proof {
        assert(candidates@ =~= seq![open, high, low, close]);
    }
    snap_price(target, candidates.as_slice(), step, mode)
}

/// Fibonacci retracement ratios, in thousandths.
pub open spec fn retracement_ratios() -> Seq<u32> {
    seq![0, 236, 382, 500, 618, 786, 1000]
}

/// Fibonacci extension ratios, in thousandths.
pub open spec fn extension_ratios() -> Seq<u32> {
    seq![0, 618, 1000, 1272, 1618, 2000, 2618, 4236]
}

/// `n / d` rounded to the nearest integer, halves away from zero.
pub open spec fn div_round_away(n: int, d: int) -> int {
    if n >= 0 {
        (2 * n + d) / (2 * d)
    } else {
        -((2 * -n + d) / (2 * d))
    }
}

/// `base` moved by `ratio` thousandths of `span`, rounded to the nearest
/// unit and saturated into the price range.
pub open spec fn fib_level(base: Price, span: int, ratio: u32) -> Price {
    Price { units: clamp_i64(div_round_away(base.units * 1000 + span * ratio, 1000)) }
}

/// Every ratio paired with the level it gives from `base` along `span`.
pub open spec fn fib_levels_exact(r: Seq<(u32, Price)>, ratios: Seq<u32>, base: Price, span: int) -> bool {
    &&& r.len() == ratios.len()
    &&& forall|i: int| 0 <= i < r.len() ==> #[trigger] r[i] == (ratios[i], fib_level(base, span, ratios[i]))
}

fn fib_levels(base: Price, span: i128, ratios: Vec<u32>) -> (r: Vec<(u32, Price)>)
    requires
        -0x2_0000_0000_0000_0000 <= span <= 0x2_0000_0000_0000_0000,
        forall|i: int| 0 <= i < ratios.len() ==> #[trigger] ratios[i] <= 5000,
    ensures
        fib_levels_exact(r@, ratios@, base, span as int),
{
    let mut out: Vec<(u32, Price)> = Vec::new();
    for i in 0..ratios.len()
        invariant
            -0x2_0000_0000_0000_0000 <= span <= 0x2_0000_0000_0000_0000,
            forall|j: int| 0 <= j < ratios.len() ==> #[trigger] ratios[j] <= 5000,
            out@.len() == i,
            forall|j: int| 0 <= j < i ==> #[trigger] out@[j] == (ratios@[j], fib_level(base, span as int, ratios@[j])),
    {
        let ratio = ratios[i];
        assert(-0x2_0000_0000_0000_0000 * 5000 <= span * ratio <= 0x2_0000_0000_0000_0000 * 5000)
            by (nonlinear_arith)
            requires
                -0x2_0000_0000_0000_0000 <= span <= 0x2_0000_0000_0000_0000,
                0 <= ratio <= 5000,
        ;
        let n: i128 = base.units as i128 * 1000 + span * ratio as i128;
        let rounded: i128 = if n >= 0 {
            ((2 * n + 1000) as u128 / 2000) as i128
        } else {
            -(((2 * -n + 1000) as u128 / 2000) as i128)
        };
        let units: i64 = if rounded > i64::MAX as i128 {
            i64::MAX
        } else if rounded < i64::MIN as i128 {
            i64::MIN
        } else {
            rounded as i64
        };
        out.push((ratio, Price { units }));
    }
    out
}

/// The retracement levels between `start` and `end`, each with its ratio
/// in thousandths.
pub fn fibonacci_retracement_prices(start: Price, end: Price) -> (r: Vec<(u32, Price)>)
    ensures
        fib_levels_exact(r@, retracement_ratios(), start, end.units - start.units),
{
    let ratios: Vec<u32> = vec![0, 236, 382, 500, 618, 786, 1000];
    proof {
        assert(ratios@ =~= retracement_ratios());
    }
    fib_levels(start, end.units as i128 - start.units as i128, ratios)
}

/// The move from `start` to `end` projected from `projection`, at each
/// extension ratio in thousandths.
pub fn fibonacci_extension_prices(start: Price, end: Price, projection: Price) -> (r: Vec<(u32, Price)>)
    ensures
        fib_levels_exact(r@, extension_ratios(), projection, end.units - start.units),
{
    let ratios: Vec<u32> = vec![0, 618, 1000, 1272, 1618, 2000, 2618, 4236];
    proof {
        assert(ratios@ =~= extension_ratios());
    }
    fib_levels(projection, end.units as i128 - start.units as i128, ratios)
}

} // verus!
