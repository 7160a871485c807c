//! The PDF pane: which page is at the top, which pages are rasterized, which
//! region is selected, and which blocks are drawn over the pages. Positions on
//! the screen are the business of the caller.

use crate::ir::{
    BBox, BBoxView, StructuredBlock, StructuredBlockView, equal_regions, views,
};
use crate::page_set::PageSet;
use crate::text::{decimal, decimal_text};
use std::collections::HashMap;
use vstd::prelude::*;

verus! {

broadcast use vstd::std_specs::hash::group_hash_axioms;

// ---------------------------------------------------------------------------
// Model
// ---------------------------------------------------------------------------

/// How many pages are kept rasterized on each side of the current one.
pub const ACTIVE_WINDOW_RADIUS: u32 = 1;

/// The state of the pane.
pub struct PdfView {
    pub page_count: u32,
    /// The page at the top of the viewport.
    pub current: u32,
    pub selection: Option<(u32, BBoxView)>,
    /// The page on which a region is being drawn.
    pub drawing: Option<u32>,
    /// Is the user dragging the pages?
    pub panning: bool,
    pub overlay: Map<u32, Seq<StructuredBlockView>>,
    /// The pages that are rasterized.
    pub ready: Set<u32>,
    /// The pages that are being rasterized.
    pub underway: Set<u32>,
}

/// Where the viewport has to go.
pub enum ScrollView {
    Stay,
    Page(u32),
    Region(u32, BBoxView),
}

/// What a movement of the mouse does.
#[derive(Debug, Clone, Copy, PartialEq, Eq, Structural)]
pub enum Motion {
    Nothing,
    /// The region that is being drawn on the page grows.
    Draw(u32),
    /// The pages follow the mouse.
    Pan,
}

/// The region to show on a page.
pub enum ShownView {
    Nothing,
    Drawn,
    Selected(BBoxView),
}

/// What an operation leads to: the state after it, the selection to report, if
/// it changed, whether to draw the pane again, where to scroll, the rasterized
/// pages to drop, the renders to cancel, and those to start.
pub struct PdfOutcome {
    pub pane: PdfView,
    pub report: Option<Option<(u32, BBoxView)>>,
    pub notify: bool,
    pub scroll: ScrollView,
    pub evict: Set<u32>,
    pub cancel: Set<u32>,
    pub start: Set<u32>,
}

/// The state without a change.
pub open spec fn still(p: PdfView) -> PdfOutcome {
    PdfOutcome {
        pane: p,
        report: None,
        notify: false,
        scroll: ScrollView::Stay,
        evict: Set::empty(),
        cancel: Set::empty(),
        start: Set::empty(),
    }
}

/// A changed state to draw.
pub open spec fn drawn(p: PdfView) -> PdfOutcome {
    PdfOutcome { notify: true, ..still(p) }
}

/// Is a page near enough to the current one to be kept rasterized?
pub open spec fn in_window(p: PdfView, page: u32) -> bool {
    &&& p.current - ACTIVE_WINDOW_RADIUS <= page <= p.current + ACTIVE_WINDOW_RADIUS
    &&& page < p.page_count
}

/// The pages to keep rasterized.
pub open spec fn window(p: PdfView) -> Set<u32> {
    Set::new(|page: u32| in_window(p, page))
}

/// Render what is missing in the window, and drop what is outside it.
pub open spec fn refreshed(p: PdfView) -> PdfOutcome {
    let start = window(p).difference(p.ready).difference(p.underway);
    PdfOutcome {
        pane: PdfView {
            ready: p.ready.intersect(window(p)),
            underway: p.underway.intersect(window(p)).union(start),
            ..p
        },
        evict: p.ready.difference(window(p)),
        cancel: p.underway.difference(window(p)),
        start,
        ..still(p)
    }
}

/// The pane opens on the first page.
pub open spec fn pdf_opened(page_count: u32) -> PdfOutcome {
    refreshed(
        PdfView {
            page_count,
            current: 0,
            selection: None,
            drawing: None,
            panning: false,
            overlay: Map::empty(),
            ready: Set::empty(),
            underway: Set::empty(),
        },
    )
}

/// The page that is asked for, or else the last one.
pub open spec fn clipped(p: PdfView, page: u32) -> u32 {
    if page < p.page_count {
        page
    } else if p.page_count > 0 {
        (p.page_count - 1) as u32
    } else {
        0
    }
}

/// Go to a page, or to the last one where there is no such page.
pub open spec fn went_to(p: PdfView, page: u32) -> PdfOutcome {
    let target = clipped(p, page);
    if target == p.current {
        PdfOutcome { scroll: ScrollView::Page(target), ..drawn(p) }
    } else {
        PdfOutcome {
            notify: true,
            scroll: ScrollView::Page(target),
            ..refreshed(PdfView { current: target, ..p })
        }
    }
}

pub open spec fn went_on(p: PdfView) -> PdfOutcome {
    if p.current + 1 < p.page_count {
        went_to(p, (p.current + 1) as u32)
    } else {
        still(p)
    }
}

pub open spec fn went_back(p: PdfView) -> PdfOutcome {
    if p.current > 0 {
        went_to(p, (p.current - 1) as u32)
    } else {
        still(p)
    }
}

/// The user has scrolled to a page.
pub open spec fn scrolled(p: PdfView, page: u32) -> PdfOutcome {
    refreshed(PdfView { current: clipped(p, page), ..p })
}

/// A page is rasterized; the result is dropped where the page is no longer near.
pub open spec fn render_came(p: PdfView, page: u32) -> PdfOutcome {
    let rest = PdfView { underway: p.underway.remove(page), ..p };
    if in_window(p, page) {
        drawn(PdfView { ready: p.ready.insert(page), ..rest })
    } else {
        still(rest)
    }
}

/// A page could not be rasterized.
pub open spec fn render_lost(p: PdfView, page: u32) -> PdfOutcome {
    still(PdfView { underway: p.underway.remove(page), ..p })
}

/// Select a region and bring it into view.
pub open spec fn region_set(p: PdfView, page: u32, bbox: BBoxView) -> PdfOutcome {
    let next = Some((clipped(p, page), bbox));
    PdfOutcome {
        report: if equal_regions(p.selection, next) {
            None
        } else {
            Some(next)
        },
        scroll: ScrollView::Region(clipped(p, page), bbox),
        ..drawn(PdfView { selection: next, drawing: None, ..p })
    }
}

/// Drop the selection, and a region that is being drawn.
pub open spec fn region_cleared(p: PdfView) -> PdfOutcome {
    if p.selection is Some || p.drawing is Some {
        PdfOutcome {
            report: if p.selection is Some {
                Some(None)
            } else {
                None
            },
            ..drawn(PdfView { selection: None, drawing: None, ..p })
        }
    } else {
        still(p)
    }
}

/// The user begins to draw a region.
pub open spec fn drawing_begun(p: PdfView, page: u32) -> PdfOutcome {
    drawn(PdfView { drawing: Some(page), ..p })
}

/// The user has drawn a region. Nothing is selected where it is too small; a
/// selection that equals it stays.
pub open spec fn drawing_ended(p: PdfView, bbox: Option<BBoxView>) -> PdfOutcome {
    match p.drawing {
        None => still(p),
        Some(page) => {
            let next = match bbox {
                Some(b) => Some((page, b)),
                None => None,
            };
            if equal_regions(p.selection, next) {
                drawn(PdfView { drawing: None, ..p })
            } else {
                PdfOutcome {
                    report: Some(next),
                    ..drawn(PdfView { selection: next, drawing: None, ..p })
                }
            }
        },
    }
}

/// The user has left the viewport while drawing.
pub open spec fn drawing_dropped(p: PdfView) -> PdfOutcome {
    if p.drawing is Some {
        drawn(PdfView { drawing: None, ..p })
    } else {
        still(p)
    }
}

/// The button was let go where nobody saw it.
pub open spec fn drawing_forgotten(p: PdfView) -> PdfOutcome {
    still(PdfView { drawing: None, ..p })
}

/// The user presses the button over a page, or between pages. With shift a region
/// is drawn on the page, without it the pages are dragged.
pub open spec fn pressed(p: PdfView, shift: bool, page: Option<u32>) -> PdfOutcome {
    if !shift {
        still(PdfView { panning: true, ..p })
    } else {
        match page {
            Some(page) => drawing_begun(p, page),
            None => still(p),
        }
    }
}

/// What a movement of the mouse does: a region that is being drawn comes before
/// pages that are being dragged. Where the button is not held any more, either
/// ends.
pub open spec fn motion(p: PdfView, held: bool) -> Motion {
    match p.drawing {
        Some(page) => if held {
            Motion::Draw(page)
        } else {
            Motion::Nothing
        },
        None => if p.panning && held {
            Motion::Pan
        } else {
            Motion::Nothing
        },
    }
}

/// The user moves the mouse.
pub open spec fn moved(p: PdfView, held: bool) -> PdfOutcome {
    if motion(p, held) is Nothing {
        match p.drawing {
            Some(_) => drawing_forgotten(p),
            None => still(PdfView { panning: false, ..p }),
        }
    } else {
        drawn(p)
    }
}

/// The user lets the button go, with this region drawn.
pub open spec fn let_go(p: PdfView, bbox: Option<BBoxView>) -> PdfOutcome {
    drawing_ended(PdfView { panning: false, ..p }, bbox)
}

/// The user lets the button go outside of the viewport.
pub open spec fn let_go_outside(p: PdfView) -> PdfOutcome {
    drawing_dropped(PdfView { panning: false, ..p })
}

/// The region to show on a page: the one that is being drawn, wherever it is,
/// before the one that is selected.
pub open spec fn shown_region(p: PdfView, page: u32) -> ShownView {
    match p.drawing {
        Some(on) => if on == page {
            ShownView::Drawn
        } else {
            ShownView::Nothing
        },
        None => match p.selection {
            Some(s) => if s.0 == page {
                ShownView::Selected(s.1)
            } else {
                ShownView::Nothing
            },
            None => ShownView::Nothing,
        },
    }
}

pub open spec fn overlay_set(p: PdfView, overlay: Map<u32, Seq<StructuredBlockView>>) -> PdfOutcome {
    drawn(PdfView { overlay, ..p })
}

pub open spec fn overlay_cleared(p: PdfView) -> PdfOutcome {
    if p.overlay.dom().is_empty() {
        still(p)
    } else {
        drawn(PdfView { overlay: Map::empty(), ..p })
    }
}

// ---------------------------------------------------------------------------
// Going from block to block
// ---------------------------------------------------------------------------

/// Where a block stands: how far down, and how far to the right. Numbers that
/// order as the coordinates do.
#[derive(Debug, Clone, Copy, PartialEq, Eq, Structural)]
pub struct Place {
    pub down: i64,
    pub right: i64,
}

/// Is `a` read before `b`, from the top down and then from the left?
pub open spec fn read_before(a: Place, b: Place) -> bool {
    a.down < b.down || (a.down == b.down && a.right < b.right)
}

/// `order` with `i` behind everything that is not read after it.
pub open spec fn in_reading_order(order: Seq<int>, places: Seq<Place>, i: int) -> Seq<int>
    decreases order.len(),
{
    if order.len() == 0 {
        seq![i]
    } else if read_before(places[i], places[order.last()]) {
        in_reading_order(order.drop_last(), places, i).push(order.last())
    } else {
        order.push(i)
    }
}

/// The first `n` blocks in reading order; those in the same place stay as they
/// are.
pub open spec fn reading_order(places: Seq<Place>, n: nat) -> Seq<int>
    decreases n,
{
    if n == 0 {
        Seq::empty()
    } else {
        in_reading_order(reading_order(places, (n - 1) as nat), places, n - 1)
    }
}

/// The last position, among the first `n` of the order, of the greatest score.
pub open spec fn best_place(order: Seq<int>, scores: Seq<u32>, n: nat) -> int
    decreases n,
{
    if n <= 1 {
        0
    } else {
        let before = best_place(order, scores, (n - 1) as nat);
        if scores[order[n - 1]] >= scores[order[before]] {
            n - 1
        } else {
            before
        }
    }
}

/// The position `delta` further than `at` in a list of `len`, round the end.
pub open spec fn round_the_end(at: int, delta: int, len: int) -> int {
    (at + delta) % len
}

/// The block to go to: `delta` further in reading order than the one that the
/// selection matches best, round the end. Nothing where it matches none.
pub open spec fn next_block(places: Seq<Place>, scores: Seq<u32>, delta: int) -> Option<int> {
    let order = reading_order(places, places.len());
    if order.len() == 0 {
        None
    } else {
        let at = best_place(order, scores, order.len());
        if scores[order[at]] > 0 {
            Some(order[round_the_end(at, delta, order.len() as int)])
        } else {
            None
        }
    }
}

/// The blocks that are drawn on the page of the selection.
pub open spec fn selected_page_blocks(p: PdfView) -> Seq<StructuredBlockView> {
    match p.selection {
        Some(s) => if p.overlay.contains_key(s.0) {
            p.overlay[s.0]
        } else {
            Seq::empty()
        },
        None => Seq::empty(),
    }
}

/// Go from the block that is selected to another one on its page. `places` and
/// `scores` say of each drawn block where it stands and how well the selection
/// matches it.
pub open spec fn block_cycled(p: PdfView, delta: int, places: Seq<Place>, scores: Seq<u32>) -> PdfOutcome {
    match p.selection {
        None => still(p),
        Some(s) => match next_block(places, scores, delta) {
            None => still(p),
            Some(i) => region_set(p, s.0, selected_page_blocks(p)[i].bbox),
        },
    }
}

// ---------------------------------------------------------------------------
// The pane
// ---------------------------------------------------------------------------

/// A region of a page.
#[derive(Debug, Clone, PartialEq)]
pub struct PageSelection {
    pub page: u32,
    pub bbox: BBox,
}

impl View for PageSelection {
    type V = (u32, BBoxView);

    open spec fn view(&self) -> (u32, BBoxView) {
        (self.page, self.bbox@)
    }
}

impl PageSelection {
    pub fn copy(&self) -> (r: PageSelection)
        ensures
            r@ == self@,
    {
        PageSelection { page: self.page, bbox: self.bbox.copy() }
    }
}

/// What an optional selection stands for.
pub open spec fn selection_view(s: Option<PageSelection>) -> Option<(u32, BBoxView)> {
    match s {
        Some(x) => Some(x@),
        None => None,
    }
}

fn same_selection(a: &Option<PageSelection>, b: &Option<PageSelection>) -> (r: bool)
    ensures
        r == equal_regions(selection_view(*a), selection_view(*b)),
{
    match (a, b) {
        (None, None) => true,
        (Some(a), Some(b)) => a.page == b.page && a.bbox.same(&b.bbox),
        _ => false,
    }
}

fn copied(s: &Option<PageSelection>) -> (r: Option<PageSelection>)
    ensures
        selection_view(r) == selection_view(*s),
{
    match s {
        Some(s) => Some(s.copy()),
        None => None,
    }
}

/// What the pane tells the rest of the application.
#[derive(Debug, Clone)]
pub enum PdfPaneEvent {
    /// The selection changed; nothing means that it was dropped.
    SelectionChanged(Option<PageSelection>),
}

/// Where the viewport has to go.
#[derive(Debug, Clone)]
pub enum Scroll {
    Stay,
    Page(u32),
    /// Show the region in the middle.
    Region(PageSelection),
}

impl View for Scroll {
    type V = ScrollView;

    open spec fn view(&self) -> ScrollView {
        match *self {
            Scroll::Stay => ScrollView::Stay,
            Scroll::Page(page) => ScrollView::Page(page),
            Scroll::Region(s) => ScrollView::Region(s.page, s.bbox@),
        }
    }
}

/// The region to show on a page.
#[derive(Debug, Clone)]
pub enum ShownRegion {
    Nothing,
    /// The one that is being drawn, whose corners the caller knows.
    Drawn,
    Selected(BBox),
}

impl View for ShownRegion {
    type V = ShownView;

    open spec fn view(&self) -> ShownView {
        match *self {
            ShownRegion::Nothing => ShownView::Nothing,
            ShownRegion::Drawn => ShownView::Drawn,
            ShownRegion::Selected(b) => ShownView::Selected(b@),
        }
    }
}

/// What an operation asks of the rest of the application.
#[derive(Debug, Clone)]
pub struct PdfEffects {
    pub event: Option<PdfPaneEvent>,
    pub notify: bool,
    pub scroll: Scroll,
    /// Rasterized pages to drop.
    pub evict: Vec<u32>,
    /// Renders to cancel.
    pub cancel: Vec<u32>,
    /// Renders to start.
    pub start: Vec<u32>,
}

/// What an optional event reports.
pub open spec fn report_view(e: Option<PdfPaneEvent>) -> Option<Option<(u32, BBoxView)>> {
    match e {
        Some(PdfPaneEvent::SelectionChanged(s)) => Some(selection_view(s)),
        None => None,
    }
}

/// Did an operation lead to this outcome? No page is named twice.
pub open spec fn brought(pane: PdfView, e: PdfEffects, o: PdfOutcome) -> bool {
    &&& pane == o.pane
    &&& report_view(e.event) == o.report
    &&& e.notify == o.notify
    &&& e.scroll@ == o.scroll
    &&& e.evict@.to_set() == o.evict
    &&& e.cancel@.to_set() == o.cancel
    &&& e.start@.to_set() == o.start
    &&& e.evict@.no_duplicates()
    &&& e.cancel@.no_duplicates()
    &&& e.start@.no_duplicates()
}

/// Effects that ask for nothing but, where `notify` says so, to draw again.
fn plain(notify: bool) -> (r: PdfEffects)
    ensures
        r.event is None,
        r.notify == notify,
        r.scroll is Stay,
        r.evict@.to_set() == Set::<u32>::empty(),
        r.cancel@.to_set() == Set::<u32>::empty(),
        r.start@.to_set() == Set::<u32>::empty(),
        r.evict@.no_duplicates(),
        r.cancel@.no_duplicates(),
        r.start@.no_duplicates(),
{
    let evict: Vec<u32> = Vec::new();
    let cancel: Vec<u32> = Vec::new();
    let start: Vec<u32> = Vec::new();
    assert(evict@.to_set() =~= Set::<u32>::empty());
    assert(cancel@.to_set() =~= Set::<u32>::empty());
    assert(start@.to_set() =~= Set::<u32>::empty());
    PdfEffects { event: None, notify, scroll: Scroll::Stay, evict, cancel, start }
}

impl PdfEffects {
    /// Effects that ask for nothing.
    pub fn none() -> (r: PdfEffects)
        ensures
            forall|p: PdfView| #[trigger] brought(p, r, still(p)),
    {
        plain(false)
    }
}

/// Why a PDF cannot be shown.
#[derive(Debug, Clone, Copy, PartialEq, Eq, Structural)]
pub enum PdfError {
    NoPages,
    SizesMismatch,
}

impl PdfError {
    pub open spec fn text(self) -> Seq<char> {
        match self {
            PdfError::NoPages => "PDF has no pages"@,
            PdfError::SizesMismatch => "page count / sizes mismatch"@,
        }
    }

    pub fn message(self) -> (r: &'static str)
        ensures
            r@ == self.text(),
    {
        match self {
            PdfError::NoPages => "PDF has no pages",
            PdfError::SizesMismatch => "page count / sizes mismatch",
        }
    }
}

/// What the drawn blocks stand for.
pub open spec fn overlay_view(m: Map<u32, Vec<StructuredBlock>>) -> Map<
    u32,
    Seq<StructuredBlockView>,
> {
    Map::new(|page: u32| m.contains_key(page), |page: u32| views(m[page]@))
}

pub struct PdfPane {
    page_count: u32,
    current_page: u32,
    selection: Option<PageSelection>,
    drawing: Option<u32>,
    panning: bool,
    overlay_blocks: HashMap<u32, Vec<StructuredBlock>>,
    ready: PageSet,
    underway: PageSet,
}

impl View for PdfPane {
    type V = PdfView;

    closed spec fn view(&self) -> PdfView {
        PdfView {
            page_count: self.page_count,
            current: self.current_page,
            selection: selection_view(self.selection),
            drawing: self.drawing,
            panning: self.panning,
            overlay: overlay_view(self.overlay_blocks@),
            ready: self.ready@,
            underway: self.underway@,
        }
    }
}

impl PdfPane {
    /// A pane for a PDF with `page_count` pages, of which `sizes` have a known
    /// size, with the renders to start.
    pub fn build(page_count: u32, sizes: usize) -> (r: Result<(PdfPane, PdfEffects), PdfError>)
        ensures
            match r {
                Ok(x) => page_count > 0 && sizes == page_count && brought(
                    x.0@,
                    x.1,
                    pdf_opened(page_count),
                ),
                Err(PdfError::NoPages) => page_count == 0,
                Err(PdfError::SizesMismatch) => page_count > 0 && sizes != page_count,
            },
    {
        if page_count == 0 {
            return Err(PdfError::NoPages);
        }
        if sizes as u64 != page_count as u64 {
            return Err(PdfError::SizesMismatch);
        }
        let mut pane = PdfPane {
            page_count,
            current_page: 0,
            selection: None,
            drawing: None,
            panning: false,
            overlay_blocks: HashMap::new(),
            ready: PageSet::new(),
            underway: PageSet::new(),
        };
        assert(overlay_view(pane.overlay_blocks@) =~= Map::empty());
        let effects = pane.refresh_active_window();
        Ok((pane, effects))
    }

    pub fn current_page(&self) -> (r: u32)
        ensures
            r == self@.current,
    {
        self.current_page
    }

    pub fn page_count(&self) -> (r: u32)
        ensures
            r == self@.page_count,
    {
        self.page_count
    }

    pub fn current_selection(&self) -> (r: Option<&PageSelection>)
        ensures
            match r {
                Some(s) => self@.selection == Some(s@),
                None => self@.selection is None,
            },
    {
        match &self.selection {
            Some(s) => Some(s),
            None => None,
        }
    }

    /// The page on which a region is being drawn.
    pub fn drawing_page(&self) -> (r: Option<u32>)
        ensures
            r == self@.drawing,
    {
        self.drawing
    }

    /// Is a page rasterized?
    pub fn page_is_ready(&self, page: u32) -> (r: bool)
        ensures
            r == self@.ready.contains(page),
    {
        self.ready.contains(page)
    }

    /// The blocks that are drawn on a page.
    pub fn overlay_on(&self, page: u32) -> (r: Option<&Vec<StructuredBlock>>)
        ensures
            match r {
                Some(b) => self@.overlay.contains_key(page) && views(b@) == self@.overlay[page],
                None => !self@.overlay.contains_key(page),
            },
    {
        self.overlay_blocks.get(&page)
    }

    /// The pages to keep rasterized, from the first on.
    pub fn pages_in_active_window(&self) -> (r: Vec<u32>)
        ensures
            r@.to_set() == window(self@),
            r@.no_duplicates(),
            forall|i: int, j: int| 0 <= i < j < r@.len() ==> r@[i] < r@[j],
    {
        let (from, to) = self.window_bounds();
        let mut out: Vec<u32> = Vec::new();
        let mut page: u64 = from as u64;
        while page < to
            invariant
                from <= page,
                page <= to || page == from,
                to <= u32::MAX,
                forall|x: u32| #[trigger] out@.contains(x) <==> from <= x < page,
                forall|i: int, j: int| 0 <= i < j < out@.len() ==> out@[i] < out@[j],
            decreases to - page,
        {
            let ghost before = out@;
            out.push(page as u32);
            assert forall|x: u32| #[trigger] out@.contains(x) <==> from <= x < page + 1 by {
                assert(out@[before.len() as int] == page as u32);
                if before.contains(x) {
                    let j = choose|j: int| 0 <= j < before.len() && before[j] == x;
                    assert(out@[j] == x);
                }
            }
            assert forall|i: int, j: int| 0 <= i < j < out@.len() implies out@[i] < out@[j] by {
                if j == before.len() {
                    assert(before.contains(before[i]));
                }
            }
            page = page + 1;
        }
        assert forall|x: u32| out@.to_set().contains(x) <==> window(self@).contains(x) by {
            assert(out@.contains(x) <==> from <= x < page);
        }
        assert(out@.to_set() =~= window(self@));
        out
    }

    /// The first page to keep rasterized, and the one behind the last.
    fn window_bounds(&self) -> (r: (u32, u64))
        ensures
            forall|page: u32| #[trigger]
                window(self@).contains(page) <==> r.0 <= page && page < r.1,
            r.1 <= self.page_count,
    {
        let from: u32 = if self.current_page < ACTIVE_WINDOW_RADIUS {
            0
        } else {
            self.current_page - ACTIVE_WINDOW_RADIUS
        };
        let behind: u64 = self.current_page as u64 + ACTIVE_WINDOW_RADIUS as u64 + 1;
        let to: u64 = if behind < self.page_count as u64 {
            behind
        } else {
            self.page_count as u64
        };
        (from, to)
    }

    /// Render what is missing in the window, and drop what is outside it.
    pub fn refresh_active_window(&mut self) -> (r: PdfEffects)
        ensures
            brought(final(self)@, r, refreshed(old(self)@)),
    {
        let ghost p = self@;
        let (from, to) = self.window_bounds();
        let near = self.pages_in_active_window();
        let evict = self.ready.keep(from, to);
        let cancel = self.underway.keep(from, to);
        assert(self.ready@ =~= p.ready.intersect(window(p)));
        assert(self.underway@ =~= p.underway.intersect(window(p)));
        assert(evict@.to_set() =~= p.ready.difference(window(p)));
        assert(cancel@.to_set() =~= p.underway.difference(window(p)));
        let ghost kept = self.underway@;
        let mut start: Vec<u32> = Vec::new();
        for i in 0..near.len()
            invariant
                near@.to_set() == window(p),
                near@.no_duplicates(),
                self.ready@ == p.ready.intersect(window(p)),
                self.page_count == p.page_count,
                self.current_page == p.current,
                selection_view(self.selection) == p.selection,
                self.drawing == p.drawing,
                self.panning == p.panning,
                overlay_view(self.overlay_blocks@) == p.overlay,
                kept == p.underway.intersect(window(p)),
                start@.no_duplicates(),
                forall|x: u32| #[trigger]
                    start@.contains(x) <==> near@.take(i as int).contains(x) && !p.ready.contains(
                        x,
                    ) && !p.underway.contains(x),
                self.underway@ == kept.union(start@.to_set()),
        {
            let page = near[i];
            let ghost upto = near@.take(i as int);
            let ghost next = near@.take(i + 1);
            assert(next =~= upto.push(page));
            assert(!upto.contains(page)) by {
                if upto.contains(page) {
                    let j = choose|j: int| 0 <= j < upto.len() && upto[j] == page;
                    assert(near@[j] == near@[i as int]);
                }
            }
            assert forall|y: u32| #[trigger] next.contains(y) <==> upto.contains(y) || y == page by {
                assert(next[i as int] == page);
                if upto.contains(y) {
                    let j = choose|j: int| 0 <= j < upto.len() && upto[j] == y;
                    assert(next[j] == y);
                }
            }
            assert(window(p).contains(page)) by {
                assert(near@[i as int] == page);
                assert(near@.to_set().contains(page));
            }
            assert(!start@.contains(page));
            if !self.ready.contains(page) && !self.underway.contains(page) {
                let ghost before = start@;
                start.push(page);
                self.underway.insert(page);
                assert forall|y: u32| #[trigger]
                    start@.contains(y) <==> before.contains(y) || y == page by {
                    assert(start@[before.len() as int] == page);
                    if before.contains(y) {
                        let j = choose|j: int| 0 <= j < before.len() && before[j] == y;
                        assert(start@[j] == y);
                    }
                }
                assert(start@.no_duplicates()) by {
                    assert forall|a: int, b: int|
                        0 <= a < start@.len() && 0 <= b < start@.len() && a != b implies start@[a]
                        != start@[b] by {
                        if a < before.len() {
                            assert(before.contains(before[a]));
                        }
                        if b < before.len() {
                            assert(before.contains(before[b]));
                        }
                    }
                }
                assert(self.underway@ =~= kept.union(start@.to_set()));
            }
        }
        assert(near@.take(near@.len() as int) =~= near@);
        assert(start@.to_set() =~= window(p).difference(p.ready).difference(p.underway)) by {
            assert forall|x: u32| near@.contains(x) <==> window(p).contains(x) by {
                assert(near@.to_set().contains(x) <==> window(p).contains(x));
            }
        }
        PdfEffects { event: None, notify: false, scroll: Scroll::Stay, evict, cancel, start }
    }

    fn clip(&self, page: u32) -> (r: u32)
        ensures
            r == clipped(self@, page),
    {
        if page < self.page_count {
            page
        } else if self.page_count > 0 {
            self.page_count - 1
        } else {
            0
        }
    }

    /// Go to a page, or to the last one where there is no such page.
    pub fn goto_page(&mut self, page: u32) -> (r: PdfEffects)
        ensures
            brought(final(self)@, r, went_to(old(self)@, page)),
    {
        let target = self.clip(page);
        if target == self.current_page {
            let mut effects = plain(true);
            effects.scroll = Scroll::Page(target);
            effects
        } else {
            self.current_page = target;
            let mut effects = self.refresh_active_window();
            effects.notify = true;
            effects.scroll = Scroll::Page(target);
            effects
        }
    }

    pub fn next_page(&mut self) -> (r: PdfEffects)
        ensures
            brought(final(self)@, r, went_on(old(self)@)),
    {
        if (self.current_page as u64) + 1 < self.page_count as u64 {
            self.goto_page(self.current_page + 1)
        } else {
            plain(false)
        }
    }

    pub fn prev_page(&mut self) -> (r: PdfEffects)
        ensures
            brought(final(self)@, r, went_back(old(self)@)),
    {
        if self.current_page > 0 {
            self.goto_page(self.current_page - 1)
        } else {
            plain(false)
        }
    }

    pub fn first_page(&mut self) -> (r: PdfEffects)
        ensures
            brought(final(self)@, r, went_to(old(self)@, 0)),
    {
        self.goto_page(0)
    }

    pub fn last_page(&mut self) -> (r: PdfEffects)
        ensures
            brought(final(self)@, r, went_to(old(self)@, u32::MAX)),
    {
        self.goto_page(u32::MAX)
    }

    /// The user has scrolled; `page` is at the top of the viewport now.
    pub fn scrolled_to(&mut self, page: u32) -> (r: PdfEffects)
        ensures
            brought(final(self)@, r, scrolled(old(self)@, page)),
    {
        self.current_page = self.clip(page);
        self.refresh_active_window()
    }

    /// A page is rasterized. Says whether to keep the image.
    pub fn render_done(&mut self, page: u32) -> (r: (bool, PdfEffects))
        ensures
            brought(final(self)@, r.1, render_came(old(self)@, page)),
            r.0 == in_window(old(self)@, page),
    {
        let (from, to) = self.window_bounds();
        proof {
            assert(window(self@).contains(page) <==> in_window(self@, page));
        }
        self.underway.remove(page);
        if from <= page && (page as u64) < to {
            self.ready.insert(page);
            (true, plain(true))
        } else {
            (false, plain(false))
        }
    }

    /// A page could not be rasterized.
    pub fn render_failed(&mut self, page: u32) -> (r: PdfEffects)
        ensures
            brought(final(self)@, r, render_lost(old(self)@, page)),
    {
        self.underway.remove(page);
        plain(false)
    }

    /// Select a region and bring it into view.
    pub fn set_selection(&mut self, page: u32, bbox: &BBox) -> (r: PdfEffects)
        ensures
            brought(final(self)@, r, region_set(old(self)@, page, bbox@)),
    {
        let next = Some(PageSelection { page: self.clip(page), bbox: bbox.copy() });
        let changed = !same_selection(&self.selection, &next);
        let mut effects = plain(true);
        if let Some(s) = &next {
            effects.scroll = Scroll::Region(s.copy());
        }
        if changed {
            effects.event = Some(PdfPaneEvent::SelectionChanged(copied(&next)));
        }
        self.selection = next;
        self.drawing = None;
        effects
    }

    /// Drop the selection, and a region that is being drawn.
    pub fn clear_selection(&mut self) -> (r: PdfEffects)
        ensures
            brought(final(self)@, r, region_cleared(old(self)@)),
    {
        let had = self.selection.is_some();
        if had || self.drawing.is_some() {
            self.selection = None;
            self.drawing = None;
            let mut effects = plain(true);
            if had {
                effects.event = Some(PdfPaneEvent::SelectionChanged(None));
            }
            effects
        } else {
            plain(false)
        }
    }

    /// The user begins to draw a region.
    pub fn begin_selection(&mut self, page: u32) -> (r: PdfEffects)
        ensures
            brought(final(self)@, r, drawing_begun(old(self)@, page)),
    {
        self.drawing = Some(page);
        plain(true)
    }

    /// The user has drawn a region; nothing where it is too small.
    pub fn end_selection(&mut self, bbox: Option<&BBox>) -> (r: PdfEffects)
        ensures
            brought(
                final(self)@,
                r,
                drawing_ended(
                    old(self)@,
                    match bbox {
                        Some(b) => Some(b@),
                        None => None,
                    },
                ),
            ),
    {
        match self.drawing {
            None => plain(false),
            Some(page) => {
                let next = match bbox {
                    Some(b) => Some(PageSelection { page, bbox: b.copy() }),
                    None => None,
                };
                let mut effects = plain(true);
                if !same_selection(&self.selection, &next) {
                    effects.event = Some(PdfPaneEvent::SelectionChanged(copied(&next)));
                    self.selection = next;
                }
                self.drawing = None;
                effects
            },
        }
    }

    /// The user has left the viewport while drawing.
    pub fn drop_drawing(&mut self) -> (r: PdfEffects)
        ensures
            brought(final(self)@, r, drawing_dropped(old(self)@)),
    {
        if self.drawing.is_some() {
            self.drawing = None;
            plain(true)
        } else {
            plain(false)
        }
    }

    /// The button was let go where nobody saw it.
    pub fn forget_drawing(&mut self) -> (r: PdfEffects)
        ensures
            brought(final(self)@, r, drawing_forgotten(old(self)@)),
    {
        self.drawing = None;
        plain(false)
    }

    /// The user presses the button over a page, or between pages.
    pub fn mouse_down(&mut self, shift: bool, page: Option<u32>) -> (r: PdfEffects)
        ensures
            brought(final(self)@, r, pressed(old(self)@, shift, page)),
    {
        if !shift {
            self.panning = true;
            return plain(false);
        }
        match page {
            Some(page) => self.begin_selection(page),
            None => plain(false),
        }
    }

    /// The user moves the mouse. Says what moves with it.
    pub fn mouse_moved(&mut self, held: bool) -> (r: (Motion, PdfEffects))
        ensures
            brought(final(self)@, r.1, moved(old(self)@, held)),
            r.0 == motion(old(self)@, held),
    {
        match self.drawing {
            Some(page) => if held {
                (Motion::Draw(page), plain(true))
            } else {
                (Motion::Nothing, self.forget_drawing())
            },
            None => if self.panning && held {
                (Motion::Pan, plain(true))
            } else {
                self.panning = false;
                (Motion::Nothing, plain(false))
            },
        }
    }

    /// The user lets the button go, with this region drawn; nothing where it is too
    /// small.
    pub fn mouse_up(&mut self, bbox: Option<&BBox>) -> (r: PdfEffects)
        ensures
            brought(
                final(self)@,
                r,
                let_go(
                    old(self)@,
                    match bbox {
                        Some(b) => Some(b@),
                        None => None,
                    },
                ),
            ),
    {
        self.panning = false;
        self.end_selection(bbox)
    }

    /// The user lets the button go outside of the viewport.
    pub fn mouse_up_out(&mut self) -> (r: PdfEffects)
        ensures
            brought(final(self)@, r, let_go_outside(old(self)@)),
    {
        self.panning = false;
        self.drop_drawing()
    }

    /// The region to show on a page.
    pub fn region_on(&self, page: u32) -> (r: ShownRegion)
        ensures
            r@ == shown_region(self@, page),
    {
        match self.drawing {
            Some(on) => if on == page {
                ShownRegion::Drawn
            } else {
                ShownRegion::Nothing
            },
            None => match &self.selection {
                Some(s) => if s.page == page {
                    ShownRegion::Selected(s.bbox.copy())
                } else {
                    ShownRegion::Nothing
                },
                None => ShownRegion::Nothing,
            },
        }
    }

    /// Draw these blocks, and no others.
    pub fn set_overlay_blocks(&mut self, blocks: HashMap<u32, Vec<StructuredBlock>>) -> (r: PdfEffects)
        ensures
            brought(final(self)@, r, overlay_set(old(self)@, overlay_view(blocks@))),
    {
        self.overlay_blocks = blocks;
        plain(true)
    }

    /// Draw no blocks.
    pub fn clear_overlay_blocks(&mut self) -> (r: PdfEffects)
        ensures
            brought(final(self)@, r, overlay_cleared(old(self)@)),
    {
        assert(overlay_view(self.overlay_blocks@).dom() =~= self.overlay_blocks@.dom());
        if self.overlay_blocks.is_empty() {
            plain(false)
        } else {
            self.overlay_blocks = HashMap::new();
            assert(overlay_view(self.overlay_blocks@) =~= Map::empty());
            plain(true)
        }
    }

    /// The line below the pages. `zoom` is the name of the zoom.
    pub fn status_line(&self, zoom: &str) -> (r: String)
        ensures
            r@ == "Page "@ + decimal((self@.current + 1) as nat) + " / "@ + decimal(
                self@.page_count as nat,
            ) + "  ·  "@ + zoom@,
    {
        String::from_str("Page ").concat(decimal_text(self.current_page as u64 + 1).as_str()).concat(
            " / ",
        ).concat(decimal_text(self.page_count as u64).as_str()).concat("  ·  ").concat(zoom)
    }
}

// ---------------------------------------------------------------------------
// Going from block to block, executed
// ---------------------------------------------------------------------------

/// A list of positions as mathematical numbers.
pub open spec fn positions(s: Seq<usize>) -> Seq<int> {
    s.map_values(|x: usize| x as int)
}

/// A block goes behind everything that is not read after it.
pub(crate) proof fn in_reading_order_at(order: Seq<int>, places: Seq<Place>, i: int, at: int)
    requires
        0 <= at <= order.len(),
        at > 0 ==> !read_before(places[i], places[order[at - 1]]),
        forall|j: int| at <= j < order.len() ==> read_before(places[i], places[#[trigger] order[j]]),
    ensures
        in_reading_order(order, places, i) == order.insert(at, i),
    decreases order.len(),
{
    if at == order.len() {
        assert(order.insert(at, i) =~= order.push(i));
        assert(order.len() == 0 ==> seq![i] =~= order.push(i));
    } else {
        assert(read_before(places[i], places[order[order.len() - 1]]));
        in_reading_order_at(order.drop_last(), places, i, at);
        assert(order.insert(at, i) =~= order.drop_last().insert(at, i).push(order.last()));
    }
}

fn reads_before(a: Place, b: Place) -> (r: bool)
    ensures
        r == read_before(a, b),
{
    a.down < b.down || (a.down == b.down && a.right < b.right)
}

/// The blocks in reading order.
pub fn order_blocks(places: &Vec<Place>) -> (r: Vec<usize>)
    ensures
        positions(r@) == reading_order(places@, places@.len()),
        r@.len() == places@.len(),
        forall|j: int| 0 <= j < r@.len() ==> (#[trigger] r@[j]) < places@.len(),
{
    let mut order: Vec<usize> = Vec::new();
    assert(positions(order@) =~= reading_order(places@, 0));
    for i in 0..places.len()
        invariant
            positions(order@) == reading_order(places@, i as nat),
            order@.len() == i,
            forall|j: int| 0 <= j < order@.len() ==> (#[trigger] order@[j]) < i,
    {
        let ghost before = positions(order@);
        let mut at: usize = order.len();
        while at > 0 && reads_before(places[i], places[order[at - 1]])
            invariant
                at <= order@.len(),
                i < places@.len(),
                before == positions(order@),
                forall|j: int| 0 <= j < order@.len() ==> (#[trigger] order@[j]) < i,
                forall|j: int|
                    at <= j < before.len() ==> read_before(
                        places@[i as int],
                        places@[#[trigger] before[j]],
                    ),
            decreases at,
        {
            at = at - 1;
            assert(before[at as int] == order@[at as int]);
        }
        proof {
            if at > 0 {
                assert(before[at - 1] == order@[at - 1]);
            }
            in_reading_order_at(before, places@, i as int, at as int);
        }
        order.insert(at, i);
        assert(positions(order@) =~= before.insert(at as int, i as int));
    }
    order
}

/// The last position of the greatest score in the order.
fn find_best(order: &Vec<usize>, scores: &Vec<u32>) -> (r: usize)
    requires
        order@.len() > 0,
        forall|j: int| 0 <= j < order@.len() ==> (#[trigger] order@[j]) < scores@.len(),
    ensures
        r == best_place(positions(order@), scores@, order@.len()),
        r < order@.len(),
{
    let ghost all = positions(order@);
    let mut best: usize = 0;
    for k in 1..order.len()
        invariant
            all == positions(order@),
            best == best_place(all, scores@, k as nat),
            best < k <= order@.len(),
            forall|j: int| 0 <= j < order@.len() ==> (#[trigger] order@[j]) < scores@.len(),
    {
        assert(all[k as int] == order@[k as int]);
        assert(all[best as int] == order@[best as int]);
        if scores[order[k]] >= scores[order[best]] {
            best = k;
        }
    }
    best
}

/// `at` moved by `delta`, round the end of a list of `len`.
fn around(at: usize, delta: isize, len: usize) -> (r: usize)
    requires
        at < len,
    ensures
        r == round_the_end(at as int, delta as int, len as int),
        r < len,
{
    let n: u128 = len as u128;
    if delta >= 0 {
        let d: u128 = delta as u128;
        let sum: u128 = at as u128 + d;
        (sum % n) as usize
    } else {
        let m: u128 = (-(delta + 1)) as u128 + 1;
        let d: u128 = m % n;
        proof {
            vstd::arithmetic::div_mod::lemma_fundamental_div_mod(m as int, n as int);
            let k: int = m as int / n as int + 1;
            assert(at - m == at + n - d + (-k) * n) by (nonlinear_arith)
                requires
                    m == n * (m as int / n as int) + d,
                    k == m as int / n as int + 1,
            ;
            vstd::arithmetic::div_mod::lemma_mod_multiples_vanish(-k, at + n - d, n as int);
            assert(n * (-k) + (at + n - d) == at - m) by (nonlinear_arith)
                requires
                    at - m == at + n - d + (-k) * n,
            ;
        }
        ((at as u128 + n - d) % n) as usize
    }
}

impl PdfPane {
    /// Go from the block that is selected to another one on its page, `delta`
    /// further in reading order. `places` and `scores` say of each drawn block of
    /// that page where it stands and how well the selection matches it: scores
    /// order as the numbers they stand for, and zero is no match.
    pub fn cycle_block(&mut self, delta: isize, places: &Vec<Place>, scores: &Vec<u32>) -> (r: PdfEffects)
        requires
            places@.len() == selected_page_blocks(old(self)@).len(),
            scores@.len() == places@.len(),
        ensures
            brought(final(self)@, r, block_cycled(old(self)@, delta as int, places@, scores@)),
    {
        let page = match &self.selection {
            None => return plain(false),
            Some(s) => s.page,
        };
        let bbox = match self.overlay_blocks.get(&page) {
            None => {
                assert(reading_order(places@, 0).len() == 0);
                return plain(false);
            },
            Some(blocks) => {
                let ghost shown = selected_page_blocks(self@);
                assert(shown == views(blocks@));
                if blocks.len() == 0 {
                    assert(reading_order(places@, 0).len() == 0);
                    return plain(false);
                }
                let order = order_blocks(places);
                let at = find_best(&order, scores);
                assert(positions(order@)[at as int] == order@[at as int]);
                if scores[order[at]] == 0 {
                    return plain(false);
                }
                let next = around(at, delta, order.len());
                assert(positions(order@)[next as int] == order@[next as int]);
                assert(shown[order@[next as int] as int] == blocks@[order@[next as int] as int]@);
                blocks[order[next]].bbox.copy()
            },
        };
        self.set_selection(page, &bbox)
    }
}

} // verus!
