//! What the PDF pane shows and where it goes, page by page and block by block.

use crate::inspector_model::{EventView, PaneView};
use crate::ir::{BBoxView, StructuredBlockView, equal_regions};
use crate::pdf::{
    Motion, PdfError, PdfView, Place, ScrollView, ShownView, best_place, block_cycled, drawing_ended, let_go,
    let_go_outside, motion, moved, next_block, overlay_cleared, overlay_set, pdf_opened, pressed,
    reading_order, refreshed, region_cleared, region_set, render_came, render_lost, scrolled,
    shown_region, went_back, went_on, went_to, window,
};
use crate::pdf_laws::reading_order_is_ordered;
use crate::workspace::followed;
use vstd::prelude::*;

verus! {

// ---------------------------------------------------------------------------
// Pages
// ---------------------------------------------------------------------------

/// Is the page the current one, or next to it?
pub open spec fn near(p: PdfView, page: u32) -> bool {
    page < p.page_count && p.current - 1 <= page && page <= p.current + 1
}

/// A refresh keeps what is near, drops and cancels what is not, and starts what is near and
/// neither there nor on its way.
pub proof fn refreshing_looks_at_every_page(p: PdfView, page: u32)
    ensures
        ({
            let o = refreshed(p);
            &&& o.pane.ready.contains(page) <==> p.ready.contains(page) && near(p, page)
            &&& o.pane.underway.contains(page) <==> near(p, page) && (p.underway.contains(page)
                || !p.ready.contains(page))
            &&& o.evict.contains(page) <==> p.ready.contains(page) && !near(p, page)
            &&& o.cancel.contains(page) <==> p.underway.contains(page) && !near(p, page)
            &&& o.start.contains(page) <==> near(p, page) && !p.ready.contains(page)
                && !p.underway.contains(page)
            &&& o.pane == (PdfView { ready: o.pane.ready, underway: o.pane.underway, ..p })
            &&& o.report is None
            &&& o.scroll is Stay
        }),
{
    assert(window(p).contains(page) <==> near(p, page));
}

/// The pane opens on its first page, without a selection, and renders the first two pages.
pub proof fn the_pane_opens_on_the_first_page(page_count: u32, page: u32)
    ensures
        ({
            let o = pdf_opened(page_count);
            &&& o.pane.page_count == page_count
            &&& o.pane.current == 0
            &&& o.pane.selection is None
            &&& o.pane.drawing is None
            &&& !o.pane.panning
            &&& o.pane.overlay == Map::<u32, Seq<StructuredBlockView>>::empty()
            &&& o.start.contains(page) <==> page < page_count && page <= 1
            &&& o.pane.underway.contains(page) <==> page < page_count && page <= 1
            &&& !o.pane.ready.contains(page)
        }),
{
    let p = PdfView {
        page_count,
        current: 0,
        selection: None,
        drawing: None,
        panning: false,
        overlay: Map::empty(),
        ready: Set::empty(),
        underway: Set::empty(),
    };
    refreshing_looks_at_every_page(p, page);
}

/// A page that there is is gone to, and else the last one; nothing but the page and what is
/// rasterized changes.
pub proof fn pages_are_gone_to(p: PdfView, page: u32)
    requires
        p.page_count > 0,
    ensures
        ({
            let o = went_to(p, page);
            let target = if page < p.page_count {
                page as int
            } else {
                p.page_count - 1
            };
            &&& o.pane.current == target
            &&& o.scroll == ScrollView::Page(target as u32)
            &&& o.notify
            &&& o.report is None
            &&& o.pane.selection == p.selection
            &&& o.pane.drawing == p.drawing
            &&& o.pane.panning == p.panning
            &&& o.pane.overlay == p.overlay
            &&& o.pane.page_count == p.page_count
            &&& scrolled(p, page).pane.current == target
            &&& scrolled(p, page).pane.selection == p.selection
            &&& scrolled(p, page).scroll is Stay
        }),
{
}

/// Going on leads one page further, going back one page back, and neither leads anywhere
/// from the last or the first page.
pub proof fn steps_go_by_one_page(p: PdfView)
    requires
        p.current < p.page_count,
    ensures
        p.current + 1 < p.page_count ==> went_on(p).pane.current == p.current + 1,
        p.current + 1 == p.page_count ==> went_on(p).pane == p && !went_on(p).notify,
        p.current > 0 ==> went_back(p).pane.current == p.current - 1,
        p.current == 0 ==> went_back(p).pane == p && !went_back(p).notify,
{
}

/// A render that comes is kept where its page is near, and one that does not come can be
/// started again.
pub proof fn renders_are_kept(p: PdfView, page: u32)
    ensures
        ({
            let o = render_came(p, page);
            &&& o.pane.underway == p.underway.remove(page)
            &&& near(p, page) ==> o.pane.ready == p.ready.insert(page) && o.notify
            &&& !near(p, page) ==> o.pane.ready == p.ready && !o.notify
            &&& o.pane == (PdfView { ready: o.pane.ready, underway: o.pane.underway, ..p })
        }),
        ({
            let o = render_lost(p, page);
            &&& o.pane == (PdfView { underway: p.underway.remove(page), ..p })
            &&& !o.notify
            &&& near(p, page) && !p.ready.contains(page) ==> refreshed(o.pane).start.contains(page)
        }),
{
    let q = render_lost(p, page).pane;
    refreshing_looks_at_every_page(q, page);
}

// ---------------------------------------------------------------------------
// Regions
// ---------------------------------------------------------------------------

/// A region is selected on its page, brought into view, and reported unless it was selected
/// before.
pub proof fn regions_are_selected(p: PdfView, page: u32, bbox: BBoxView)
    requires
        page < p.page_count,
    ensures
        ({
            let o = region_set(p, page, bbox);
            &&& o.pane == (PdfView { selection: Some((page, bbox)), drawing: None, ..p })
            &&& o.scroll == ScrollView::Region(page, bbox)
            &&& o.notify
            &&& equal_regions(p.selection, Some((page, bbox))) ==> o.report is None
            &&& !equal_regions(p.selection, Some((page, bbox))) ==> o.report == Some(
                Some((page, bbox)),
            )
        }),
{
}

/// A region that is dropped is reported, and nothing else changes.
pub proof fn regions_are_dropped(p: PdfView)
    ensures
        ({
            let o = region_cleared(p);
            &&& o.pane == (PdfView { selection: None, drawing: None, ..p })
            &&& p.selection is Some ==> o.report == Some(None::<(u32, BBoxView)>)
            &&& p.selection is None ==> o.report is None
            &&& o.notify == (p.selection is Some || p.drawing is Some)
            &&& o.scroll is Stay
        }),
{
}

/// A region that was drawn is selected on the page that it was drawn on; one that is too
/// small leaves nothing selected.
pub proof fn drawn_regions_are_selected(p: PdfView, page: u32, bbox: Option<BBoxView>)
    requires
        p.drawing == Some(page),
    ensures
        ({
            let next = match bbox {
                Some(b) => Some((page, b)),
                None => None,
            };
            let o = drawing_ended(p, bbox);
            &&& o.pane.drawing is None
            &&& o.notify
            &&& !equal_regions(p.selection, next) ==> o.pane.selection == next && o.report == Some(
                next,
            )
            &&& equal_regions(p.selection, next) ==> o.pane.selection == p.selection
                && o.report is None
            &&& o.pane == (PdfView { selection: o.pane.selection, drawing: None, ..p })
            &&& let_go(p, bbox).pane == (PdfView {
                panning: false,
                selection: o.pane.selection,
                drawing: None,
                ..p
            })
            &&& let_go(p, bbox).report == o.report
        }),
{
}

/// With shift a region is drawn on the page, and without it the pages are dragged.
pub proof fn shift_draws(p: PdfView, page: Option<u32>)
    ensures
        pressed(p, false, page).pane == (PdfView { panning: true, ..p }),
        page matches Some(k) ==> pressed(p, true, page).pane == (PdfView { drawing: Some(k), ..p }),
        page is None ==> pressed(p, true, page).pane == p,
        let_go_outside(p).pane == (PdfView { panning: false, drawing: None, ..p }),
{
}

/// A move of the mouse goes on drawing or dragging while the button is held, drawing first,
/// and ends it where it is not.
pub proof fn moves_need_the_button(p: PdfView)
    ensures
        p.drawing matches Some(page) ==> motion(p, true) == Motion::Draw(page),
        p.drawing is None && p.panning ==> motion(p, true) == Motion::Pan,
        p.drawing is None && !p.panning ==> motion(p, true) == Motion::Nothing,
        motion(p, false) == Motion::Nothing,
        p.drawing is Some || p.panning ==> moved(p, true).pane == p && moved(p, true).notify,
        p.drawing is Some ==> moved(p, false).pane == (PdfView { drawing: None, ..p }),
        p.drawing is None ==> moved(p, false).pane == (PdfView { panning: false, ..p }),
        !moved(p, false).notify,
{
}

/// On a page the region is shown that is being drawn on it, or, where none is being drawn,
/// the one that is selected on it.
pub proof fn regions_are_shown_on_their_page(p: PdfView, page: u32)
    ensures
        p.drawing == Some(page) ==> shown_region(p, page) is Drawn,
        p.drawing matches Some(other) && other != page ==> shown_region(p, page) is Nothing,
        p.drawing is None ==> (p.selection matches Some(s) ==> if s.0 == page {
            shown_region(p, page) == ShownView::Selected(s.1)
        } else {
            shown_region(p, page) is Nothing
        }),
        p.drawing is None && p.selection is None ==> shown_region(p, page) is Nothing,
{
}

/// An overlay replaces the one before it, and nothing else changes.
pub proof fn overlays_are_replaced(p: PdfView, overlay: Map<u32, Seq<StructuredBlockView>>)
    ensures
        overlay_set(p, overlay).pane == (PdfView { overlay, ..p }),
        overlay_set(p, overlay).notify,
        overlay_set(p, overlay).report is None,
        overlay_cleared(p).pane.overlay.dom().is_empty(),
        overlay_cleared(p).pane == (PdfView { overlay: overlay_cleared(p).pane.overlay, ..p }),
{
}

// ---------------------------------------------------------------------------
// From block to block
// ---------------------------------------------------------------------------

/// Of two blocks, the one further up is read first, and of two at the same height the one
/// further to the left, or else the one that came first.
pub proof fn blocks_are_read_from_the_top(places: Seq<Place>, a: int, b: int)
    requires
        0 <= a < b < places.len(),
    ensures
        ({
            let order = reading_order(places, places.len());
            let p = places[order[a]];
            let q = places[order[b]];
            &&& order.len() == places.len()
            &&& 0 <= order[a] < places.len()
            &&& 0 <= order[b] < places.len()
            &&& order[a] != order[b]
            &&& p.down < q.down || (p.down == q.down && (p.right < q.right || (p.right == q.right
                && order[a] < order[b])))
        }),
{
    reading_order_is_ordered(places, places.len());
    let order = reading_order(places, places.len());
    let x = order[a];
    let y = order[b];
    assert(crate::pdf::read_before(places[x], places[y]) || (places[x] == places[y] && x < y));
}

proof fn best_is_greatest(order: Seq<int>, scores: Seq<u32>, n: nat)
    requires
        0 < n <= order.len(),
    ensures
        0 <= best_place(order, scores, n) < n,
        forall|k: int|
            0 <= k < n ==> scores[#[trigger] order[k]] <= scores[order[best_place(order, scores, n)]],
    decreases n,
{
    if n > 1 {
        best_is_greatest(order, scores, (n - 1) as nat);
        let before = best_place(order, scores, (n - 1) as nat);
        assert(scores[order[before]] <= scores[order[best_place(order, scores, n)]]);
    }
}

/// Where the selection matches no block, there is nowhere to go. Else it is gone from one of
/// those that it matches best, by as many blocks in reading order as asked for, round the
/// end.
pub proof fn cycling_begins_at_the_best_match(places: Seq<Place>, scores: Seq<u32>, delta: int)
    requires
        scores.len() == places.len(),
    ensures
        next_block(places, scores, delta) is None <==> forall|i: int|
            0 <= i < scores.len() ==> #[trigger] scores[i] == 0,
        next_block(places, scores, delta) matches Some(i) ==> {
            let order = reading_order(places, places.len());
            exists|k: int|
                {
                    &&& 0 <= k < order.len()
                    &&& 0 <= #[trigger] order[k] < scores.len()
                    &&& forall|j: int| 0 <= j < scores.len() ==> #[trigger] scores[j] <= scores[order[k]]
                    &&& scores[order[k]] > 0
                    &&& i == order[(k + delta) % (order.len() as int)]
                }
        },
{
    reading_order_is_ordered(places, places.len());
    let order = reading_order(places, places.len());
    if order.len() > 0 {
        best_is_greatest(order, scores, order.len());
        let k = best_place(order, scores, order.len());
        assert forall|j: int| 0 <= j < scores.len() implies #[trigger] scores[j]
            <= scores[order[k]] by {
            assert(order.contains(j));
            let a = choose|a: int| 0 <= a < order.len() && order[a] == j;
            assert(scores[order[a]] <= scores[order[k]]);
        }
        assert(0 <= order[k] < places.len());
        if scores[order[k]] == 0 {
            assert(forall|i: int| 0 <= i < scores.len() ==> #[trigger] scores[i] == 0);
        }
    }
}

/// Going from block to block selects the box of the block, on the page of the selection.
pub proof fn cycling_selects_the_block(
    p: PdfView,
    delta: int,
    places: Seq<Place>,
    scores: Seq<u32>,
    page: u32,
    bbox: BBoxView,
    i: int,
)
    requires
        p.selection == Some((page, bbox)),
        p.overlay.contains_key(page),
        page < p.page_count,
        next_block(places, scores, delta) == Some(i),
    ensures
        block_cycled(p, delta, places, scores).pane.selection == Some(
            (page, p.overlay[page][i].bbox),
        ),
        block_cycled(p, delta, places, scores).scroll == ScrollView::Region(
            page,
            p.overlay[page][i].bbox,
        ),
{
}

// ---------------------------------------------------------------------------
// Following the inspector
// ---------------------------------------------------------------------------

/// The PDF goes to the page that the inspector names, selects the block, draws the overlay
/// of every page, and drops the selection; a request leaves it as it is.
pub proof fn the_pdf_follows(pdf: PdfView, inspector: PaneView, e: EventView, page: u32)
    ensures
        match e {
            EventView::GotoPage(k) => k < pdf.page_count ==> followed(
                pdf,
                inspector,
                e,
            ).pane.current == k,
            EventView::SelectBlock { page: k, bbox } => k < pdf.page_count ==> followed(
                pdf,
                inspector,
                e,
            ).pane.selection == Some((k, bbox)),
            EventView::OverlayChanged => {
                let now = followed(pdf, inspector, e).pane.overlay;
                match inspector.doc {
                    Some(d) => match crate::inspector_model::overlay_of(
                        inspector.kinds,
                        d.extracted_pages,
                        page,
                    ) {
                        Some(blocks) => now.contains_key(page) && now[page] == blocks,
                        None => !now.contains_key(page),
                    },
                    None => !now.contains_key(page),
                }
            },
            EventView::SelectionCleared => followed(pdf, inspector, e).pane.selection is None,
            EventView::PromptSubmit { .. } => followed(pdf, inspector, e).pane == pdf,
            EventView::ExtractPagePass2 { .. } => followed(pdf, inspector, e).pane == pdf,
            EventView::ExtractComponentModel => followed(pdf, inspector, e).pane == pdf,
        },
{
}

// ---------------------------------------------------------------------------
// Faults
// ---------------------------------------------------------------------------

/// Why a PDF cannot be shown is said in words of its own.
pub proof fn faults_are_told_apart()
    ensures
        PdfError::NoPages.text() == "PDF has no pages"@,
        PdfError::SizesMismatch.text() == "page count / sizes mismatch"@,
{
}

} // verus!
