//! What holds of the PDF pane whatever is done with it.

use crate::ir::{BBoxView, equal_boxes, equal_regions, is_region};
use crate::pdf::{
    ACTIVE_WINDOW_RADIUS, Motion, PdfView, Place, best_place, block_cycled, clipped, drawing_ended,
    in_reading_order_at, in_window, let_go, let_go_outside, motion, moved, next_block, pdf_opened, pressed, read_before,
    reading_order, refreshed, region_cleared, region_set, render_came, round_the_end, scrolled,
    shown_region, still, went_back, went_on, went_to, window,
};
use vstd::prelude::*;

verus! {

/// Is there a page, and is the current one of those there are?
pub open spec fn on_a_page(p: PdfView) -> bool {
    p.current < p.page_count
}

/// Are exactly the pages near the current one rasterized or being rasterized,
/// none of them both?
pub open spec fn settled(p: PdfView) -> bool {
    &&& forall|page: u32|
        p.ready.contains(page) || p.underway.contains(page) <==> #[trigger] in_window(p, page)
    &&& p.ready.disjoint(p.underway)
}

/// A refresh leaves exactly the pages near the current one, and starts no render
/// that is done or on its way.
pub proof fn refreshing_settles(p: PdfView)
    requires
        p.ready.disjoint(p.underway),
    ensures
        settled(refreshed(p).pane),
        refreshed(p).start.disjoint(p.ready),
        refreshed(p).start.disjoint(p.underway),
        refreshed(refreshed(p).pane).evict == Set::<u32>::empty(),
        refreshed(refreshed(p).pane).cancel == Set::<u32>::empty(),
        refreshed(refreshed(p).pane).start == Set::<u32>::empty(),
        refreshed(refreshed(p).pane).pane == refreshed(p).pane,
{
    let q = refreshed(p).pane;
    assert(window(q) =~= window(p));
    assert forall|page: u32|
        q.ready.contains(page) || q.underway.contains(page) <==> #[trigger] in_window(q, page) by {
        assert(window(p).contains(page) <==> in_window(p, page));
    }
    assert(refreshed(q).evict =~= Set::<u32>::empty());
    assert(refreshed(q).cancel =~= Set::<u32>::empty());
    assert(refreshed(q).start =~= Set::<u32>::empty());
    assert(refreshed(q).pane.ready =~= q.ready);
    assert(refreshed(q).pane.underway =~= q.underway);
}

/// A pane opens on its first page, with the pages near it being rasterized.
pub proof fn opens_settled(page_count: u32)
    requires
        page_count > 0,
    ensures
        settled(pdf_opened(page_count).pane),
        on_a_page(pdf_opened(page_count).pane),
{
    let p = PdfView {
        page_count,
        current: 0,
        selection: None,
        drawing: None,
        panning: false,
        overlay: Map::empty(),
        ready: Set::empty(),
        underway: Set::empty(),
    };
    refreshing_settles(p);
}

/// Going to a page keeps the pane on a page that there is, and keeps exactly the
/// pages near it.
pub proof fn going_stays_settled(p: PdfView, page: u32)
    requires
        settled(p),
        on_a_page(p),
    ensures
        settled(went_to(p, page).pane),
        on_a_page(went_to(p, page).pane),
        went_to(p, page).pane.current == clipped(p, page),
        page < p.page_count ==> went_to(p, page).pane.current == page,
{
    refreshing_settles(PdfView { current: clipped(p, page), ..p });
}

/// Scrolling keeps the pane on a page that there is, and keeps exactly the pages
/// near it.
pub proof fn scrolling_stays_settled(p: PdfView, page: u32)
    requires
        p.ready.disjoint(p.underway),
        p.page_count > 0,
    ensures
        settled(scrolled(p, page).pane),
        on_a_page(scrolled(p, page).pane),
{
    refreshing_settles(PdfView { current: clipped(p, page), ..p });
}

/// A render that comes keeps exactly the pages near the current one.
pub proof fn rendering_stays_settled(p: PdfView, page: u32)
    requires
        settled(p),
    ensures
        settled(render_came(p, page).pane),
{
    let q = render_came(p, page).pane;
    assert forall|other: u32|
        q.ready.contains(other) || q.underway.contains(other) <==> #[trigger] in_window(
            q,
            other,
        ) by {
        assert(in_window(p, other) <==> in_window(q, other));
        assert(in_window(p, page) || !p.underway.contains(page));
    }
}

/// The pages that are rasterized or being rasterized lie close together.
pub proof fn few_pages_are_kept(p: PdfView, a: u32, b: u32)
    requires
        settled(p),
        p.ready.contains(a) || p.underway.contains(a),
        p.ready.contains(b) || p.underway.contains(b),
    ensures
        a <= b + 2 * ACTIVE_WINDOW_RADIUS,
{
    assert(in_window(p, a));
    assert(in_window(p, b));
}

/// Going on and back again leads to the same page.
pub proof fn back_undoes_on(p: PdfView)
    requires
        p.current + 1 < p.page_count,
    ensures
        went_back(went_on(p).pane).pane.current == p.current,
{
}

/// Selecting a region a second time reports nothing, unless its box holds what is
/// no number.
pub proof fn region_is_reported_once(p: PdfView, page: u32, bbox: BBoxView)
    requires
        equal_boxes(bbox, bbox),
    ensures
        region_set(region_set(p, page, bbox).pane, page, bbox).report is None,
        region_set(p, page, bbox).pane.selection == Some((clipped(p, page), bbox)),
{
}

/// Dropping the selection a second time does nothing.
pub proof fn region_is_cleared_once(p: PdfView)
    ensures
        region_cleared(region_cleared(p).pane) == still(region_cleared(p).pane),
        region_cleared(p).pane.selection is None,
{
}

/// Every change of the selection is reported, and nothing else is.
pub proof fn reports_are_changes(p: PdfView, page: u32, bbox: BBoxView, drawn_box: Option<BBoxView>)
    ensures
        region_set(p, page, bbox).report is Some <==> !equal_regions(
            p.selection,
            region_set(p, page, bbox).pane.selection,
        ),
        region_cleared(p).report is Some <==> !equal_regions(
            p.selection,
            region_cleared(p).pane.selection,
        ),
        match drawing_ended(p, drawn_box).report {
            Some(now) => drawing_ended(p, drawn_box).pane.selection == now && !equal_regions(
                p.selection,
                now,
            ),
            None => drawing_ended(p, drawn_box).pane.selection == p.selection,
        },
{
}

/// However the button is let go, nothing is drawn or dragged any more, and a move
/// of the mouse after that does nothing.
pub proof fn letting_go_ends_it(p: PdfView, bbox: Option<BBoxView>, held: bool)
    ensures
        let_go(p, bbox).pane.drawing is None,
        let_go_outside(p).pane.drawing is None,
        moved(let_go(p, bbox).pane, held) == still(let_go(p, bbox).pane),
        moved(let_go_outside(p).pane, held) == still(let_go_outside(p).pane),
{
}

/// Drawing is left without a trace by letting go outside of the viewport: the
/// selection stays, and nothing is reported.
pub proof fn letting_go_outside_keeps_the_selection(p: PdfView)
    ensures
        let_go_outside(p).pane.selection == p.selection,
        let_go_outside(p).report is None,
{
}

/// Pressing, moving and letting go over a page selects the region that was drawn
/// on it.
pub proof fn drawing_selects(p: PdfView, page: u32, bbox: BBoxView)
    ensures
        ({
            let down = pressed(p, true, Some(page)).pane;
            &&& motion(down, true) == Motion::Draw(page)
            &&& is_region(
                let_go(moved(down, true).pane, Some(bbox)).pane.selection,
                page,
                bbox,
            )
        }),
{
}

/// At most one region is shown, on one page.
pub proof fn one_region_is_shown(p: PdfView, a: u32, b: u32)
    requires
        shown_region(p, a) !is Nothing,
        shown_region(p, b) !is Nothing,
    ensures
        a == b,
{
}

/// Does every position below `n` stand in the order?
pub open spec fn all_there(order: Seq<int>, n: int) -> bool {
    &&& forall|i: int| 0 <= i < n ==> #[trigger] order.contains(i)
    &&& forall|k: int| 0 <= k < order.len() ==> 0 <= #[trigger] order[k] < n
}

/// Is nothing read after what stands behind it, and do blocks in the same place
/// keep their order?
pub open spec fn well_ordered(order: Seq<int>, places: Seq<Place>) -> bool {
    forall|a: int, b: int|
        0 <= a < b < order.len() ==> {
            let x = #[trigger] order[a];
            let y = #[trigger] order[b];
            read_before(places[x], places[y]) || (places[x] == places[y] && x < y)
        }
}

/// The reading order names every block once, from the top down and then from the
/// left; blocks in the same place keep their order.
pub proof fn reading_order_is_ordered(places: Seq<Place>, n: nat)
    requires
        n <= places.len(),
    ensures
        reading_order(places, n).len() == n,
        all_there(reading_order(places, n), n as int),
        well_ordered(reading_order(places, n), places),
    decreases n,
{
    if n > 0 {
        let before = reading_order(places, (n - 1) as nat);
        reading_order_is_ordered(places, (n - 1) as nat);
        let i = n - 1;
        let at = insertion_place(before, places, i, before.len() as int);
        in_reading_order_at(before, places, i, at);
        let after = before.insert(at, i);
        assert forall|j: int| 0 <= j < n implies #[trigger] after.contains(j) by {
            if j == i {
                assert(after[at] == j);
            } else {
                assert(before.contains(j));
                let k = choose|k: int| 0 <= k < before.len() && before[k] == j;
                if k < at {
                    assert(after[k] == j);
                } else {
                    assert(after[k + 1] == j);
                }
            }
        }
        assert forall|a: int, b: int| 0 <= a < b < after.len() implies {
            let x = #[trigger] after[a];
            let y = #[trigger] after[b];
            read_before(places[x], places[y]) || (places[x] == places[y] && x < y)
        } by {
            if b == at {
                let x = before[a];
                assert(0 <= x < i);
                if a < at - 1 {
                    let z = before[at - 1];
                    assert(read_before(places[x], places[z]) || (places[x] == places[z] && x < z));
                }
            } else if a == at {
                assert(read_before(places[i], places[before[b - 1]]));
            } else {
                let a0 = if a < at {
                    a
                } else {
                    a - 1
                };
                let b0 = if b < at {
                    b
                } else {
                    b - 1
                };
                let x = before[a0];
                let y = before[b0];
                assert(read_before(places[x], places[y]) || (places[x] == places[y] && x < y));
            }
        }
    }
}

/// Where a block goes in an order.
proof fn insertion_place(order: Seq<int>, places: Seq<Place>, i: int, upto: int) -> (at: int)
    requires
        well_ordered(order, places),
        0 <= upto <= order.len(),
        forall|j: int| upto <= j < order.len() ==> read_before(places[i], places[#[trigger] order[j]]),
    ensures
        0 <= at <= upto,
        at > 0 ==> !read_before(places[i], places[order[at - 1]]),
        forall|j: int| at <= j < order.len() ==> read_before(places[i], places[#[trigger] order[j]]),
    decreases upto,
{
    if upto > 0 && read_before(places[i], places[order[upto - 1]]) {
        insertion_place(order, places, i, upto - 1)
    } else {
        upto
    }
}

/// The block that is gone to is one of those that are drawn.
pub proof fn next_block_is_drawn(places: Seq<Place>, scores: Seq<u32>, delta: int)
    ensures
        next_block(places, scores, delta) matches Some(i) ==> 0 <= i < places.len(),
{
    reading_order_is_ordered(places, places.len());
}

/// Going on in the order and back again leads to the same position.
pub proof fn cycling_back(at: int, delta: int, len: int)
    requires
        0 <= at < len,
    ensures
        round_the_end(round_the_end(at, delta, len), -delta, len) == at,
{
    vstd::arithmetic::div_mod::lemma_add_mod_noop_right(-delta, at + delta, len);
    vstd::arithmetic::div_mod::lemma_small_mod(at as nat, len as nat);
}

// ---------------------------------------------------------------------------
// Going round the blocks of a page
// ---------------------------------------------------------------------------

/// Does the selection match block `i` of `n`, and no other?
pub open spec fn matches_only(scores: Seq<u32>, n: int, i: int) -> bool {
    &&& scores.len() == n
    &&& 0 <= i < n
    &&& scores[i] > 0
    &&& forall|j: int| 0 <= j < n && j != i ==> (#[trigger] scores[j]) == 0
}

/// The block `delta` further in reading order than block `i`, round the end.
pub open spec fn further(places: Seq<Place>, i: int, delta: int) -> int {
    let order = reading_order(places, places.len());
    order[round_the_end(order.index_of(i), delta, order.len() as int)]
}

proof fn best_place_is_a_place(order: Seq<int>, scores: Seq<u32>, n: nat)
    requires
        0 < n <= order.len(),
    ensures
        0 <= best_place(order, scores, n) < n,
    decreases n,
{
    if n > 1 {
        best_place_is_a_place(order, scores, (n - 1) as nat);
    }
}

proof fn only_match_is_best(order: Seq<int>, scores: Seq<u32>, k: int, n: nat)
    requires
        0 <= k < n <= order.len(),
        forall|a: int| 0 <= a < order.len() ==> 0 <= #[trigger] order[a] < scores.len(),
        scores[order[k]] > 0,
        forall|a: int| 0 <= a < order.len() && a != k ==> scores[#[trigger] order[a]] == 0,
    ensures
        best_place(order, scores, n) == k,
    decreases n,
{
    if n > 1 {
        if k < n - 1 {
            only_match_is_best(order, scores, k, (n - 1) as nat);
        } else {
            best_place_is_a_place(order, scores, (n - 1) as nat);
        }
    }
}

/// A block stands in one position of the reading order.
proof fn one_position(places: Seq<Place>, a: int, b: int)
    requires
        0 <= a < reading_order(places, places.len()).len(),
        0 <= b < reading_order(places, places.len()).len(),
        reading_order(places, places.len())[a] == reading_order(places, places.len())[b],
    ensures
        a == b,
{
    reading_order_is_ordered(places, places.len());
    let order = reading_order(places, places.len());
    if a < b {
        let x = order[a];
        let y = order[b];
        assert(read_before(places[x], places[y]) || (places[x] == places[y] && x < y));
    } else if b < a {
        let x = order[b];
        let y = order[a];
        assert(read_before(places[x], places[y]) || (places[x] == places[y] && x < y));
    }
}

/// From the block that the selection alone matches, it is gone on in reading order:
/// to the block behind it, and from the last one to the first.
pub proof fn going_on_follows_the_order(places: Seq<Place>, scores: Seq<u32>, i: int, delta: int)
    requires
        matches_only(scores, places.len() as int, i),
    ensures
        next_block(places, scores, delta) == Some(further(places, i, delta)),
        0 <= further(places, i, delta) < places.len(),
        ({
            let order = reading_order(places, places.len());
            let k = order.index_of(i);
            &&& 0 <= k < order.len()
            &&& order[k] == i
            &&& further(places, i, 1) == (if k + 1 < order.len() {
                order[k + 1]
            } else {
                order[0]
            })
        }),
{
    let order = reading_order(places, places.len());
    let n = order.len() as int;
    reading_order_is_ordered(places, places.len());
    assert(order.contains(i));
    let k = order.index_of(i);
    assert(0 <= k < n && order[k] == i);
    assert forall|a: int| 0 <= a < order.len() && a != k implies scores[#[trigger] order[a]]
        == 0 by {
        if order[a] == i {
            one_position(places, a, k);
        }
    }
    only_match_is_best(order, scores, k, order.len());
    if k + 1 < n {
        vstd::arithmetic::div_mod::lemma_small_mod((k + 1) as nat, n as nat);
    } else {
        vstd::arithmetic::div_mod::lemma_mod_self_0(n);
    }
    let at = round_the_end(k, delta, n);
    assert(0 <= at < n);
    assert(0 <= order[at] < places.len());
}

/// Going further and then further again is going further by both.
proof fn further_and_further(places: Seq<Place>, i: int, a: int, b: int)
    requires
        0 <= i < places.len(),
    ensures
        further(places, further(places, i, a), b) == further(places, i, a + b),
        further(places, i, 0) == i,
        further(places, i, places.len() as int) == i,
{
    let order = reading_order(places, places.len());
    let n = order.len() as int;
    reading_order_is_ordered(places, places.len());
    assert(order.contains(i));
    let k = order.index_of(i);
    assert(0 <= k < n && order[k] == i);
    let at = round_the_end(k, a, n);
    assert(0 <= at < n);
    let there = order[at];
    assert(order.contains(there));
    let m = order.index_of(there);
    assert(0 <= m < n && order[m] == there);
    one_position(places, at, m);
    vstd::arithmetic::div_mod::lemma_add_mod_noop_right(b, k + a, n);
    assert(round_the_end(m, b, n) == round_the_end(k, a + b, n));
    vstd::arithmetic::div_mod::lemma_small_mod(k as nat, n as nat);
    vstd::arithmetic::div_mod::lemma_mod_add_multiples_vanish(k, n);
}

/// Is block `i` of the page the selection? The page is one of those there are.
pub open spec fn on_block(p: PdfView, page: u32, i: int) -> bool {
    &&& page < p.page_count
    &&& p.overlay.contains_key(page)
    &&& 0 <= i < p.overlay[page].len()
    &&& p.selection == Some((page, p.overlay[page][i].bbox))
}

/// Going from a block to another one selects that one, on the same page, and leaves
/// the page numbers and the drawn blocks as they are.
proof fn cycling_selects(p: PdfView, page: u32, i: int, delta: int, places: Seq<Place>, scores: Seq<u32>)
    requires
        on_block(p, page, i),
        places.len() == p.overlay[page].len(),
        matches_only(scores, places.len() as int, i),
    ensures
        on_block(block_cycled(p, delta, places, scores).pane, page, further(places, i, delta)),
        block_cycled(p, delta, places, scores).pane.overlay == p.overlay,
        block_cycled(p, delta, places, scores).pane.page_count == p.page_count,
{
    going_on_follows_the_order(places, scores, i, delta);
}

/// A step from block to block and the same step back lead to the same selection,
/// where the selection matches one block before each step. `there` and `back` say
/// how well it matches each block.
pub proof fn a_step_back_restores_the_selection(
    p: PdfView,
    page: u32,
    i: int,
    delta: int,
    places: Seq<Place>,
    there: Seq<u32>,
    back: Seq<u32>,
)
    requires
        on_block(p, page, i),
        places.len() == p.overlay[page].len(),
        matches_only(there, places.len() as int, i),
        matches_only(back, places.len() as int, further(places, i, delta)),
    ensures
        block_cycled(
            block_cycled(p, delta, places, there).pane,
            -delta,
            places,
            back,
        ).pane.selection == p.selection,
{
    cycling_selects(p, page, i, delta, places, there);
    let q = block_cycled(p, delta, places, there).pane;
    cycling_selects(q, page, further(places, i, delta), -delta, places, back);
    further_and_further(places, i, delta, -delta);
}

/// The pane after `steps` steps to the next block. `scores` says how well a box
/// matches each block.
pub open spec fn cycled_on(
    p: PdfView,
    places: Seq<Place>,
    scores: spec_fn(BBoxView) -> Seq<u32>,
    steps: nat,
) -> PdfView
    decreases steps,
{
    if steps == 0 {
        p
    } else {
        let q = cycled_on(p, places, scores, (steps - 1) as nat);
        match q.selection {
            Some(s) => block_cycled(q, 1, places, scores(s.1)).pane,
            None => q,
        }
    }
}

proof fn steps_add_up(
    p: PdfView,
    page: u32,
    i: int,
    places: Seq<Place>,
    scores: spec_fn(BBoxView) -> Seq<u32>,
    steps: nat,
)
    requires
        on_block(p, page, i),
        places.len() == p.overlay[page].len(),
        forall|j: int|
            #![trigger p.overlay[page][j]]
            0 <= j < places.len() ==> matches_only(
                scores(p.overlay[page][j].bbox),
                places.len() as int,
                j,
            ),
    ensures
        on_block(
            cycled_on(p, places, scores, steps),
            page,
            further(places, i, steps as int),
        ),
        cycled_on(p, places, scores, steps).overlay == p.overlay,
    decreases steps,
{
    if steps == 0 {
        further_and_further(places, i, 0, 0);
    } else {
        let before = (steps - 1) as nat;
        steps_add_up(p, page, i, places, scores, before);
        let q = cycled_on(p, places, scores, before);
        let j = further(places, i, before as int);
        assert(matches_only(scores(p.overlay[page][j].bbox), places.len() as int, j));
        cycling_selects(q, page, j, 1, places, scores(q.overlay[page][j].bbox));
        further_and_further(places, i, before as int, 1);
    }
}

/// As many steps as there are blocks lead round the page, back to the selection: where
/// each block matches itself alone, as blocks do that do not overlap. The selection
/// stays on its page all the way.
pub proof fn going_round_restores_the_selection(
    p: PdfView,
    page: u32,
    i: int,
    places: Seq<Place>,
    scores: spec_fn(BBoxView) -> Seq<u32>,
    steps: nat,
)
    requires
        on_block(p, page, i),
        places.len() == p.overlay[page].len(),
        forall|j: int|
            #![trigger p.overlay[page][j]]
            0 <= j < places.len() ==> matches_only(
                scores(p.overlay[page][j].bbox),
                places.len() as int,
                j,
            ),
    ensures
        cycled_on(p, places, scores, places.len()).selection == p.selection,
        cycled_on(p, places, scores, steps).selection matches Some(s) && s.0 == page,
{
    steps_add_up(p, page, i, places, scores, places.len());
    steps_add_up(p, page, i, places, scores, steps);
    further_and_further(places, i, 0, 0);
}

} // verus!
