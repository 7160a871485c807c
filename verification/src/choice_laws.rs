//! What the inspector draws, opens and selects, said of the blocks, the rows and the events.

use crate::ad_hoc::AdHocModel;
use crate::ids::{ExtractionId, TocEntryId};
use crate::inspector_model::{
    EventView, PaneView, SelectedRow, Tab, best_score, block_clicked, candidates, drive,
    enabled_blocks, escaped, first_open_pages, kind_clicked, kind_enabled, matched, model_chosen,
    opened, overlay_of, page_clicked, page_numbers, position_of, record_of, region_chosen,
    region_dropped, revealed, row_after_move, rows, run_clicked, selectables, selecting,
    selection_moved, tab_chosen, toc_clicked, went_left, went_right, with_kinds_of, with_new_kinds,
};
use crate::ir::{
    BBoxView, DocView, PageExtractionView, StructuredBlockView, equal_regions,
};
use crate::sorted::{keys_ordered, under_key, with_key, with_key_effect, with_key_keeps_order};
use crate::text::{text_less, text_order_is_total};
use crate::tree_laws::blocks_in;
use vstd::prelude::*;

verus! {

// ---------------------------------------------------------------------------
// What is drawn
// ---------------------------------------------------------------------------

/// The value under a key is the one that is paired with it.
pub proof fn values_stand_under_their_keys<V>(s: Seq<(Seq<char>, V)>, key: Seq<char>, value: V)
    requires
        keys_ordered(s),
    ensures
        under_key(s, key) == Some(value) <==> s.contains((key, value)),
        under_key(s, key) is None <==> forall|i: int| 0 <= i < s.len() ==> (#[trigger] s[i]).0 != key,
    decreases s.len(),
{
    if s.len() > 0 {
        let init = s.drop_last();
        let n = s.len() - 1;
        assert forall|i: int, j: int| 0 <= i < j < init.len() implies text_less(
            #[trigger] init[i].0,
            #[trigger] init[j].0,
        ) by {
            assert(text_less(s[i].0, s[j].0));
        }
        values_stand_under_their_keys(init, key, value);
        if s.last().0 == key {
            assert(s[n].0 == key);
            if s.contains((key, value)) {
                let i = choose|i: int| 0 <= i < s.len() && s[i] == (key, value);
                if i < n {
                    assert(text_less(s[i].0, s[n].0));
                    text_order_is_total(key, key);
                }
            }
        } else {
            if init.contains((key, value)) {
                let i = choose|i: int| 0 <= i < init.len() && init[i] == (key, value);
                assert(s[i] == (key, value));
            }
            if s.contains((key, value)) {
                let i = choose|i: int| 0 <= i < s.len() && s[i] == (key, value);
                assert(init[i] == (key, value));
            }
            if under_key(init, key) is None {
                assert forall|i: int| 0 <= i < s.len() implies (#[trigger] s[i]).0 != key by {
                    if i < n {
                        assert(init[i].0 != key);
                    }
                }
            } else {
                let i = choose|i: int| 0 <= i < init.len() && (#[trigger] init[i]).0 == key;
                assert(s[i].0 == key);
            }
        }
    }
}

/// A kind is drawn unless it has been switched off.
pub proof fn kinds_are_drawn_unless_switched_off(kinds: Seq<(Seq<char>, bool)>, kind: Seq<char>)
    requires
        keys_ordered(kinds),
    ensures
        kind_enabled(kinds, kind) <==> !kinds.contains((kind, false)),
{
    values_stand_under_their_keys(kinds, kind, false);
    values_stand_under_their_keys(kinds, kind, true);
}

/// The blocks whose kind has not been switched off.
pub open spec fn not_switched_off(kinds: Seq<(Seq<char>, bool)>) -> spec_fn(
    StructuredBlockView,
) -> bool {
    |b: StructuredBlockView| !kinds.contains((b.kind, false))
}

proof fn enabled_are_not_switched_off(
    kinds: Seq<(Seq<char>, bool)>,
    blocks: Seq<StructuredBlockView>,
)
    requires
        keys_ordered(kinds),
    ensures
        enabled_blocks(kinds, blocks) == blocks.filter(not_switched_off(kinds)),
    decreases blocks.len(),
{
    reveal(Seq::filter);
    if blocks.len() > 0 {
        enabled_are_not_switched_off(kinds, blocks.drop_last());
        kinds_are_drawn_unless_switched_off(kinds, blocks.last().kind);
    }
}

/// On a page without a layout nothing is drawn.
pub proof fn pages_without_layouts_have_no_overlay(
    kinds: Seq<(Seq<char>, bool)>,
    pages: Seq<PageExtractionView>,
    page: u32,
)
    ensures
        overlay_of(kinds, pages, page) is None <==> forall|i: int|
            0 <= i < pages.len() ==> !((#[trigger] pages[i]).page == page
                && pages[i].content is Structured),
    decreases pages.len(),
{
    if pages.len() > 0 {
        let init = pages.drop_last();
        pages_without_layouts_have_no_overlay(kinds, init, page);
        let n = pages.len() - 1;
        assert(pages[n] == pages.last());
        if overlay_of(kinds, pages, page) is None {
            assert forall|i: int| 0 <= i < pages.len() implies !((#[trigger] pages[i]).page == page
                && pages[i].content is Structured) by {
                if i < n {
                    assert(init[i] == pages[i]);
                }
            }
        } else if overlay_of(kinds, init, page) is Some {
            let i = choose|i: int|
                0 <= i < init.len() && (#[trigger] init[i]).page == page
                    && init[i].content is Structured;
            assert(pages[i] == init[i]);
        }
    }
}

/// A further layout of a page draws its blocks behind those that are there, in their order,
/// but for those of kinds that have been switched off. A record of another page, or without
/// a layout, changes nothing.
pub proof fn every_layout_is_drawn(
    kinds: Seq<(Seq<char>, bool)>,
    pages: Seq<PageExtractionView>,
    r: PageExtractionView,
    page: u32,
)
    requires
        keys_ordered(kinds),
    ensures
        r.page != page || !(r.content is Structured) ==> overlay_of(kinds, pages.push(r), page)
            == overlay_of(kinds, pages, page),
        r.page == page && r.content is Structured ==> overlay_of(kinds, pages.push(r), page) == Some(
            (match overlay_of(kinds, pages, page) {
                Some(before) => before,
                None => Seq::empty(),
            }) + r.content->Structured_0.blocks.filter(not_switched_off(kinds)),
        ),
{
    assert(pages.push(r).drop_last() =~= pages);
    if r.page == page && r.content is Structured {
        let blocks = r.content->Structured_0.blocks;
        enabled_are_not_switched_off(kinds, blocks);
        let own = blocks.filter(not_switched_off(kinds));
        assert(Seq::<StructuredBlockView>::empty() + own =~= own);
    }
}

proof fn new_kinds_are_listed(
    kinds: Seq<(Seq<char>, bool)>,
    blocks: Seq<StructuredBlockView>,
    kind: Seq<char>,
)
    requires
        keys_ordered(kinds),
    ensures
        keys_ordered(with_new_kinds(kinds, blocks)),
        under_key(kinds, kind) is Some ==> under_key(with_new_kinds(kinds, blocks), kind)
            == under_key(kinds, kind),
        under_key(kinds, kind) is None && (exists|i: int|
            0 <= i < blocks.len() && (#[trigger] blocks[i]).kind == kind) ==> under_key(
            with_new_kinds(kinds, blocks),
            kind,
        ) == Some(true),
        under_key(kinds, kind) is None && (forall|i: int|
            0 <= i < blocks.len() ==> (#[trigger] blocks[i]).kind != kind) ==> under_key(
            with_new_kinds(kinds, blocks),
            kind,
        ) is None,
    decreases blocks.len(),
{
    if blocks.len() > 0 {
        let init = blocks.drop_last();
        let last = blocks.last().kind;
        new_kinds_are_listed(kinds, init, kind);
        new_kinds_are_listed(kinds, init, last);
        let before = with_new_kinds(kinds, init);
        if under_key(before, last) is None {
            with_key_keeps_order(before, last, true);
            with_key_effect(before, last, true, kind);
        }
        let n = blocks.len() - 1;
        assert(blocks[n].kind == last);
        if exists|i: int| 0 <= i < blocks.len() && (#[trigger] blocks[i]).kind == kind {
            let i = choose|i: int| 0 <= i < blocks.len() && (#[trigger] blocks[i]).kind == kind;
            if i < n {
                assert(init[i].kind == kind);
            }
        } else {
            assert forall|i: int| 0 <= i < init.len() implies (#[trigger] init[i]).kind != kind by {
                assert(init[i] == blocks[i]);
            }
        }
        if exists|i: int| 0 <= i < init.len() && (#[trigger] init[i]).kind == kind {
            let i = choose|i: int| 0 <= i < init.len() && (#[trigger] init[i]).kind == kind;
            assert(blocks[i].kind == kind);
        }
    }
}

/// Has a layout among the records a block of this kind?
pub open spec fn kind_occurs(pages: Seq<PageExtractionView>, kind: Seq<char>) -> bool {
    exists|i: int, k: int|
        0 <= i < pages.len() && 0 <= k < blocks_in(pages[i]) && (#[trigger] layout_block(
            pages[i],
            k,
        )).kind == kind
}

/// Block `k` of a record with a layout.
pub open spec fn layout_block(r: PageExtractionView, k: int) -> StructuredBlockView {
    r.content->Structured_0.blocks[k]
}

/// Every kind that occurs is listed: as it was, if it was listed, and else as drawn. No
/// other kind is added.
pub proof fn every_kind_is_listed(
    kinds: Seq<(Seq<char>, bool)>,
    pages: Seq<PageExtractionView>,
    kind: Seq<char>,
)
    requires
        keys_ordered(kinds),
    ensures
        keys_ordered(with_kinds_of(kinds, pages)),
        under_key(kinds, kind) is Some ==> under_key(with_kinds_of(kinds, pages), kind)
            == under_key(kinds, kind),
        under_key(kinds, kind) is None && kind_occurs(pages, kind) ==> under_key(
            with_kinds_of(kinds, pages),
            kind,
        ) == Some(true),
        under_key(kinds, kind) is None && !kind_occurs(pages, kind) ==> under_key(
            with_kinds_of(kinds, pages),
            kind,
        ) is None,
    decreases pages.len(),
{
    if pages.len() > 0 {
        let init = pages.drop_last();
        let r = pages.last();
        let n = pages.len() - 1;
        assert(pages[n] == r);
        every_kind_is_listed(kinds, init, kind);
        let before = with_kinds_of(kinds, init);
        let blocks = crate::inspector_model::blocks_of(r.content);
        assert(blocks.len() == blocks_in(r));
        new_kinds_are_listed(before, blocks, kind);
        if kind_occurs(init, kind) {
            let (i, k) = choose|i: int, k: int|
                0 <= i < init.len() && 0 <= k < blocks_in(init[i]) && (#[trigger] layout_block(
                    init[i],
                    k,
                )).kind == kind;
            assert(layout_block(pages[i], k).kind == kind);
        }
        if kind_occurs(pages, kind) && !kind_occurs(init, kind) {
            let (i, k) = choose|i: int, k: int|
                0 <= i < pages.len() && 0 <= k < blocks_in(pages[i]) && (#[trigger] layout_block(
                    pages[i],
                    k,
                )).kind == kind;
            if i < n {
                assert(layout_block(init[i], k).kind == kind);
            }
            assert(blocks[k].kind == kind);
        }
        if !kind_occurs(pages, kind) {
            assert forall|k: int| 0 <= k < blocks.len() implies (#[trigger] blocks[k]).kind != kind by {
                if blocks[k].kind == kind {
                    assert(layout_block(pages[n], k).kind == kind);
                }
            }
        }
    }
}

/// A click on a kind switches it on or off, and no other one, and has the overlay drawn
/// again.
pub proof fn clicks_switch_kinds(p: PaneView, kind: Seq<char>, other: Seq<char>)
    requires
        keys_ordered(p.kinds),
    ensures
        ({
            let o = kind_clicked(p, kind);
            &&& keys_ordered(o.pane.kinds)
            &&& o.pane.kinds.contains((kind, p.kinds.contains((kind, false))))
            &&& other != kind ==> (o.pane.kinds.contains((other, false)) <==> p.kinds.contains(
                (other, false),
            ))
            &&& o.pane == (PaneView { kinds: o.pane.kinds, ..p })
            &&& o.events == seq![EventView::OverlayChanged]
            &&& o.notify
        }),
{
    let on = !kind_enabled(p.kinds, kind);
    kinds_are_drawn_unless_switched_off(p.kinds, kind);
    with_key_keeps_order(p.kinds, kind, on);
    with_key_effect(p.kinds, kind, on, kind);
    with_key_effect(p.kinds, kind, on, other);
    let after = with_key(p.kinds, kind, on);
    values_stand_under_their_keys(after, kind, on);
    values_stand_under_their_keys(after, other, false);
    values_stand_under_their_keys(p.kinds, other, false);
}

// ---------------------------------------------------------------------------
// Opening
// ---------------------------------------------------------------------------

/// A document opens on its extractions, with nothing selected and nothing on its way, with
/// every kind drawn, and with the entries on top open that have others below them.
pub proof fn documents_open_at_rest(
    d: DocView,
    label: Seq<char>,
    page_count: u32,
    id: TocEntryId,
    kind: Seq<char>,
)
    ensures
        ({
            let p = opened(Some(d), label, page_count);
            &&& p.doc == Some(d)
            &&& p.source_label == label
            &&& p.page_count == page_count
            &&& p.tab is Extractions
            &&& p.expanded_runs.is_empty()
            &&& p.expanded_toc.contains(id) <==> (exists|i: int|
                0 <= i < d.toc.len() && (#[trigger] d.toc[i]).id == id && d.toc[i].parent is None)
                && (exists|i: int|
                0 <= i < d.toc.len() && (#[trigger] d.toc[i]).parent == Some(id))
            &&& kind_occurs(d.extracted_pages, kind) ==> p.kinds.contains((kind, true))
            &&& !p.kinds.contains((kind, false))
            &&& p.selected is None
            &&& p.scroll_to is None
            &&& p.region is None
            &&& p.prompt is Idle
            &&& p.component is Idle
            &&& p.in_flight.is_empty()
            &&& !p.spinner_running
            &&& p.spinner_frame == 0
            &&& p.preset == 0
            &&& p.model is GlmOcr
        }),
        ({
            let p = opened(None, label, page_count);
            &&& p.doc is None
            &&& p.source_label == label
            &&& p.page_count == page_count
            &&& p.kinds.len() == 0
            &&& p.expanded_pages.is_empty()
            &&& p.expanded_toc.is_empty()
            &&& p.selected is None
        }),
{
    let none = Seq::<(Seq<char>, bool)>::empty();
    every_kind_is_listed(none, d.extracted_pages, kind);
    let all = with_kinds_of(none, d.extracted_pages);
    values_stand_under_their_keys(all, kind, true);
    values_stand_under_their_keys(all, kind, false);
    values_stand_under_their_keys(none, kind, false);
}

proof fn numbers_are_in_order(pages: Seq<PageExtractionView>)
    ensures
        forall|i: int, j: int|
            0 <= i < j < page_numbers(pages).len() ==> #[trigger] page_numbers(pages)[i]
                < #[trigger] page_numbers(pages)[j],
        forall|x: u32| #[trigger]
            page_numbers(pages).contains(x) <==> crate::inspector_laws::has_record(pages, x),
{
    crate::inspector_laws::page_numbers_in_order(pages);
}

/// The first three pages with a record are open at first: a page with a record is, unless
/// three others with a record come before it.
pub proof fn three_pages_are_open(pages: Seq<PageExtractionView>, page: u32)
    requires
        exists|i: int| 0 <= i < pages.len() && (#[trigger] pages[i]).page == page,
    ensures
        first_open_pages(pages).contains(page) <==> !(exists|a: int, b: int, c: int|
            0 <= a < pages.len() && 0 <= b < pages.len() && 0 <= c < pages.len()
                && (#[trigger] pages[a]).page < (#[trigger] pages[b]).page && pages[b].page < (
            #[trigger] pages[c]).page && pages[c].page < page),
{
    numbers_are_in_order(pages);
    let nums = page_numbers(pages);
    let shown = if nums.len() <= 3 {
        nums
    } else {
        nums.take(3)
    };
    assert(first_open_pages(pages) == shown.to_set());
    assert(nums.contains(page));
    let k = choose|k: int| 0 <= k < nums.len() && nums[k] == page;
    if k < 3 {
        assert(shown[k] == page);
        if exists|a: int, b: int, c: int|
            0 <= a < pages.len() && 0 <= b < pages.len() && 0 <= c < pages.len()
                && (#[trigger] pages[a]).page < (#[trigger] pages[b]).page && pages[b].page < (
            #[trigger] pages[c]).page && pages[c].page < page {
            let (a, b, c) = choose|a: int, b: int, c: int|
                0 <= a < pages.len() && 0 <= b < pages.len() && 0 <= c < pages.len()
                    && (#[trigger] pages[a]).page < (#[trigger] pages[b]).page && pages[b].page < (
                #[trigger] pages[c]).page && pages[c].page < page;
            let x = place_of(pages, a);
            let y = place_of(pages, b);
            let z = place_of(pages, c);
            order_of_places(nums, x, y);
            order_of_places(nums, y, z);
            order_of_places(nums, z, k);
            assert(false);
        }
    } else {
        if shown.contains(page) {
            let m = choose|m: int| 0 <= m < shown.len() && shown[m] == page;
            assert(nums[m] == page);
            assert(nums[m] < nums[k]);
        }
        assert(nums.contains(nums[0]) && nums.contains(nums[1]) && nums.contains(nums[2]));
        let a = choose|i: int| 0 <= i < pages.len() && (#[trigger] pages[i]).page == nums[0];
        let b = choose|i: int| 0 <= i < pages.len() && (#[trigger] pages[i]).page == nums[1];
        let c = choose|i: int| 0 <= i < pages.len() && (#[trigger] pages[i]).page == nums[2];
        assert(nums[0] < nums[1] && nums[1] < nums[2] && nums[2] < nums[k]);
        assert(pages[a].page < pages[b].page && pages[b].page < pages[c].page && pages[c].page
            < page);
    }
}

proof fn place_of(pages: Seq<PageExtractionView>, i: int) -> (k: int)
    requires
        0 <= i < pages.len(),
    ensures
        0 <= k < page_numbers(pages).len(),
        page_numbers(pages)[k] == pages[i].page,
{
    numbers_are_in_order(pages);
    let nums = page_numbers(pages);
    assert(crate::inspector_laws::has_record(pages, pages[i].page));
    assert(nums.contains(pages[i].page));
    choose|k: int| 0 <= k < nums.len() && nums[k] == pages[i].page
}

proof fn order_of_places(nums: Seq<u32>, x: int, y: int)
    requires
        forall|i: int, j: int|
            0 <= i < j < nums.len() ==> #[trigger] nums[i] < #[trigger] nums[j],
        0 <= x < nums.len(),
        0 <= y < nums.len(),
        nums[x] < nums[y],
    ensures
        x < y,
{
}

// ---------------------------------------------------------------------------
// Where rows lead
// ---------------------------------------------------------------------------

/// A page or a record leads to its page, a block to its box, and an entry to the page that
/// its first reference names, counted from one.
pub proof fn rows_lead_to_their_pages(p: PaneView, d: DocView, row: SelectedRow)
    requires
        p.doc == Some(d),
        p.selected == Some(row),
    ensures
        match row {
            SelectedRow::Page(page) => drive(p) == seq![
                EventView::GotoPage(page),
                EventView::SelectionCleared,
            ],
            SelectedRow::Extraction(page, _) => drive(p) == seq![
                EventView::GotoPage(page),
                EventView::SelectionCleared,
            ],
            SelectedRow::Block(page, run, idx) => match record_of(d.extracted_pages, page, run) {
                Some(r) => if idx < blocks_in(r) {
                    drive(p) == seq![
                        EventView::SelectBlock { page, bbox: layout_block(r, idx as int).bbox },
                    ]
                } else {
                    drive(p).len() == 0
                },
                None => drive(p).len() == 0,
            },
            SelectedRow::Toc(id) => match crate::inspector_model::entry_of(d.toc, id) {
                Some(e) => if e.page_refs.len() == 0 {
                    drive(p) == seq![EventView::SelectionCleared]
                } else if e.page_refs[0].page == 0 {
                    drive(p) == seq![EventView::GotoPage(0), EventView::SelectionCleared]
                } else {
                    drive(p) == seq![
                        EventView::GotoPage((e.page_refs[0].page - 1) as u32),
                        EventView::SelectionCleared,
                    ]
                },
                None => drive(p).len() == 0,
            },
        },
{
    if let SelectedRow::Toc(id) = row {
        if let Some(e) = crate::inspector_model::entry_of(d.toc, id) {
            let clear = Seq::<EventView>::empty().push(EventView::SelectionCleared);
            assert(clear =~= seq![EventView::SelectionCleared]);
            if e.page_refs.len() > 0 {
                let page = if e.page_refs[0].page == 0 {
                    0u32
                } else {
                    (e.page_refs[0].page - 1) as u32
                };
                assert(seq![EventView::GotoPage(page)].push(EventView::SelectionCleared) =~= seq![
                    EventView::GotoPage(page),
                    EventView::SelectionCleared,
                ]);
            }
        }
    }
}

/// A click selects the row, scrolls to it and goes where it leads; it opens what is closed
/// and closes what is open, of what there is to open.
pub proof fn clicks_select(
    p: PaneView,
    page: u32,
    run: ExtractionId,
    idx: usize,
    id: TocEntryId,
    more: bool,
)
    ensures
        ({
            let o = page_clicked(p, page);
            let row = SelectedRow::Page(page);
            &&& o.pane == (PaneView {
                selected: Some(row),
                scroll_to: Some(row),
                expanded_pages: o.pane.expanded_pages,
                ..p
            })
            &&& forall|k: u32| #[trigger]
                o.pane.expanded_pages.contains(k) <==> (p.expanded_pages.contains(k) != (k == page))
            &&& o.events == drive(o.pane)
            &&& o.notify
        }),
        ({
            let o = run_clicked(p, page, run, more);
            let row = SelectedRow::Extraction(page, run);
            &&& o.pane == (PaneView {
                selected: Some(row),
                scroll_to: Some(row),
                expanded_runs: o.pane.expanded_runs,
                ..p
            })
            &&& forall|k: (u32, ExtractionId)| #[trigger]
                o.pane.expanded_runs.contains(k) <==> (p.expanded_runs.contains(k) != (more && k == (
                page,
                run,
            )))
            &&& o.events == drive(o.pane)
            &&& o.notify
        }),
        ({
            let o = block_clicked(p, page, run, idx);
            let row = SelectedRow::Block(page, run, idx);
            &&& o.pane == (PaneView { selected: Some(row), scroll_to: Some(row), ..p })
            &&& o.events == drive(o.pane)
            &&& o.notify
        }),
        ({
            let o = toc_clicked(p, id, more);
            let row = SelectedRow::Toc(id);
            &&& o.pane == (PaneView {
                selected: Some(row),
                scroll_to: Some(row),
                expanded_toc: o.pane.expanded_toc,
                ..p
            })
            &&& forall|k: TocEntryId| #[trigger]
                o.pane.expanded_toc.contains(k) <==> (p.expanded_toc.contains(k) != (more && k == id))
            &&& o.events == drive(o.pane)
            &&& o.notify
        }),
{
}

/// Selecting another row scrolls to it and goes where it leads; selecting the same one does
/// nothing.
pub proof fn selecting_leads_there(p: PaneView, row: SelectedRow)
    ensures
        ({
            let o = selecting(p, row);
            if p.selected == Some(row) {
                o.pane == p && o.events.len() == 0 && !o.notify
            } else {
                &&& o.pane == (PaneView { selected: Some(row), scroll_to: Some(row), ..p })
                &&& o.events == drive(o.pane)
                &&& o.notify
            }
        }),
{
}

/// A tab or a model is chosen without anything else changing.
pub proof fn tabs_and_models_are_chosen(p: PaneView, tab: Tab, model: AdHocModel)
    ensures
        tab_chosen(p, tab).pane == (PaneView { tab, ..p }),
        tab_chosen(p, tab).notify == (p.tab != tab),
        tab_chosen(p, tab).events.len() == 0,
        model_chosen(p, model).pane == (PaneView { model, ..p }),
        model_chosen(p, model).notify == (p.model != model),
        model_chosen(p, model).events.len() == 0,
{
}

// ---------------------------------------------------------------------------
// Moving
// ---------------------------------------------------------------------------

proof fn positions_are_first(s: Seq<SelectedRow>, row: SelectedRow, from: nat)
    ensures
        match position_of(s, row, from) {
            Some(i) => from <= i < s.len() && s[i as int] == row && forall|j: int|
                from <= j < i ==> #[trigger] s[j] != row,
            None => forall|j: int| from <= j < s.len() ==> #[trigger] s[j] != row,
        },
    decreases s.len() - from,
{
    if from < s.len() && s[from as int] != row {
        positions_are_first(s, row, from + 1);
    }
}

/// A move leads that many rows down or up from the row that is selected, but no further
/// than to the last or the first one.
pub proof fn moves_go_by_rows(p: PaneView, delta: int, i: int)
    requires
        0 <= i < selectables(rows(p)).len(),
        p.selected == Some(selectables(rows(p))[i]),
        forall|j: int| 0 <= j < i ==> #[trigger] selectables(rows(p))[j] != selectables(rows(p))[i],
    ensures
        ({
            let s = selectables(rows(p));
            &&& 0 <= i + delta < s.len() ==> row_after_move(p, delta) == Some(s[i + delta])
            &&& i + delta < 0 ==> row_after_move(p, delta) == Some(s[0])
            &&& i + delta >= s.len() ==> row_after_move(p, delta) == Some(s[s.len() - 1])
            &&& selection_moved(p, delta) == selecting(p, row_after_move(p, delta)->Some_0)
        }),
{
    let s = selectables(rows(p));
    positions_are_first(s, s[i], 0);
}

/// Where none of the rows is selected, a move down leads to the first and a move up to the
/// last; where there are no rows, it leads nowhere.
pub proof fn moves_begin_at_an_end(p: PaneView, delta: int)
    requires
        p.selected matches Some(row) ==> !selectables(rows(p)).contains(row),
    ensures
        ({
            let s = selectables(rows(p));
            &&& s.len() > 0 && delta >= 0 ==> row_after_move(p, delta) == Some(s[0])
            &&& s.len() > 0 && delta < 0 ==> row_after_move(p, delta) == Some(s[s.len() - 1])
            &&& s.len() == 0 ==> row_after_move(p, delta) is None
            &&& s.len() == 0 ==> selection_moved(p, delta).pane == p
        }),
{
    let s = selectables(rows(p));
    if let Some(row) = p.selected {
        positions_are_first(s, row, 0);
        if let Some(i) = position_of(s, row, 0) {
            assert(s.contains(s[i as int]));
        }
    }
}

/// Left closes what is open, and from what is closed goes up: from a block to its record,
/// from a record to its page, from an entry to its parent.
pub proof fn left_goes_up(p: PaneView)
    ensures
        match p.selected {
            Some(SelectedRow::Page(page)) => went_left(p).pane == (PaneView {
                expanded_pages: p.expanded_pages.remove(page),
                ..p
            }),
            Some(SelectedRow::Extraction(page, run)) => if p.expanded_runs.contains((page, run)) {
                went_left(p).pane == (PaneView {
                    expanded_runs: p.expanded_runs.remove((page, run)),
                    ..p
                })
            } else {
                went_left(p) == selecting(p, SelectedRow::Page(page))
            },
            Some(SelectedRow::Block(page, run, _)) => went_left(p) == selecting(
                p,
                SelectedRow::Extraction(page, run),
            ),
            Some(SelectedRow::Toc(id)) => if p.expanded_toc.contains(id) {
                went_left(p).pane == (PaneView { expanded_toc: p.expanded_toc.remove(id), ..p })
            } else {
                match p.doc {
                    Some(d) => match crate::inspector_model::entry_of(d.toc, id) {
                        Some(e) => match e.parent {
                            Some(parent) => went_left(p) == selecting(p, SelectedRow::Toc(parent)),
                            None => went_left(p).pane == p,
                        },
                        None => went_left(p).pane == p,
                    },
                    None => went_left(p).pane == p,
                }
            },
            None => went_left(p).pane == p,
        },
        p.selected is None ==> went_left(p).events.len() == 0,
{
    if let Some(SelectedRow::Page(page)) = p.selected {
        if !p.expanded_pages.contains(page) {
            assert(p.expanded_pages.remove(page) =~= p.expanded_pages);
        }
    }
}

/// Right opens what is closed, and from what is open goes down: from a page to its first
/// record, from a record to its first block, from an entry to its first child.
pub proof fn right_goes_down(p: PaneView, d: DocView)
    requires
        p.doc == Some(d),
    ensures
        match p.selected {
            Some(SelectedRow::Page(page)) => if !p.expanded_pages.contains(page) {
                went_right(p).pane == (PaneView {
                    expanded_pages: p.expanded_pages.insert(page),
                    ..p
                })
            } else {
                match crate::inspector_model::first_on_page(d.extracted_pages, page) {
                    Some(r) => went_right(p) == selecting(
                        p,
                        SelectedRow::Extraction(page, r.extraction_uuid),
                    ),
                    None => went_right(p).pane == p,
                }
            },
            Some(SelectedRow::Extraction(page, run)) => match record_of(
                d.extracted_pages,
                page,
                run,
            ) {
                Some(r) => if blocks_in(r) == 0 {
                    went_right(p).pane == p
                } else if p.expanded_runs.contains((page, run)) {
                    went_right(p) == selecting(p, SelectedRow::Block(page, run, 0))
                } else {
                    went_right(p).pane == (PaneView {
                        expanded_runs: p.expanded_runs.insert((page, run)),
                        ..p
                    })
                },
                None => went_right(p).pane == p,
            },
            Some(SelectedRow::Block(_, _, _)) => went_right(p).pane == p,
            Some(SelectedRow::Toc(id)) => match crate::inspector_model::first_child(d.toc, id) {
                Some(child) => if p.expanded_toc.contains(id) {
                    went_right(p) == selecting(p, SelectedRow::Toc(child))
                } else {
                    went_right(p).pane == (PaneView {
                        expanded_toc: p.expanded_toc.insert(id),
                        ..p
                    })
                },
                None => went_right(p).pane == p,
            },
            None => went_right(p).pane == p,
        },
{
}

/// Escape changes nothing but the selection.
pub proof fn escape_drops_the_selection_alone(p: PaneView)
    ensures
        escaped(p).pane == (PaneView { selected: None, ..p }),
        escaped(p).events == seq![EventView::SelectionCleared],
        escaped(p).notify == (p.selected is Some),
{
}

// ---------------------------------------------------------------------------
// Regions
// ---------------------------------------------------------------------------

/// Is this the block of a layout among the records, of this page and this run, at this
/// position?
pub open spec fn is_block_of(
    pages: Seq<PageExtractionView>,
    page: u32,
    c: (ExtractionId, usize, BBoxView),
    i: int,
) -> bool {
    &&& 0 <= i < pages.len()
    &&& pages[i].page == page
    &&& pages[i].extraction_uuid == c.0
    &&& c.1 < blocks_in(pages[i])
    &&& layout_block(pages[i], c.1 as int).bbox == c.2
}

/// A region can match every block of every layout of its page, and nothing else.
pub proof fn every_block_of_the_page_can_match(
    pages: Seq<PageExtractionView>,
    page: u32,
    c: (ExtractionId, usize, BBoxView),
)
    requires
        forall|i: int| 0 <= i < pages.len() ==> blocks_in(#[trigger] pages[i]) <= usize::MAX,
    ensures
        candidates(pages, page).contains(c) <==> exists|i: int| is_block_of(pages, page, c, i),
    decreases pages.len(),
{
    let all = candidates(pages, page);
    if pages.len() == 0 {
        assert(!all.contains(c));
    } else {
        let init = pages.drop_last();
        let n = pages.len() - 1;
        let r = pages.last();
        assert(pages[n] == r);
        assert forall|i: int| 0 <= i < init.len() implies blocks_in(#[trigger] init[i])
            <= usize::MAX by {
            assert(init[i] == pages[i]);
        }
        every_block_of_the_page_can_match(init, page, c);
        let rest = candidates(init, page);
        if all.contains(c) {
            let k = choose|k: int| 0 <= k < all.len() && all[k] == c;
            if k < rest.len() {
                assert(rest[k] == c);
                assert(rest.contains(c));
                let i = choose|i: int| is_block_of(init, page, c, i);
                assert(init[i] == pages[i]);
                assert(is_block_of(pages, page, c, i));
            } else {
                assert(is_block_of(pages, page, c, n));
            }
        }
        if exists|i: int| is_block_of(pages, page, c, i) {
            let i = choose|i: int| is_block_of(pages, page, c, i);
            if i < n {
                assert(init[i] == pages[i]);
                assert(is_block_of(init, page, c, i));
                let k = choose|k: int| 0 <= k < rest.len() && rest[k] == c;
                assert(all[k] == c);
            } else {
                assert(all[rest.len() + c.1] == c);
            }
        }
    }
}

proof fn best_is_greatest(scores: Seq<u32>)
    ensures
        match best_score(scores) {
            Some(i) => {
                &&& 0 <= i < scores.len()
                &&& scores[i] > 0
                &&& forall|j: int| 0 <= j < i ==> #[trigger] scores[j] < scores[i]
                &&& forall|j: int| i < j < scores.len() ==> #[trigger] scores[j] <= scores[i]
            },
            None => forall|j: int| 0 <= j < scores.len() ==> #[trigger] scores[j] == 0,
        },
    decreases scores.len(),
{
    if scores.len() > 0 {
        let init = scores.drop_last();
        best_is_greatest(init);
        assert forall|j: int| 0 <= j < init.len() implies #[trigger] init[j] == scores[j] by {}
        match best_score(init) {
            Some(i) => {
                assert(scores[i] == init[i]);
                assert forall|j: int| 0 <= j < init.len() implies #[trigger] scores[j]
                    <= scores[i] by {
                    assert(init[j] <= init[i]);
                }
                assert forall|j: int| 0 <= j < i implies #[trigger] scores[j] < scores[i] by {
                    assert(init[j] < init[i]);
                }
            },
            None => {
                assert forall|j: int| 0 <= j < init.len() implies #[trigger] scores[j] == 0 by {
                    assert(init[j] == 0);
                }
            },
        }
    }
}

/// A region matches the first of the blocks with the best score, where that is above the
/// bits of a tenth.
pub proof fn the_best_block_matches(
    found: Seq<(ExtractionId, usize, BBoxView)>,
    scores: Seq<u32>,
)
    requires
        found.len() == scores.len(),
    ensures
        match matched(found, scores) {
            Some(m) => exists|i: int|
                {
                    &&& 0 <= i < scores.len()
                    &&& #[trigger] scores[i] > 0x3dcc_cccd
                    &&& m == (found[i].0, found[i].1)
                    &&& forall|j: int| 0 <= j < i ==> #[trigger] scores[j] < scores[i]
                    &&& forall|j: int| i < j < scores.len() ==> #[trigger] scores[j] <= scores[i]
                },
            None => forall|i: int| 0 <= i < scores.len() ==> #[trigger] scores[i] <= 0x3dcc_cccd,
        },
{
    best_is_greatest(scores);
    if let Some(i) = best_score(scores) {
        assert(scores[i] > 0);
    }
}

/// A block that is matched is selected, scrolled to, and shown below its page and its run.
pub proof fn matched_blocks_are_selected(p: PaneView, page: u32, run: ExtractionId, idx: usize)
    ensures
        ({
            let o = revealed(p, page, Some((run, idx)));
            let row = SelectedRow::Block(page, run, idx);
            &&& o.pane.selected == Some(row)
            &&& p.selected != Some(row) ==> {
                &&& o.pane == (PaneView {
                    expanded_pages: p.expanded_pages.insert(page),
                    expanded_runs: p.expanded_runs.insert((page, run)),
                    selected: Some(row),
                    scroll_to: Some(row),
                    ..p
                })
                &&& o.notify
            }
            &&& p.selected == Some(row) ==> o.pane == p && !o.notify
            &&& o.events.len() == 0
        }),
{
}

/// A region that is chosen is kept, and one that is dropped takes a selected block with it.
pub proof fn regions_are_kept(p: PaneView, region: Option<(u32, BBoxView)>)
    ensures
        ({
            let o = region_chosen(p, region);
            &&& o.pane == (PaneView { region: o.pane.region, ..p })
            &&& equal_regions(p.region, region) ==> o.pane == p && !o.notify
            &&& !equal_regions(p.region, region) ==> o.pane.region == region && o.notify
            &&& o.events.len() == 0
        }),
        ({
            let o = region_dropped(p);
            &&& match p.selected {
                Some(SelectedRow::Block(_, _, _)) => o.pane == (PaneView { selected: None, ..p }),
                _ => o.pane == p,
            }
            &&& o.events.len() == 0
        }),
{
}

} // verus!
