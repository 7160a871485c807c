//! What holds of the inspector whatever is done with it.

use crate::ad_hoc::{AdHocModel, AdHocResponseView};
use crate::ids::{ExtractionId, TocEntryId};
use crate::inspector_model::{
    EventView, OPEN_AT_FIRST, Outcome, PRESETS, PaneView, RenderedRow, RequestView, SPINNER_FRAMES,
    SelectedRow, Tab, activated, any_spinning, block_clicked, blocks_of, candidates,
    component_answered, component_asked, component_sent, enabled_blocks, escaped, first_open_pages,
    kind_clicked, kind_enabled, kind_toggled, matched, model_chosen, opened, overlay_of,
    page_clicked, page_numbers, page_rows, page_toggled, pages_rows, pane_candidates, pass2_asked,
    pass2_came, pass2_failed, pass2_sent, preset_chosen, prompt_answered, prompt_sent,
    prompt_submitted, quiet, redraw, region_chosen, region_dropped, revealed, row_after_move, rows,
    run_clicked, run_rows, run_toggled, runs_rows, selectable, selectables, selecting,
    selection_moved, tab_chosen, ticked, toc_clicked, toc_toggled, toggled, went_left, went_right,
    with_kinds_of, with_new_kinds, with_number,
};
use crate::ir::{
    BBoxView, DocView, ExtractionView, PageExtractionView, StructuredBlockView, on_page,
};
use crate::sorted::{keys_ordered, with_key_effect, with_key_keeps_order};
use vstd::prelude::*;

verus! {

// ---------------------------------------------------------------------------
// Every operation
// ---------------------------------------------------------------------------

/// An operation on the pane.
pub enum Action {
    ToggleKind(Seq<char>),
    TogglePage(u32),
    ToggleExtraction(u32, ExtractionId),
    ToggleTocEntry(TocEntryId),
    ClickPage(u32),
    ClickExtraction(u32, ExtractionId, bool),
    ClickBlock(u32, ExtractionId, usize),
    ClickToc(TocEntryId, bool),
    ChooseTab(Tab),
    Select(SelectedRow),
    Move(int),
    Left,
    Right,
    Activate,
    Escape,
    DropRegion,
    Reveal(u32, Option<(ExtractionId, usize)>),
    ChooseRegion(Option<(u32, BBoxView)>),
    PromptSent,
    PromptAnswered(AdHocResponseView),
    PromptFailed(Seq<char>),
    ComponentSent,
    ComponentAnswered(AdHocResponseView),
    ComponentFailed(Seq<char>),
    AskComponent,
    Pass2Sent(u32),
    Pass2Came(u32, ExtractionView, Seq<PageExtractionView>),
    Pass2Failed(u32),
    AskPass2(u32),
    ChooseModel(AdHocModel),
    ChoosePreset(usize),
    SubmitPrompt,
    Tick,
}

/// What an operation leads to.
pub open spec fn done(p: PaneView, a: Action) -> Outcome {
    match a {
        Action::ToggleKind(kind) => kind_clicked(p, kind),
        Action::TogglePage(page) => redraw(page_toggled(p, page)),
        Action::ToggleExtraction(page, run) => redraw(run_toggled(p, page, run)),
        Action::ToggleTocEntry(id) => redraw(toc_toggled(p, id)),
        Action::ClickPage(page) => page_clicked(p, page),
        Action::ClickExtraction(page, run, open) => run_clicked(p, page, run, open),
        Action::ClickBlock(page, run, idx) => block_clicked(p, page, run, idx),
        Action::ClickToc(id, open) => toc_clicked(p, id, open),
        Action::ChooseTab(tab) => tab_chosen(p, tab),
        Action::Select(row) => selecting(p, row),
        Action::Move(delta) => selection_moved(p, delta),
        Action::Left => went_left(p),
        Action::Right => went_right(p),
        Action::Activate => activated(p),
        Action::Escape => escaped(p),
        Action::DropRegion => region_dropped(p),
        Action::Reveal(page, found) => revealed(p, page, found),
        Action::ChooseRegion(region) => region_chosen(p, region),
        Action::PromptSent => prompt_sent(p),
        Action::PromptAnswered(r) => prompt_answered(p, RequestView::Done(r)),
        Action::PromptFailed(m) => prompt_answered(p, RequestView::Failed(m)),
        Action::ComponentSent => component_sent(p),
        Action::ComponentAnswered(r) => component_answered(p, RequestView::Done(r)),
        Action::ComponentFailed(m) => component_answered(p, RequestView::Failed(m)),
        Action::AskComponent => component_asked(p),
        Action::Pass2Sent(page) => pass2_sent(p, page),
        Action::Pass2Came(page, run, pages) => pass2_came(p, page, run, pages),
        Action::Pass2Failed(page) => pass2_failed(p, page),
        Action::AskPass2(page) => pass2_asked(p, page),
        Action::ChooseModel(model) => model_chosen(p, model),
        Action::ChoosePreset(i) => preset_chosen(p, i),
        Action::SubmitPrompt => prompt_submitted(p),
        Action::Tick => ticked(p),
    }
}

/// Does the spinner run exactly while something is on its way, is its frame one
/// of those there are, is the chosen prompt one of those there are, and are the
/// kinds of blocks in order?
pub open spec fn steady(p: PaneView) -> bool {
    &&& p.spinner_running == any_spinning(p)
    &&& p.spinner_frame < SPINNER_FRAMES
    &&& p.preset < PRESETS
    &&& keys_ordered(p.kinds)
}

/// A pane opens steady.
pub proof fn opens_steady(doc: Option<DocView>, source_label: Seq<char>, page_count: u32)
    ensures
        steady(opened(doc, source_label, page_count)),
{
    let none = Seq::<(Seq<char>, bool)>::empty();
    if let Some(d) = doc {
        kinds_stay_ordered(none, d.extracted_pages);
    }
}

/// Do two states agree on everything that being steady is about?
spec fn alike(p: PaneView, q: PaneView) -> bool {
    &&& p.spinner_running == q.spinner_running
    &&& p.spinner_frame == q.spinner_frame
    &&& p.prompt == q.prompt
    &&& p.component == q.component
    &&& p.in_flight == q.in_flight
    &&& p.preset == q.preset
    &&& p.kinds == q.kinds
}

/// Operations on the tree leave requests and kinds alone.
proof fn tree_is_apart(p: PaneView, a: Action)
    requires
        a is TogglePage || a is ToggleExtraction || a is ToggleTocEntry || a is ClickPage
            || a is ClickExtraction || a is ClickBlock || a is ClickToc || a is ChooseTab
            || a is Select || a is Move || a is Activate || a is Escape || a is DropRegion
            || a is Reveal || a is ChooseRegion || a is ChooseModel,
    ensures
        alike(p, done(p, a).pane),
        !done(p, a).start_spinner,
{
}

proof fn left_is_apart(p: PaneView)
    ensures
        alike(p, went_left(p).pane),
        !went_left(p).start_spinner,
{
}

proof fn right_is_apart(p: PaneView)
    ensures
        alike(p, went_right(p).pane),
        !went_right(p).start_spinner,
{
}

/// Every operation keeps a pane steady.
pub proof fn stays_steady(p: PaneView, a: Action)
    requires
        steady(p),
    ensures
        steady(done(p, a).pane),
{
    match a {
        Action::ToggleKind(kind) => {
            with_key_keeps_order(p.kinds, kind, !kind_enabled(p.kinds, kind));
            assert(steady(kind_clicked(p, kind).pane));
        },
        Action::PromptSent => {
            assert(steady(prompt_sent(p).pane));
        },
        Action::PromptAnswered(r) => {
            assert(steady(prompt_answered(p, RequestView::Done(r)).pane));
        },
        Action::PromptFailed(m) => {
            assert(steady(prompt_answered(p, RequestView::Failed(m)).pane));
        },
        Action::ComponentSent => {
            assert(steady(component_sent(p).pane));
        },
        Action::ComponentAnswered(r) => {
            assert(steady(component_answered(p, RequestView::Done(r)).pane));
        },
        Action::ComponentFailed(m) => {
            assert(steady(component_answered(p, RequestView::Failed(m)).pane));
        },
        Action::AskComponent => {
            assert(steady(component_asked(p).pane));
        },
        Action::Pass2Sent(page) => {
            assert(p.in_flight.insert(page).contains(page));
            assert(steady(pass2_sent(p, page).pane));
        },
        Action::AskPass2(page) => {
            assert(p.in_flight.insert(page).contains(page));
            assert(steady(pass2_asked(p, page).pane));
        },
        Action::Pass2Came(page, run, pages) => {
            kinds_stay_ordered(p.kinds, pages);
            no_new_flight(p.in_flight, page);
            assert(steady(pass2_came(p, page, run, pages).pane));
        },
        Action::Pass2Failed(page) => {
            no_new_flight(p.in_flight, page);
            assert(steady(pass2_failed(p, page).pane));
        },
        Action::ChoosePreset(i) => {
            assert(steady(preset_chosen(p, i).pane));
        },
        Action::SubmitPrompt => {
            assert(steady(prompt_submitted(p).pane));
        },
        Action::Tick => {
            assert(steady(ticked(p).pane));
        },
        Action::Left => {
            left_is_apart(p);
        },
        Action::Right => {
            right_is_apart(p);
        },
        _ => {
            tree_is_apart(p, a);
        },
    }
}

proof fn no_new_flight(s: Set<u32>, page: u32)
    ensures
        !s.remove(page).is_empty() ==> !s.is_empty(),
{
    if s.is_empty() {
        assert(s.remove(page) =~= s);
    }
}

/// The timer of the spinner is asked for exactly when the spinner starts to run.
pub proof fn timer_is_started_once(p: PaneView, a: Action)
    requires
        steady(p),
    ensures
        done(p, a).start_spinner <==> !p.spinner_running && done(p, a).pane.spinner_running,
{
    match a {
        Action::Pass2Came(page, run, pages) => {
            no_new_flight(p.in_flight, page);
        },
        Action::Pass2Failed(page) => {
            no_new_flight(p.in_flight, page);
        },
        Action::Left => {
            left_is_apart(p);
        },
        Action::Right => {
            right_is_apart(p);
        },
        Action::ToggleKind(kind) => {},
        Action::PromptSent => {},
        Action::PromptAnswered(r) => {},
        Action::PromptFailed(m) => {},
        Action::ComponentSent => {},
        Action::ComponentAnswered(r) => {},
        Action::ComponentFailed(m) => {},
        Action::AskComponent => {},
        Action::Pass2Sent(page) => {},
        Action::AskPass2(page) => {},
        Action::ChoosePreset(i) => {},
        Action::SubmitPrompt => {},
        Action::Tick => {},
        _ => {
            tree_is_apart(p, a);
        },
    }
}

proof fn block_kinds_stay_ordered(
    kinds: Seq<(Seq<char>, bool)>,
    blocks: Seq<StructuredBlockView>,
)
    requires
        keys_ordered(kinds),
    ensures
        keys_ordered(with_new_kinds(kinds, blocks)),
    decreases blocks.len(),
{
    if blocks.len() > 0 {
        block_kinds_stay_ordered(kinds, blocks.drop_last());
        let before = with_new_kinds(kinds, blocks.drop_last());
        with_key_keeps_order(before, blocks.last().kind, true);
    }
}

proof fn kinds_stay_ordered(kinds: Seq<(Seq<char>, bool)>, pages: Seq<PageExtractionView>)
    requires
        keys_ordered(kinds),
    ensures
        keys_ordered(with_kinds_of(kinds, pages)),
    decreases pages.len(),
{
    if pages.len() > 0 {
        kinds_stay_ordered(kinds, pages.drop_last());
        block_kinds_stay_ordered(
            with_kinds_of(kinds, pages.drop_last()),
            blocks_of(pages.last().content),
        );
    }
}

// ---------------------------------------------------------------------------
// Opening and closing
// ---------------------------------------------------------------------------

proof fn toggled_twice<A>(s: Set<A>, x: A)
    ensures
        toggled(toggled(s, x), x) == s,
{
    assert(toggled(toggled(s, x), x) =~= s);
}

/// Opening or closing a page twice changes nothing.
pub proof fn page_toggled_twice(p: PaneView, page: u32)
    ensures
        page_toggled(page_toggled(p, page), page) == p,
{
    toggled_twice(p.expanded_pages, page);
}

/// Opening or closing a record twice changes nothing.
pub proof fn run_toggled_twice(p: PaneView, page: u32, run: ExtractionId)
    ensures
        run_toggled(run_toggled(p, page, run), page, run) == p,
{
    toggled_twice(p.expanded_runs, (page, run));
}

/// Opening or closing an entry twice changes nothing.
pub proof fn toc_toggled_twice(p: PaneView, id: TocEntryId)
    ensures
        toc_toggled(toc_toggled(p, id), id) == p,
{
    toggled_twice(p.expanded_toc, id);
}

/// Switching a kind changes whether that kind is drawn, and no other.
pub proof fn kind_toggled_alone(p: PaneView, kind: Seq<char>, other: Seq<char>)
    requires
        keys_ordered(p.kinds),
    ensures
        kind_enabled(kind_toggled(p, kind).kinds, other) == (if other == kind {
            !kind_enabled(p.kinds, other)
        } else {
            kind_enabled(p.kinds, other)
        }),
{
    with_key_effect(p.kinds, kind, !kind_enabled(p.kinds, kind), other);
}

/// Switching a kind twice leaves what is drawn as it was.
pub proof fn kind_toggled_twice(p: PaneView, kind: Seq<char>, other: Seq<char>)
    requires
        keys_ordered(p.kinds),
    ensures
        kind_enabled(kind_toggled(kind_toggled(p, kind), kind).kinds, other) == kind_enabled(
            p.kinds,
            other,
        ),
{
    let once = kind_toggled(p, kind);
    with_key_keeps_order(p.kinds, kind, !kind_enabled(p.kinds, kind));
    kind_toggled_alone(p, kind, kind);
    kind_toggled_alone(p, kind, other);
    kind_toggled_alone(once, kind, other);
}

/// Left closes what right has opened.
pub proof fn left_closes_what_right_opened(p: PaneView, row: SelectedRow)
    requires
        p.selected == Some(row),
        match row {
            SelectedRow::Page(page) => !p.expanded_pages.contains(page),
            SelectedRow::Extraction(page, run) => !p.expanded_runs.contains((page, run)),
            SelectedRow::Toc(id) => !p.expanded_toc.contains(id),
            SelectedRow::Block(_, _, _) => false,
        },
        went_right(p).notify,
    ensures
        went_left(went_right(p).pane).pane == p,
{
    match row {
        SelectedRow::Page(page) => {
            assert(p.expanded_pages.insert(page).remove(page) =~= p.expanded_pages);
        },
        SelectedRow::Extraction(page, run) => {
            assert(p.expanded_runs.insert((page, run)).remove((page, run)) =~= p.expanded_runs);
        },
        SelectedRow::Toc(id) => {
            assert(p.expanded_toc.insert(id).remove(id) =~= p.expanded_toc);
        },
        SelectedRow::Block(_, _, _) => {},
    }
}

proof fn with_number_keeps_order(s: Seq<u32>, n: u32)
    requires
        forall|i: int, j: int| 0 <= i < j < s.len() ==> s[i] < s[j],
    ensures
        forall|i: int, j: int|
            0 <= i < j < with_number(s, n).len() ==> with_number(s, n)[i] < with_number(s, n)[j],
        forall|x: u32| #[trigger]
            with_number(s, n).contains(x) <==> (s.contains(x) || x == n),
    decreases s.len(),
{
    let after = with_number(s, n);
    if s.len() == 0 {
        assert(after[0] == n);
    } else if s.last() == n {
        assert(s[s.len() - 1] == n);
    } else if s.last() < n {
        assert forall|x: u32| #[trigger] after.contains(x) <==> (s.contains(x) || x == n) by {
            assert(after[s.len() as int] == n);
            if s.contains(x) {
                let k = choose|k: int| 0 <= k < s.len() && s[k] == x;
                assert(after[k] == x);
            }
        }
    } else {
        let init = s.drop_last();
        with_number_keeps_order(init, n);
        let mid = with_number(init, n);
        assert forall|x: u32| #[trigger] after.contains(x) <==> (s.contains(x) || x == n) by {
            if after.contains(x) {
                let k = choose|k: int| 0 <= k < after.len() && after[k] == x;
                if k < mid.len() {
                    assert(mid.contains(mid[k]));
                    if init.contains(x) {
                        let m = choose|m: int| 0 <= m < init.len() && init[m] == x;
                        assert(s[m] == x);
                    }
                } else {
                    assert(s[s.len() - 1] == x);
                }
            }
            if s.contains(x) {
                let k = choose|k: int| 0 <= k < s.len() && s[k] == x;
                if k < init.len() {
                    assert(init[k] == x);
                    assert(mid.contains(x));
                    let m = choose|m: int| 0 <= m < mid.len() && mid[m] == x;
                    assert(after[m] == x);
                } else {
                    assert(after[mid.len() as int] == x);
                }
            }
            if x == n {
                assert(mid.contains(n));
                let m = choose|m: int| 0 <= m < mid.len() && mid[m] == n;
                assert(after[m] == n);
            }
        }
        assert forall|i: int, j: int| 0 <= i < j < after.len() implies after[i] < after[j] by {
            if j == mid.len() {
                assert(mid.contains(mid[i]));
                if init.contains(mid[i]) {
                    let m = choose|m: int| 0 <= m < init.len() && init[m] == mid[i];
                    assert(s[m] < s[s.len() - 1]);
                }
            } else {
                assert(mid[i] < mid[j]);
            }
        }
    }
}

/// Does a page have a record?
pub open spec fn has_record(pages: Seq<PageExtractionView>, page: u32) -> bool {
    exists|i: int| 0 <= i < pages.len() && (#[trigger] pages[i]).page == page
}

pub(crate) proof fn page_numbers_in_order(pages: Seq<PageExtractionView>)
    ensures
        forall|i: int, j: int|
            0 <= i < j < page_numbers(pages).len() ==> page_numbers(pages)[i] < page_numbers(
                pages,
            )[j],
        forall|x: u32| #[trigger] page_numbers(pages).contains(x) <==> has_record(pages, x),
    decreases pages.len(),
{
    if pages.len() > 0 {
        let init = pages.drop_last();
        page_numbers_in_order(init);
        with_number_keeps_order(page_numbers(init), pages.last().page);
        assert forall|x: u32| #[trigger]
            page_numbers(pages).contains(x) <==> has_record(pages, x) by {
            if has_record(pages, x) {
                let k = choose|k: int| 0 <= k < pages.len() && (#[trigger] pages[k]).page == x;
                if k < init.len() {
                    assert(init[k].page == x);
                }
            }
            if has_record(init, x) {
                let k = choose|k: int| 0 <= k < init.len() && (#[trigger] init[k]).page == x;
                assert(pages[k].page == x);
            }
            if x == pages.last().page {
                assert(pages[pages.len() - 1].page == x);
            }
        }
    }
}

/// Only pages that have a record are open at first, and with a page all such
/// pages before it.
pub proof fn first_pages_are_open(pages: Seq<PageExtractionView>, page: u32, earlier: u32)
    requires
        first_open_pages(pages).contains(page),
        has_record(pages, earlier),
        earlier < page,
    ensures
        has_record(pages, page),
        first_open_pages(pages).contains(earlier),
{
    page_numbers_in_order(pages);
    let nums = page_numbers(pages);
    let shown = if nums.len() <= OPEN_AT_FIRST {
        nums
    } else {
        nums.take(OPEN_AT_FIRST as int)
    };
    let k = choose|k: int| 0 <= k < shown.len() && shown[k] == page;
    assert(nums[k] == page);
    assert(nums.contains(page));
    assert(nums.contains(earlier));
    let m = choose|m: int| 0 <= m < nums.len() && nums[m] == earlier;
    if m > k {
        assert(nums[k] < nums[m]);
    }
    assert(shown[m] == earlier);
    assert(shown.to_set().contains(earlier));
}

// ---------------------------------------------------------------------------
// Selecting
// ---------------------------------------------------------------------------

/// Selecting a row a second time does nothing.
pub proof fn selecting_twice(p: PaneView, row: SelectedRow)
    ensures
        selecting(selecting(p, row).pane, row) == quiet(selecting(p, row).pane),
        selecting(p, row).pane.selected == Some(row),
{
}

/// Showing a matched block a second time does nothing.
pub proof fn revealing_twice(p: PaneView, page: u32, found: Option<(ExtractionId, usize)>)
    ensures
        revealed(revealed(p, page, found).pane, page, found) == quiet(
            revealed(p, page, found).pane,
        ),
{
}

/// A match that is not there leaves the pane as it is.
pub proof fn no_match_changes_nothing(p: PaneView, page: u32)
    ensures
        revealed(p, page, None) == quiet(p),
{
}

/// Selecting a row that is no block clears the region of the PDF; the report
/// that the region is gone leaves the row selected.
pub proof fn echo_keeps_the_row(p: PaneView, row: SelectedRow)
    requires
        !(row is Block),
    ensures
        region_dropped(selecting(p, row).pane) == quiet(selecting(p, row).pane),
{
}

/// Escape leaves nothing selected and tells the PDF so.
pub proof fn escape_clears(p: PaneView)
    ensures
        escaped(p).pane.selected is None,
        escaped(p).events == seq![EventView::SelectionCleared],
{
}

/// A move of the selection leads to a row that is shown.
pub proof fn moves_lead_to_shown_rows(p: PaneView, delta: int)
    ensures
        match row_after_move(p, delta) {
            Some(row) => exists|i: int|
                0 <= i < rows(p).len() && selectable(#[trigger] rows(p)[i]) == Some(row),
            None => forall|i: int|
                0 <= i < rows(p).len() ==> selectable(#[trigger] rows(p)[i]) is None,
        },
{
    let s = selectables(rows(p));
    selectables_are_rows(rows(p));
    if let Some(row) = row_after_move(p, delta) {
        if let Some(now) = p.selected {
            crate::inspector_laws::position_is_inside(s, now, 0);
        }
        assert(s.contains(row));
    }
}

pub(crate) proof fn position_is_inside(s: Seq<SelectedRow>, row: SelectedRow, from: nat)
    ensures
        match crate::inspector_model::position_of(s, row, from) {
            Some(i) => from <= i < s.len() && s[i as int] == row,
            None => true,
        },
    decreases s.len() - from,
{
    if from < s.len() && s[from as int] != row {
        position_is_inside(s, row, from + 1);
    }
}

proof fn selectables_are_rows(s: Seq<RenderedRow>)
    ensures
        forall|row: SelectedRow| #[trigger]
            selectables(s).contains(row) ==> exists|i: int|
                0 <= i < s.len() && selectable(#[trigger] s[i]) == Some(row),
        selectables(s).len() == 0 ==> forall|i: int|
            0 <= i < s.len() ==> selectable(#[trigger] s[i]) is None,
    decreases s.len(),
{
    if s.len() > 0 {
        let init = s.drop_last();
        selectables_are_rows(init);
        assert forall|row: SelectedRow| #[trigger]
            selectables(s).contains(row) implies exists|i: int|
            0 <= i < s.len() && selectable(#[trigger] s[i]) == Some(row) by {
            let k = choose|k: int| 0 <= k < selectables(s).len() && selectables(s)[k] == row;
            if k < selectables(init).len() {
                assert(selectables(init)[k] == row);
                assert(selectables(init).contains(row));
                let i = choose|i: int|
                    0 <= i < init.len() && selectable(#[trigger] init[i]) == Some(row);
                assert(selectable(s[i]) == Some(row));
            } else {
                assert(selectable(s[s.len() - 1]) == Some(row));
            }
        }
        if selectables(s).len() == 0 {
            assert forall|i: int| 0 <= i < s.len() implies selectable(#[trigger] s[i]) is None by {
                if i < init.len() {
                    assert(selectable(init[i]) is None);
                }
            }
        }
    }
}

// ---------------------------------------------------------------------------
// Requests
// ---------------------------------------------------------------------------

/// A layout that is on its way is not asked for again.
pub proof fn pass2_is_asked_once(p: PaneView, page: u32)
    ensures
        pass2_asked(p, page).pane.in_flight.contains(page),
        pass2_asked(pass2_asked(p, page).pane, page) == quiet(pass2_asked(p, page).pane),
{
}

/// A component model that is on its way is not asked for again.
pub proof fn component_is_asked_once(p: PaneView)
    ensures
        component_asked(p).pane.component is Pending,
        component_asked(component_asked(p).pane) == quiet(component_asked(p).pane),
{
}

/// No prompt is sent while one is on its way.
pub proof fn prompt_is_sent_once(p: PaneView)
    ensures
        prompt_submitted(prompt_submitted(p).pane) == quiet(prompt_submitted(p).pane),
{
}

/// A layout that did not come can be asked for again.
pub proof fn pass2_can_be_retried(p: PaneView, page: u32)
    requires
        p.in_flight.contains(page),
    ensures
        pass2_asked(pass2_failed(p, page).pane, page).events == seq![
            EventView::ExtractPagePass2 { page },
        ],
{
}

// ---------------------------------------------------------------------------
// What is shown
// ---------------------------------------------------------------------------

/// Only blocks of drawn kinds are drawn.
pub proof fn overlay_is_enabled(
    kinds: Seq<(Seq<char>, bool)>,
    pages: Seq<PageExtractionView>,
    page: u32,
)
    ensures
        overlay_of(kinds, pages, page) matches Some(s) ==> forall|i: int|
            0 <= i < s.len() ==> kind_enabled(kinds, (#[trigger] s[i]).kind),
    decreases pages.len(),
{
    if pages.len() > 0 {
        overlay_is_enabled(kinds, pages.drop_last(), page);
        enabled_blocks_are_enabled(kinds, blocks_of(pages.last().content));
    }
}

proof fn enabled_blocks_are_enabled(
    kinds: Seq<(Seq<char>, bool)>,
    blocks: Seq<StructuredBlockView>,
)
    ensures
        forall|i: int|
            0 <= i < enabled_blocks(kinds, blocks).len() ==> kind_enabled(
                kinds,
                (#[trigger] enabled_blocks(kinds, blocks)[i]).kind,
            ),
    decreases blocks.len(),
{
    if blocks.len() > 0 {
        enabled_blocks_are_enabled(kinds, blocks.drop_last());
    }
}

/// Every block of a drawn kind is drawn on its page.
pub proof fn enabled_blocks_are_drawn(
    kinds: Seq<(Seq<char>, bool)>,
    pages: Seq<PageExtractionView>,
    k: int,
    idx: int,
)
    requires
        0 <= k < pages.len(),
        0 <= idx < blocks_of(pages[k].content).len(),
        kind_enabled(kinds, blocks_of(pages[k].content)[idx].kind),
    ensures
        overlay_of(kinds, pages, pages[k].page) matches Some(s) && s.contains(
            blocks_of(pages[k].content)[idx],
        ),
    decreases pages.len(),
{
    let page = pages[k].page;
    let b = blocks_of(pages[k].content)[idx];
    let init = pages.drop_last();
    let own = enabled_blocks(kinds, blocks_of(pages.last().content));
    if k < init.len() {
        assert(init[k] == pages[k]);
        enabled_blocks_are_drawn(kinds, init, k, idx);
        let before = overlay_of(kinds, init, page).unwrap();
        let i = choose|i: int| 0 <= i < before.len() && before[i] == b;
        let s = overlay_of(kinds, pages, page).unwrap();
        assert(s[i] == b);
    } else {
        enabled_block_is_kept(kinds, blocks_of(pages.last().content), idx);
        let i = choose|i: int| 0 <= i < own.len() && own[i] == b;
        let s = overlay_of(kinds, pages, page).unwrap();
        match overlay_of(kinds, init, page) {
            Some(before) => {
                assert(s[before.len() + i] == b);
            },
            None => {
                assert(s[i] == b);
            },
        }
    }
}

proof fn enabled_block_is_kept(
    kinds: Seq<(Seq<char>, bool)>,
    blocks: Seq<StructuredBlockView>,
    idx: int,
)
    requires
        0 <= idx < blocks.len(),
        kind_enabled(kinds, blocks[idx].kind),
    ensures
        enabled_blocks(kinds, blocks).contains(blocks[idx]),
    decreases blocks.len(),
{
    let init = blocks.drop_last();
    let s = enabled_blocks(kinds, blocks);
    if idx < init.len() {
        enabled_block_is_kept(kinds, init, idx);
        let rest = enabled_blocks(kinds, init);
        let i = choose|i: int| 0 <= i < rest.len() && rest[i] == blocks[idx];
        assert(s[i] == blocks[idx]);
    } else {
        assert(s[s.len() - 1] == blocks[idx]);
    }
}

/// Is a row among those shown?
pub open spec fn shown(p: PaneView, row: RenderedRow) -> bool {
    exists|i: int| 0 <= i < rows(p).len() && #[trigger] rows(p)[i] == row
}

/// The blocks of a record are shown where the record and its page are open.
pub proof fn open_blocks_are_shown(p: PaneView, d: DocView, k: int, idx: usize)
    requires
        p.doc == Some(d),
        p.tab is Extractions,
        0 <= k < d.extracted_pages.len(),
        d.extracted_pages[k].page < p.page_count,
        idx < blocks_of(d.extracted_pages[k].content).len(),
        p.expanded_pages.contains(d.extracted_pages[k].page),
        p.expanded_runs.contains(
            (d.extracted_pages[k].page, d.extracted_pages[k].extraction_uuid),
        ),
    ensures
        shown(
            p,
            RenderedRow::Block(
                d.extracted_pages[k].page,
                d.extracted_pages[k].extraction_uuid,
                idx,
            ),
        ),
{
    let r = d.extracted_pages[k];
    let row = RenderedRow::Block(r.page, r.extraction_uuid, idx);
    let records = on_page(d.extracted_pages, r.page);
    record_is_on_its_page(d.extracted_pages, k);
    let m = choose|m: int| 0 <= m < records.len() && records[m] == r;
    let own = run_rows(p, r);
    assert(own[1 + idx as int] == row);
    runs_rows_contain(p, records, records.len(), m, 1 + idx as int);
    let below = runs_rows(p, records, records.len());
    let i = choose|i: int| 0 <= i < below.len() && below[i] == row;
    assert(page_rows(p, d, r.page)[1 + i] == row);
    pages_rows_contain(p, d, p.page_count as nat, r.page, 1 + i);
    let all = pages_rows(p, d, p.page_count as nat);
    let j = choose|j: int| 0 <= j < all.len() && all[j] == row;
    assert(rows(p)[j] == row);
}

proof fn record_is_on_its_page(pages: Seq<PageExtractionView>, k: int)
    requires
        0 <= k < pages.len(),
    ensures
        on_page(pages, pages[k].page).contains(pages[k]),
    decreases pages.len(),
{
    let page = pages[k].page;
    let s = on_page(pages, page);
    let init = pages.drop_last();
    if k < init.len() {
        assert(init[k] == pages[k]);
        record_is_on_its_page(init, k);
        let rest = on_page(init, page);
        let i = choose|i: int| 0 <= i < rest.len() && rest[i] == pages[k];
        assert(s[i] == pages[k]);
    } else {
        assert(s[s.len() - 1] == pages[k]);
    }
}

proof fn runs_rows_contain(
    p: PaneView,
    records: Seq<PageExtractionView>,
    n: nat,
    m: int,
    i: int,
)
    requires
        0 <= m < n,
        0 <= i < run_rows(p, records[m]).len(),
    ensures
        runs_rows(p, records, n).contains(run_rows(p, records[m])[i]),
    decreases n,
{
    let row = run_rows(p, records[m])[i];
    let before = runs_rows(p, records, (n - 1) as nat);
    let s = runs_rows(p, records, n);
    if m < n - 1 {
        runs_rows_contain(p, records, (n - 1) as nat, m, i);
        let k = choose|k: int| 0 <= k < before.len() && before[k] == row;
        assert(s[k] == row);
    } else {
        assert(s[before.len() + i] == row);
    }
}

proof fn pages_rows_contain(p: PaneView, d: DocView, n: nat, page: u32, i: int)
    requires
        page < n <= u32::MAX,
        0 <= i < page_rows(p, d, page).len(),
    ensures
        pages_rows(p, d, n).contains(page_rows(p, d, page)[i]),
    decreases n,
{
    let row = page_rows(p, d, page)[i];
    let before = pages_rows(p, d, (n - 1) as nat);
    let s = pages_rows(p, d, n);
    if page < n - 1 {
        pages_rows_contain(p, d, (n - 1) as nat, page, i);
        let k = choose|k: int| 0 <= k < before.len() && before[k] == row;
        assert(s[k] == row);
    } else {
        assert(s[before.len() + i] == row);
    }
}

/// A candidate comes from a record of its page.
proof fn candidate_has_record(pages: Seq<PageExtractionView>, page: u32, c: int) -> (k: int)
    requires
        0 <= c < candidates(pages, page).len(),
        forall|i: int|
            0 <= i < pages.len() ==> blocks_of((#[trigger] pages[i]).content).len() <= usize::MAX,
    ensures
        0 <= k < pages.len(),
        pages[k].page == page,
        pages[k].extraction_uuid == candidates(pages, page)[c].0,
        candidates(pages, page)[c].1 < blocks_of(pages[k].content).len(),
        blocks_of(pages[k].content)[candidates(pages, page)[c].1 as int].bbox == candidates(
            pages,
            page,
        )[c].2,
    decreases pages.len(),
{
    let init = pages.drop_last();
    let rest = candidates(init, page);
    if c < rest.len() {
        assert forall|i: int| 0 <= i < init.len() implies blocks_of(
            (#[trigger] init[i]).content,
        ).len() <= usize::MAX by {
            assert(init[i] == pages[i]);
        }
        let k = candidate_has_record(init, page, c);
        assert(pages[k] == init[k]);
        k
    } else {
        pages.len() - 1
    }
}

proof fn best_score_is_inside(scores: Seq<u32>)
    ensures
        crate::inspector_model::best_score(scores) matches Some(i) ==> 0 <= i < scores.len(),
    decreases scores.len(),
{
    if scores.len() > 0 {
        best_score_is_inside(scores.drop_last());
    }
}

/// A region that matches a block leads to the row of that block: it is selected,
/// queued for scrolling, and shown in the tree.
pub proof fn revealed_block_is_shown(p: PaneView, d: DocView, page: u32, scores: Seq<u32>)
    requires
        p.doc == Some(d),
        p.tab is Extractions,
        page < p.page_count,
        scores.len() == pane_candidates(p, page).len(),
        forall|i: int|
            0 <= i < d.extracted_pages.len() ==> blocks_of(
                (#[trigger] d.extracted_pages[i]).content,
            ).len() <= usize::MAX,
        matched(pane_candidates(p, page), scores) matches Some(f) && p.selected != Some(
            SelectedRow::Block(page, f.0, f.1),
        ),
    ensures
        matched(pane_candidates(p, page), scores) matches Some(f) && {
            let after = revealed(p, page, Some(f)).pane;
            &&& after.selected == Some(SelectedRow::Block(page, f.0, f.1))
            &&& after.scroll_to == after.selected
            &&& shown(after, RenderedRow::Block(page, f.0, f.1))
        },
{
    let found = pane_candidates(p, page);
    let f = matched(found, scores).unwrap();
    best_score_is_inside(scores);
    let c = crate::inspector_model::best_score(scores).unwrap();
    let k = candidate_has_record(d.extracted_pages, page, c);
    let after = revealed(p, page, Some(f)).pane;
    open_blocks_are_shown(after, d, k, f.1);
}

/// A layout that has come is filed and its blocks are shown at once.
pub proof fn new_layout_is_shown(
    p: PaneView,
    d: DocView,
    run: ExtractionView,
    pages: Seq<PageExtractionView>,
    k: int,
    idx: usize,
)
    requires
        p.doc == Some(d),
        p.tab is Extractions,
        0 <= k < pages.len(),
        pages[k].page < p.page_count,
        pages[k].extraction_uuid == run.uuid,
        idx < blocks_of(pages[k].content).len(),
    ensures
        ({
            let after = pass2_came(p, pages[k].page, run, pages).pane;
            &&& after.doc matches Some(now) && now.extractions == d.extractions.push(run)
                && now.extracted_pages == d.extracted_pages + pages
            &&& shown(after, RenderedRow::Block(pages[k].page, run.uuid, idx))
        }),
{
    let after = pass2_came(p, pages[k].page, run, pages).pane;
    let now = after.doc.unwrap();
    let at = d.extracted_pages.len() + k;
    assert(now.extracted_pages[at] == pages[k]);
    open_blocks_are_shown(after, now, at, idx);
}

} // verus!
