//! What the inspector shows and how it reacts, as functions of its state.

use crate::ad_hoc::{AdHocModel, AdHocResponseView};
use crate::ids::{ExtractionId, TocEntryId};
use crate::ir::{
    BBoxView, ContentView, DocView, ExtractionView, PageExtractionView, StructuredBlockView,
    TocEntryView, equal_regions, on_page,
};
use crate::sorted::{under_key, with_key};
use vstd::prelude::*;

verus! {

// ---------------------------------------------------------------------------
// State
// ---------------------------------------------------------------------------

#[derive(Debug, Clone, Copy, PartialEq, Eq, Structural)]
pub enum Tab {
    Extractions,
    Toc,
    Prompt,
    Components,
}

/// A row that can be selected. The selection is shared by all tabs.
#[derive(Debug, Clone, Copy, PartialEq, Eq, Structural)]
pub enum SelectedRow {
    Page(u32),
    Extraction(u32, ExtractionId),
    Block(u32, ExtractionId, usize),
    Toc(TocEntryId),
}

/// A row that is shown.
#[derive(Debug, Clone, Copy, PartialEq, Eq, Structural)]
pub enum RenderedRow {
    Page(u32),
    /// Stands in for the extractions of a page that has none.
    EmptyExtractionsStub(u32),
    Extraction { page: u32, run: ExtractionId, can_expand: bool },
    Block(u32, ExtractionId, usize),
    Toc { id: TocEntryId, depth: u8, has_children: bool },
}

/// How far a request of the user has come.
pub enum RequestView {
    Idle,
    Pending,
    Done(AdHocResponseView),
    Failed(Seq<char>),
}

/// What the inspector tells the rest of the application.
pub enum EventView {
    GotoPage(u32),
    SelectBlock { page: u32, bbox: BBoxView },
    OverlayChanged,
    SelectionCleared,
    PromptSubmit { page: u32, bbox: BBoxView, model: AdHocModel, prompt: Seq<char> },
    ExtractPagePass2 { page: u32 },
    ExtractComponentModel,
}

/// The state of the inspector.
pub struct PaneView {
    pub doc: Option<DocView>,
    pub source_label: Seq<char>,
    pub page_count: u32,
    pub tab: Tab,
    pub expanded_pages: Set<u32>,
    pub expanded_runs: Set<(u32, ExtractionId)>,
    pub expanded_toc: Set<TocEntryId>,
    /// Which kinds of blocks are drawn, in the order of the kinds.
    pub kinds: Seq<(Seq<char>, bool)>,
    pub selected: Option<SelectedRow>,
    pub scroll_to: Option<SelectedRow>,
    pub region: Option<(u32, BBoxView)>,
    pub model: AdHocModel,
    pub preset: usize,
    pub prompt: RequestView,
    pub component: RequestView,
    pub in_flight: Set<u32>,
    pub spinner_frame: usize,
    pub spinner_running: bool,
}

/// What an operation leads to: the state after it, the events it emits, whether
/// the pane has to be drawn again, and whether the spinner has to be started.
pub struct Outcome {
    pub pane: PaneView,
    pub events: Seq<EventView>,
    pub notify: bool,
    pub start_spinner: bool,
}

/// The state without a change.
pub open spec fn quiet(p: PaneView) -> Outcome {
    Outcome { pane: p, events: Seq::empty(), notify: false, start_spinner: false }
}

/// A changed state without an event.
pub open spec fn redraw(p: PaneView) -> Outcome {
    Outcome { pane: p, events: Seq::empty(), notify: true, start_spinner: false }
}

// ---------------------------------------------------------------------------
// Looking things up
// ---------------------------------------------------------------------------

/// The first record of page `page`.
pub open spec fn first_on_page(pages: Seq<PageExtractionView>, page: u32) -> Option<
    PageExtractionView,
>
    decreases pages.len(),
{
    if pages.len() == 0 {
        None
    } else if pages[0].page == page {
        Some(pages[0])
    } else {
        first_on_page(pages.drop_first(), page)
    }
}

/// The first record of page `page` from run `run`.
pub open spec fn record_of(
    pages: Seq<PageExtractionView>,
    page: u32,
    run: ExtractionId,
) -> Option<PageExtractionView>
    decreases pages.len(),
{
    if pages.len() == 0 {
        None
    } else if pages[0].page == page && pages[0].extraction_uuid == run {
        Some(pages[0])
    } else {
        record_of(pages.drop_first(), page, run)
    }
}

/// The first entry with this identity.
pub open spec fn entry_of(toc: Seq<TocEntryView>, id: TocEntryId) -> Option<TocEntryView>
    decreases toc.len(),
{
    if toc.len() == 0 {
        None
    } else if toc[0].id == id {
        Some(toc[0])
    } else {
        entry_of(toc.drop_first(), id)
    }
}

/// The first entry right below `parent`.
pub open spec fn first_child(toc: Seq<TocEntryView>, parent: TocEntryId) -> Option<TocEntryId>
    decreases toc.len(),
{
    if toc.len() == 0 {
        None
    } else if toc[0].parent == Some(parent) {
        Some(toc[0].id)
    } else {
        first_child(toc.drop_first(), parent)
    }
}

/// The first run with this identity.
pub open spec fn run_of(runs: Seq<ExtractionView>, uuid: ExtractionId) -> Option<ExtractionView>
    decreases runs.len(),
{
    if runs.len() == 0 {
        None
    } else if runs[0].uuid == uuid {
        Some(runs[0])
    } else {
        run_of(runs.drop_first(), uuid)
    }
}

/// The blocks of a record; none where it has no layout.
pub open spec fn blocks_of(c: ContentView) -> Seq<StructuredBlockView> {
    match c {
        ContentView::Structured(s) => s.blocks,
        _ => Seq::empty(),
    }
}

/// The blocks of the record of page `page` from run `run`.
pub open spec fn run_blocks(d: DocView, page: u32, run: ExtractionId) -> Seq<
    StructuredBlockView,
> {
    match record_of(d.extracted_pages, page, run) {
        Some(r) => blocks_of(r.content),
        None => Seq::empty(),
    }
}

/// A block by the row that stands for it.
pub open spec fn block_at(d: DocView, page: u32, run: ExtractionId, idx: usize) -> Option<
    StructuredBlockView,
> {
    let blocks = run_blocks(d, page, run);
    if idx < blocks.len() {
        Some(blocks[idx as int])
    } else {
        None
    }
}

// ---------------------------------------------------------------------------
// Rows
// ---------------------------------------------------------------------------

/// Can the record be opened to show blocks?
pub open spec fn can_expand(c: ContentView) -> bool {
    blocks_of(c).len() > 0
}

pub open spec fn block_rows(page: u32, run: ExtractionId, n: nat) -> Seq<RenderedRow> {
    Seq::new(n, |i: int| RenderedRow::Block(page, run, i as usize))
}

/// The rows of one record: its own, and its blocks where it is open.
pub open spec fn run_rows(p: PaneView, r: PageExtractionView) -> Seq<RenderedRow> {
    let head = seq![
        RenderedRow::Extraction {
            page: r.page,
            run: r.extraction_uuid,
            can_expand: can_expand(r.content),
        },
    ];
    if can_expand(r.content) && p.expanded_runs.contains((r.page, r.extraction_uuid)) {
        head + block_rows(r.page, r.extraction_uuid, blocks_of(r.content).len())
    } else {
        head
    }
}

/// The rows of the first `n` of these records.
pub open spec fn runs_rows(p: PaneView, records: Seq<PageExtractionView>, n: nat) -> Seq<
    RenderedRow,
>
    decreases n,
{
    if n == 0 {
        Seq::empty()
    } else {
        runs_rows(p, records, (n - 1) as nat) + run_rows(p, records[n - 1])
    }
}

/// The rows of one page: its own, and its records where it is open.
pub open spec fn page_rows(p: PaneView, d: DocView, page: u32) -> Seq<RenderedRow> {
    let head = seq![RenderedRow::Page(page)];
    let records = on_page(d.extracted_pages, page);
    if !p.expanded_pages.contains(page) {
        head
    } else if records.len() == 0 {
        head + seq![RenderedRow::EmptyExtractionsStub(page)]
    } else {
        head + runs_rows(p, records, records.len())
    }
}

/// The rows of the first `n` pages.
pub open spec fn pages_rows(p: PaneView, d: DocView, n: nat) -> Seq<RenderedRow>
    decreases n,
{
    if n == 0 {
        Seq::empty()
    } else {
        pages_rows(p, d, (n - 1) as nat) + page_rows(p, d, (n - 1) as u32)
    }
}

/// Is there an entry below `id`?
pub open spec fn has_children(toc: Seq<TocEntryView>, id: TocEntryId) -> bool {
    exists|i: int| 0 <= i < toc.len() && (#[trigger] toc[i]).parent == Some(id)
}

/// Is the entry open, and is there something below it?
pub open spec fn is_open(toc: Seq<TocEntryView>, open: Set<TocEntryId>, id: TocEntryId) -> bool {
    has_children(toc, id) && open.contains(id)
}

/// The rows of those of the first `n` entries that stand right below `parent`,
/// each followed by what stands below it where it is open.
pub open spec fn toc_rows(
    toc: Seq<TocEntryView>,
    open: Set<TocEntryId>,
    parent: Option<TocEntryId>,
    depth: int,
    n: nat,
) -> Seq<RenderedRow>
    decreases 256 - depth, n,
{
    if n == 0 || depth > 255 {
        Seq::empty()
    } else {
        let rest = toc_rows(toc, open, parent, depth, (n - 1) as nat);
        let e = toc[n - 1];
        if e.parent != parent {
            rest
        } else {
            let row = RenderedRow::Toc {
                id: e.id,
                depth: depth as u8,
                has_children: has_children(toc, e.id),
            };
            let below = if is_open(toc, open, e.id) {
                toc_rows(toc, open, Some(e.id), depth + 1, toc.len())
            } else {
                Seq::empty()
            };
            rest.push(row) + below
        }
    }
}

/// Do the rows below `parent` stay within the depth that a row can have?
pub open spec fn toc_fits(
    toc: Seq<TocEntryView>,
    open: Set<TocEntryId>,
    parent: Option<TocEntryId>,
    depth: int,
    n: nat,
) -> bool
    decreases 256 - depth, n,
{
    if n == 0 || depth > 255 {
        true
    } else {
        let e = toc[n - 1];
        &&& toc_fits(toc, open, parent, depth, (n - 1) as nat)
        &&& (e.parent == parent && is_open(toc, open, e.id)) ==> depth < 255 && toc_fits(
            toc,
            open,
            Some(e.id),
            depth + 1,
            toc.len(),
        )
    }
}

/// Can the table of contents be shown? Its open entries may not nest deeper than
/// a row can tell, nor in a circle.
pub open spec fn toc_can_be_shown(p: PaneView) -> bool {
    match p.doc {
        Some(d) => toc_fits(d.toc, p.expanded_toc, None, 0, d.toc.len()),
        None => true,
    }
}

/// Can the rows of the active tab be shown?
pub open spec fn rows_can_be_shown(p: PaneView) -> bool {
    p.tab is Toc ==> toc_can_be_shown(p)
}

/// The rows of the active tab, from top to bottom.
pub open spec fn rows(p: PaneView) -> Seq<RenderedRow> {
    match p.doc {
        None => Seq::empty(),
        Some(d) => match p.tab {
            Tab::Extractions => pages_rows(p, d, p.page_count as nat),
            Tab::Toc => toc_rows(d.toc, p.expanded_toc, None, 0, d.toc.len()),
            Tab::Prompt => Seq::empty(),
            Tab::Components => Seq::empty(),
        },
    }
}

/// The selectable row that a shown row is.
pub open spec fn selectable(r: RenderedRow) -> Option<SelectedRow> {
    match r {
        RenderedRow::Page(page) => Some(SelectedRow::Page(page)),
        RenderedRow::EmptyExtractionsStub(_) => None,
        RenderedRow::Extraction { page, run, .. } => Some(SelectedRow::Extraction(page, run)),
        RenderedRow::Block(page, run, idx) => Some(SelectedRow::Block(page, run, idx)),
        RenderedRow::Toc { id, .. } => Some(SelectedRow::Toc(id)),
    }
}

/// The selectable ones of the rows.
pub open spec fn selectables(s: Seq<RenderedRow>) -> Seq<SelectedRow>
    decreases s.len(),
{
    if s.len() == 0 {
        Seq::empty()
    } else {
        let rest = selectables(s.drop_last());
        match selectable(s.last()) {
            Some(r) => rest.push(r),
            None => rest,
        }
    }
}

/// Height of a row, in pixels.
pub open spec fn row_height(r: RenderedRow) -> nat {
    match r {
        RenderedRow::Page(_) => 22,
        RenderedRow::EmptyExtractionsStub(_) => 20,
        RenderedRow::Extraction { .. } => 20,
        RenderedRow::Block(_, _, _) => 18,
        RenderedRow::Toc { .. } => 22,
    }
}

/// Height of the first `n` rows, in pixels.
pub open spec fn rows_height(s: Seq<RenderedRow>, n: nat) -> nat
    decreases n,
{
    if n == 0 {
        0
    } else {
        rows_height(s, (n - 1) as nat) + row_height(s[n - 1])
    }
}

/// The first position, from `from` on, of a row.
pub open spec fn row_position(s: Seq<RenderedRow>, target: SelectedRow, from: nat) -> Option<nat>
    decreases s.len() - from,
{
    if from >= s.len() {
        None
    } else if selectable(s[from as int]) == Some(target) {
        Some(from)
    } else {
        row_position(s, target, from + 1)
    }
}

/// Where a row stands and how high it is, in pixels.
pub open spec fn row_offset(s: Seq<RenderedRow>, target: SelectedRow) -> Option<(nat, nat)> {
    match row_position(s, target, 0) {
        Some(i) => Some((rows_height(s, i), row_height(s[i as int]))),
        None => None,
    }
}

// ---------------------------------------------------------------------------
// Overlay
// ---------------------------------------------------------------------------

/// Is a kind of blocks drawn? A kind that is not listed is.
pub open spec fn kind_enabled(kinds: Seq<(Seq<char>, bool)>, kind: Seq<char>) -> bool {
    match under_key(kinds, kind) {
        Some(b) => b,
        None => true,
    }
}

/// The blocks of drawn kinds.
pub open spec fn enabled_blocks(
    kinds: Seq<(Seq<char>, bool)>,
    blocks: Seq<StructuredBlockView>,
) -> Seq<StructuredBlockView>
    decreases blocks.len(),
{
    if blocks.len() == 0 {
        Seq::empty()
    } else {
        let rest = enabled_blocks(kinds, blocks.drop_last());
        if kind_enabled(kinds, blocks.last().kind) {
            rest.push(blocks.last())
        } else {
            rest
        }
    }
}

/// The blocks to draw on page `page`: those of drawn kinds, of all layouts of the
/// page. Nothing where the page has no layout.
pub open spec fn overlay_of(
    kinds: Seq<(Seq<char>, bool)>,
    pages: Seq<PageExtractionView>,
    page: u32,
) -> Option<Seq<StructuredBlockView>>
    decreases pages.len(),
{
    if pages.len() == 0 {
        None
    } else {
        let rest = overlay_of(kinds, pages.drop_last(), page);
        let r = pages.last();
        if r.page != page {
            rest
        } else {
            match r.content {
                ContentView::Structured(s) => Some(
                    match rest {
                        Some(before) => before + enabled_blocks(kinds, s.blocks),
                        None => enabled_blocks(kinds, s.blocks),
                    },
                ),
                _ => rest,
            }
        }
    }
}

/// The kinds, with those of these blocks added as drawn where they are new.
pub open spec fn with_new_kinds(
    kinds: Seq<(Seq<char>, bool)>,
    blocks: Seq<StructuredBlockView>,
) -> Seq<(Seq<char>, bool)>
    decreases blocks.len(),
{
    if blocks.len() == 0 {
        kinds
    } else {
        let before = with_new_kinds(kinds, blocks.drop_last());
        let kind = blocks.last().kind;
        if under_key(before, kind) is None {
            with_key(before, kind, true)
        } else {
            before
        }
    }
}

/// The kinds, with those of these records added as drawn where they are new.
pub open spec fn with_kinds_of(
    kinds: Seq<(Seq<char>, bool)>,
    pages: Seq<PageExtractionView>,
) -> Seq<(Seq<char>, bool)>
    decreases pages.len(),
{
    if pages.len() == 0 {
        kinds
    } else {
        with_new_kinds(with_kinds_of(kinds, pages.drop_last()), blocks_of(pages.last().content))
    }
}

// ---------------------------------------------------------------------------
// Opening a document
// ---------------------------------------------------------------------------

/// `s` with `n` in its place, if it is not there yet.
pub open spec fn with_number(s: Seq<u32>, n: u32) -> Seq<u32>
    decreases s.len(),
{
    if s.len() == 0 {
        seq![n]
    } else if s.last() == n {
        s
    } else if s.last() < n {
        s.push(n)
    } else {
        with_number(s.drop_last(), n).push(s.last())
    }
}

/// The page numbers of the records, in order, each once.
pub open spec fn page_numbers(pages: Seq<PageExtractionView>) -> Seq<u32>
    decreases pages.len(),
{
    if pages.len() == 0 {
        Seq::empty()
    } else {
        with_number(page_numbers(pages.drop_last()), pages.last().page)
    }
}

/// How many pages are open at first.
pub const OPEN_AT_FIRST: usize = 3;

/// The pages that are open at first: the first few that have records.
pub open spec fn first_open_pages(pages: Seq<PageExtractionView>) -> Set<u32> {
    let numbers = page_numbers(pages);
    if numbers.len() <= OPEN_AT_FIRST {
        numbers.to_set()
    } else {
        numbers.take(OPEN_AT_FIRST as int).to_set()
    }
}

/// The entries that are open at first: those on top that have others below them.
pub open spec fn first_open_toc(toc: Seq<TocEntryView>) -> Set<TocEntryId> {
    Set::new(
        |id: TocEntryId|
            has_children(toc, id) && exists|i: int|
                0 <= i < toc.len() && (#[trigger] toc[i]).id == id && toc[i].parent is None,
    )
}

/// The state in which the inspector opens.
pub open spec fn opened(doc: Option<DocView>, source_label: Seq<char>, page_count: u32) -> PaneView {
    PaneView {
        doc,
        source_label,
        page_count,
        tab: Tab::Extractions,
        expanded_pages: match doc {
            Some(d) => first_open_pages(d.extracted_pages),
            None => Set::empty(),
        },
        expanded_runs: Set::empty(),
        expanded_toc: match doc {
            Some(d) => first_open_toc(d.toc),
            None => Set::empty(),
        },
        kinds: match doc {
            Some(d) => with_kinds_of(Seq::empty(), d.extracted_pages),
            None => Seq::empty(),
        },
        selected: None,
        scroll_to: None,
        region: None,
        model: AdHocModel::GlmOcr,
        preset: 0,
        prompt: RequestView::Idle,
        component: RequestView::Idle,
        in_flight: Set::empty(),
        spinner_frame: 0,
        spinner_running: false,
    }
}

// ---------------------------------------------------------------------------
// Selecting
// ---------------------------------------------------------------------------

/// The events that bring the PDF to the selected row.
pub open spec fn drive(p: PaneView) -> Seq<EventView> {
    match (p.doc, p.selected) {
        (Some(d), Some(SelectedRow::Page(page))) => seq![
            EventView::GotoPage(page),
            EventView::SelectionCleared,
        ],
        (Some(d), Some(SelectedRow::Extraction(page, _))) => seq![
            EventView::GotoPage(page),
            EventView::SelectionCleared,
        ],
        (Some(d), Some(SelectedRow::Block(page, run, idx))) => match block_at(d, page, run, idx) {
            Some(b) => seq![EventView::SelectBlock { page, bbox: b.bbox }],
            None => Seq::empty(),
        },
        (Some(d), Some(SelectedRow::Toc(id))) => match entry_of(d.toc, id) {
            Some(e) => {
                let goto = if e.page_refs.len() > 0 {
                    seq![EventView::GotoPage(page_index(e.page_refs[0].page))]
                } else {
                    Seq::empty()
                };
                goto.push(EventView::SelectionCleared)
            },
            None => Seq::empty(),
        },
        _ => Seq::empty(),
    }
}

/// The index of a page that a table of contents numbers from 1.
pub open spec fn page_index(printed: u32) -> u32 {
    if printed == 0 {
        0
    } else {
        (printed - 1) as u32
    }
}

/// Select a row and show it, whether it was selected before or not.
pub open spec fn showing(p: PaneView, row: SelectedRow) -> Outcome {
    let after = PaneView { selected: Some(row), scroll_to: Some(row), ..p };
    Outcome { pane: after, events: drive(after), notify: true, start_spinner: false }
}

/// Select a row; nothing happens where it is selected already.
pub open spec fn selecting(p: PaneView, row: SelectedRow) -> Outcome {
    if p.selected == Some(row) {
        quiet(p)
    } else {
        showing(p, row)
    }
}

/// `s` with `x` added where it was missing and taken out where it was there.
pub open spec fn toggled<A>(s: Set<A>, x: A) -> Set<A> {
    if s.contains(x) {
        s.remove(x)
    } else {
        s.insert(x)
    }
}

pub open spec fn page_toggled(p: PaneView, page: u32) -> PaneView {
    PaneView { expanded_pages: toggled(p.expanded_pages, page), ..p }
}

pub open spec fn run_toggled(p: PaneView, page: u32, run: ExtractionId) -> PaneView {
    PaneView { expanded_runs: toggled(p.expanded_runs, (page, run)), ..p }
}

pub open spec fn toc_toggled(p: PaneView, id: TocEntryId) -> PaneView {
    PaneView { expanded_toc: toggled(p.expanded_toc, id), ..p }
}

pub open spec fn kind_toggled(p: PaneView, kind: Seq<char>) -> PaneView {
    PaneView { kinds: with_key(p.kinds, kind, !kind_enabled(p.kinds, kind)), ..p }
}

/// A click on a page opens or closes it, and selects it.
pub open spec fn page_clicked(p: PaneView, page: u32) -> Outcome {
    showing(page_toggled(p, page), SelectedRow::Page(page))
}

/// A click on a record opens or closes it where it has blocks, and selects it.
pub open spec fn run_clicked(p: PaneView, page: u32, run: ExtractionId, can_expand: bool) -> Outcome {
    let mid = if can_expand {
        run_toggled(p, page, run)
    } else {
        p
    };
    showing(mid, SelectedRow::Extraction(page, run))
}

/// A click on a block selects it.
pub open spec fn block_clicked(p: PaneView, page: u32, run: ExtractionId, idx: usize) -> Outcome {
    showing(p, SelectedRow::Block(page, run, idx))
}

/// A click on an entry opens or closes it where it has others below it, and
/// selects it.
pub open spec fn toc_clicked(p: PaneView, id: TocEntryId, has_children: bool) -> Outcome {
    let mid = if has_children {
        toc_toggled(p, id)
    } else {
        p
    };
    showing(mid, SelectedRow::Toc(id))
}

pub open spec fn kind_clicked(p: PaneView, kind: Seq<char>) -> Outcome {
    Outcome {
        pane: kind_toggled(p, kind),
        events: seq![EventView::OverlayChanged],
        notify: true,
        start_spinner: false,
    }
}

pub open spec fn tab_chosen(p: PaneView, tab: Tab) -> Outcome {
    if p.tab == tab {
        quiet(p)
    } else {
        redraw(PaneView { tab, ..p })
    }
}

/// The position of a row among the selectable ones, from `from` on.
pub open spec fn position_of(s: Seq<SelectedRow>, row: SelectedRow, from: nat) -> Option<nat>
    decreases s.len() - from,
{
    if from >= s.len() {
        None
    } else if s[from as int] == row {
        Some(from)
    } else {
        position_of(s, row, from + 1)
    }
}

/// `i` moved by `delta`, kept between 0 and `last`.
pub open spec fn moved_within(i: int, delta: int, last: int) -> int {
    if i + delta < 0 {
        0
    } else if i + delta > last {
        last
    } else {
        i + delta
    }
}

/// The row that a move by `delta` rows leads to: from the selected row, or from
/// the nearer end where none of the rows is selected.
pub open spec fn row_after_move(p: PaneView, delta: int) -> Option<SelectedRow> {
    let s = selectables(rows(p));
    if s.len() == 0 {
        None
    } else {
        let at = match p.selected {
            Some(row) => position_of(s, row, 0),
            None => None,
        };
        match at {
            Some(i) => Some(s[moved_within(i as int, delta, s.len() - 1)]),
            None => if delta >= 0 {
                Some(s[0])
            } else {
                Some(s.last())
            },
        }
    }
}

pub open spec fn selection_moved(p: PaneView, delta: int) -> Outcome {
    match row_after_move(p, delta) {
        Some(row) => selecting(p, row),
        None => quiet(p),
    }
}

/// Left closes what is open, and else goes up to the parent.
pub open spec fn went_left(p: PaneView) -> Outcome {
    match p.selected {
        Some(SelectedRow::Page(page)) => if p.expanded_pages.contains(page) {
            redraw(PaneView { expanded_pages: p.expanded_pages.remove(page), ..p })
        } else {
            quiet(p)
        },
        Some(SelectedRow::Extraction(page, run)) => if p.expanded_runs.contains((page, run)) {
            redraw(PaneView { expanded_runs: p.expanded_runs.remove((page, run)), ..p })
        } else {
            selecting(p, SelectedRow::Page(page))
        },
        Some(SelectedRow::Block(page, run, _)) => selecting(p, SelectedRow::Extraction(page, run)),
        Some(SelectedRow::Toc(id)) => if p.expanded_toc.contains(id) {
            redraw(PaneView { expanded_toc: p.expanded_toc.remove(id), ..p })
        } else {
            match p.doc {
                None => quiet(p),
                Some(d) => match entry_of(d.toc, id) {
                    None => quiet(p),
                    Some(e) => match e.parent {
                        None => quiet(p),
                        Some(parent) => selecting(p, SelectedRow::Toc(parent)),
                    },
                },
            }
        },
        None => quiet(p),
    }
}

/// Right opens what is closed, and else goes down to the first child.
pub open spec fn went_right(p: PaneView) -> Outcome {
    match p.selected {
        Some(SelectedRow::Page(page)) => if !p.expanded_pages.contains(page) {
            redraw(PaneView { expanded_pages: p.expanded_pages.insert(page), ..p })
        } else {
            match p.doc {
                None => quiet(p),
                Some(d) => match first_on_page(d.extracted_pages, page) {
                    None => quiet(p),
                    Some(r) => selecting(p, SelectedRow::Extraction(page, r.extraction_uuid)),
                },
            }
        },
        Some(SelectedRow::Extraction(page, run)) => match p.doc {
            None => quiet(p),
            Some(d) => if run_blocks(d, page, run).len() == 0 {
                quiet(p)
            } else if !p.expanded_runs.contains((page, run)) {
                redraw(PaneView { expanded_runs: p.expanded_runs.insert((page, run)), ..p })
            } else {
                selecting(p, SelectedRow::Block(page, run, 0))
            },
        },
        Some(SelectedRow::Toc(id)) => match p.doc {
            None => quiet(p),
            Some(d) => match first_child(d.toc, id) {
                None => quiet(p),
                Some(child) => if !p.expanded_toc.contains(id) {
                    redraw(PaneView { expanded_toc: p.expanded_toc.insert(id), ..p })
                } else {
                    selecting(p, SelectedRow::Toc(child))
                },
            },
        },
        Some(SelectedRow::Block(_, _, _)) => quiet(p),
        None => quiet(p),
    }
}

/// Activating a row brings the PDF to it again.
pub open spec fn activated(p: PaneView) -> Outcome {
    Outcome { pane: p, events: drive(p), notify: false, start_spinner: false }
}

/// Escape drops the selection here and in the PDF.
pub open spec fn escaped(p: PaneView) -> Outcome {
    Outcome {
        pane: PaneView { selected: None, ..p },
        events: seq![EventView::SelectionCleared],
        notify: p.selected is Some,
        start_spinner: false,
    }
}

/// The region in the PDF is gone: a block is no longer selected, any other row
/// still is.
pub open spec fn region_dropped(p: PaneView) -> Outcome {
    match p.selected {
        Some(SelectedRow::Block(_, _, _)) => redraw(PaneView { selected: None, ..p }),
        _ => quiet(p),
    }
}

/// The blocks that a region of page `page` can match: those of all layouts of the
/// page, each by its run and its position.
pub open spec fn candidates(pages: Seq<PageExtractionView>, page: u32) -> Seq<
    (ExtractionId, usize, BBoxView),
>
    decreases pages.len(),
{
    if pages.len() == 0 {
        Seq::empty()
    } else {
        let rest = candidates(pages.drop_last(), page);
        let r = pages.last();
        if r.page == page {
            rest + Seq::new(
                blocks_of(r.content).len(),
                |i: int| (r.extraction_uuid, i as usize, blocks_of(r.content)[i].bbox),
            )
        } else {
            rest
        }
    }
}

/// The first position of the greatest score that is not zero.
pub open spec fn best_score(scores: Seq<u32>) -> Option<int>
    decreases scores.len(),
{
    if scores.len() == 0 {
        None
    } else {
        let rest = best_score(scores.drop_last());
        let so_far = match rest {
            Some(i) => scores[i],
            None => 0,
        };
        if scores.last() > so_far {
            Some(scores.len() - 1)
        } else {
            rest
        }
    }
}

/// A score has to be above this to count as a match: the bits of 0.1 as a
/// single-precision number. Numbers from zero up are in the order of their bits.
pub const REVEAL_THRESHOLD: u32 = 0x3dcc_cccd;

/// The block with the best score, if that is above the threshold.
pub open spec fn matched(found: Seq<(ExtractionId, usize, BBoxView)>, scores: Seq<u32>) -> Option<
    (ExtractionId, usize),
> {
    match best_score(scores) {
        Some(i) => if scores[i] > REVEAL_THRESHOLD {
            Some((found[i].0, found[i].1))
        } else {
            None
        },
        None => None,
    }
}

/// The candidates in the document of the pane.
pub open spec fn pane_candidates(p: PaneView, page: u32) -> Seq<(ExtractionId, usize, BBoxView)> {
    match p.doc {
        Some(d) => candidates(d.extracted_pages, page),
        None => Seq::empty(),
    }
}

/// Show the block that a region in the PDF matches, if it matches one.
pub open spec fn revealed(p: PaneView, page: u32, found: Option<(ExtractionId, usize)>) -> Outcome {
    match found {
        None => quiet(p),
        Some(f) => {
            let row = SelectedRow::Block(page, f.0, f.1);
            if p.selected == Some(row) {
                quiet(p)
            } else {
                redraw(
                    PaneView {
                        expanded_pages: p.expanded_pages.insert(page),
                        expanded_runs: p.expanded_runs.insert((page, f.0)),
                        selected: Some(row),
                        scroll_to: Some(row),
                        ..p
                    },
                )
            }
        },
    }
}

pub open spec fn region_chosen(p: PaneView, region: Option<(u32, BBoxView)>) -> Outcome {
    if equal_regions(p.region, region) {
        quiet(p)
    } else {
        redraw(PaneView { region, ..p })
    }
}

// ---------------------------------------------------------------------------
// Requests
// ---------------------------------------------------------------------------

/// Is anything on its way?
pub open spec fn any_spinning(p: PaneView) -> bool {
    p.prompt is Pending || p.component is Pending || !p.in_flight.is_empty()
}

/// The spinner runs; it starts from its first frame where it stood still.
pub open spec fn with_spinner(p: PaneView) -> Outcome {
    if p.spinner_running {
        redraw(p)
    } else {
        Outcome {
            pane: PaneView { spinner_frame: 0, spinner_running: true, ..p },
            events: Seq::empty(),
            notify: true,
            start_spinner: true,
        }
    }
}

/// The spinner stops where nothing is on its way.
pub open spec fn calmed(p: PaneView) -> PaneView {
    if any_spinning(p) {
        p
    } else {
        PaneView { spinner_running: false, ..p }
    }
}

pub open spec fn prompt_sent(p: PaneView) -> Outcome {
    with_spinner(PaneView { prompt: RequestView::Pending, ..p })
}

pub open spec fn prompt_answered(p: PaneView, answer: RequestView) -> Outcome {
    redraw(calmed(PaneView { prompt: answer, ..p }))
}

pub open spec fn component_sent(p: PaneView) -> Outcome {
    with_spinner(PaneView { component: RequestView::Pending, ..p })
}

pub open spec fn component_answered(p: PaneView, answer: RequestView) -> Outcome {
    redraw(calmed(PaneView { component: answer, ..p }))
}

/// A layout of page `page` is on its way.
pub open spec fn pass2_sent(p: PaneView, page: u32) -> Outcome {
    if p.in_flight.contains(page) {
        quiet(p)
    } else {
        with_spinner(PaneView { in_flight: p.in_flight.insert(page), ..p })
    }
}

/// The layout of page `page` did not come.
pub open spec fn pass2_failed(p: PaneView, page: u32) -> Outcome {
    if p.in_flight.contains(page) {
        redraw(calmed(PaneView { in_flight: p.in_flight.remove(page), ..p }))
    } else {
        quiet(p)
    }
}

/// A document with a run and its pages appended.
pub open spec fn with_run(d: DocView, run: ExtractionView, pages: Seq<PageExtractionView>) -> DocView {
    DocView {
        extractions: d.extractions.push(run),
        extracted_pages: d.extracted_pages + pages,
        ..d
    }
}

/// The layout of page `page` has come: it is filed and opened, and its kinds of
/// blocks are drawn unless they were switched off before.
pub open spec fn pass2_came(
    p: PaneView,
    page: u32,
    run: ExtractionView,
    pages: Seq<PageExtractionView>,
) -> Outcome {
    let after = PaneView {
        in_flight: p.in_flight.remove(page),
        doc: match p.doc {
            Some(d) => Some(with_run(d, run, pages)),
            None => None,
        },
        kinds: match p.doc {
            Some(_) => with_kinds_of(p.kinds, pages),
            None => p.kinds,
        },
        expanded_pages: p.expanded_pages.insert(page),
        expanded_runs: p.expanded_runs.insert((page, run.uuid)),
        ..p
    };
    Outcome {
        pane: calmed(after),
        events: seq![EventView::OverlayChanged],
        notify: true,
        start_spinner: false,
    }
}

/// The user asks for a layout of page `page`; a second time changes nothing
/// while the first is on its way.
pub open spec fn pass2_asked(p: PaneView, page: u32) -> Outcome {
    if p.in_flight.contains(page) {
        quiet(p)
    } else {
        Outcome { events: seq![EventView::ExtractPagePass2 { page }], ..pass2_sent(p, page) }
    }
}

/// The user asks for the component model; a second time changes nothing while
/// the first is on its way.
pub open spec fn component_asked(p: PaneView) -> Outcome {
    if p.component is Pending {
        quiet(p)
    } else {
        Outcome { events: seq![EventView::ExtractComponentModel], ..component_sent(p) }
    }
}

pub open spec fn model_chosen(p: PaneView, model: AdHocModel) -> Outcome {
    if p.model == model {
        quiet(p)
    } else {
        redraw(PaneView { model, ..p })
    }
}

/// How many prompts there are to choose from.
pub const PRESETS: usize = 4;

/// The label of a prompt.
pub open spec fn preset_label(i: int) -> Seq<char> {
    if i == 0 {
        "Describe what you see"@
    } else if i == 1 {
        "Transcribe all text"@
    } else if i == 2 {
        "Extract as Markdown table"@
    } else {
        "Extract key parameters as JSON"@
    }
}

pub const PROMPT_DESCRIBE: &'static str = "Describe what you see in this image. Be concise.";

pub const PROMPT_TRANSCRIBE: &'static str =
    "Transcribe all text in this image exactly. Preserve line breaks where meaningful.";

pub const PROMPT_TABLE: &'static str = "Extract this content as a Markdown table. \
If the content is not naturally tabular, render it as best you can. \
Return only the table — no preamble, no explanation.";

pub const PROMPT_PARAMETERS: &'static str =
    "Extract the key parameters in this image as a JSON object \
keyed by parameter name. Use the units printed in the source. \
Return only the JSON — no preamble, no code fence.";

/// The text of a prompt.
pub open spec fn preset_prompt(i: int) -> Seq<char> {
    if i == 0 {
        PROMPT_DESCRIBE@
    } else if i == 1 {
        PROMPT_TRANSCRIBE@
    } else if i == 2 {
        PROMPT_TABLE@
    } else {
        PROMPT_PARAMETERS@
    }
}

pub open spec fn preset_chosen(p: PaneView, i: usize) -> Outcome {
    if i < PRESETS && p.preset != i {
        redraw(PaneView { preset: i, ..p })
    } else {
        quiet(p)
    }
}

/// The user sends the chosen prompt about the chosen region. Without a region,
/// or while a prompt is on its way, nothing happens.
pub open spec fn prompt_submitted(p: PaneView) -> Outcome {
    match p.region {
        None => quiet(p),
        Some(region) => if p.prompt is Pending || p.preset >= PRESETS {
            quiet(p)
        } else {
            Outcome {
                events: seq![
                    EventView::PromptSubmit {
                        page: region.0,
                        bbox: region.1,
                        model: p.model,
                        prompt: preset_prompt(p.preset as int),
                    },
                ],
                ..prompt_sent(p)
            }
        },
    }
}

/// How many frames the spinner has.
pub const SPINNER_FRAMES: usize = 10;

/// The spinner moves on by one frame while anything is on its way.
pub open spec fn ticked(p: PaneView) -> Outcome {
    if any_spinning(p) {
        redraw(
            PaneView {
                spinner_frame: ((p.spinner_frame + 1) % SPINNER_FRAMES as int) as usize,
                ..p
            },
        )
    } else {
        quiet(p)
    }
}

} // verus!
