//! The extraction inspector: a tree of pages, extraction runs and blocks, the
//! table of contents, a prompt about a region of the PDF, and the component
//! model. The pane holds the state; what an operation asks of the rest of the
//! application comes back as [`Effects`].

use crate::ad_hoc::{AdHocModel, AdHocResponse};
use crate::ids::{ExtractionId, TocEntryId};
use crate::inspector_model::{
    EventView, OPEN_AT_FIRST, Outcome, PRESETS, PROMPT_DESCRIBE, PROMPT_PARAMETERS, PROMPT_TABLE,
    PROMPT_TRANSCRIBE, PaneView, REVEAL_THRESHOLD, RenderedRow, RequestView, SPINNER_FRAMES,
    SelectedRow, Tab, activated, any_spinning, best_score, block_clicked, calmed,
    component_answered, component_asked, component_sent, drive, enabled_blocks, escaped,
    first_open_pages, first_open_toc, has_children, kind_clicked, matched, model_chosen,
    moved_within, opened, overlay_of, page_clicked, page_numbers, page_toggled, pane_candidates,
    pass2_asked, pass2_came, pass2_failed, pass2_sent, position_of, preset_chosen, preset_label,
    preset_prompt, prompt_answered, prompt_sent, prompt_submitted, redraw, region_chosen,
    region_dropped, revealed, row_offset, rows, rows_can_be_shown, run_blocks, run_clicked,
    run_toggled, selecting, selection_moved, showing, tab_chosen, ticked, toc_clicked, toc_toggled,
    went_left, went_right, with_kinds_of, with_new_kinds, with_number, with_run, with_spinner,
};
use crate::inspector_rows::{
    Candidate, are_parents, block_count, candidates_on, contents_fit, contents_rows,
    extraction_rows, find_child, find_entry, find_on_page, ids_of, lookup_block_bbox, offset_of,
    parents, selectable_rows,
};
use crate::ir::{
    BBox, BBoxView, Content, Doc, Extraction, PageExtraction, PageExtractionView, StructuredBlock,
    StructuredBlockView, TocEntry, opt_view, views,
};
use crate::kinds::{KindSwitches, RunSet};
use std::collections::{HashMap, HashSet};
use vstd::prelude::*;

verus! {

broadcast use vstd::std_specs::hash::group_hash_axioms;

/// What the inspector tells the rest of the application.
#[derive(Debug, Clone)]
pub enum InspectorEvent {
    /// Bring a page into view.
    GotoPage(u32),
    /// Bring a page into view and highlight a region of it.
    SelectBlock { page: u32, bbox: BBox },
    /// The blocks that [`InspectorPane::overlay_snapshot`] returns have changed.
    OverlayChanged,
    SelectionCleared,
    /// Send a prompt about a region to a model.
    PromptSubmit { page: u32, bbox: BBox, model: AdHocModel, prompt: String },
    /// Ask for a layout of a page.
    ExtractPagePass2 { page: u32 },
    /// Ask for the component model.
    ExtractComponentModel,
}

impl View for InspectorEvent {
    type V = EventView;

    open spec fn view(&self) -> EventView {
        match *self {
            InspectorEvent::GotoPage(page) => EventView::GotoPage(page),
            InspectorEvent::SelectBlock { page, bbox } => EventView::SelectBlock {
                page,
                bbox: bbox@,
            },
            InspectorEvent::OverlayChanged => EventView::OverlayChanged,
            InspectorEvent::SelectionCleared => EventView::SelectionCleared,
            InspectorEvent::PromptSubmit { page, bbox, model, prompt } => EventView::PromptSubmit {
                page,
                bbox: bbox@,
                model,
                prompt: prompt@,
            },
            InspectorEvent::ExtractPagePass2 { page } => EventView::ExtractPagePass2 { page },
            InspectorEvent::ExtractComponentModel => EventView::ExtractComponentModel,
        }
    }
}

/// How far a request of the user has come.
#[derive(Debug, Clone)]
pub enum RequestState {
    Idle,
    Pending,
    Done(AdHocResponse),
    Failed(String),
}

impl View for RequestState {
    type V = RequestView;

    open spec fn view(&self) -> RequestView {
        match *self {
            RequestState::Idle => RequestView::Idle,
            RequestState::Pending => RequestView::Pending,
            RequestState::Done(r) => RequestView::Done(r@),
            RequestState::Failed(m) => RequestView::Failed(m@),
        }
    }
}

/// What an operation asks of the rest of the application: events to deliver in
/// their order, whether to draw the pane again, and whether to start the timer
/// that calls [`InspectorPane::tick`].
#[derive(Debug, Clone)]
pub struct Effects {
    pub events: Vec<InspectorEvent>,
    pub notify: bool,
    pub start_spinner: bool,
}

/// Did an operation lead to this outcome?
pub open spec fn led_to(pane: PaneView, e: Effects, o: Outcome) -> bool {
    &&& pane == o.pane
    &&& views(e.events@) == o.events
    &&& e.notify == o.notify
    &&& e.start_spinner == o.start_spinner
}

fn nothing() -> (r: Effects)
    ensures
        views(r.events@) == Seq::<EventView>::empty(),
        !r.notify,
        !r.start_spinner,
{
    let events: Vec<InspectorEvent> = Vec::new();
    assert(views(events@) =~= Seq::<EventView>::empty());
    Effects { events, notify: false, start_spinner: false }
}

fn notified() -> (r: Effects)
    ensures
        views(r.events@) == Seq::<EventView>::empty(),
        r.notify,
        !r.start_spinner,
{
    let events: Vec<InspectorEvent> = Vec::new();
    assert(views(events@) =~= Seq::<EventView>::empty());
    Effects { events, notify: true, start_spinner: false }
}

/// A list of one event.
fn one(event: InspectorEvent) -> (r: Vec<InspectorEvent>)
    ensures
        views(r@) == seq![event@],
{
    let mut events: Vec<InspectorEvent> = Vec::new();
    events.push(event);
    assert(views(events@) =~= seq![event@]);
    events
}

/// A list of two events.
fn two(first: InspectorEvent, second: InspectorEvent) -> (r: Vec<InspectorEvent>)
    ensures
        views(r@) == seq![first@, second@],
{
    let mut events: Vec<InspectorEvent> = Vec::new();
    events.push(first);
    events.push(second);
    assert(views(events@) =~= seq![first@, second@]);
    events
}

pub struct InspectorPane {
    doc: Option<Doc>,
    source_label: String,
    page_count: u32,
    active_tab: Tab,
    expanded_pages: HashSet<u32>,
    expanded_runs: RunSet,
    expanded_toc: HashSet<u128>,
    kinds: KindSwitches,
    selected: Option<SelectedRow>,
    scroll_to: Option<SelectedRow>,
    region: Option<(u32, BBox)>,
    model: AdHocModel,
    preset: usize,
    prompt: RequestState,
    component: RequestState,
    in_flight: HashSet<u32>,
    spinner_frame: usize,
    spinner_running: bool,
}

/// What an optional region stands for.
pub open spec fn region_view(r: Option<(u32, BBox)>) -> Option<(u32, BBoxView)> {
    match r {
        Some(x) => Some((x.0, x.1@)),
        None => None,
    }
}

impl View for InspectorPane {
    type V = PaneView;

    closed spec fn view(&self) -> PaneView {
        PaneView {
            doc: opt_view(self.doc),
            source_label: self.source_label@,
            page_count: self.page_count,
            tab: self.active_tab,
            expanded_pages: self.expanded_pages@,
            expanded_runs: self.expanded_runs@,
            expanded_toc: ids_of(self.expanded_toc@),
            kinds: self.kinds@,
            selected: self.selected,
            scroll_to: self.scroll_to,
            region: region_view(self.region),
            model: self.model,
            preset: self.preset,
            prompt: self.prompt@,
            component: self.component@,
            in_flight: self.in_flight@,
            spinner_frame: self.spinner_frame,
            spinner_running: self.spinner_running,
        }
    }
}

// ---------------------------------------------------------------------------
// Opening a document
// ---------------------------------------------------------------------------

/// A number that is missing goes before the first greater one.
proof fn with_number_at(s: Seq<u32>, n: u32, at: int)
    requires
        0 <= at <= s.len(),
        at > 0 ==> s[at - 1] < n,
        forall|j: int| at <= j < s.len() ==> n < #[trigger] s[j],
    ensures
        with_number(s, n) == s.insert(at, n),
    decreases s.len(),
{
    if at == s.len() {
        assert(s.insert(at, n) =~= s.push(n));
        assert(s.len() == 0 ==> seq![n] =~= s.push(n));
    } else {
        with_number_at(s.drop_last(), n, at);
        assert(s.insert(at, n) =~= s.drop_last().insert(at, n).push(s.last()));
    }
}

/// A number that is there stays where it is.
proof fn with_number_there(s: Seq<u32>, n: u32, at: int)
    requires
        0 <= at < s.len(),
        s[at] == n,
        forall|j: int| at < j < s.len() ==> n < #[trigger] s[j],
    ensures
        with_number(s, n) == s,
    decreases s.len(),
{
    if at < s.len() - 1 {
        with_number_there(s.drop_last(), n, at);
        assert(s =~= s.drop_last().push(s.last()));
    }
}

/// Put a number in its place, if it is not there yet.
fn add_number(nums: &mut Vec<u32>, n: u32)
    ensures
        final(nums)@ == with_number(old(nums)@, n),
{
    let mut at: usize = nums.len();
    while at > 0 && nums[at - 1] > n
        invariant
            at <= nums@.len(),
            nums@ == old(nums)@,
            forall|j: int| at <= j < nums@.len() ==> n < #[trigger] nums@[j],
        decreases at,
    {
        at = at - 1;
    }
    if at > 0 && nums[at - 1] == n {
        proof {
            with_number_there(nums@, n, at - 1);
        }
    } else {
        proof {
            with_number_at(nums@, n, at as int);
        }
        nums.insert(at, n);
    }
}

/// The pages that are open at first.
fn pages_to_open(pages: &Vec<PageExtraction>) -> (r: HashSet<u32>)
    ensures
        r@ == first_open_pages(views(pages@)),
{
    let ghost all = views(pages@);
    let mut nums: Vec<u32> = Vec::new();
    assert(nums@ =~= page_numbers(all.take(0)));
    for i in 0..pages.len()
        invariant
            all == views(pages@),
            nums@ == page_numbers(all.take(i as int)),
    {
        assert(all.take(i + 1).drop_last() =~= all.take(i as int));
        assert(all.take(i + 1).last() == pages@[i as int]@);
        add_number(&mut nums, pages[i].page);
    }
    assert(all.take(all.len() as int) =~= all);
    let mut out: HashSet<u32> = HashSet::new();
    let count: usize = if nums.len() < OPEN_AT_FIRST {
        nums.len()
    } else {
        OPEN_AT_FIRST
    };
    assert(nums@.take(0).to_set() =~= Set::<u32>::empty());
    for i in 0..count
        invariant
            count <= nums@.len(),
            out@ == nums@.take(i as int).to_set(),
    {
        let ghost before = nums@.take(i as int);
        out.insert(nums[i]);
        assert(nums@.take(i + 1) =~= before.push(nums@[i as int]));
        assert(before.push(nums@[i as int]).to_set() =~= before.to_set().insert(nums@[i as int]))
            by {
            assert(before.push(nums@[i as int])[i as int] == nums@[i as int]);
            assert forall|x: u32| before.contains(x) implies before.push(nums@[i as int]).contains(
                x,
            ) by {
                let k = choose|k: int| 0 <= k < before.len() && before[k] == x;
                assert(before.push(nums@[i as int])[k] == x);
            }
        }
    }
    assert(nums@.take(nums@.len() as int) =~= nums@);
    out
}

/// The entries that are open at first.
fn entries_to_open(toc: &Vec<TocEntry>) -> (r: HashSet<u128>)
    ensures
        ids_of(r@) == first_open_toc(views(toc@)),
{
    let ghost all = views(toc@);
    let has_child = parents(toc);
    let mut out: HashSet<u128> = HashSet::new();
    for i in 0..toc.len()
        invariant
            all == views(toc@),
            are_parents(has_child@, all),
            forall|id: TocEntryId|
                #[trigger] out@.contains(id.0) <==> has_children(all, id) && exists|k: int|
                    0 <= k < i && (#[trigger] all[k]).id == id && all[k].parent is None,
    {
        let ghost before = out@;
        let e = &toc[i];
        assert(all[i as int] == e@);
        if e.parent.is_none() && has_child.contains(&e.id.0) {
            out.insert(e.id.0);
        }
        assert forall|id: TocEntryId|
            #[trigger] out@.contains(id.0) <==> has_children(all, id) && exists|k: int|
                0 <= k < i + 1 && (#[trigger] all[k]).id == id && all[k].parent is None by {
            if id == e.id {
                assert(all[i as int].id == id);
            } else {
                assert(id.0 != e.id.0);
                assert(out@.contains(id.0) <==> before.contains(id.0));
            }
        }
    }
    assert(ids_of(out@) =~= first_open_toc(all));
    out
}

/// Add the kinds of these blocks where they are new.
fn add_block_kinds(kinds: &mut KindSwitches, blocks: &Vec<StructuredBlock>)
    ensures
        final(kinds)@ == with_new_kinds(old(kinds)@, views(blocks@)),
{
    let ghost all = views(blocks@);
    let ghost start = kinds@;
    assert(all.take(0) =~= Seq::<StructuredBlockView>::empty());
    for i in 0..blocks.len()
        invariant
            all == views(blocks@),
            kinds@ == with_new_kinds(start, all.take(i as int)),
    {
        assert(all.take(i + 1).drop_last() =~= all.take(i as int));
        assert(all.take(i + 1).last() == blocks@[i as int]@);
        let kind = blocks[i].kind.as_str();
        if kinds.get(kind).is_none() {
            kinds.set(kind, true);
        }
    }
    assert(all.take(all.len() as int) =~= all);
}

/// Add the kinds of these records where they are new.
fn add_kinds(kinds: &mut KindSwitches, pages: &Vec<PageExtraction>)
    ensures
        final(kinds)@ == with_kinds_of(old(kinds)@, views(pages@)),
{
    let ghost all = views(pages@);
    let ghost start = kinds@;
    assert(all.take(0) =~= Seq::<PageExtractionView>::empty());
    for i in 0..pages.len()
        invariant
            all == views(pages@),
            kinds@ == with_kinds_of(start, all.take(i as int)),
    {
        assert(all.take(i + 1).drop_last() =~= all.take(i as int));
        assert(all.take(i + 1).last() == pages@[i as int]@);
        if let Content::Structured(sp) = &pages[i].content {
            add_block_kinds(kinds, &sp.blocks);
        }
    }
    assert(all.take(all.len() as int) =~= all);
}

impl InspectorPane {
    /// A pane for a document, which may be missing, of a PDF with `page_count`
    /// pages.
    pub fn build(doc: Option<Doc>, source_label: String, page_count: u32) -> (r: InspectorPane)
        ensures
            r@ == opened(opt_view(doc), source_label@, page_count),
    {
        let mut kinds = KindSwitches::new();
        let expanded_pages: HashSet<u32>;
        let expanded_toc: HashSet<u128>;
        match &doc {
            Some(d) => {
                expanded_pages = pages_to_open(&d.extracted_pages);
                expanded_toc = entries_to_open(&d.toc);
                add_kinds(&mut kinds, &d.extracted_pages);
            },
            None => {
                expanded_pages = HashSet::new();
                expanded_toc = HashSet::new();
                assert(ids_of(expanded_toc@) =~= Set::<TocEntryId>::empty());
            },
        }
        InspectorPane {
            doc,
            source_label,
            page_count,
            active_tab: Tab::Extractions,
            expanded_pages,
            expanded_runs: RunSet::new(),
            expanded_toc,
            kinds,
            selected: None,
            scroll_to: None,
            region: None,
            model: AdHocModel::GlmOcr,
            preset: 0,
            prompt: RequestState::Idle,
            component: RequestState::Idle,
            in_flight: HashSet::new(),
            spinner_frame: 0,
            spinner_running: false,
        }
    }
}

// ---------------------------------------------------------------------------
// Reading the state
// ---------------------------------------------------------------------------

impl InspectorPane {
    pub fn doc(&self) -> (r: Option<&Doc>)
        ensures
            match r {
                Some(d) => self@.doc == Some(d@),
                None => self@.doc is None,
            },
    {
        match &self.doc {
            Some(d) => Some(d),
            None => None,
        }
    }

    pub fn source_label(&self) -> (r: &str)
        ensures
            r@ == self@.source_label,
    {
        self.source_label.as_str()
    }

    pub fn page_count(&self) -> (r: u32)
        ensures
            r == self@.page_count,
    {
        self.page_count
    }

    pub fn active_tab(&self) -> (r: Tab)
        ensures
            r == self@.tab,
    {
        self.active_tab
    }

    pub fn selected_row(&self) -> (r: Option<SelectedRow>)
        ensures
            r == self@.selected,
    {
        self.selected
    }

    pub fn page_is_expanded(&self, page: u32) -> (r: bool)
        ensures
            r == self@.expanded_pages.contains(page),
    {
        self.expanded_pages.contains(&page)
    }

    pub fn extraction_is_expanded(&self, page: u32, run: ExtractionId) -> (r: bool)
        ensures
            r == self@.expanded_runs.contains((page, run)),
    {
        self.expanded_runs.contains(page, run)
    }

    pub fn toc_entry_is_expanded(&self, id: TocEntryId) -> (r: bool)
        ensures
            r == self@.expanded_toc.contains(id),
    {
        self.expanded_toc.contains(&id.0)
    }

    /// The kinds of blocks and whether they are drawn.
    pub fn kinds(&self) -> (r: &KindSwitches)
        ensures
            r@ == self@.kinds,
    {
        &self.kinds
    }

    /// The region of the PDF that a prompt would be about.
    pub fn pdf_selection(&self) -> (r: Option<(u32, &BBox)>)
        ensures
            match r {
                Some(x) => self@.region == Some((x.0, x.1@)),
                None => self@.region is None,
            },
    {
        match &self.region {
            Some(x) => Some((x.0, &x.1)),
            None => None,
        }
    }

    pub fn prompt_model(&self) -> (r: AdHocModel)
        ensures
            r == self@.model,
    {
        self.model
    }

    pub fn prompt_preset(&self) -> (r: usize)
        ensures
            r == self@.preset,
    {
        self.preset
    }

    pub fn prompt_state(&self) -> (r: &RequestState)
        ensures
            r@ == self@.prompt,
    {
        &self.prompt
    }

    pub fn component_state(&self) -> (r: &RequestState)
        ensures
            r@ == self@.component,
    {
        &self.component
    }

    pub fn pass2_is_in_flight(&self, page: u32) -> (r: bool)
        ensures
            r == self@.in_flight.contains(page),
    {
        self.in_flight.contains(&page)
    }

    pub fn spinner_frame(&self) -> (r: usize)
        ensures
            r == self@.spinner_frame,
    {
        self.spinner_frame
    }

    /// Is anything on its way?
    pub fn any_spinning(&self) -> (r: bool)
        ensures
            r == any_spinning(self@),
    {
        let prompt = match &self.prompt {
            RequestState::Pending => true,
            _ => false,
        };
        let component = match &self.component {
            RequestState::Pending => true,
            _ => false,
        };
        prompt || component || !self.in_flight.is_empty()
    }

    /// The blocks to draw on each page: those of drawn kinds, of all layouts of
    /// the page.
    pub fn overlay_snapshot(&self) -> (r: HashMap<u32, Vec<StructuredBlock>>)
        ensures
            forall|page: u32| #[trigger]
                r@.contains_key(page) <==> (self@.doc matches Some(d) && overlay_of(
                    self@.kinds,
                    d.extracted_pages,
                    page,
                ) is Some),
            forall|page: u32| #[trigger]
                r@.contains_key(page) ==> (self@.doc matches Some(d) && overlay_of(
                    self@.kinds,
                    d.extracted_pages,
                    page,
                ) == Some(views(r@[page]@))),
    {
        let mut out: HashMap<u32, Vec<StructuredBlock>> = HashMap::new();
        if let Some(doc) = &self.doc {
            let ghost all = views(doc.extracted_pages@);
            let ghost kinds = self.kinds@;
            for i in 0..doc.extracted_pages.len()
                invariant
                    all == views(doc.extracted_pages@),
                    kinds == self.kinds@,
                    forall|page: u32| #[trigger]
                        out@.contains_key(page) <==> overlay_of(
                            kinds,
                            all.take(i as int),
                            page,
                        ) is Some,
                    forall|page: u32| #[trigger]
                        out@.contains_key(page) ==> overlay_of(kinds, all.take(i as int), page)
                            == Some(views(out@[page]@)),
            {
                let pe = &doc.extracted_pages[i];
                let ghost before = out@;
                assert(all.take(i + 1).drop_last() =~= all.take(i as int));
                assert(all.take(i + 1).last() == pe@);
                if let Content::Structured(sp) = &pe.content {
                    let mut blocks: Vec<StructuredBlock> = match out.remove(&pe.page) {
                        Some(b) => b,
                        None => Vec::new(),
                    };
                    let ghost had = views(blocks@);
                    assert(!before.contains_key(pe.page) ==> had =~= Seq::<
                        StructuredBlockView,
                    >::empty());
                    self.push_enabled(&sp.blocks, &mut blocks);
                    assert(!before.contains_key(pe.page) ==> views(blocks@) =~= enabled_blocks(
                        kinds,
                        views(sp.blocks@),
                    ));
                    out.insert(pe.page, blocks);
                }
            }
            assert(all.take(all.len() as int) =~= all);
        }
        out
    }

    /// Append the blocks of drawn kinds.
    fn push_enabled(&self, blocks: &Vec<StructuredBlock>, out: &mut Vec<StructuredBlock>)
        ensures
            views(final(out)@) == views(old(out)@) + enabled_blocks(self.kinds@, views(blocks@)),
    {
        let ghost all = views(blocks@);
        let ghost start = views(out@);
        let ghost kinds = self.kinds@;
        assert(start =~= start + enabled_blocks(kinds, all.take(0)));
        for i in 0..blocks.len()
            invariant
                all == views(blocks@),
                kinds == self.kinds@,
                views(out@) == start + enabled_blocks(kinds, all.take(i as int)),
        {
            assert(all.take(i + 1).drop_last() =~= all.take(i as int));
            assert(all.take(i + 1).last() == blocks@[i as int]@);
            let drawn = match self.kinds.get(blocks[i].kind.as_str()) {
                Some(b) => b,
                None => true,
            };
            if drawn {
                let copy = blocks[i].copy();
                let ghost before = views(out@);
                out.push(copy);
                assert(views(out@) =~= before.push(copy@));
                assert(views(out@) =~= start + enabled_blocks(kinds, all.take(i + 1)));
            }
        }
        assert(all.take(all.len() as int) =~= all);
    }

    /// Can the rows of the active tab be shown?
    pub fn rows_fit(&self) -> (r: bool)
        ensures
            r == rows_can_be_shown(self@),
    {
        match self.active_tab {
            Tab::Toc => match &self.doc {
                Some(doc) => contents_fit(&doc.toc, &self.expanded_toc),
                None => true,
            },
            _ => true,
        }
    }

    /// The rows of the active tab, from top to bottom.
    pub fn rendered_rows(&self) -> (r: Vec<RenderedRow>)
        requires
            rows_can_be_shown(self@),
        ensures
            r@ == rows(self@),
    {
        match &self.doc {
            None => Vec::new(),
            Some(doc) => match self.active_tab {
                Tab::Extractions => extraction_rows(
                    Ghost(self@),
                    doc,
                    self.page_count,
                    &self.expanded_pages,
                    &self.expanded_runs,
                ),
                Tab::Toc => contents_rows(&doc.toc, &self.expanded_toc),
                Tab::Prompt => Vec::new(),
                Tab::Components => Vec::new(),
            },
        }
    }

    /// Where a row stands and how high it is, in pixels; nothing where the row is
    /// not shown.
    pub fn row_y_offset(&self, target: SelectedRow) -> (r: Option<(u128, u32)>)
        requires
            rows_can_be_shown(self@),
        ensures
            match r {
                Some(at) => row_offset(rows(self@), target) == Some((at.0 as nat, at.1 as nat)),
                None => row_offset(rows(self@), target) is None,
            },
    {
        let rows = self.rendered_rows();
        offset_of(&rows, target)
    }

    /// The row that is to be scrolled into view, once.
    pub fn take_pending_scroll(&mut self) -> (r: Option<SelectedRow>)
        ensures
            r == old(self)@.scroll_to,
            final(self)@ == (PaneView { scroll_to: None, ..old(self)@ }),
    {
        let row = self.scroll_to;
        self.scroll_to = None;
        row
    }

    /// Scroll a row into view at the next opportunity.
    pub fn queue_scroll(&mut self, row: SelectedRow)
        ensures
            final(self)@ == (PaneView { scroll_to: Some(row), ..old(self)@ }),
    {
        self.scroll_to = Some(row);
    }
}

// ---------------------------------------------------------------------------
// Selecting
// ---------------------------------------------------------------------------

impl InspectorPane {
    /// The events that bring the PDF to the selected row.
    fn drive_pdf_for_selection(&self) -> (r: Vec<InspectorEvent>)
        ensures
            views(r@) == drive(self@),
    {
        let none: Vec<InspectorEvent> = Vec::new();
        assert(views(none@) =~= Seq::<EventView>::empty());
        match (&self.doc, self.selected) {
            (Some(doc), Some(SelectedRow::Page(page))) => two(
                InspectorEvent::GotoPage(page),
                InspectorEvent::SelectionCleared,
            ),
            (Some(doc), Some(SelectedRow::Extraction(page, _))) => two(
                InspectorEvent::GotoPage(page),
                InspectorEvent::SelectionCleared,
            ),
            (Some(doc), Some(SelectedRow::Block(page, run, idx))) => match lookup_block_bbox(
                doc,
                page,
                run,
                idx,
            ) {
                Some(bbox) => one(InspectorEvent::SelectBlock { page, bbox }),
                None => none,
            },
            (Some(doc), Some(SelectedRow::Toc(id))) => match find_entry(&doc.toc, id) {
                Some(e) => if e.page_refs.len() > 0 {
                    assert(e@.page_refs[0] == e.page_refs@[0]@);
                    let printed = e.page_refs[0].page;
                    let page: u32 = if printed == 0 {
                        0
                    } else {
                        printed - 1
                    };
                    let events = two(
                        InspectorEvent::GotoPage(page),
                        InspectorEvent::SelectionCleared,
                    );
                    assert(views(events@) =~= seq![EventView::GotoPage(page)].push(
                        EventView::SelectionCleared,
                    ));
                    events
                } else {
                    let events = one(InspectorEvent::SelectionCleared);
                    assert(views(events@) =~= Seq::<EventView>::empty().push(
                        EventView::SelectionCleared,
                    ));
                    events
                },
                None => none,
            },
            _ => none,
        }
    }

    /// Select a row and show it, whether it was selected before or not.
    fn show(&mut self, row: SelectedRow) -> (r: Effects)
        ensures
            led_to(final(self)@, r, showing(old(self)@, row)),
    {
        self.selected = Some(row);
        self.scroll_to = Some(row);
        Effects { events: self.drive_pdf_for_selection(), notify: true, start_spinner: false }
    }

    /// Select a row; nothing happens where it is selected already.
    pub fn set_selected_row(&mut self, row: SelectedRow) -> (r: Effects)
        ensures
            led_to(final(self)@, r, selecting(old(self)@, row)),
    {
        if let Some(now) = self.selected {
            if now == row {
                return nothing();
            }
        }
        self.show(row)
    }

    /// Switch the drawing of a kind of blocks.
    pub fn toggle_kind(&mut self, kind: &str) -> (r: Effects)
        ensures
            led_to(final(self)@, r, kind_clicked(old(self)@, kind@)),
    {
        let now = match self.kinds.get(kind) {
            Some(b) => b,
            None => true,
        };
        self.kinds.set(kind, !now);
        Effects { events: one(InspectorEvent::OverlayChanged), notify: true, start_spinner: false }
    }

    fn flip_page(&mut self, page: u32)
        ensures
            final(self)@ == page_toggled(old(self)@, page),
    {
        if self.expanded_pages.contains(&page) {
            self.expanded_pages.remove(&page);
        } else {
            self.expanded_pages.insert(page);
        }
    }

    fn flip_run(&mut self, page: u32, run: ExtractionId)
        ensures
            final(self)@ == run_toggled(old(self)@, page, run),
    {
        if self.expanded_runs.contains(page, run) {
            self.expanded_runs.remove(page, run);
        } else {
            self.expanded_runs.insert(page, run);
        }
    }

    fn open_entry(&mut self, id: TocEntryId)
        ensures
            final(self)@ == (PaneView {
                expanded_toc: old(self)@.expanded_toc.insert(id),
                ..old(self)@
            }),
    {
        self.expanded_toc.insert(id.0);
        assert(ids_of(self.expanded_toc@) =~= old(self)@.expanded_toc.insert(id));
    }

    fn close_entry(&mut self, id: TocEntryId)
        ensures
            final(self)@ == (PaneView {
                expanded_toc: old(self)@.expanded_toc.remove(id),
                ..old(self)@
            }),
    {
        self.expanded_toc.remove(&id.0);
        assert(ids_of(self.expanded_toc@) =~= old(self)@.expanded_toc.remove(id));
    }

    fn flip_entry(&mut self, id: TocEntryId)
        ensures
            final(self)@ == toc_toggled(old(self)@, id),
    {
        if self.expanded_toc.contains(&id.0) {
            self.close_entry(id);
        } else {
            self.open_entry(id);
        }
    }

    /// Open or close a page.
    pub fn toggle_page(&mut self, page: u32) -> (r: Effects)
        ensures
            led_to(final(self)@, r, redraw(page_toggled(old(self)@, page))),
    {
        self.flip_page(page);
        notified()
    }

    /// Open or close the blocks of a record.
    pub fn toggle_extraction(&mut self, page: u32, run: ExtractionId) -> (r: Effects)
        ensures
            led_to(final(self)@, r, redraw(run_toggled(old(self)@, page, run))),
    {
        self.flip_run(page, run);
        notified()
    }

    /// Open or close an entry of the table of contents.
    pub fn toggle_toc_entry(&mut self, id: TocEntryId) -> (r: Effects)
        ensures
            led_to(final(self)@, r, redraw(toc_toggled(old(self)@, id))),
    {
        self.flip_entry(id);
        notified()
    }

    pub fn on_page_row_click(&mut self, page: u32) -> (r: Effects)
        ensures
            led_to(final(self)@, r, page_clicked(old(self)@, page)),
    {
        self.flip_page(page);
        self.show(SelectedRow::Page(page))
    }

    pub fn on_extraction_row_click(&mut self, page: u32, run: ExtractionId, can_expand: bool) -> (r:
        Effects)
        ensures
            led_to(final(self)@, r, run_clicked(old(self)@, page, run, can_expand)),
    {
        if can_expand {
            self.flip_run(page, run);
        }
        self.show(SelectedRow::Extraction(page, run))
    }

    pub fn on_block_row_click(&mut self, page: u32, run: ExtractionId, idx: usize) -> (r: Effects)
        ensures
            led_to(final(self)@, r, block_clicked(old(self)@, page, run, idx)),
    {
        self.show(SelectedRow::Block(page, run, idx))
    }

    pub fn on_toc_row_click(&mut self, id: TocEntryId, has_children: bool) -> (r: Effects)
        ensures
            led_to(final(self)@, r, toc_clicked(old(self)@, id, has_children)),
    {
        if has_children {
            self.flip_entry(id);
        }
        self.show(SelectedRow::Toc(id))
    }

    pub fn set_active_tab(&mut self, tab: Tab) -> (r: Effects)
        ensures
            led_to(final(self)@, r, tab_chosen(old(self)@, tab)),
    {
        if self.active_tab == tab {
            nothing()
        } else {
            self.active_tab = tab;
            notified()
        }
    }

    /// Move the selection by `delta` rows within what is shown.
    pub fn move_selection(&mut self, delta: isize) -> (r: Effects)
        requires
            rows_can_be_shown(old(self)@),
        ensures
            led_to(final(self)@, r, selection_moved(old(self)@, delta as int)),
    {
        let shown = self.rendered_rows();
        let list = selectable_rows(&shown);
        if list.len() == 0 {
            return nothing();
        }
        let last: usize = list.len() - 1;
        let mut at: Option<usize> = None;
        if let Some(now) = self.selected {
            at = position(&list, now);
        }
        let row = match at {
            Some(i) => list[moved(i, delta, last)],
            None => if delta >= 0 {
                list[0]
            } else {
                list[last]
            },
        };
        self.set_selected_row(row)
    }

    /// Close what is open, or else go up to the parent.
    pub fn on_select_left(&mut self) -> (r: Effects)
        ensures
            led_to(final(self)@, r, went_left(old(self)@)),
    {
        match self.selected {
            Some(SelectedRow::Page(page)) => if self.expanded_pages.contains(&page) {
                self.expanded_pages.remove(&page);
                notified()
            } else {
                nothing()
            },
            Some(SelectedRow::Extraction(page, run)) => if self.expanded_runs.contains(page, run) {
                self.expanded_runs.remove(page, run);
                notified()
            } else {
                self.set_selected_row(SelectedRow::Page(page))
            },
            Some(SelectedRow::Block(page, run, _)) => self.set_selected_row(
                SelectedRow::Extraction(page, run),
            ),
            Some(SelectedRow::Toc(id)) => if self.expanded_toc.contains(&id.0) {
                self.close_entry(id);
                notified()
            } else {
                match self.toc_parent_of(id) {
                    Some(parent) => self.set_selected_row(SelectedRow::Toc(parent)),
                    None => nothing(),
                }
            },
            None => nothing(),
        }
    }

    /// Open what is closed, or else go down to the first child.
    pub fn on_select_right(&mut self) -> (r: Effects)
        ensures
            led_to(final(self)@, r, went_right(old(self)@)),
    {
        match self.selected {
            Some(SelectedRow::Page(page)) => if !self.expanded_pages.contains(&page) {
                self.expanded_pages.insert(page);
                notified()
            } else {
                match self.first_child_of_page(page) {
                    Some(child) => self.set_selected_row(child),
                    None => nothing(),
                }
            },
            Some(SelectedRow::Extraction(page, run)) => if self.extraction_block_count(page, run)
                == 0 {
                nothing()
            } else if !self.expanded_runs.contains(page, run) {
                self.expanded_runs.insert(page, run);
                notified()
            } else {
                self.set_selected_row(SelectedRow::Block(page, run, 0))
            },
            Some(SelectedRow::Toc(id)) => match self.first_toc_child_of(id) {
                None => nothing(),
                Some(child) => if !self.expanded_toc.contains(&id.0) {
                    self.open_entry(id);
                    notified()
                } else {
                    self.set_selected_row(SelectedRow::Toc(child))
                },
            },
            Some(SelectedRow::Block(_, _, _)) => nothing(),
            None => nothing(),
        }
    }

    fn first_child_of_page(&self, page: u32) -> (r: Option<SelectedRow>)
        ensures
            r == (match self@.doc {
                None => None,
                Some(d) => match crate::inspector_model::first_on_page(d.extracted_pages, page) {
                    None => None,
                    Some(p) => Some(SelectedRow::Extraction(page, p.extraction_uuid)),
                },
            }),
    {
        match &self.doc {
            None => None,
            Some(d) => match find_on_page(&d.extracted_pages, page) {
                None => None,
                Some(p) => Some(SelectedRow::Extraction(page, p.extraction_uuid)),
            },
        }
    }

    fn first_toc_child_of(&self, id: TocEntryId) -> (r: Option<TocEntryId>)
        ensures
            r == (match self@.doc {
                None => None,
                Some(d) => crate::inspector_model::first_child(d.toc, id),
            }),
    {
        match &self.doc {
            None => None,
            Some(d) => find_child(&d.toc, id),
        }
    }

    fn toc_parent_of(&self, id: TocEntryId) -> (r: Option<TocEntryId>)
        ensures
            r == (match self@.doc {
                None => None,
                Some(d) => match crate::inspector_model::entry_of(d.toc, id) {
                    None => None,
                    Some(e) => e.parent,
                },
            }),
    {
        match &self.doc {
            None => None,
            Some(d) => match find_entry(&d.toc, id) {
                None => None,
                Some(e) => e.parent,
            },
        }
    }

    fn extraction_block_count(&self, page: u32, run: ExtractionId) -> (r: usize)
        ensures
            r == (match self@.doc {
                None => 0,
                Some(d) => run_blocks(d, page, run).len(),
            }),
    {
        match &self.doc {
            None => 0,
            Some(d) => block_count(d, page, run),
        }
    }

    /// Bring the PDF to the selected row again.
    pub fn on_select_activate(&self) -> (r: Effects)
        ensures
            led_to(self@, r, activated(self@)),
    {
        Effects { events: self.drive_pdf_for_selection(), notify: false, start_spinner: false }
    }

    /// Drop the selection here and in the PDF.
    pub fn on_clear_selection_action(&mut self) -> (r: Effects)
        ensures
            led_to(final(self)@, r, escaped(old(self)@)),
    {
        let notify = self.selected.is_some();
        self.selected = None;
        Effects { events: one(InspectorEvent::SelectionCleared), notify, start_spinner: false }
    }

    /// The region in the PDF is gone: a block is no longer selected, any other
    /// row still is.
    pub fn clear_block_selection(&mut self) -> (r: Effects)
        ensures
            led_to(final(self)@, r, region_dropped(old(self)@)),
    {
        match self.selected {
            Some(SelectedRow::Block(_, _, _)) => {
                self.selected = None;
                notified()
            },
            _ => nothing(),
        }
    }

    /// The blocks that a region of page `page` can match.
    pub fn reveal_candidates(&self, page: u32) -> (r: Vec<Candidate>)
        ensures
            views(r@) == pane_candidates(self@, page),
    {
        match &self.doc {
            Some(d) => candidates_on(&d.extracted_pages, page),
            None => {
                let none: Vec<Candidate> = Vec::new();
                assert(views(none@) =~= pane_candidates(self@, page));
                none
            },
        }
    }

    /// Show the block that a region of page `page` matches best. `scores` holds
    /// how well each of [`InspectorPane::reveal_candidates`] matches: the bits of
    /// a single-precision number from zero up.
    pub fn reveal_block(&mut self, page: u32, scores: &Vec<u32>) -> (r: Effects)
        requires
            scores@.len() == pane_candidates(old(self)@, page).len(),
        ensures
            led_to(
                final(self)@,
                r,
                revealed(old(self)@, page, matched(pane_candidates(old(self)@, page), scores@)),
            ),
    {
        let found = self.reveal_candidates(page);
        let ghost shown = pane_candidates(self@, page);
        match best_of(scores) {
            None => nothing(),
            Some(i) => if scores[i] > REVEAL_THRESHOLD {
                assert(shown[i as int] == found@[i as int]@);
                let run = found[i].run;
                let row = SelectedRow::Block(page, run, found[i].idx);
                if let Some(now) = self.selected {
                    if now == row {
                        return nothing();
                    }
                }
                self.expanded_pages.insert(page);
                self.expanded_runs.insert(page, run);
                self.selected = Some(row);
                self.scroll_to = Some(row);
                notified()
            } else {
                nothing()
            },
        }
    }

    /// The region of the PDF that is selected, if one is.
    pub fn set_pdf_selection(&mut self, region: Option<(u32, BBox)>) -> (r: Effects)
        ensures
            led_to(final(self)@, r, region_chosen(old(self)@, region_view(region))),
    {
        let unchanged = match (&self.region, &region) {
            (None, None) => true,
            (Some(a), Some(b)) => a.0 == b.0 && a.1.same(&b.1),
            _ => false,
        };
        if unchanged {
            nothing()
        } else {
            self.region = region;
            notified()
        }
    }
}

/// The position of a row among the selectable ones.
fn position(list: &Vec<SelectedRow>, row: SelectedRow) -> (r: Option<usize>)
    ensures
        match r {
            Some(i) => position_of(list@, row, 0) == Some(i as nat) && i < list@.len(),
            None => position_of(list@, row, 0) is None,
        },
{
    for i in 0..list.len()
        invariant
            position_of(list@, row, 0) == position_of(list@, row, i as nat),
    {
        if list[i] == row {
            return Some(i);
        }
    }
    None
}

/// `i` moved by `delta`, kept between 0 and `last`.
fn moved(i: usize, delta: isize, last: usize) -> (r: usize)
    requires
        i <= last,
    ensures
        r == moved_within(i as int, delta as int, last as int),
        r <= last,
{
    if delta >= 0 {
        let step: usize = delta as usize;
        if step > last - i {
            last
        } else {
            i + step
        }
    } else {
        let step: usize = (-(delta + 1)) as usize;
        if step >= i {
            0
        } else {
            i - step - 1
        }
    }
}

/// The first position of the greatest score that is not zero.
fn best_of(scores: &Vec<u32>) -> (r: Option<usize>)
    ensures
        match r {
            Some(i) => best_score(scores@) == Some(i as int) && i < scores@.len(),
            None => best_score(scores@) is None,
        },
{
    let mut best: Option<usize> = None;
    for i in 0..scores.len()
        invariant
            match best {
                Some(k) => best_score(scores@.take(i as int)) == Some(k as int) && k < i,
                None => best_score(scores@.take(i as int)) is None,
            },
    {
        let ghost upto = scores@.take(i + 1);
        assert(upto.drop_last() =~= scores@.take(i as int));
        assert(upto.last() == scores@[i as int]);
        let so_far: u32 = match best {
            Some(k) => scores[k],
            None => 0,
        };
        if scores[i] > so_far {
            best = Some(i);
        }
    }
    assert(scores@.take(scores@.len() as int) =~= scores@);
    best
}

// ---------------------------------------------------------------------------
// Requests
// ---------------------------------------------------------------------------

/// The label of a prompt.
pub fn prompt_preset_label(i: usize) -> (r: &'static str)
    requires
        i < PRESETS,
    ensures
        r@ == preset_label(i as int),
{
    if i == 0 {
        "Describe what you see"
    } else if i == 1 {
        "Transcribe all text"
    } else if i == 2 {
        "Extract as Markdown table"
    } else {
        "Extract key parameters as JSON"
    }
}

/// The text of a prompt.
pub fn prompt_preset_text(i: usize) -> (r: &'static str)
    requires
        i < PRESETS,
    ensures
        r@ == preset_prompt(i as int),
{
    if i == 0 {
        PROMPT_DESCRIBE
    } else if i == 1 {
        PROMPT_TRANSCRIBE
    } else if i == 2 {
        PROMPT_TABLE
    } else {
        PROMPT_PARAMETERS
    }
}

impl InspectorPane {
    /// The spinner runs.
    fn ensure_spinner_running(&mut self) -> (r: Effects)
        ensures
            led_to(final(self)@, r, with_spinner(old(self)@)),
    {
        let start = !self.spinner_running;
        if start {
            self.spinner_frame = 0;
            self.spinner_running = true;
        }
        let mut effects = notified();
        effects.start_spinner = start;
        effects
    }

    /// The spinner stops where nothing is on its way.
    fn maybe_stop_spinner(&mut self)
        ensures
            final(self)@ == calmed(old(self)@),
    {
        if !self.any_spinning() {
            self.spinner_running = false;
        }
    }

    /// The spinner moves on by one frame. Says whether it goes on.
    pub fn tick(&mut self) -> (r: (bool, Effects))
        ensures
            led_to(final(self)@, r.1, ticked(old(self)@)),
            r.0 == any_spinning(old(self)@),
    {
        if self.any_spinning() {
            let ghost frame = self.spinner_frame as int;
            let next: usize = (self.spinner_frame % SPINNER_FRAMES + 1) % SPINNER_FRAMES;
            assert((frame % 10 + 1) % 10 == (frame + 1) % 10) by (nonlinear_arith)
                requires
                    frame >= 0,
            ;
            self.spinner_frame = next;
            (true, notified())
        } else {
            (false, nothing())
        }
    }

    /// A prompt is on its way.
    pub fn set_prompt_pending(&mut self) -> (r: Effects)
        ensures
            led_to(final(self)@, r, prompt_sent(old(self)@)),
    {
        self.prompt = RequestState::Pending;
        self.ensure_spinner_running()
    }

    /// A prompt was answered.
    pub fn set_prompt_response(&mut self, response: AdHocResponse) -> (r: Effects)
        ensures
            led_to(final(self)@, r, prompt_answered(old(self)@, RequestView::Done(response@))),
    {
        self.prompt = RequestState::Done(response);
        self.maybe_stop_spinner();
        notified()
    }

    /// A prompt failed.
    pub fn set_prompt_error(&mut self, message: String) -> (r: Effects)
        ensures
            led_to(final(self)@, r, prompt_answered(old(self)@, RequestView::Failed(message@))),
    {
        self.prompt = RequestState::Failed(message);
        self.maybe_stop_spinner();
        notified()
    }

    /// The component model is on its way.
    pub fn set_component_pending(&mut self) -> (r: Effects)
        ensures
            led_to(final(self)@, r, component_sent(old(self)@)),
    {
        self.component = RequestState::Pending;
        self.ensure_spinner_running()
    }

    /// The component model has come.
    pub fn set_component_response(&mut self, response: AdHocResponse) -> (r: Effects)
        ensures
            led_to(final(self)@, r, component_answered(old(self)@, RequestView::Done(response@))),
    {
        self.component = RequestState::Done(response);
        self.maybe_stop_spinner();
        notified()
    }

    /// The component model did not come.
    pub fn set_component_error(&mut self, message: String) -> (r: Effects)
        ensures
            led_to(final(self)@, r, component_answered(old(self)@, RequestView::Failed(message@))),
    {
        self.component = RequestState::Failed(message);
        self.maybe_stop_spinner();
        notified()
    }

    /// A layout of page `page` is on its way.
    pub fn mark_pass2_in_flight(&mut self, page: u32) -> (r: Effects)
        ensures
            led_to(final(self)@, r, pass2_sent(old(self)@, page)),
    {
        if self.in_flight.contains(&page) {
            nothing()
        } else {
            self.in_flight.insert(page);
            self.ensure_spinner_running()
        }
    }

    /// The layout of page `page` did not come.
    pub fn clear_pass2_in_flight(&mut self, page: u32) -> (r: Effects)
        ensures
            led_to(final(self)@, r, pass2_failed(old(self)@, page)),
    {
        if self.in_flight.contains(&page) {
            self.in_flight.remove(&page);
            self.maybe_stop_spinner();
            notified()
        } else {
            nothing()
        }
    }

    /// File a run and its pages, where there is a document.
    fn file(&mut self, extraction: Extraction, pages: Vec<PageExtraction>)
        ensures
            final(self)@ == (PaneView {
                doc: match old(self)@.doc {
                    Some(d) => Some(with_run(d, extraction@, views(pages@))),
                    None => None,
                },
                kinds: match old(self)@.doc {
                    Some(_) => with_kinds_of(old(self)@.kinds, views(pages@)),
                    None => old(self)@.kinds,
                },
                ..old(self)@
            }),
    {
        let mut doc: Option<Doc> = None;
        std::mem::swap(&mut doc, &mut self.doc);
        if let Some(d) = doc {
            let mut d = d;
            let ghost before = d@;
            add_kinds(&mut self.kinds, &pages);
            d.extractions.push(extraction);
            assert(views(d.extractions@) =~= before.extractions.push(extraction@));
            let ghost more = views(pages@);
            let mut pages = pages;
            d.extracted_pages.append(&mut pages);
            assert(views(d.extracted_pages@) =~= before.extracted_pages + more);
            assert(d@ == with_run(before, extraction@, more));
            self.doc = Some(d);
        }
    }

    /// The layout of page `page` has come: the run and its pages are filed, and
    /// opened.
    pub fn insert_pass2_result(
        &mut self,
        page: u32,
        extraction: Extraction,
        pages: Vec<PageExtraction>,
    ) -> (r: Effects)
        ensures
            led_to(
                final(self)@,
                r,
                pass2_came(old(self)@, page, extraction@, views(pages@)),
            ),
    {
        let run = extraction.uuid;
        self.in_flight.remove(&page);
        self.file(extraction, pages);
        self.expanded_pages.insert(page);
        self.expanded_runs.insert(page, run);
        self.maybe_stop_spinner();
        Effects { events: one(InspectorEvent::OverlayChanged), notify: true, start_spinner: false }
    }

    /// The user asks for a layout of page `page`.
    pub fn request_pass2_for_page(&mut self, page: u32) -> (r: Effects)
        ensures
            led_to(final(self)@, r, pass2_asked(old(self)@, page)),
    {
        if self.in_flight.contains(&page) {
            return nothing();
        }
        let mut effects = self.mark_pass2_in_flight(page);
        effects.events = one(InspectorEvent::ExtractPagePass2 { page });
        effects
    }

    /// The user asks for the component model.
    pub fn request_component_extraction(&mut self) -> (r: Effects)
        ensures
            led_to(final(self)@, r, component_asked(old(self)@)),
    {
        if let RequestState::Pending = &self.component {
            return nothing();
        }
        let mut effects = self.set_component_pending();
        effects.events = one(InspectorEvent::ExtractComponentModel);
        effects
    }

    pub fn select_prompt_model(&mut self, model: AdHocModel) -> (r: Effects)
        ensures
            led_to(final(self)@, r, model_chosen(old(self)@, model)),
    {
        if self.model == model {
            nothing()
        } else {
            self.model = model;
            notified()
        }
    }

    pub fn select_prompt_preset(&mut self, i: usize) -> (r: Effects)
        ensures
            led_to(final(self)@, r, preset_chosen(old(self)@, i)),
    {
        if i < PRESETS && self.preset != i {
            self.preset = i;
            notified()
        } else {
            nothing()
        }
    }

    /// The user sends the chosen prompt about the chosen region.
    pub fn submit_prompt(&mut self) -> (r: Effects)
        ensures
            led_to(final(self)@, r, prompt_submitted(old(self)@)),
    {
        let event = match &self.region {
            None => return nothing(),
            Some(region) => {
                if let RequestState::Pending = &self.prompt {
                    return nothing();
                }
                if self.preset >= PRESETS {
                    return nothing();
                }
                InspectorEvent::PromptSubmit {
                    page: region.0,
                    bbox: region.1.copy(),
                    model: self.model,
                    prompt: String::from_str(prompt_preset_text(self.preset)),
                }
            },
        };
        let mut effects = self.set_prompt_pending();
        effects.events = one(event);
        effects
    }
}

} // verus!
