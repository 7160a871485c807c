//! What ties the two panes together, and what their requests lead to.

use crate::ad_hoc::{AdHocModel, AdHocResponse};
use crate::extractor::{ExtractionResult, ExtractionResultView, ExtractorModel};
use crate::inspector::{Effects, InspectorEvent, InspectorPane, led_to};
use crate::inspector_model::{
    EventView, Outcome, PaneView, RequestView, component_answered, matched, overlay_of,
    pane_candidates, pass2_came, pass2_failed, prompt_answered, region_chosen, region_dropped,
    revealed, selecting, with_run,
};
use crate::inspector_model::SelectedRow;
use crate::ir::{
    BBox, BBoxView, Content, ContentHash, ContentView, Doc, DocView, PageExtraction,
    PageExtractionView, SCHEMA_VERSION, StructuredBlockView, is_region, views,
};
use crate::pdf::{
    PageSelection, PdfEffects, PdfOutcome, PdfPane, PdfView, brought, overlay_set, overlay_view,
    region_cleared, region_set, still, went_to,
};
use crate::text::{
    chars_of, decimal, decimal_text, ends_with, has_suffix, last_of, last_of_is_inside, rfind,
    slice, string_of,
};
use crate::toc::{collect_pass1_pages, pass1_pages, shown};
use vstd::prelude::*;

verus! {

broadcast use vstd::std_specs::hash::group_hash_axioms;

// ---------------------------------------------------------------------------
// Files
// ---------------------------------------------------------------------------

/// A file name without its last extension. A dot at the very start begins none.
pub open spec fn stem(name: Seq<char>) -> Seq<char> {
    match last_of(name, "."@) {
        Some(i) => if i > 0 {
            name.take(i)
        } else {
            name
        },
        None => name,
    }
}

/// The name of the file that a document is kept in, next to its PDF.
pub fn sidecar_name(pdf_name: &str) -> (r: String)
    ensures
        r@ == stem(pdf_name@) + ".ir.kdl"@,
{
    let name = chars_of(pdf_name);
    proof {
        last_of_is_inside(name@, "."@);
    }
    let kept = match rfind(&name, &chars_of(".")) {
        Some(i) => if i > 0 {
            let head = slice(&name, 0, i);
            assert(head@ =~= name@.take(i as int));
            head
        } else {
            name
        },
        None => name,
    };
    string_of(&kept).concat(".ir.kdl")
}

// ---------------------------------------------------------------------------
// From the inspector to the PDF
// ---------------------------------------------------------------------------

/// A request that only the outside can carry out.
#[derive(Debug, Clone)]
pub enum Dispatch {
    Nothing,
    Prompt { page: u32, bbox: BBox, model: AdHocModel, prompt: String },
    Pass2 { page: u32 },
    Component,
}

pub enum DispatchView {
    Nothing,
    Prompt { page: u32, bbox: BBoxView, model: AdHocModel, prompt: Seq<char> },
    Pass2 { page: u32 },
    Component,
}

impl View for Dispatch {
    type V = DispatchView;

    open spec fn view(&self) -> DispatchView {
        match *self {
            Dispatch::Nothing => DispatchView::Nothing,
            Dispatch::Prompt { page, bbox, model, prompt } => DispatchView::Prompt {
                page,
                bbox: bbox@,
                model,
                prompt: prompt@,
            },
            Dispatch::Pass2 { page } => DispatchView::Pass2 { page },
            Dispatch::Component => DispatchView::Component,
        }
    }
}

/// The blocks to draw on every page.
pub open spec fn overlay(p: PaneView) -> Map<u32, Seq<StructuredBlockView>> {
    Map::new(
        |page: u32|
            p.doc matches Some(d) && overlay_of(p.kinds, d.extracted_pages, page) is Some,
        |page: u32|
            match p.doc {
                Some(d) => match overlay_of(p.kinds, d.extracted_pages, page) {
                    Some(blocks) => blocks,
                    None => Seq::empty(),
                },
                None => Seq::empty(),
            },
    )
}

/// What an event of the inspector does to the PDF.
pub open spec fn followed(pdf: PdfView, inspector: PaneView, e: EventView) -> PdfOutcome {
    match e {
        EventView::GotoPage(page) => went_to(pdf, page),
        EventView::SelectBlock { page, bbox } => region_set(pdf, page, bbox),
        EventView::OverlayChanged => overlay_set(pdf, overlay(inspector)),
        EventView::SelectionCleared => region_cleared(pdf),
        EventView::PromptSubmit { .. } => still(pdf),
        EventView::ExtractPagePass2 { .. } => still(pdf),
        EventView::ExtractComponentModel => still(pdf),
    }
}

/// What an event of the inspector asks of the outside.
pub open spec fn asked(e: EventView) -> DispatchView {
    match e {
        EventView::PromptSubmit { page, bbox, model, prompt } => DispatchView::Prompt {
            page,
            bbox,
            model,
            prompt,
        },
        EventView::ExtractPagePass2 { page } => DispatchView::Pass2 { page },
        EventView::ExtractComponentModel => DispatchView::Component,
        _ => DispatchView::Nothing,
    }
}

/// Draw on the PDF what the inspector wants drawn.
pub fn sync_overlay(pdf: &mut PdfPane, inspector: &InspectorPane) -> (r: PdfEffects)
    ensures
        brought(final(pdf)@, r, overlay_set(old(pdf)@, overlay(inspector@))),
{
    let blocks = inspector.overlay_snapshot();
    assert(overlay_view(blocks@) =~= overlay(inspector@)) by {
        assert forall|page: u32| overlay_view(blocks@).contains_key(page) <==> overlay(
            inspector@,
        ).contains_key(page) by {
            assert(blocks@.contains_key(page) <==> overlay_view(blocks@).contains_key(page));
        }
        assert forall|page: u32| overlay_view(blocks@).contains_key(page) implies overlay_view(
            blocks@,
        )[page] == overlay(inspector@)[page] by {
            assert(blocks@.contains_key(page));
        }
    }
    pdf.set_overlay_blocks(blocks)
}

/// Let the PDF follow an event of the inspector. What the event asks of the
/// outside comes back.
pub fn on_inspector_event(pdf: &mut PdfPane, inspector: &InspectorPane, event: InspectorEvent) -> (r:
    (PdfEffects, Dispatch))
    ensures
        brought(final(pdf)@, r.0, followed(old(pdf)@, inspector@, event@)),
        r.1@ == asked(event@),
{
    match event {
        InspectorEvent::GotoPage(page) => (pdf.goto_page(page), Dispatch::Nothing),
        InspectorEvent::SelectBlock { page, bbox } => (
            pdf.set_selection(page, &bbox),
            Dispatch::Nothing,
        ),
        InspectorEvent::OverlayChanged => (sync_overlay(pdf, inspector), Dispatch::Nothing),
        InspectorEvent::SelectionCleared => (pdf.clear_selection(), Dispatch::Nothing),
        InspectorEvent::PromptSubmit { page, bbox, model, prompt } => (
            PdfEffects::none(),
            Dispatch::Prompt { page, bbox, model, prompt },
        ),
        InspectorEvent::ExtractPagePass2 { page } => (PdfEffects::none(), Dispatch::Pass2 { page }),
        InspectorEvent::ExtractComponentModel => (PdfEffects::none(), Dispatch::Component),
    }
}

// ---------------------------------------------------------------------------
// From the PDF to the inspector
// ---------------------------------------------------------------------------

/// One outcome after another.
pub open spec fn after(first: Outcome, second: Outcome) -> Outcome {
    Outcome {
        pane: second.pane,
        events: first.events + second.events,
        notify: first.notify || second.notify,
        start_spinner: first.start_spinner || second.start_spinner,
    }
}

/// What a change of the selection in the PDF does to the inspector: the block
/// that the region matches is shown, or a block that was selected is so no
/// longer; and the region is what a prompt would be about. `scores` say how well
/// the region matches each block of its page.
pub open spec fn heard(p: PaneView, selection: Option<(u32, BBoxView)>, scores: Seq<u32>) -> Outcome {
    let first = match selection {
        Some(s) => revealed(p, s.0, matched(pane_candidates(p, s.0), scores)),
        None => region_dropped(p),
    };
    after(first, region_chosen(first.pane, selection))
}

/// One list of effects after another.
fn joined(first: Effects, second: Effects) -> (r: Effects)
    ensures
        views(r.events@) == views(first.events@) + views(second.events@),
        r.notify == (first.notify || second.notify),
        r.start_spinner == (first.start_spinner || second.start_spinner),
{
    let ghost a = views(first.events@);
    let ghost b = views(second.events@);
    let mut events = first.events;
    let mut more = second.events;
    events.append(&mut more);
    assert(views(events@) =~= a + b);
    Effects {
        events,
        notify: first.notify || second.notify,
        start_spinner: first.start_spinner || second.start_spinner,
    }
}

/// The selection in the PDF has changed. `scores` say how well the region matches
/// each of [`InspectorPane::reveal_candidates`] of its page.
pub fn on_selection_changed(
    inspector: &mut InspectorPane,
    selection: Option<&PageSelection>,
    scores: &Vec<u32>,
) -> (r: Effects)
    requires
        selection matches Some(s) ==> scores@.len() == pane_candidates(
            old(inspector)@,
            s.page,
        ).len(),
    ensures
        led_to(
            final(inspector)@,
            r,
            heard(
                old(inspector)@,
                match selection {
                    Some(s) => Some(s@),
                    None => None,
                },
                scores@,
            ),
        ),
{
    match selection {
        Some(s) => {
            let first = inspector.reveal_block(s.page, scores);
            let second = inspector.set_pdf_selection(Some((s.page, s.bbox.copy())));
            joined(first, second)
        },
        None => {
            let first = inspector.clear_block_selection();
            let second = inspector.set_pdf_selection(None);
            joined(first, second)
        },
    }
}

/// A row that is no block survives the report that the PDF has dropped its
/// region.
pub proof fn rows_survive_the_echo(p: PaneView, row: SelectedRow)
    requires
        !(row is Block),
    ensures
        heard(selecting(p, row).pane, None, Seq::empty()).pane.selected == Some(row),
{
}

/// A selected block survives the report of its own region: where that block
/// matches best, nothing moves.
pub proof fn blocks_survive_the_echo(
    p: PaneView,
    page: u32,
    run: crate::ids::ExtractionId,
    idx: usize,
    bbox: BBoxView,
    scores: Seq<u32>,
)
    requires
        p.selected == Some(SelectedRow::Block(page, run, idx)),
        matched(pane_candidates(p, page), scores) == Some((run, idx)),
    ensures
        heard(p, Some((page, bbox)), scores).pane == (PaneView {
            region: heard(p, Some((page, bbox)), scores).pane.region,
            ..p
        }),
        is_region(heard(p, Some((page, bbox)), scores).pane.region, page, bbox),
        heard(p, Some((page, bbox)), scores).events.len() == 0,
{
}

/// A region without a match leaves the selected row alone.
pub proof fn unmatched_regions_keep_the_row(
    p: PaneView,
    page: u32,
    bbox: BBoxView,
    scores: Seq<u32>,
)
    requires
        matched(pane_candidates(p, page), scores) is None,
    ensures
        heard(p, Some((page, bbox)), scores).pane.selected == p.selected,
        is_region(heard(p, Some((page, bbox)), scores).pane.region, page, bbox),
{
}

// ---------------------------------------------------------------------------
// Answers
// ---------------------------------------------------------------------------

/// What came of a request that was carried out elsewhere: an answer, an error, or
/// nothing because it was given up.
pub enum Reply<T> {
    Came(T),
    Failed(String),
    GivenUp,
}

/// Why a request failed.
pub open spec fn given_up() -> Seq<char> {
    "dispatch task cancelled"@
}

/// How a prompt was answered.
pub open spec fn prompt_reply(r: Reply<AdHocResponse>) -> RequestView {
    match r {
        Reply::Came(a) => RequestView::Done(a@),
        Reply::Failed(m) => RequestView::Failed(m@),
        Reply::GivenUp => RequestView::Failed(given_up()),
    }
}

/// A prompt has been answered.
pub fn finish_prompt(inspector: &mut InspectorPane, reply: Reply<AdHocResponse>) -> (r: Effects)
    ensures
        led_to(final(inspector)@, r, prompt_answered(old(inspector)@, prompt_reply(reply))),
{
    match reply {
        Reply::Came(a) => inspector.set_prompt_response(a),
        Reply::Failed(m) => inspector.set_prompt_error(m),
        Reply::GivenUp => inspector.set_prompt_error(String::from_str("dispatch task cancelled")),
    }
}

/// The region of a prompt could not be cut out.
pub fn crop_failed(inspector: &mut InspectorPane, why: &str) -> (r: Effects)
    ensures
        led_to(
            final(inspector)@,
            r,
            prompt_answered(old(inspector)@, RequestView::Failed("crop selection: "@ + why@)),
        ),
{
    inspector.set_prompt_error(String::from_str("crop selection: ").concat(why))
}

/// The component model has been asked for.
pub fn finish_component(inspector: &mut InspectorPane, reply: Reply<AdHocResponse>) -> (r: Effects)
    ensures
        led_to(final(inspector)@, r, component_answered(old(inspector)@, prompt_reply(reply))),
{
    match reply {
        Reply::Came(a) => inspector.set_component_response(a),
        Reply::Failed(m) => inspector.set_component_error(m),
        Reply::GivenUp => inspector.set_component_error(String::from_str("dispatch task cancelled")),
    }
}

/// What a layout of page `page` leads to.
pub open spec fn pass2_reply(p: PaneView, page: u32, r: Reply<ExtractionResult>) -> Outcome {
    match r {
        Reply::Came(x) => pass2_came(p, page, x.extraction@, views(x.pages@)),
        Reply::Failed(_) => pass2_failed(p, page),
        Reply::GivenUp => pass2_failed(p, page),
    }
}

/// A layout of page `page` has been asked for.
pub fn finish_pass2(inspector: &mut InspectorPane, page: u32, reply: Reply<ExtractionResult>) -> (r:
    Effects)
    ensures
        led_to(final(inspector)@, r, pass2_reply(old(inspector)@, page, reply)),
{
    match reply {
        Reply::Came(x) => inspector.insert_pass2_result(page, x.extraction, x.pages),
        Reply::Failed(_) => inspector.clear_pass2_in_flight(page),
        Reply::GivenUp => inspector.clear_pass2_in_flight(page),
    }
}

/// What a run over the whole document is asked for.
#[derive(Debug, Clone)]
pub enum RunPlan {
    /// The Markdown of all pages.
    Pass1,
    /// The layout of these pages.
    Pass2(Vec<u32>),
}

/// The run that a model makes over a document of `page_count` pages.
pub fn run_plan(model: ExtractorModel, page_count: u32) -> (r: RunPlan)
    ensures
        match model {
            ExtractorModel::GlmOcr => r is Pass1,
            ExtractorModel::Inf2Flash => r matches RunPlan::Pass2(pages) && pages@ == Seq::new(
                page_count as nat,
                |i: int| i as u32,
            ),
        },
{
    match model {
        ExtractorModel::GlmOcr => RunPlan::Pass1,
        ExtractorModel::Inf2Flash => {
            let mut pages: Vec<u32> = Vec::new();
            for i in 0..page_count
                invariant
                    pages@ == Seq::new(i as nat, |k: int| k as u32),
            {
                pages.push(i);
                assert(pages@ =~= Seq::new((i + 1) as nat, |k: int| k as u32));
            }
            RunPlan::Pass2(pages)
        },
    }
}

/// A document made of one run. Its hash says no more than the size of the PDF.
pub open spec fn doc_of_run(pdf_size: nat, r: ExtractionResultView) -> DocView {
    DocView {
        schema_version: SCHEMA_VERSION,
        content_hash: "inline:"@ + decimal(pdf_size),
        extractions: seq![r.extraction],
        extracted_pages: r.pages,
        toc: Seq::empty(),
    }
}

/// A document made of one run over a PDF of `pdf_size` bytes.
pub fn build_doc_from_pass1(pdf_size: usize, result: ExtractionResult) -> (r: Doc)
    ensures
        r@ == doc_of_run(pdf_size as nat, result@),
{
    let hash = String::from_str("inline:").concat(decimal_text(pdf_size as u64).as_str());
    let ghost run = result.extraction@;
    let mut extractions = Vec::new();
    extractions.push(result.extraction);
    assert(views(extractions@) =~= seq![run]);
    let toc = Vec::new();
    let doc = Doc {
        schema_version: SCHEMA_VERSION,
        content_hash: ContentHash(hash),
        extractions,
        extracted_pages: result.pages,
        toc,
    };
    assert(doc@.toc =~= Seq::empty());
    doc
}

/// The first run makes a document, every later one is appended to it.
pub open spec fn with_result(doc: Option<DocView>, pdf_size: nat, r: ExtractionResultView) -> DocView {
    match doc {
        Some(d) => with_run(d, r.extraction, r.pages),
        None => doc_of_run(pdf_size, r),
    }
}

/// File a run over a whole document of `pdf_size` bytes.
pub fn file_result(doc: Option<Doc>, pdf_size: usize, result: ExtractionResult) -> (r: Doc)
    ensures
        r@ == with_result(crate::ir::opt_view(doc), pdf_size as nat, result@),
{
    match doc {
        None => build_doc_from_pass1(pdf_size, result),
        Some(d) => {
            let mut d = d;
            let ghost before = d@;
            let ghost more = views(result.pages@);
            let ghost run = result.extraction@;
            d.extractions.push(result.extraction);
            assert(views(d.extractions@) =~= before.extractions.push(run));
            let mut pages = result.pages;
            d.extracted_pages.append(&mut pages);
            assert(views(d.extracted_pages@) =~= before.extracted_pages + more);
            d
        },
    }
}

/// Filing a run keeps every reference of the document resolved.
pub proof fn filing_keeps_consistency(
    doc: Option<DocView>,
    pdf_size: nat,
    r: ExtractionResultView,
)
    requires
        doc matches Some(d) ==> crate::ir::consistent(d),
        crate::extractor::pages_of_run(r),
    ensures
        crate::ir::consistent(with_result(doc, pdf_size, r)),
{
    let now = with_result(doc, pdf_size, r);
    match doc {
        None => {
            assert(now.extractions[0].uuid == r.extraction.uuid);
        },
        Some(d) => {
            let n = d.extractions.len() as int;
            assert(now.extractions[n].uuid == r.extraction.uuid);
            assert forall|id: crate::ids::ExtractionId| #[trigger]
                crate::ir::has_extraction(d, id) implies crate::ir::has_extraction(now, id) by {
                let k = choose|k: int|
                    0 <= k < d.extractions.len() && (#[trigger] d.extractions[k]).uuid == id;
                assert(now.extractions[k].uuid == id);
            }
            assert forall|i: int| 0 <= i < now.extracted_pages.len() implies
                crate::ir::has_extraction(
                now,
                (#[trigger] now.extracted_pages[i]).extraction_uuid,
            ) by {
                if i < d.extracted_pages.len() {
                    assert(now.extracted_pages[i] == d.extracted_pages[i]);
                    assert(crate::ir::has_extraction(d, d.extracted_pages[i].extraction_uuid));
                } else {
                    assert(now.extracted_pages[i] == r.pages[i - d.extracted_pages.len()]);
                }
            }
            assert forall|i: int| 0 <= i < now.toc.len() implies crate::ir::entry_resolves(
                now,
                #[trigger] now.toc[i],
            ) by {
                let t = d.toc[i];
                assert(crate::ir::entry_resolves(d, t));
                if let Some(parent) = t.parent {
                    let k = choose|k: int| 0 <= k < d.toc.len() && (#[trigger] d.toc[k]).id == parent;
                    assert(now.toc[k].id == parent);
                }
                assert forall|j: int| 0 <= j < t.page_refs.len() implies crate::ir::ref_resolves(
                    now,
                    #[trigger] t.page_refs[j],
                ) by {
                    ref_still_resolves(d, now, t.page_refs[j]);
                }
            }
        },
    }
}

/// A reference that resolves still does so when runs and records are appended.
proof fn ref_still_resolves(d: DocView, now: DocView, r: crate::ir::PageRefView)
    requires
        crate::ir::ref_resolves(d, r),
        d.extractions.len() <= now.extractions.len(),
        d.extracted_pages.len() <= now.extracted_pages.len(),
        forall|k: int| 0 <= k < d.extractions.len() ==> now.extractions[k] == d.extractions[k],
        forall|k: int|
            0 <= k < d.extracted_pages.len() ==> now.extracted_pages[k] == d.extracted_pages[k],
    ensures
        crate::ir::ref_resolves(now, r),
{
    let k = choose|k: int|
        0 <= k < d.extractions.len() && (#[trigger] d.extractions[k]).uuid == r.extraction_uuid;
    assert(now.extractions[k].uuid == r.extraction_uuid);
    crate::ir::first_page_exists(d, r.page_uuid);
    let i = choose|i: int| crate::ir::first_page(d, r.page_uuid, i);
    assert(now.extracted_pages[i].page_uuid == r.page_uuid);
    assert(crate::ir::first_page(now, r.page_uuid, i)) by {
        assert forall|j: int| 0 <= j < i implies (#[trigger] now.extracted_pages[j]).page_uuid
            != r.page_uuid by {
            assert(now.extracted_pages[j] == d.extracted_pages[j]);
        }
    }
    assert forall|j: int| #[trigger]
        crate::ir::first_page(now, r.page_uuid, j) implies now.extracted_pages[j].page
        == r.page by {
        crate::ir::first_page_unique(now, r.page_uuid, i, j);
    }
}

// ---------------------------------------------------------------------------
// The component prompt
// ---------------------------------------------------------------------------

/// How many pages the prompt for the component model holds.
pub const COMPONENT_PROMPT_PAGE_CAP: usize = 10;

pub const COMPONENT_PROMPT_PREAMBLE: &'static str = "You are extracting a structured component summary from an electronic component datasheet.

Given the markdown below, return ONE JSON object with these top-level keys:

  \"part_number\": string — the primary part number (e.g. \"STM32F411CE\")
  \"family\": string or null — the product family (e.g. \"STM32F4\")
  \"category\": string — the component category (e.g. \"MCU\", \"DC-DC converter\", \"MOSFET\")
  \"summary\": string — a 1-2 sentence description
  \"electrical\": object — key electrical parameters with values + units
  \"physical\": object — package, pin count, dimensions
  \"thermal\": object — operating temperature range, junction temp
  \"key_features\": array of strings — 5-10 notable features

Use null where information is missing. Use the units printed in the source.
Return ONLY the JSON object — no preamble, no code fence.

Markdown:

";

/// The text of a page in the prompt: a line with its number, and its Markdown,
/// closed by an empty line.
pub open spec fn component_section(p: PageExtractionView) -> Seq<char> {
    let text = match p.content {
        ContentView::Markdown(m) => m,
        _ => ""@,
    };
    let closed = if ends_with(text, "\n"@) {
        text
    } else {
        text + "\n"@
    };
    "=== page "@ + decimal((p.page + 1) as nat) + " ===\n\n"@ + closed + "\n"@
}

/// The prompt over the first `n` of the pages.
pub open spec fn component_text(pages: Seq<PageExtractionView>, n: nat) -> Seq<char>
    decreases n,
{
    if n == 0 {
        COMPONENT_PROMPT_PREAMBLE@
    } else {
        component_text(pages, (n - 1) as nat) + component_section(pages[n - 1])
    }
}

/// The prompt for the component model: the Markdown of the first pages that have
/// any, of several records of one page the last.
pub open spec fn component_prompt(d: DocView) -> Option<Seq<char>> {
    let pages = pass1_pages(d.extracted_pages, 0, u32::MAX);
    if pages.len() == 0 {
        None
    } else if pages.len() <= COMPONENT_PROMPT_PAGE_CAP {
        Some(component_text(pages, pages.len()))
    } else {
        Some(component_text(pages, COMPONENT_PROMPT_PAGE_CAP as nat))
    }
}

fn push_section(out: String, p: &PageExtraction) -> (r: String)
    ensures
        r@ == out@ + component_section(p@),
{
    let empty = String::from_str("");
    let text = match &p.content {
        Content::Markdown(m) => m.markdown.as_str(),
        _ => empty.as_str(),
    };
    let head = String::from_str("=== page ").concat(decimal_text(p.page as u64 + 1).as_str()).concat(
        " ===\n\n",
    );
    let closed = if has_suffix(chars_of(text).as_slice(), chars_of("\n").as_slice()) {
        String::from_str(text)
    } else {
        String::from_str(text).concat("\n")
    };
    let section = head.concat(closed.as_str()).concat("\n");
    out.concat(section.as_str())
}

/// The prompt for the component model; nothing where no page has Markdown.
pub fn build_component_prompt(doc: &Doc) -> (r: Option<String>)
    ensures
        match r {
            Some(t) => component_prompt(doc@) == Some(t@),
            None => component_prompt(doc@) is None,
        },
{
    let pages = collect_pass1_pages(doc, 0, u32::MAX);
    let ghost all = pass1_pages(doc@.extracted_pages, 0, u32::MAX);
    assert(shown(pages@).len() == pages@.len());
    if pages.len() == 0 {
        return None;
    }
    let count: usize = if pages.len() <= COMPONENT_PROMPT_PAGE_CAP {
        pages.len()
    } else {
        COMPONENT_PROMPT_PAGE_CAP
    };
    let mut out = String::from_str(COMPONENT_PROMPT_PREAMBLE);
    for i in 0..count
        invariant
            count <= pages@.len(),
            all == shown(pages@),
            out@ == component_text(all, i as nat),
    {
        assert(all[i as int] == pages@[i as int]@);
        out = push_section(out, pages[i]);
    }
    Some(out)
}

/// What a component model leads to where there is no Markdown to make it from.
pub fn no_component_prompt(inspector: &mut InspectorPane) -> (r: Effects)
    ensures
        led_to(
            final(inspector)@,
            r,
            component_answered(
                old(inspector)@,
                RequestView::Failed(
                    "no Pass 1 markdown available — load a doc with an .ir.kdl sidecar"@,
                ),
            ),
        ),
{
    inspector.set_component_error(
        String::from_str("no Pass 1 markdown available — load a doc with an .ir.kdl sidecar"),
    )
}

} // verus!
