//! What the workspace promises: what the component model is made from, how runs are filed,
//! and how the panes follow each other.

use crate::ad_hoc::AdHocResponse;
use crate::extractor::{ExtractionResult, ExtractionResultView};
use crate::ids::ExtractionId;
use crate::inspector_model::{
    EventView, PRESETS, PROMPT_DESCRIBE, PROMPT_PARAMETERS, PROMPT_TABLE, PROMPT_TRANSCRIBE, PaneView,
    RequestView, SelectedRow, component_answered, component_asked, matched, pane_candidates,
    pass2_asked, pass2_came, pass2_failed, preset_chosen, preset_label, preset_prompt,
    prompt_answered, prompt_submitted, ticked,
};
use crate::ir::{BBoxView, DocView, ExtractionView, PageExtractionView, is_region, views};
use crate::text::{decimal, ends_with, last_of, starts_with};
use crate::text_laws::last_place_is_last;
use crate::toc::{is_latest, pass1_pages, pass1_pages_are_latest};
use crate::toc_laws::{counts, pages_are_those_that_count};
use crate::workspace::{
    COMPONENT_PROMPT_PREAMBLE, DispatchView, Reply, asked, component_prompt, component_section,
    component_text, heard, pass2_reply, prompt_reply, stem, with_result,
};
use vstd::prelude::*;

verus! {

// ---------------------------------------------------------------------------
// The component model
// ---------------------------------------------------------------------------

/// The line that names a page by its printed number, and its Markdown behind it.
pub open spec fn component_piece(p: PageExtractionView) -> Seq<char> {
    "=== page "@ + decimal((p.page + 1) as nat) + " ===\n\n"@ + p.content->Markdown_0
}

/// Does the piece of page `i` stand at `at[i]` of the text, each behind the one before it?
pub open spec fn pieces_stand_at(text: Seq<char>, pages: Seq<PageExtractionView>, at: Seq<int>) -> bool {
    &&& at.len() == pages.len()
    &&& forall|i: int|
        0 <= i < pages.len() ==> {
            &&& 0 <= #[trigger] at[i]
            &&& at[i] + component_piece(pages[i]).len() <= text.len()
            &&& text.subrange(at[i], at[i] + component_piece(pages[i]).len()) == component_piece(
                pages[i],
            )
        }
    &&& forall|i: int, j: int|
        0 <= i < j < pages.len() ==> #[trigger] at[i] + component_piece(pages[i]).len()
            <= #[trigger] at[j]
}

proof fn section_begins_with_its_piece(p: PageExtractionView)
    requires
        p.content is Markdown,
    ensures
        component_piece(p).len() <= component_section(p).len(),
        component_section(p).subrange(0, component_piece(p).len() as int) == component_piece(p),
{
    let s = p.content->Markdown_0;
    let piece = component_piece(p);
    if ends_with(s, "\n"@) {
        assert(component_section(p) =~= piece + "\n"@);
    } else {
        assert(component_section(p) =~= piece + "\n"@ + "\n"@);
    }
    assert(component_section(p).subrange(0, piece.len() as int) =~= piece);
}

proof fn text_holds_every_page(pages: Seq<PageExtractionView>, n: nat) -> (at: Seq<int>)
    requires
        n <= pages.len(),
        forall|i: int| 0 <= i < pages.len() ==> (#[trigger] pages[i]).content is Markdown,
    ensures
        pieces_stand_at(component_text(pages, n), pages.take(n as int), at),
        starts_with(component_text(pages, n), COMPONENT_PROMPT_PREAMBLE@),
    decreases n,
{
    let now = pages.take(n as int);
    let text = component_text(pages, n);
    let head = COMPONENT_PROMPT_PREAMBLE@;
    if n == 0 {
        assert(text.subrange(0, head.len() as int) =~= head);
        Seq::empty()
    } else {
        let before = (n - 1) as nat;
        let at = text_holds_every_page(pages, before);
        let done = component_text(pages, before);
        let p = pages[n - 1];
        section_begins_with_its_piece(p);
        assert(text == done + component_section(p));
        assert(text.subrange(0, head.len() as int) =~= done.subrange(0, head.len() as int));
        let all = at.push(done.len() as int);
        let earlier = pages.take(before as int);
        assert forall|i: int| 0 <= i < now.len() implies {
            &&& 0 <= #[trigger] all[i]
            &&& all[i] + component_piece(now[i]).len() <= text.len()
            &&& text.subrange(all[i], all[i] + component_piece(now[i]).len()) == component_piece(
                now[i],
            )
        } by {
            if i < before {
                assert(now[i] == earlier[i]);
                assert(all[i] == at[i]);
                let end = at[i] + component_piece(now[i]).len();
                assert(text.subrange(at[i], end) =~= done.subrange(at[i], end));
            } else {
                assert(now[i] == p);
                assert(text.subrange(all[i], all[i] + component_piece(p).len())
                    =~= component_section(p).subrange(0, component_piece(p).len() as int));
            }
        }
        assert forall|i: int, j: int| 0 <= i < j < now.len() implies #[trigger] all[i]
            + component_piece(now[i]).len() <= #[trigger] all[j] by {
            assert(now[i] == earlier[i]);
            assert(all[i] == at[i]);
            if j < before {
                assert(now[j] == earlier[j]);
                assert(all[j] == at[j]);
            }
        }
        all
    }
}

/// The pages that the component model is made from: the first ten of those with Markdown.
pub open spec fn component_pages(d: DocView) -> Seq<PageExtractionView> {
    let pages = pass1_pages(d.extracted_pages, 0, u32::MAX);
    if pages.len() <= 10 {
        pages
    } else {
        pages.take(10)
    }
}

/// There is a prompt where any record is Markdown. It begins with what the model is told, and
/// holds for each of the first ten pages the line with its number and its whole Markdown
/// behind it, in the order of the pages.
pub proof fn the_component_prompt_holds_the_first_pages(d: DocView)
    ensures
        component_prompt(d) is Some <==> exists|i: int|
            0 <= i < d.extracted_pages.len() && (#[trigger] d.extracted_pages[i]).content is Markdown,
        component_prompt(d) matches Some(text) ==> {
            &&& starts_with(text, COMPONENT_PROMPT_PREAMBLE@)
            &&& exists|at: Seq<int>| #[trigger] pieces_stand_at(text, component_pages(d), at)
        },
{
    let records = d.extracted_pages;
    let pages = pass1_pages(records, 0, u32::MAX);
    pass1_pages_are_latest(records, 0, u32::MAX);
    assert forall|k: int| 0 <= k < pages.len() implies (#[trigger] pages[k]).content is Markdown by {
        assert(pages.contains(pages[k]));
        assert(is_latest(records, 0, u32::MAX, pages[k]));
    }
    if pages.len() > 0 {
        let n: nat = if pages.len() <= 10 {
            pages.len()
        } else {
            10
        };
        let at = text_holds_every_page(pages, n);
        assert(pages.take(n as int) =~= component_pages(d));
        assert(component_prompt(d) == Some(component_text(pages, n)));
        let text = component_text(pages, n);
        assert(pieces_stand_at(text, component_pages(d), at));
        assert(starts_with(text, COMPONENT_PROMPT_PREAMBLE@));
        assert(exists|at: Seq<int>| #[trigger] pieces_stand_at(text, component_pages(d), at));
        let p = pages[0];
        assert(pages.contains(p));
        pages_are_those_that_count(records, 0, u32::MAX, p);
        let i = choose|i: int| #[trigger] counts(records, 0, u32::MAX, i) && records[i] == p;
        assert(records[i].content is Markdown);
    }
    if exists|i: int| 0 <= i < records.len() && (#[trigger] records[i]).content is Markdown {
        let i = choose|i: int| 0 <= i < records.len() && (#[trigger] records[i]).content is Markdown;
        assert(crate::toc::chosen(records[i], 0, u32::MAX));
        assert(pages.len() > 0);
    }
}

// ---------------------------------------------------------------------------
// Files
// ---------------------------------------------------------------------------

/// The name of a file loses what stands behind its last dot, and the dot; a name without a
/// dot, or with one at its start alone, stays as it is.
pub proof fn extensions_are_dropped(front: Seq<char>, extension: Seq<char>)
    requires
        !extension.contains('.'),
    ensures
        front.len() > 0 ==> stem(front + seq!['.'] + extension) == front,
        stem(seq!['.'] + extension) == seq!['.'] + extension,
        stem(extension) == extension,
{
    reveal_strlit(".");
    let dot = "."@;
    assert(dot =~= seq!['.']);
    let name = front + seq!['.'] + extension;
    let at = front.len() as int;
    assert(name.subrange(at, at + 1) =~= dot);
    last_place_is_last(name, dot, at);
    if let Some(i) = last_of(name, dot) {
        if i > at {
            assert(name.subrange(i, i + 1)[0] == name[i]);
            assert(extension[i - at - 1] == '.');
        }
        assert(i == at);
        assert(name.take(at) =~= front);
    }
    let hidden = seq!['.'] + extension;
    assert(hidden.subrange(0, 1) =~= dot);
    last_place_is_last(hidden, dot, 0);
    if let Some(i) = last_of(hidden, dot) {
        if i > 0 {
            assert(hidden.subrange(i, i + 1)[0] == hidden[i]);
            assert(extension[i - 1] == '.');
        }
    }
    last_place_is_last(extension, dot, 0);
    if let Some(i) = last_of(extension, dot) {
        assert(extension.subrange(i, i + 1)[0] == extension[i]);
        assert(extension[i] == '.');
    }
}

/// A run is filed behind the runs that are there, and its pages behind the pages; nothing
/// else of the document changes. The first run makes a document, without a table of contents.
pub proof fn runs_are_filed_at_the_end(d: DocView, pdf_size: nat, r: ExtractionResultView)
    ensures
        ({
            let now = with_result(Some(d), pdf_size, r);
            &&& now.extractions == d.extractions.push(r.extraction)
            &&& now.extracted_pages == d.extracted_pages + r.pages
            &&& now.toc == d.toc
            &&& now.content_hash == d.content_hash
            &&& now.schema_version == d.schema_version
        }),
        ({
            let now = with_result(None, pdf_size, r);
            &&& now.extractions == seq![r.extraction]
            &&& now.extracted_pages == r.pages
            &&& now.toc.len() == 0
            &&& now.content_hash == "inline:"@ + decimal(pdf_size)
            &&& now.schema_version == 1
        }),
{
}

// ---------------------------------------------------------------------------
// Requests
// ---------------------------------------------------------------------------

/// What the inspector asks of the outside is asked with everything that belongs to it, and
/// an event that only the PDF follows asks nothing.
pub proof fn requests_are_passed_on(e: EventView)
    ensures
        match e {
            EventView::PromptSubmit { page, bbox, model, prompt } => asked(e) == (
            DispatchView::Prompt { page, bbox, model, prompt }),
            EventView::ExtractPagePass2 { page } => asked(e) == (DispatchView::Pass2 { page }),
            EventView::ExtractComponentModel => asked(e) == DispatchView::Component,
            EventView::GotoPage(_) => asked(e) is Nothing,
            EventView::SelectBlock { .. } => asked(e) is Nothing,
            EventView::OverlayChanged => asked(e) is Nothing,
            EventView::SelectionCleared => asked(e) is Nothing,
        },
{
}

/// An answer is kept as it came, and so is the reason of a failure.
pub proof fn replies_are_kept(p: PaneView, reply: Reply<AdHocResponse>)
    ensures
        match reply {
            Reply::Came(a) => prompt_reply(reply) == RequestView::Done(a@),
            Reply::Failed(why) => prompt_reply(reply) == RequestView::Failed(why@),
            Reply::GivenUp => prompt_reply(reply) == RequestView::Failed(
                "dispatch task cancelled"@,
            ),
        },
        prompt_answered(p, prompt_reply(reply)).pane.prompt == prompt_reply(reply),
        prompt_answered(p, prompt_reply(reply)).pane.component == p.component,
        prompt_answered(p, prompt_reply(reply)).pane.doc == p.doc,
        prompt_answered(p, prompt_reply(reply)).notify,
        component_answered(p, prompt_reply(reply)).pane.component == prompt_reply(reply),
        component_answered(p, prompt_reply(reply)).pane.prompt == p.prompt,
        component_answered(p, prompt_reply(reply)).pane.doc == p.doc,
        component_answered(p, prompt_reply(reply)).notify,
{
}

/// A prompt is sent about the region that is selected, to the model that is chosen, with the
/// text that is chosen, unless one is on its way.
pub proof fn prompts_are_sent_as_chosen(p: PaneView)
    requires
        p.region is Some,
        !(p.prompt is Pending),
        p.preset < PRESETS,
    ensures
        ({
            let o = prompt_submitted(p);
            &&& o.events.len() == 1
            &&& o.events[0] matches EventView::PromptSubmit { page, bbox, model, prompt } && {
                &&& page == p.region->Some_0.0
                &&& bbox == p.region->Some_0.1
                &&& model == p.model
                &&& p.preset == 0 ==> prompt == PROMPT_DESCRIBE@
                &&& p.preset == 1 ==> prompt == PROMPT_TRANSCRIBE@
                &&& p.preset == 2 ==> prompt == PROMPT_TABLE@
                &&& p.preset == 3 ==> prompt == PROMPT_PARAMETERS@
            }
            &&& o.pane.prompt is Pending
            &&& o.pane.spinner_running
            &&& o.notify
            &&& o.start_spinner == !p.spinner_running
        }),
{
}

/// Nothing is sent without a region, or while a prompt is on its way.
pub proof fn prompts_wait(p: PaneView)
    ensures
        p.region is None || p.prompt is Pending ==> {
            let o = prompt_submitted(p);
            o.pane == p && o.events.len() == 0 && !o.notify && !o.start_spinner
        },
        PRESETS == 4,
{
}

/// Any of the prompts can be chosen; nothing else changes.
pub proof fn prompts_can_be_chosen(p: PaneView, i: usize)
    ensures
        i < 4 ==> preset_chosen(p, i).pane == (PaneView { preset: i, ..p }),
        i >= 4 ==> preset_chosen(p, i).pane == p,
        preset_chosen(p, i).notify == (i < 4 && i != p.preset),
        preset_chosen(p, i).events.len() == 0,
{
}

/// A layout or a component model that is asked for is asked for once, and is on its way
/// until it comes or fails.
pub proof fn requests_are_on_their_way(p: PaneView, page: u32)
    ensures
        !p.in_flight.contains(page) ==> {
            let o = pass2_asked(p, page);
            &&& o.events == seq![EventView::ExtractPagePass2 { page }]
            &&& o.pane.in_flight == p.in_flight.insert(page)
            &&& o.pane.spinner_running
        },
        p.in_flight.contains(page) ==> {
            let o = pass2_failed(p, page);
            &&& o.pane.in_flight == p.in_flight.remove(page)
            &&& o.pane.doc == p.doc
            &&& o.events.len() == 0
            &&& o.notify
        },
        !(p.component is Pending) ==> {
            let o = component_asked(p);
            &&& o.events == seq![EventView::ExtractComponentModel]
            &&& o.pane.component is Pending
            &&& o.pane.spinner_running
        },
{
}

/// A layout that comes is filed with its run, and everything that was there stays.
pub proof fn layouts_are_filed(
    p: PaneView,
    page: u32,
    run: ExtractionView,
    pages: Seq<PageExtractionView>,
)
    ensures
        ({
            let o = pass2_came(p, page, run, pages);
            &&& p.doc matches Some(d) ==> o.pane.doc matches Some(now) && {
                &&& now.extractions == d.extractions.push(run)
                &&& now.extracted_pages == d.extracted_pages + pages
                &&& now.toc == d.toc
                &&& now.content_hash == d.content_hash
                &&& now.schema_version == d.schema_version
            }
            &&& p.doc is None ==> o.pane.doc is None
            &&& !o.pane.in_flight.contains(page)
            &&& forall|other: u32|
                other != page ==> (#[trigger] o.pane.in_flight.contains(other)
                    <==> p.in_flight.contains(other))
            &&& o.pane.expanded_pages == p.expanded_pages.insert(page)
            &&& o.pane.expanded_runs == p.expanded_runs.insert((page, run.uuid))
            &&& o.pane.selected == p.selected
            &&& o.pane.region == p.region
            &&& o.events == seq![EventView::OverlayChanged]
            &&& o.notify
        }),
{
}

/// The spinner turns through its ten frames while anything is on its way.
pub proof fn the_spinner_turns(p: PaneView)
    requires
        p.spinner_frame < 10,
    ensures
        p.prompt is Pending || p.component is Pending || !p.in_flight.is_empty() ==> {
            let q = ticked(p).pane;
            &&& p.spinner_frame < 9 ==> q.spinner_frame == p.spinner_frame + 1
            &&& p.spinner_frame == 9 ==> q.spinner_frame == 0
            &&& ticked(p).notify
        },
        !(p.prompt is Pending) && !(p.component is Pending) && p.in_flight.is_empty() ==> {
            ticked(p).pane == p && !ticked(p).notify
        },
{
}

/// The spinner stops with the last request, and no earlier.
pub proof fn the_spinner_stops_with_the_last_request(p: PaneView, answer: RequestView)
    requires
        !(answer is Pending),
        p.spinner_running,
    ensures
        prompt_answered(p, answer).pane.spinner_running <==> p.component is Pending
            || !p.in_flight.is_empty(),
        component_answered(p, answer).pane.spinner_running <==> p.prompt is Pending
            || !p.in_flight.is_empty(),
{
}

/// A region of the PDF selects the block that it matches, if there is one, and is what a
/// prompt would be about; without a region a selected block is so no longer.
pub proof fn selections_are_heard(
    p: PaneView,
    page: u32,
    bbox: BBoxView,
    scores: Seq<u32>,
    run: ExtractionId,
    idx: usize,
)
    ensures
        ({
            let o = heard(p, Some((page, bbox)), scores);
            &&& is_region(o.pane.region, page, bbox)
            &&& matched(pane_candidates(p, page), scores) == Some((run, idx)) ==> o.pane.selected
                == Some(SelectedRow::Block(page, run, idx))
            &&& matched(pane_candidates(p, page), scores) is None ==> o.pane.selected == p.selected
            &&& o.pane.doc == p.doc
            &&& o.events.len() == 0
        }),
        ({
            let o = heard(p, None, scores);
            &&& o.pane.region is None
            &&& match p.selected {
                Some(SelectedRow::Block(_, _, _)) => o.pane.selected is None,
                _ => o.pane.selected == p.selected,
            }
            &&& o.pane.doc == p.doc
            &&& o.events.len() == 0
        }),
{
}

/// A layout that comes is filed under its page; one that fails, or is given up, is only no
/// longer on its way.
pub proof fn layout_replies_are_followed(p: PaneView, page: u32, reply: Reply<ExtractionResult>)
    requires
        p.in_flight.contains(page),
    ensures
        !pass2_reply(p, page, reply).pane.in_flight.contains(page),
        reply matches Reply::Came(x) ==> (p.doc matches Some(d) ==> {
            pass2_reply(p, page, reply).pane.doc matches Some(now) && now.extractions
                == d.extractions.push(x.extraction@) && now.extracted_pages == d.extracted_pages
                + views(x.pages@)
        }),
        !(reply is Came) ==> pass2_reply(p, page, reply).pane.doc == p.doc && pass2_reply(
            p,
            page,
            reply,
        ).events.len() == 0,
{
}

/// Each prompt that can be chosen goes by the label that tells what it asks for.
pub proof fn labels_tell_prompts_apart(i: int)
    requires
        0 <= i < 4,
    ensures
        preset_label(i) == "Describe what you see"@ <==> preset_prompt(i) == PROMPT_DESCRIBE@,
        preset_label(i) == "Transcribe all text"@ <==> preset_prompt(i) == PROMPT_TRANSCRIBE@,
        preset_label(i) == "Extract as Markdown table"@ <==> preset_prompt(i) == PROMPT_TABLE@,
        preset_label(i) == "Extract key parameters as JSON"@ <==> preset_prompt(i)
            == PROMPT_PARAMETERS@,
        preset_label(0) == "Describe what you see"@,
        preset_label(1) == "Transcribe all text"@,
        preset_label(2) == "Extract as Markdown table"@,
        preset_label(3) == "Extract key parameters as JSON"@,
{
    reveal_strlit("Describe what you see");
    reveal_strlit("Transcribe all text");
    reveal_strlit("Extract as Markdown table");
    reveal_strlit("Extract key parameters as JSON");
    assert("Describe what you see"@.len() == 21);
    assert("Transcribe all text"@.len() == 19);
    assert("Extract as Markdown table"@.len() == 25);
    assert("Extract key parameters as JSON"@.len() == 30);
    prompts_differ();
}

proof fn prompts_differ()
    ensures
        PROMPT_DESCRIBE@ != PROMPT_TRANSCRIBE@,
        PROMPT_DESCRIBE@ != PROMPT_TABLE@,
        PROMPT_DESCRIBE@ != PROMPT_PARAMETERS@,
        PROMPT_TRANSCRIBE@ != PROMPT_TABLE@,
        PROMPT_TRANSCRIBE@ != PROMPT_PARAMETERS@,
        PROMPT_TABLE@ != PROMPT_PARAMETERS@,
{
    reveal_strlit("Describe what you see in this image. Be concise.");
    reveal_strlit(
        "Transcribe all text in this image exactly. Preserve line breaks where meaningful.",
    );
    reveal_strlit(
        "Extract this content as a Markdown table. \
If the content is not naturally tabular, render it as best you can. \
Return only the table — no preamble, no explanation.",
    );
    reveal_strlit(
        "Extract the key parameters in this image as a JSON object \
keyed by parameter name. Use the units printed in the source. \
Return only the JSON — no preamble, no code fence.",
    );
    assert(PROMPT_DESCRIBE@[0] == 'D');
    assert(PROMPT_TRANSCRIBE@[0] == 'T');
    assert(PROMPT_TABLE@[0] == 'E' && PROMPT_TABLE@[9] == 'h');
    assert(PROMPT_PARAMETERS@[0] == 'E' && PROMPT_PARAMETERS@[9] == 'h');
    assert(PROMPT_TABLE@[10] == 'i');
    assert(PROMPT_PARAMETERS@[10] == 'e');
}

} // verus!
