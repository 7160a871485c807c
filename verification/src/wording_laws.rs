//! What the texts of the inspector say, said of the document.

use crate::ad_hoc::AdHocUsage;
use crate::component::{component_json, value_rows};
use crate::ids::{ExtractionId, TocEntryId, uuid_text};
use crate::inspector_model::{PaneView, RequestView, SelectedRow, entry_of, record_of, run_of};
use crate::inspector_text::{
    ComponentBodyView, DetailMetaView, answer_text, component_body, component_button_text,
    content_body, content_text, counted, detail, entry_page_text, finish_text, hash_head, head,
    level_text, lineage, model_text, page_summary_text, page_title, pages_text, preview_text,
    spinner_text, summary_line, triangle_text, usage_text, variant_text,
};
use crate::ir::{
    ContentView, DocView, PageExtractionView, PageRefView, StructuredBlockView, TocEntryView,
};
use crate::text::{decimal, joined, starts_with};
use crate::tree_laws::blocks_in;
use vstd::prelude::*;
use vstd::utf8::encode_utf8;

verus! {

// ---------------------------------------------------------------------------
// Words
// ---------------------------------------------------------------------------

/// One thing has no ending, any other number of things has one.
pub proof fn only_one_is_singular(n: nat, word: Seq<char>)
    ensures
        n == 1 ==> counted(n, word) == decimal(1) + word,
        n != 1 ==> counted(n, word) == decimal(n) + word + "s"@,
{
    reveal_strlit("");
    assert(decimal(1) + word + ""@ =~= decimal(1) + word);
}

/// The head of a text is its beginning, of that length or less where it is shorter.
pub proof fn heads_are_beginnings(s: Seq<char>, n: nat)
    ensures
        head(s, n).len() <= n,
        head(s, n).len() == n || head(s, n) == s,
        head(s, n).len() <= s.len(),
        forall|i: int| 0 <= i < head(s, n).len() ==> head(s, n)[i] == #[trigger] s[i],
{
}

/// What is said of a document counts its pages, its runs and its records.
pub proof fn the_summary_counts(p: PaneView)
    ensures
        p.doc matches Some(d) ==> summary_line(p) == decimal(p.page_count as nat) + " pages · "@
            + counted(d.extractions.len(), " extraction"@) + " · "@ + counted(
            d.extracted_pages.len(),
            " page record"@,
        ),
        p.doc is None ==> summary_line(p) == decimal(p.page_count as nat)
            + " pages · no extraction sidecar"@,
{
}

/// The hash is shown by the first twelve of its digits, whether it names its algorithm or
/// not.
pub proof fn hashes_are_shortened(digits: Seq<char>)
    requires
        !starts_with(digits, "sha256:"@),
    ensures
        hash_head("sha256:"@ + digits) == hash_head(digits),
        digits.len() >= 12 ==> hash_head(digits) == "sha256:"@ + digits.take(12) + "…"@,
        digits.len() < 12 ==> hash_head(digits) == "sha256:"@ + digits + "…"@,
{
    let name = "sha256:"@;
    let all = name + digits;
    assert(all.subrange(0, name.len() as int) =~= name);
    assert(all.skip(name.len() as int) =~= digits);
    if digits.len() == 12 {
        assert(digits.take(12) =~= digits);
    }
}

/// What cannot be opened has a dot, and what can be a triangle that tells whether it is.
pub proof fn marks_tell_what_is_open(open: bool)
    ensures
        triangle_text(false, open) == "·"@,
        triangle_text(true, true) == "▼"@,
        triangle_text(true, false) == "▶"@,
{
}

/// Pages are counted from one, and the levels and pages of entries as they are.
pub proof fn pages_are_counted_from_one(page: u32, level: u8)
    ensures
        page_title(page) == "Page "@ + decimal((page + 1) as nat),
        level_text(level) == "L"@ + decimal(level as nat),
{
}

/// What is said of a page says of each of its records, in their order, what it holds.
pub proof fn every_record_has_a_mark(records: Seq<PageExtractionView>, r: PageExtractionView)
    ensures
        ({
            let mark = match r.content {
                ContentView::Markdown(_) => "md"@,
                ContentView::Structured(s) => decimal(s.blocks.len()) + "b"@,
                ContentView::Error(_) => "err"@,
            };
            &&& records.len() > 0 ==> page_summary_text(records.push(r)) == page_summary_text(
                records,
            ) + " · "@ + mark
            &&& page_summary_text(seq![r]) == mark
            &&& page_summary_text(Seq::empty()) == "—"@
        }),
{
    let f = |r: PageExtractionView| crate::inspector_text::content_mark(r.content);
    let marks = records.map_values(f);
    assert(records.push(r).map_values(f) =~= marks.push(f(r)));
    assert(marks.push(f(r)).drop_last() =~= marks);
    assert(seq![r].map_values(f) =~= seq![f(r)]);
}

/// The model of a run is that of the first run of its identity.
pub proof fn models_are_looked_up(d: DocView, run: ExtractionId)
    ensures
        run_of(d.extractions, run) matches Some(e) ==> model_text(d, run) == e.model,
        run_of(d.extractions, run) is None ==> model_text(d, run) == "(unknown model)"@,
{
}

/// The row of a record tells what it holds and how much of it.
pub proof fn rows_tell_how_much_there_is(c: ContentView)
    ensures
        c matches ContentView::Structured(s) ==> variant_text(c) == "structured · "@ + counted(
            s.blocks.len(),
            " block"@,
        ),
        c matches ContentView::Error(e) ==> variant_text(c) == "error · "@ + e.kind,
        c matches ContentView::Markdown(m) ==> variant_text(c) == "markdown · "@ + decimal(
            encode_utf8(m).len() as usize as nat,
        ) + " chars"@,
        c matches ContentView::Markdown(m) ==> content_text(c) == "markdown · "@ + decimal(m.len())
            + " chars"@,
        c matches ContentView::Structured(s) ==> content_text(c) == counted(
            s.blocks.len(),
            " block"@,
        ),
        c matches ContentView::Error(e) ==> content_text(c) == "error · "@ + e.kind,
{
}

/// An entry begins on the page of its first reference.
pub proof fn entries_begin_on_their_first_page(e: TocEntryView)
    ensures
        e.page_refs.len() > 0 ==> entry_page_text(e) == "p."@ + decimal(e.page_refs[0].page as nat),
        e.page_refs.len() == 0 ==> entry_page_text(e) == "—"@,
{
}

/// The text of a block is shown character by character, with spaces for line feeds.
pub proof fn previews_are_the_text(b: StructuredBlockView, t: Seq<char>, i: int)
    requires
        b.text == Some(t),
        0 <= i < t.len(),
    ensures
        preview_text(b).len() == t.len(),
        t[i] == '\n' ==> preview_text(b)[i] == ' ',
        t[i] != '\n' ==> preview_text(b)[i] == t[i],
{
}

/// The spinner has ten frames, each of its own, and goes round.
pub proof fn the_spinner_goes_round(frame: int, other: int)
    ensures
        spinner_text(frame + 10) == spinner_text(frame),
        0 <= frame < 10 && 0 <= other < 10 && frame != other ==> spinner_text(frame)
            != spinner_text(other),
{
    reveal_strlit("⠋");
    reveal_strlit("⠙");
    reveal_strlit("⠹");
    reveal_strlit("⠸");
    reveal_strlit("⠼");
    reveal_strlit("⠴");
    reveal_strlit("⠦");
    reveal_strlit("⠧");
    reveal_strlit("⠇");
    reveal_strlit("⠏");
    assert("⠋"@[0] == '⠋');
    assert("⠙"@[0] == '⠙');
    assert("⠹"@[0] == '⠹');
    assert("⠸"@[0] == '⠸');
    assert("⠼"@[0] == '⠼');
    assert("⠴"@[0] == '⠴');
    assert("⠦"@[0] == '⠦');
    assert("⠧"@[0] == '⠧');
    assert("⠇"@[0] == '⠇');
    assert("⠏"@[0] == '⠏');
}

// ---------------------------------------------------------------------------
// Details
// ---------------------------------------------------------------------------

/// The line of an entry ends in its own title, behind that of its parent.
pub proof fn lines_go_down_from_the_top(
    toc: Seq<TocEntryView>,
    e: TocEntryView,
    up: TocEntryView,
    fuel: nat,
)
    ensures
        e.parent is None && fuel > 0 ==> lineage(toc, e, fuel) == seq![e.title],
        (e.parent matches Some(p) && entry_of(toc, p) == Some(up)) && fuel > 0 ==> lineage(
            toc,
            e,
            fuel,
        ) == lineage(toc, up, (fuel - 1) as nat).push(e.title),
        (e.parent matches Some(p) && entry_of(toc, p) is None) && fuel > 0 ==> lineage(
            toc,
            e,
            fuel,
        ) == seq![e.title],
{
    assert(Seq::<Seq<char>>::empty().push(e.title) =~= seq![e.title]);
}

/// The pages of an entry are all those that it refers to, in their order.
pub proof fn every_reference_is_named(e: TocEntryView, more: PageRefView)
    ensures
        ({
            let longer = TocEntryView { page_refs: e.page_refs.push(more), ..e };
            let page = "p."@ + decimal(more.page as nat);
            &&& e.page_refs.len() > 0 ==> pages_text(longer) == pages_text(e) + ", "@ + page
            &&& e.page_refs.len() == 0 ==> pages_text(longer) == "Pages: "@ + page
            &&& e.page_refs.len() == 0 ==> pages_text(e) == "(no page refs)"@
        }),
{
    let f = |r: PageRefView| crate::inspector_text::printed_page(r.page);
    let names = e.page_refs.map_values(f);
    let longer = TocEntryView { page_refs: e.page_refs.push(more), ..e };
    assert(longer.page_refs.map_values(f) =~= names.push(f(more)));
    assert(names.push(f(more)).drop_last() =~= names);
    if e.page_refs.len() > 0 {
        assert(pages_text(longer) =~= pages_text(e) + ", "@ + f(more));
    } else {
        assert(names.push(f(more)) =~= seq![f(more)]);
    }
}

/// The details of an entry hold its title, its level, who built it and how many references it
/// has, and below that the titles above it and its pages.
pub proof fn details_of_entries(p: PaneView, d: DocView, id: TocEntryId, e: TocEntryView)
    requires
        p.doc == Some(d),
        p.selected == Some(SelectedRow::Toc(id)),
        entry_of(d.toc, id) == Some(e),
    ensures
        detail(p).title == "ToC · "@ + e.title,
        detail(p).chip == Some("L"@ + decimal(e.level as nat)),
        detail(p).meta == DetailMetaView::Text(
            "model: "@ + model_text(d, e.built_by) + "  ·  built_by: "@ + uuid_text(
                e.built_by.0,
            ).take(8) + "…  ·  "@ + counted(e.page_refs.len(), " page ref"@),
        ),
        detail(p).body == Some(
            joined(lineage(d.toc, e, d.toc.len() + 1), " › "@) + "\n\n"@ + pages_text(e),
        ),
{
    assert(uuid_text(e.built_by.0).len() == 36);
}

/// The details of a record hold the whole of its Markdown, the prompt that its layout was
/// made with, or the message of its error.
pub proof fn details_of_records(
    p: PaneView,
    d: DocView,
    page: u32,
    run: ExtractionId,
    r: PageExtractionView,
)
    requires
        p.doc == Some(d),
        p.selected == Some(SelectedRow::Extraction(page, run)),
        record_of(d.extracted_pages, page, run) == Some(r),
    ensures
        detail(p).title == "Extraction · page "@ + decimal((page + 1) as nat),
        detail(p).chip is None,
        detail(p).meta == DetailMetaView::Text(
            "model: "@ + model_text(d, r.extraction_uuid) + "  ·  "@ + content_text(r.content),
        ),
        r.content matches ContentView::Markdown(m) ==> detail(p).body == Some(m),
        r.content matches ContentView::Error(e) ==> detail(p).body == Some(e.message),
        r.content is Structured ==> match run_of(d.extractions, r.extraction_uuid) {
            Some(e) => detail(p).body == Some(e.prompt),
            None => detail(p).body is None,
        },
        content_body(d, r) == detail(p).body,
{
}

/// The details of a block hold its kind, its box and the whole of its text.
pub proof fn details_of_blocks(
    p: PaneView,
    d: DocView,
    page: u32,
    run: ExtractionId,
    idx: usize,
    r: PageExtractionView,
)
    requires
        p.doc == Some(d),
        p.selected == Some(SelectedRow::Block(page, run, idx)),
        record_of(d.extracted_pages, page, run) == Some(r),
        idx < blocks_in(r),
    ensures
        ({
            let b = r.content->Structured_0.blocks[idx as int];
            &&& detail(p).title == "Block "@ + decimal(idx as nat) + " · page "@ + decimal(
                (page + 1) as nat,
            )
            &&& detail(p).chip == Some(b.kind)
            &&& detail(p).meta == DetailMetaView::Region(b.bbox)
            &&& detail(p).body == b.text
        }),
{
}

/// The details of a page count its records.
pub proof fn details_of_pages(p: PaneView, d: DocView, page: u32)
    requires
        p.doc == Some(d),
        p.selected == Some(SelectedRow::Page(page)),
    ensures
        ({
            let n = d.extracted_pages.filter(crate::doc_laws::of_that_page(page)).len();
            &&& detail(p).title == "Page "@ + decimal((page + 1) as nat)
            &&& detail(p).chip is None
            &&& n == 0 ==> detail(p).body == Some("No extractions on this page."@)
            &&& n > 0 ==> detail(p).body == Some(
                counted(n, " extraction"@) + " on this page. Expand the row to see them."@,
            )
        }),
{
    crate::doc_laws::every_record_of_the_page_is_found(d.extracted_pages, page);
}

/// Without a selection, or where the selected row is not there, the details say so.
pub proof fn details_of_nothing(p: PaneView)
    ensures
        p.selected is None ==> detail(p).body == Some("(select a row)"@),
        p.doc is None ==> (p.selected matches Some(SelectedRow::Toc(_)) ==> detail(p).body == Some(
            "(missing)"@,
        )),
        p.doc is None ==> (p.selected matches Some(SelectedRow::Block(_, _, _)) ==> detail(p).chip
            == Some("(missing)"@)),
{
}

// ---------------------------------------------------------------------------
// Answers
// ---------------------------------------------------------------------------

/// The tokens are named where they were counted, and the reason for which a model stopped
/// where it is not the ordinary one.
pub proof fn tokens_and_reasons_are_named(u: AdHocUsage, reason: Seq<char>)
    ensures
        usage_text(Some(u)) == " · in "@ + decimal(u.prompt_tokens as nat) + " / out "@ + decimal(
            u.completion_tokens as nat,
        ),
        usage_text(None).len() == 0,
        reason != "stop"@ ==> finish_text(Some(reason)) == " · finish="@ + reason,
        finish_text(Some("stop"@)).len() == 0,
        finish_text(None).len() == 0,
{
    reveal_strlit("");
}

/// An answer is shown as it came, below a line that names the model, the time, the tokens
/// and the reason; a failure is shown by its message.
pub proof fn answers_are_shown_whole(p: PaneView, elapsed: Seq<char>)
    ensures
        p.prompt matches RequestView::Done(r) ==> {
            &&& answer_text(p, elapsed).1 == r.content
            &&& answer_text(p, elapsed).0 == r.model.label_text() + " · "@ + elapsed + "s"@
                + usage_text(r.usage) + finish_text(r.finish_reason)
        },
        p.prompt matches RequestView::Failed(why) ==> answer_text(p, elapsed).1 == why,
        p.prompt is Pending ==> answer_text(p, elapsed).0 == "Response · "@ + spinner_text(
            p.spinner_frame as int,
        ) + " working…"@,
        p.prompt is Idle ==> answer_text(p, elapsed).1 == "(submit a preset to dispatch)"@,
{
}

/// A component model is shown by its rows, or as it came where there is no JSON in it; a
/// failure is shown by its message.
pub proof fn component_models_are_shown(p: PaneView, elapsed: Seq<char>)
    ensures
        p.component matches RequestView::Done(r) ==> match component_json(r.content) {
            Some(tree) => component_body(p, elapsed) matches ComponentBodyView::Rows {
                header,
                rows,
            } && rows == value_rows(tree, 0) && header == r.model.label_text() + " · "@ + elapsed
                + "s"@ + usage_text(r.usage),
            None => component_body(p, elapsed) matches ComponentBodyView::Raw { header, text }
                && text == r.content && header == r.model.label_text() + " · "@ + elapsed + "s"@
                + usage_text(r.usage),
        },
        p.component matches RequestView::Failed(why) ==> component_body(p, elapsed)
            == ComponentBodyView::Failed(why),
        p.component is Idle ==> component_body(p, elapsed) is Empty,
        p.component is Pending ==> component_body(p, elapsed) is Working,
{
}

/// The component model can be asked for where a record is Markdown and none is on its way.
pub proof fn the_button_tells_whether_there_is_markdown(p: PaneView, d: DocView)
    requires
        p.doc == Some(d),
        !(p.component is Pending),
    ensures
        (exists|i: int|
            0 <= i < d.extracted_pages.len() && (#[trigger] d.extracted_pages[i]).content
                is Markdown) ==> component_button_text(p) == "Extract component model"@,
        (forall|i: int|
            0 <= i < d.extracted_pages.len() ==> !((#[trigger] d.extracted_pages[i]).content
                is Markdown)) ==> component_button_text(p)
            == "Extract component model (need Pass 1 markdown)"@,
{
}

} // verus!
