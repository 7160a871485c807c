//! Building a table of contents from the Markdown of a document's pages, by a
//! language model or by the headings alone.
//!
//! The builder does not touch the document: its result is a run record and a
//! list of entries for the caller to append.

use crate::error::{Error, ErrorView};
use crate::ids::{ExtractionId, TocEntryId, is_random_id};
use crate::ir::{
    Content, ContentView, Doc, DocView, Extraction, ExtractionView, ModelId, PageExtraction,
    PageExtractionView, PageRef, PageRefView, Params, PromptText, TocEntry, TocEntryView,
};
use crate::ir::{
    consistent, entry_is_new, entry_resolves, first_extraction, first_page, has_extraction,
    has_page, opt_view, ref_resolves, run_is_new, views, with_param,
};
use crate::json::{Json, real_json, whole_json};
use crate::number::Real;
use crate::openai::{ChatRequest, ChatRequestView, HttpOutcome, first_content, no_thinking, text_request};
use crate::stamp::Timestamp;
use crate::text::{
    CharClass, chars_of, decimal, decimal_text, ends_with, has_prefix, has_suffix, lines, lines_of,
    slice, starts_with, string_of, trim, trim_end, trim_start, trimmed, trimmed_end, trimmed_start,
};
use vstd::prelude::*;

verus! {

// ---------------------------------------------------------------------------
// The prompt
// ---------------------------------------------------------------------------

/// What the model is told about its task and the shape of its answer.
pub const PREAMBLE: &'static str = r#"You are extracting a structured table of contents from a semiconductor datasheet's printed ToC pages. Input is the Pass 1 (GLM-OCR) markdown for the supplied page range.

Output a single JSON object with two top-level fields:

  "rows":   [ ...ToC entries (see schema below)... ]
  "issues": [ ...self-scored quality flags... ]

EVERY row entry MUST include the task-specific schema fields PLUS this provenance field:
  "_page": integer — the page number of the ToC page the entry appeared on (note the underscore!)

Field name MUST be `_page` (with leading underscore), NOT `page`. The page number for the ToC-page itself is `_page`; the page number a ToC entry POINTS TO is the task-specific `page` field defined per task.

NEVER fill missing values from prior knowledge of the part. If a value is missing, leave it `null`. Do not extrapolate from training data.

The "issues" array surfaces problems for human review. Each issue:
  "kind":        one of "missing_destination_page" | "ambiguous" | "ocr_garbled" | "pass_quality"
  "page":        integer or null (null for global issues)
  "description": string — what's wrong (one sentence)
  "evidence":    string — short quote from the input that supports the flag

Only emit issues where action is warranted — minor formatting differences are not issues.

Return ONLY the JSON object. No markdown, no explanation, no code fences.

"#;

/// What the model is told about rows and titles.
pub const TASK: &'static str = r#"TASK: Extract every entry from the printed table-of-contents on this page (range), in document order.

Row schema (alongside _page):
  "level":  integer — heading depth, inferred from numbering: "5" → 1, "5.4" → 2, "5.4.2" → 3
  "number": string or null — section number as printed ("5.4")
  "title":  string — entry title with numbering AND footnote markers stripped (see below)
  "page":   integer or null — the page number the entry points to (this is the section's destination page, distinct from `_page` which is the page of the ToC entry itself)

TITLE HYGIENE:
  - Strip the leading numbering: "5.4 Thermal Information" → "Thermal Information"
  - Strip trailing footnote markers like "(1)", "(2)" or "$^{(1)}$": "Absolute Maximum Ratings(1)" → "Absolute Maximum Ratings"
  - Preserve LaTeX/math glyphs verbatim: "$V_{BAT}$ monitoring characteristics" stays as "$V_{BAT}$ monitoring characteristics" — do NOT flatten to "V BAT".
  - Preserve trademark/special chars: "Cortex®-M4", "I²S", "Embedded Trace Macrocell™" stay as-is.

SKIP:
  - Section banners ("Table of Contents", "Contents", "Index")
  - Revision-history bullets that may bleed into the same OCR page (e.g. "Changes from Revision X")
  - Prose paragraphs

INPUTS:
"#;

/// What a page contributes to the prompt: a line that names it, its Markdown
/// with a line feed at the end, and an empty line.
pub open spec fn page_section(p: PageExtractionView) -> Seq<char> {
    let text = match p.content {
        ContentView::Markdown(s) => if ends_with(s, "\n"@) {
            s
        } else {
            s + "\n"@
        },
        _ => Seq::empty(),
    };
    "=== PAGE "@ + decimal(p.page as nat) + " ===\n\n"@ + text + "\n"@
}

/// The sections of the first `n` pages.
pub open spec fn sections(pages: Seq<PageExtractionView>, n: nat) -> Seq<char>
    decreases n,
{
    if n == 0 {
        Seq::empty()
    } else {
        sections(pages, (n - 1) as nat) + page_section(pages[n - 1])
    }
}

/// The prompt for these pages.
pub open spec fn toc_prompt(pages: Seq<PageExtractionView>) -> Seq<char> {
    PREAMBLE@ + TASK@ + sections(pages, pages.len())
}

/// The views of a list of borrowed page records.
pub open spec fn shown(pages: Seq<&PageExtraction>) -> Seq<PageExtractionView> {
    pages.map_values(|p: &PageExtraction| p@)
}

fn push_section(buf: &mut String, p: &PageExtraction)
    ensures
        final(buf)@ == old(buf)@ + page_section(p@),
{
    let ghost start = buf@;
    buf.append("=== PAGE ");
    buf.append(decimal_text(p.page as u64).as_str());
    buf.append(" ===\n\n");
    if let Content::Markdown(md) = &p.content {
        buf.append(md.markdown.as_str());
        if !has_suffix(&chars_of(md.markdown.as_str()), &chars_of("\n")) {
            buf.append("\n");
        }
    }
    buf.append("\n");
    assert(buf@ =~= start + page_section(p@));
}

fn build_prompt(pages: &Vec<&PageExtraction>) -> (r: String)
    ensures
        r@ == toc_prompt(shown(pages@)),
{
    let mut buf = String::from_str(PREAMBLE);
    buf.append(TASK);
    let ghost head = PREAMBLE@ + TASK@;
    assert(buf@ =~= head + sections(shown(pages@), 0));
    for i in 0..pages.len()
        invariant
            buf@ == head + sections(shown(pages@), i as nat),
    {
        push_section(&mut buf, pages[i]);
        assert(shown(pages@)[i as int] == pages@[i as int]@);
        assert(buf@ =~= head + sections(shown(pages@), (i + 1) as nat));
    }
    buf
}

// ---------------------------------------------------------------------------
// Pages to build from
// ---------------------------------------------------------------------------

/// Is this a Markdown record of a page between `first` and `last`?
pub open spec fn chosen(p: PageExtractionView, first: u32, last: u32) -> bool {
    first <= p.page <= last && p.content is Markdown
}

/// `pages`, one per page number in order, with `p` as the record of its page.
pub open spec fn with_page(pages: Seq<PageExtractionView>, p: PageExtractionView) -> Seq<
    PageExtractionView,
>
    decreases pages.len(),
{
    if pages.len() == 0 {
        seq![p]
    } else if pages.last().page == p.page {
        pages.drop_last().push(p)
    } else if pages.last().page < p.page {
        pages.push(p)
    } else {
        with_page(pages.drop_last(), p).push(pages.last())
    }
}

/// The Markdown records of the pages between `first` and `last`, in page order;
/// of several records of one page the last one counts.
pub open spec fn pass1_pages(records: Seq<PageExtractionView>, first: u32, last: u32) -> Seq<
    PageExtractionView,
>
    decreases records.len(),
{
    if records.len() == 0 {
        Seq::empty()
    } else {
        let rest = pass1_pages(records.drop_last(), first, last);
        if chosen(records.last(), first, last) {
            with_page(rest, records.last())
        } else {
            rest
        }
    }
}

/// Are the page numbers in order, none of them twice?
pub open spec fn pages_ordered(pages: Seq<PageExtractionView>) -> bool {
    forall|i: int, j: int|
        0 <= i < j < pages.len() ==> (#[trigger] pages[i]).page < (#[trigger] pages[j]).page
}

/// Does `pages` hold a record of page number `page`?
pub open spec fn holds_page(pages: Seq<PageExtractionView>, page: u32) -> bool {
    exists|i: int| 0 <= i < pages.len() && (#[trigger] pages[i]).page == page
}

/// What setting the record of a page does: the order stays, the page has the new
/// record, and every other page keeps what it has.
proof fn with_page_effect(pages: Seq<PageExtractionView>, p: PageExtractionView)
    requires
        pages_ordered(pages),
    ensures
        ({
            let after = with_page(pages, p);
            &&& pages_ordered(after)
            &&& after.contains(p)
            &&& forall|q: PageExtractionView| #[trigger]
                after.contains(q) ==> q == p || (pages.contains(q) && q.page != p.page)
            &&& forall|q: PageExtractionView| #[trigger]
                pages.contains(q) && q.page != p.page ==> after.contains(q)
            &&& after.len() >= pages.len()
        }),
    decreases pages.len(),
{
    let after = with_page(pages, p);
    if pages.len() == 0 {
        assert(after[0] == p);
    } else {
        let init = pages.drop_last();
        let end = pages.last();
        assert(forall|i: int| 0 <= i < init.len() ==> init[i] == pages[i]);
        if end.page == p.page || end.page < p.page {
            let kept = if end.page == p.page { init } else { pages };
            assert(after =~= kept.push(p));
            assert(after[after.len() - 1] == p);
            assert forall|q: PageExtractionView| #[trigger] after.contains(q) implies q == p || (
            pages.contains(q) && q.page != p.page) by {
                let k = choose|k: int| 0 <= k < after.len() && after[k] == q;
                if k < kept.len() {
                    assert(pages[k] == q);
                }
            }
            assert forall|q: PageExtractionView| #[trigger] pages.contains(q) && q.page
                != p.page implies after.contains(q) by {
                let k = choose|k: int| 0 <= k < pages.len() && pages[k] == q;
                assert(after[k] == q);
            }
        } else {
            with_page_effect(init, p);
            let mid = with_page(init, p);
            assert(after =~= mid.push(end));
            assert forall|i: int| 0 <= i < mid.len() implies (#[trigger] mid[i]).page < end.page by {
                assert(mid.contains(mid[i]));
                if mid[i] != p {
                    let k = choose|k: int| 0 <= k < init.len() && init[k] == mid[i];
                    assert(pages[k].page < pages[pages.len() - 1].page);
                }
            }
            let k0 = choose|k: int| 0 <= k < mid.len() && mid[k] == p;
            assert(after[k0] == p);
            assert forall|q: PageExtractionView| #[trigger] after.contains(q) implies q == p || (
            pages.contains(q) && q.page != p.page) by {
                let k = choose|k: int| 0 <= k < after.len() && after[k] == q;
                if k < mid.len() {
                    assert(mid.contains(mid[k]));
                    if q != p {
                        let j = choose|j: int| 0 <= j < init.len() && init[j] == q;
                        assert(pages[j] == q);
                    }
                } else {
                    assert(pages[pages.len() - 1] == q);
                }
            }
            assert forall|q: PageExtractionView| #[trigger] pages.contains(q) && q.page
                != p.page implies after.contains(q) by {
                let k = choose|k: int| 0 <= k < pages.len() && pages[k] == q;
                if k < init.len() {
                    assert(init[k] == q);
                    assert(init.contains(q));
                    let j = choose|j: int| 0 <= j < mid.len() && mid[j] == q;
                    assert(after[j] == q);
                } else {
                    assert(after[mid.len() as int] == q);
                }
            }
        }
    }
}

/// Is `p` the last record of its page among the chosen ones?
pub open spec fn is_latest(
    records: Seq<PageExtractionView>,
    first: u32,
    last: u32,
    p: PageExtractionView,
) -> bool {
    exists|i: int|
        {
            &&& 0 <= i < records.len()
            &&& #[trigger] records[i] == p
            &&& chosen(p, first, last)
            &&& forall|j: int|
                i < j < records.len() && chosen(#[trigger] records[j], first, last)
                    ==> records[j].page != p.page
        }
}

/// The pages to build from stand in page order, each is the latest Markdown
/// record of its page, and no page between `first` and `last` that has a
/// Markdown record is missing.
pub proof fn pass1_pages_are_latest(records: Seq<PageExtractionView>, first: u32, last: u32)
    ensures
        ({
            let pages = pass1_pages(records, first, last);
            &&& pages_ordered(pages)
            &&& forall|p: PageExtractionView| #[trigger]
                pages.contains(p) ==> is_latest(records, first, last, p)
            &&& forall|i: int|
                0 <= i < records.len() && chosen(#[trigger] records[i], first, last)
                    ==> holds_page(pages, records[i].page)
        }),
    decreases records.len(),
{
    if records.len() > 0 {
        let init = records.drop_last();
        let end = records.last();
        let rest = pass1_pages(init, first, last);
        let pages = pass1_pages(records, first, last);
        let n = init.len() as int;
        pass1_pages_are_latest(init, first, last);
        assert(forall|i: int| 0 <= i < n ==> init[i] == records[i]);
        if chosen(end, first, last) {
            with_page_effect(rest, end);
            assert forall|p: PageExtractionView| #[trigger] pages.contains(p) implies is_latest(
                records,
                first,
                last,
                p,
            ) by {
                if p == end {
                    assert(records[n] == p);
                } else {
                    assert(rest.contains(p));
                    let i = choose|i: int|
                        {
                            &&& 0 <= i < init.len()
                            &&& #[trigger] init[i] == p
                            &&& chosen(p, first, last)
                            &&& forall|j: int|
                                i < j < init.len() && chosen(#[trigger] init[j], first, last)
                                    ==> init[j].page != p.page
                        };
                    assert(records[i] == p);
                    assert forall|j: int|
                        i < j < records.len() && chosen(#[trigger] records[j], first, last) implies
                        records[j].page != p.page by {
                        if j < n {
                            assert(init[j] == records[j]);
                        }
                    }
                }
            }
            assert forall|i: int|
                0 <= i < records.len() && chosen(#[trigger] records[i], first, last) implies
                holds_page(pages, records[i].page) by {
                if records[i].page == end.page {
                    let k = choose|k: int| 0 <= k < pages.len() && pages[k] == end;
                    assert(pages[k].page == records[i].page);
                } else {
                    assert(init[i] == records[i]);
                    let k = choose|k: int|
                        0 <= k < rest.len() && (#[trigger] rest[k]).page == records[i].page;
                    assert(rest.contains(rest[k]));
                    assert(pages.contains(rest[k]));
                    let m = choose|m: int| 0 <= m < pages.len() && pages[m] == rest[k];
                    assert(pages[m].page == records[i].page);
                }
            }
        } else {
            assert forall|p: PageExtractionView| #[trigger] pages.contains(p) implies is_latest(
                records,
                first,
                last,
                p,
            ) by {
                let i = choose|i: int|
                    {
                        &&& 0 <= i < init.len()
                        &&& #[trigger] init[i] == p
                        &&& chosen(p, first, last)
                        &&& forall|j: int|
                            i < j < init.len() && chosen(#[trigger] init[j], first, last)
                                ==> init[j].page != p.page
                    };
                assert(records[i] == p);
                assert forall|j: int|
                    i < j < records.len() && chosen(#[trigger] records[j], first, last) implies
                    records[j].page != p.page by {
                    if j < n {
                        assert(init[j] == records[j]);
                    }
                }
            }
            assert forall|i: int|
                0 <= i < records.len() && chosen(#[trigger] records[i], first, last) implies
                holds_page(pages, records[i].page) by {
                assert(init[i] == records[i]);
            }
        }
    }
}

proof fn with_page_at(pages: Seq<PageExtractionView>, p: PageExtractionView, at: int)
    requires
        0 <= at <= pages.len(),
        at > 0 ==> pages[at - 1].page < p.page,
        forall|j: int| at <= j < pages.len() ==> p.page < (#[trigger] pages[j]).page,
    ensures
        with_page(pages, p) == pages.insert(at, p),
    decreases pages.len(),
{
    if at == pages.len() {
        assert(pages.insert(at, p) =~= pages.push(p));
        assert(pages.len() == 0 ==> seq![p] =~= pages.push(p));
    } else {
        with_page_at(pages.drop_last(), p, at);
        assert(pages.insert(at, p) =~= pages.drop_last().insert(at, p).push(pages.last()));
    }
}

proof fn with_page_over(pages: Seq<PageExtractionView>, p: PageExtractionView, at: int)
    requires
        0 <= at < pages.len(),
        pages[at].page == p.page,
        forall|j: int| at < j < pages.len() ==> p.page < (#[trigger] pages[j]).page,
    ensures
        with_page(pages, p) == pages.update(at, p),
    decreases pages.len(),
{
    if at == pages.len() - 1 {
        assert(pages.update(at, p) =~= pages.drop_last().push(p));
    } else {
        with_page_over(pages.drop_last(), p, at);
        assert(pages.update(at, p) =~= pages.drop_last().update(at, p).push(pages.last()));
    }
}

/// Set the record of a page.
fn set_page<'a>(pages: &mut Vec<&'a PageExtraction>, p: &'a PageExtraction)
    requires
        pages_ordered(shown(old(pages)@)),
    ensures
        shown(final(pages)@) == with_page(shown(old(pages)@), p@),
{
    let ghost before = shown(pages@);
    let mut at: usize = pages.len();
    while at > 0 && p.page < pages[at - 1].page
        invariant
            at <= pages@.len(),
            shown(pages@) == before,
            forall|j: int| at <= j < before.len() ==> p.page < (#[trigger] before[j]).page,
        decreases at,
    {
        at = at - 1;
        assert(before[at as int] == pages@[at as int]@);
    }
    if at > 0 {
        assert(before[at - 1] == pages@[at - 1]@);
    }
    if at > 0 && pages[at - 1].page == p.page {
        proof {
            with_page_over(before, p@, at - 1);
        }
        pages.set(at - 1, p);
        assert(shown(pages@) =~= before.update(at - 1, p@));
    } else {
        proof {
            with_page_at(before, p@, at as int);
        }
        pages.insert(at, p);
        assert(shown(pages@) =~= before.insert(at as int, p@));
    }
}

pub(crate) fn collect_pass1_pages(doc: &Doc, first: u32, last: u32) -> (r: Vec<&PageExtraction>)
    ensures
        shown(r@) == pass1_pages(doc@.extracted_pages, first, last),
{
    let mut out: Vec<&PageExtraction> = Vec::new();
    let ghost all = doc@.extracted_pages;
    assert(shown(out@) =~= pass1_pages(all.take(0), first, last));
    for i in 0..doc.extracted_pages.len()
        invariant
            all == doc@.extracted_pages,
            shown(out@) == pass1_pages(all.take(i as int), first, last),
    {
        let p = &doc.extracted_pages[i];
        let ghost upto = all.take(i + 1);
        assert(upto.drop_last() =~= all.take(i as int));
        assert(upto.last() == p@);
        let markdown = match p.content {
            Content::Markdown(_) => true,
            _ => false,
        };
        if first <= p.page && p.page <= last && markdown {
            proof {
                pass1_pages_are_latest(all.take(i as int), first, last);
            }
            set_page(&mut out, p);
        }
    }
    assert(all.take(all.len() as int) =~= all);
    out
}

// ---------------------------------------------------------------------------
// Headings
// ---------------------------------------------------------------------------

/// How many `#` the text begins with.
pub open spec fn hashes(s: Seq<char>) -> nat
    decreases s.len(),
{
    if s.len() > 0 && s[0] == '#' {
        1 + hashes(s.drop_first())
    } else {
        0
    }
}

/// The heading on a line: one to six `#`, then a space or nothing, then a title,
/// which closing `#` and white space do not belong to.
pub open spec fn heading(line: Seq<char>) -> Option<(u8, Seq<char>)> {
    let s = trim_start(line, CharClass::Blank);
    let level = hashes(s);
    let rest = s.skip(level as int);
    if level == 0 || level > 6 {
        None
    } else if rest.len() > 0 && rest[0] != ' ' {
        None
    } else {
        let title = trim_end(trim_start(rest, CharClass::Blank), CharClass::HashOrBlank);
        if title.len() == 0 {
            None
        } else {
            Some((level as u8, title))
        }
    }
}

fn count_hashes(s: &Vec<char>) -> (r: usize)
    ensures
        r == hashes(s@),
        r <= s@.len(),
{
    let mut i: usize = 0;
    assert(s@.skip(0) =~= s@);
    while i < s.len() && s[i] == '#'
        invariant
            i <= s@.len(),
            hashes(s@) == i + hashes(s@.skip(i as int)),
        decreases s@.len() - i,
    {
        assert(s@.skip(i as int).drop_first() =~= s@.skip(i + 1));
        i = i + 1;
    }
    i
}

fn parse_heading(line: &Vec<char>) -> (r: Option<(u8, String)>)
    ensures
        match r {
            Some(h) => heading(line@) == Some((h.0, h.1@)),
            None => heading(line@) is None,
        },
{
    let s = trimmed_start(line, CharClass::Blank);
    let level: usize = count_hashes(&s);
    if level == 0 || level > 6 {
        return None;
    }
    let rest = slice(&s, level, s.len());
    assert(rest@ =~= s@.skip(level as int));
    if rest.len() > 0 && rest[0] != ' ' {
        return None;
    }
    let title = trimmed_end(&trimmed_start(&rest, CharClass::Blank), CharClass::HashOrBlank);
    if title.len() == 0 {
        None
    } else {
        Some((level as u8, string_of(&title)))
    }
}

// ---------------------------------------------------------------------------
// Rows
// ---------------------------------------------------------------------------

/// One row of a table of contents, before it is placed in the hierarchy.
#[derive(Debug, Clone)]
pub struct ParsedRow {
    pub level: u8,
    pub number: Option<String>,
    pub title: String,
    /// The page that the row points to.
    pub destination_page: Option<u32>,
    /// The page that the row was found on.
    pub source_page: u32,
}

pub struct RowView {
    pub level: u8,
    pub number: Option<Seq<char>>,
    pub title: Seq<char>,
    pub destination_page: Option<u32>,
    pub source_page: u32,
}

impl View for ParsedRow {
    type V = RowView;

    open spec fn view(&self) -> RowView {
        RowView {
            level: self.level,
            number: opt_view(self.number),
            title: self.title@,
            destination_page: self.destination_page,
            source_page: self.source_page,
        }
    }
}

/// The row of a heading on page `page`: it points to the page it stands on.
pub open spec fn heading_row(page: u32, h: (u8, Seq<char>)) -> RowView {
    RowView {
        level: h.0,
        number: None,
        title: h.1,
        destination_page: Some(page),
        source_page: page,
    }
}

/// The rows of the headings among the first `n` lines of page `page`.
pub open spec fn line_rows(page: u32, ls: Seq<Seq<char>>, n: nat) -> Seq<RowView>
    decreases n,
{
    if n == 0 {
        Seq::empty()
    } else {
        let rest = line_rows(page, ls, (n - 1) as nat);
        match heading(ls[n - 1]) {
            Some(h) => rest.push(heading_row(page, h)),
            None => rest,
        }
    }
}

/// The rows of the headings of one page.
pub open spec fn page_rows(p: PageExtractionView) -> Seq<RowView> {
    match p.content {
        ContentView::Markdown(s) => line_rows(p.page, lines(s), lines(s).len()),
        _ => Seq::empty(),
    }
}

/// The rows of the headings of the first `n` pages.
pub open spec fn heading_rows(pages: Seq<PageExtractionView>, n: nat) -> Seq<RowView>
    decreases n,
{
    if n == 0 {
        Seq::empty()
    } else {
        heading_rows(pages, (n - 1) as nat) + page_rows(pages[n - 1])
    }
}

fn push_page_rows(rows: &mut Vec<ParsedRow>, p: &PageExtraction)
    ensures
        views(final(rows)@) == views(old(rows)@) + page_rows(p@),
{
    let ghost start = views(rows@);
    if let Content::Markdown(md) = &p.content {
        let list = lines_of(&chars_of(md.markdown.as_str()));
        let ghost ls = lines(md.markdown@);
        assert(start =~= start + line_rows(p.page, ls, 0));
        for i in 0..list.len()
            invariant
                list@.map_values(|l: Vec<char>| l@) == ls,
                views(rows@) == start + line_rows(p.page, ls, i as nat),
        {
            assert(ls[i as int] == list@[i as int]@);
            let ghost before = views(rows@);
            if let Some(h) = parse_heading(&list[i]) {
                let row = ParsedRow {
                    level: h.0,
                    number: None,
                    title: h.1,
                    destination_page: Some(p.page),
                    source_page: p.page,
                };
                rows.push(row);
                assert(views(rows@) =~= before.push(row@));
            }
            assert(views(rows@) =~= start + line_rows(p.page, ls, (i + 1) as nat));
        }
    }
    assert(views(rows@) =~= start + page_rows(p@));
}

fn rows_from_headings(pages: &Vec<&PageExtraction>) -> (r: Vec<ParsedRow>)
    ensures
        views(r@) == heading_rows(shown(pages@), shown(pages@).len()),
{
    let mut rows: Vec<ParsedRow> = Vec::new();
    assert(views(rows@) =~= heading_rows(shown(pages@), 0));
    for i in 0..pages.len()
        invariant
            views(rows@) == heading_rows(shown(pages@), i as nat),
    {
        push_page_rows(&mut rows, pages[i]);
        assert(shown(pages@)[i as int] == pages@[i as int]@);
    }
    rows
}

// ---------------------------------------------------------------------------
// Entries
// ---------------------------------------------------------------------------

/// The model of the first run of this identity.
pub open spec fn model_of(d: DocView, uuid: ExtractionId) -> Seq<char> {
    d.extractions[choose|i: int| first_extraction(d, uuid, i)].model
}

/// References to the Markdown records of page `page` among `records`, as far as
/// their runs are known.
pub open spec fn refs_to(d: DocView, records: Seq<PageExtractionView>, page: u32) -> Seq<
    PageRefView,
>
    decreases records.len(),
{
    if records.len() == 0 {
        Seq::empty()
    } else {
        let rest = refs_to(d, records.drop_last(), page);
        let p = records.last();
        if p.page == page && p.content is Markdown && has_extraction(d, p.extraction_uuid) {
            rest.push(
                PageRefView {
                    page: p.page,
                    model: model_of(d, p.extraction_uuid),
                    page_uuid: p.page_uuid,
                    extraction_uuid: p.extraction_uuid,
                },
            )
        } else {
            rest
        }
    }
}

proof fn first_extraction_unique(d: DocView, uuid: ExtractionId, i: int, j: int)
    requires
        first_extraction(d, uuid, i),
        first_extraction(d, uuid, j),
    ensures
        i == j,
{
    if i < j {
        assert(d.extractions[i].uuid == uuid);
    } else if j < i {
        assert(d.extractions[j].uuid == uuid);
    }
}

/// All Markdown records of `page`, as references. Several records of one page
/// all get one.
fn page_refs_for(doc: &Doc, page: u32) -> (r: Vec<PageRef>)
    ensures
        views(r@) == refs_to(doc@, doc@.extracted_pages, page),
{
    let mut out: Vec<PageRef> = Vec::new();
    let ghost all = doc@.extracted_pages;
    assert(views(out@) =~= refs_to(doc@, all.take(0), page));
    for i in 0..doc.extracted_pages.len()
        invariant
            all == doc@.extracted_pages,
            views(out@) == refs_to(doc@, all.take(i as int), page),
    {
        let p = &doc.extracted_pages[i];
        let ghost upto = all.take(i + 1);
        assert(upto.drop_last() =~= all.take(i as int));
        assert(upto.last() == p@);
        let markdown = match p.content {
            Content::Markdown(_) => true,
            _ => false,
        };
        if p.page == page && markdown {
            if let Some(e) = doc.extraction(p.extraction_uuid) {
                let ghost before = views(out@);
                let found = PageRef {
                    page: p.page,
                    model: ModelId(e.model.0.clone()),
                    page_uuid: p.page_uuid,
                    extraction_uuid: p.extraction_uuid,
                };
                proof {
                    let uuid = p.extraction_uuid;
                    let k = choose|k: int|
                        #[trigger] first_extraction(doc@, uuid, k) && e@ == doc@.extractions[k];
                    let j = choose|j: int| first_extraction(doc@, uuid, j);
                    first_extraction_unique(doc@, uuid, k, j);
                    assert(doc@.extractions[k].uuid == uuid);
                    assert(has_extraction(doc@, uuid));
                }
                out.push(found);
                assert(views(out@) =~= before.push(found@));
            }
        }
    }
    assert(all.take(all.len() as int) =~= all);
    out
}

/// The nearest position before `k` with a level above that of row `i`.
pub open spec fn nearest_above(rows: Seq<RowView>, i: int, k: int) -> Option<int>
    decreases k,
{
    if k <= 0 {
        None
    } else if rows[k - 1].level < rows[i].level {
        Some(k - 1)
    } else {
        nearest_above(rows, i, k - 1)
    }
}

/// The position of the parent of row `i`: the nearest earlier row of a smaller
/// level.
pub open spec fn parent_row(rows: Seq<RowView>, i: int) -> Option<int> {
    nearest_above(rows, i, i)
}

/// The page whose records an entry refers to: where the row points to, or where
/// it was found.
pub open spec fn target_page(row: RowView) -> u32 {
    match row.destination_page {
        Some(p) => p,
        None => row.source_page,
    }
}

/// Is entry `i` what its row asks for?
pub open spec fn entry_matches(
    rows: Seq<RowView>,
    d: DocView,
    built_by: ExtractionId,
    entries: Seq<TocEntryView>,
    i: int,
) -> bool {
    let e = entries[i];
    &&& e.title == rows[i].title
    &&& e.level == rows[i].level
    &&& e.built_by == built_by
    &&& e.page_refs == refs_to(d, d.extracted_pages, target_page(rows[i]))
    &&& e.parent == (match parent_row(rows, i) {
        Some(j) => Some(entries[j].id),
        None => None,
    })
}

/// Are the entries what the rows ask for, in that order?
pub open spec fn entries_match(
    rows: Seq<RowView>,
    d: DocView,
    built_by: ExtractionId,
    entries: Seq<TocEntryView>,
) -> bool {
    &&& entries.len() == rows.len()
    &&& forall|i: int|
        #![trigger entries[i]]
        0 <= i < rows.len() ==> entry_matches(rows, d, built_by, entries, i)
}

/// Are all entries new?
pub open spec fn entries_are_new(entries: Seq<TocEntryView>) -> bool {
    forall|i: int| 0 <= i < entries.len() ==> entry_is_new(#[trigger] entries[i])
}

/// The parent of a row stands before it, on a smaller level, and nothing
/// between them is on a smaller level than the row.
pub proof fn parent_row_is_nearest(rows: Seq<RowView>, i: int)
    requires
        0 <= i < rows.len(),
    ensures
        match parent_row(rows, i) {
            Some(j) => {
                &&& 0 <= j < i
                &&& rows[j].level < rows[i].level
                &&& forall|k: int| j < k < i ==> (#[trigger] rows[k]).level >= rows[i].level
            },
            None => forall|k: int| 0 <= k < i ==> (#[trigger] rows[k]).level >= rows[i].level,
        },
{
    nearest_above_is_nearest(rows, i, i);
}

proof fn nearest_above_is_nearest(rows: Seq<RowView>, i: int, k: int)
    requires
        0 <= k <= i < rows.len(),
        forall|m: int| k <= m < i ==> (#[trigger] rows[m]).level >= rows[i].level,
    ensures
        match nearest_above(rows, i, k) {
            Some(j) => {
                &&& 0 <= j < i
                &&& rows[j].level < rows[i].level
                &&& forall|m: int| j < m < i ==> (#[trigger] rows[m]).level >= rows[i].level
            },
            None => forall|m: int| 0 <= m < i ==> (#[trigger] rows[m]).level >= rows[i].level,
        },
    decreases k,
{
    if k > 0 && rows[k - 1].level >= rows[i].level {
        nearest_above_is_nearest(rows, i, k - 1);
    }
}

/// Is nothing on a smaller level than row `pos[k]` between it and the position
/// before it on the chain?
spec fn gap_is_deeper(rows: Seq<RowView>, pos: Seq<int>, k: int) -> bool {
    let from = if k == 0 {
        -1
    } else {
        pos[k - 1]
    };
    forall|j: int| from < j < pos[k] ==> (#[trigger] rows[j]).level >= rows[pos[k]].level
}

/// The rows that may still become parents: positions in row order, with nothing
/// on a smaller level between one of them and the one before it.
spec fn is_chain(rows: Seq<RowView>, pos: Seq<int>, i: int) -> bool {
    &&& forall|k: int| 0 <= k < pos.len() ==> 0 <= #[trigger] pos[k] < i
    &&& forall|k: int| 0 <= k < pos.len() ==> #[trigger] gap_is_deeper(rows, pos, k)
}

/// Is everything behind the end of the chain, up to row `i`, on level `level` or
/// deeper?
spec fn deeper_behind(rows: Seq<RowView>, pos: Seq<int>, i: int, level: u8) -> bool {
    forall|j: int|
        (pos.len() == 0 || pos.last() < j) && 0 <= j < i ==> (#[trigger] rows[j]).level >= level
}

/// Does the stack hold the levels and identities of the rows on the chain?
spec fn mirrors(
    stack: Seq<(u8, TocEntryId)>,
    rows: Seq<RowView>,
    ids: Seq<TocEntryId>,
    pos: Seq<int>,
) -> bool {
    &&& stack.len() == pos.len()
    &&& forall|k: int|
        0 <= k < pos.len() ==> #[trigger] stack[k] == (rows[pos[k]].level, ids[pos[k]])
}

proof fn chain_pop(rows: Seq<RowView>, pos: Seq<int>, i: int, level: u8)
    requires
        0 <= i < rows.len(),
        pos.len() > 0,
        is_chain(rows, pos, i),
        deeper_behind(rows, pos, i, level),
        rows[pos.last()].level >= level,
    ensures
        is_chain(rows, pos.drop_last(), i),
        deeper_behind(rows, pos.drop_last(), i, level),
{
    let rest = pos.drop_last();
    let top = pos.len() - 1;
    assert forall|k: int| 0 <= k < rest.len() implies #[trigger] gap_is_deeper(rows, rest, k) by {
        assert(gap_is_deeper(rows, pos, k));
    }
    assert(gap_is_deeper(rows, pos, top));
    assert forall|j: int| (rest.len() == 0 || rest.last() < j) && 0 <= j < i implies (
    #[trigger] rows[j]).level >= level by {}
}

proof fn chain_push(rows: Seq<RowView>, pos: Seq<int>, i: int)
    requires
        0 <= i < rows.len(),
        is_chain(rows, pos, i),
        deeper_behind(rows, pos, i, rows[i].level),
    ensures
        is_chain(rows, pos.push(i), i + 1),
{
    let now = pos.push(i);
    assert forall|k: int| 0 <= k < now.len() implies #[trigger] gap_is_deeper(rows, now, k) by {
        if k < pos.len() {
            assert(gap_is_deeper(rows, pos, k));
        }
    }
}

/// Take off the stack what cannot be a parent of row `i` or of any later row;
/// the parent of row `i` is on top of what is left.
fn find_parent(
    stack: &mut Vec<(u8, TocEntryId)>,
    level: u8,
    Ghost(rows): Ghost<Seq<RowView>>,
    Ghost(ids): Ghost<Seq<TocEntryId>>,
    Ghost(pos): Ghost<Seq<int>>,
    Ghost(i): Ghost<int>,
) -> (r: (Option<TocEntryId>, Ghost<Seq<int>>))
    requires
        0 <= i < rows.len(),
        rows[i].level == level,
        mirrors(old(stack)@, rows, ids, pos),
        is_chain(rows, pos, i),
        deeper_behind(rows, pos, i, level),
    ensures
        mirrors(final(stack)@, rows, ids, r.1@),
        is_chain(rows, r.1@, i),
        deeper_behind(rows, r.1@, i, level),
        r.0 == (match parent_row(rows, i) {
            Some(j) => Some(ids[j]),
            None => None::<TocEntryId>,
        }),
{
    let ghost mut pos = pos;
    while stack.len() > 0 && stack[stack.len() - 1].0 >= level
        invariant
            0 <= i < rows.len(),
            mirrors(stack@, rows, ids, pos),
            is_chain(rows, pos, i),
            deeper_behind(rows, pos, i, level),
        decreases stack@.len(),
    {
        proof {
            assert(stack@[pos.len() - 1] == (rows[pos.last()].level, ids[pos.last()]));
            chain_pop(rows, pos, i, level);
        }
        let ghost before = stack@;
        stack.pop();
        proof {
            let rest = pos.drop_last();
            assert forall|k: int| 0 <= k < rest.len() implies #[trigger] stack@[k] == (
                rows[rest[k]].level,
                ids[rest[k]],
            ) by {
                assert(before[k] == (rows[pos[k]].level, ids[pos[k]]));
            }
            pos = rest;
        }
    }
    proof {
        parent_row_is_nearest(rows, i);
        if pos.len() > 0 {
            let top = pos.len() - 1;
            assert(stack@[top] == (rows[pos[top]].level, ids[pos[top]]));
            assert(rows[pos[top]].level < rows[i].level);
            assert(parent_row(rows, i) is Some);
            let q = parent_row(rows, i)->0;
            if q < pos[top] {
                assert(rows[pos[top]].level >= rows[i].level);
            }
            assert(q == pos[top]);
        } else {
            if let Some(q) = parent_row(rows, i) {
                assert(rows[q].level >= level);
            }
        }
    }
    if stack.len() > 0 {
        (Some(stack[stack.len() - 1].1), Ghost(pos))
    } else {
        (None, Ghost(pos))
    }
}

/// The identities of the entries.
pub open spec fn ids_of(entries: Seq<TocEntryView>) -> Seq<TocEntryId> {
    entries.map_values(|e: TocEntryView| e.id)
}

proof fn entries_match_push(
    rows: Seq<RowView>,
    d: DocView,
    built_by: ExtractionId,
    entries: Seq<TocEntryView>,
    e: TocEntryView,
)
    requires
        entries.len() < rows.len(),
        entries_match(rows.take(entries.len() as int), d, built_by, entries),
        e.title == rows[entries.len() as int].title,
        e.level == rows[entries.len() as int].level,
        e.built_by == built_by,
        e.page_refs == refs_to(d, d.extracted_pages, target_page(rows[entries.len() as int])),
        e.parent == (match parent_row(rows, entries.len() as int) {
            Some(j) => Some(ids_of(entries)[j]),
            None => None,
        }),
    ensures
        entries_match(rows.take(entries.len() as int + 1), d, built_by, entries.push(e)),
{
    let n = entries.len() as int;
    let now = entries.push(e);
    let upto = rows.take(n + 1);
    assert forall|i: int|
        #![trigger now[i]]
        0 <= i < upto.len() implies entry_matches(upto, d, built_by, now, i) by {
        nearest_above_take(rows, n + 1, i, i);
        parent_row_is_nearest(rows, i);
        if i < n {
            assert(entries[i] == now[i]);
            assert(entry_matches(rows.take(n), d, built_by, entries, i));
            nearest_above_take(rows, n, i, i);
        }
    }
}

/// Later rows do not matter for the parent of a row.
proof fn nearest_above_take(rows: Seq<RowView>, n: int, i: int, k: int)
    requires
        0 <= k <= i < n <= rows.len(),
    ensures
        nearest_above(rows.take(n), i, k) == nearest_above(rows, i, k),
    decreases k,
{
    if k > 0 {
        nearest_above_take(rows, n, i, k - 1);
    }
}

/// Place the rows in a hierarchy: each becomes an entry below the nearest
/// earlier row of a smaller level, under an identity of its own.
pub fn build_entries(rows: &Vec<ParsedRow>, doc: &Doc, built_by: ExtractionId) -> (r: Vec<TocEntry>)
    ensures
        entries_match(views(rows@), doc@, built_by, views(r@)),
        entries_are_new(views(r@)),
{
    let mut ids: Vec<TocEntryId> = Vec::new();
    for i in 0..rows.len()
        invariant
            ids@.len() == i,
            forall|k: int| 0 <= k < i ==> is_random_id((#[trigger] ids@[k]).0),
    {
        ids.push(TocEntryId::new());
    }
    let entries = place_entries(rows, doc, built_by, &ids);
    assert forall|i: int| 0 <= i < views(entries@).len() implies entry_is_new(
        #[trigger] views(entries@)[i],
    ) by {
        assert(ids_of(views(entries@))[i] == ids@[i]);
    }
    entries
}

/// Place the rows in a hierarchy, under the given identities: each becomes an entry
/// below the nearest earlier row of a smaller level.
pub fn place_entries(
    rows: &Vec<ParsedRow>,
    doc: &Doc,
    built_by: ExtractionId,
    ids: &Vec<TocEntryId>,
) -> (r: Vec<TocEntry>)
    requires
        ids@.len() == rows@.len(),
    ensures
        entries_match(views(rows@), doc@, built_by, views(r@)),
        ids_of(views(r@)) == ids@,
{
    let mut stack: Vec<(u8, TocEntryId)> = Vec::new();
    let mut entries: Vec<TocEntry> = Vec::new();
    let ghost all = views(rows@);
    let ghost mut pos: Seq<int> = Seq::empty();
    for i in 0..rows.len()
        invariant
            all == views(rows@),
            entries@.len() == i,
            mirrors(stack@, all, ids_of(views(entries@)), pos),
            is_chain(all, pos, i as int),
            i > 0 ==> pos.len() > 0 && pos.last() == i - 1,
            entries_match(all.take(i as int), doc@, built_by, views(entries@)),
            ids@.len() == rows@.len(),
            ids_of(views(entries@)) == ids@.take(i as int),
    {
        let row = &rows[i];
        assert(all[i as int] == row@);
        let ghost before = views(entries@);
        let ghost given = ids_of(before);
        assert(deeper_behind(all, pos, i as int, row.level));
        let (parent, Ghost(left)) = find_parent(
            &mut stack,
            row.level,
            Ghost(all),
            Ghost(given),
            Ghost(pos),
            Ghost(i as int),
        );
        let id = ids[i];
        let target: u32 = match row.destination_page {
            Some(p) => p,
            None => row.source_page,
        };
        let entry = TocEntry {
            id,
            title: row.title.clone(),
            level: row.level,
            parent,
            page_refs: page_refs_for(doc, target),
            built_by,
        };
        proof {
            entries_match_push(all, doc@, built_by, before, entry@);
            chain_push(all, left, i as int);
        }
        let ghost old_stack = stack@;
        entries.push(entry);
        stack.push((row.level, id));
        proof {
            let now = views(entries@);
            assert(now =~= before.push(entry@));
            assert(ids_of(now) =~= ids@.take(i + 1));
            pos = left.push(i as int);
            assert forall|k: int| 0 <= k < pos.len() implies #[trigger] stack@[k] == (
                all[pos[k]].level,
                ids_of(now)[pos[k]],
            ) by {
                if k < left.len() {
                    assert(pos[k] == left[k]);
                    assert(old_stack[k] == (all[left[k]].level, given[left[k]]));
                    assert(ids_of(now)[left[k]] == given[left[k]]);
                }
            }
        }
    }
    assert(all.take(all.len() as int) =~= all);
    assert(ids@.take(ids@.len() as int) =~= ids@);
    entries
}

// ---------------------------------------------------------------------------
// Results
// ---------------------------------------------------------------------------

/// The result of one build, for the caller to append to the document.
#[derive(Debug, Clone)]
pub struct TocBuildResult {
    pub extraction: Extraction,
    pub entries: Vec<TocEntry>,
    pub issues: Vec<TocIssue>,
}

/// A doubt that the model has about its own answer.
#[derive(Debug, Clone)]
pub struct TocIssue {
    pub kind: String,
    pub page: Option<u32>,
    pub description: Option<String>,
    pub evidence: Option<String>,
}

/// A document with a run and entries appended.
pub open spec fn with_toc(d: DocView, run: ExtractionView, entries: Seq<TocEntryView>) -> DocView {
    DocView { extractions: d.extractions.push(run), toc: d.toc + entries, ..d }
}

/// Do records of one identity agree on their page number?
pub open spec fn pages_agree(d: DocView) -> bool {
    forall|i: int, j: int|
        #![trigger d.extracted_pages[i], d.extracted_pages[j]]
        0 <= i < d.extracted_pages.len() && 0 <= j < d.extracted_pages.len()
            && d.extracted_pages[i].page_uuid == d.extracted_pages[j].page_uuid
            ==> d.extracted_pages[i].page == d.extracted_pages[j].page
}

proof fn refs_resolve(d: DocView, records: Seq<PageExtractionView>, page: u32, i: int)
    requires
        pages_agree(d),
        records == d.extracted_pages.take(records.len() as int),
        records.len() <= d.extracted_pages.len(),
        0 <= i < refs_to(d, records, page).len(),
    ensures
        ref_resolves(d, refs_to(d, records, page)[i]),
        refs_to(d, records, page)[i].page == page,
    decreases records.len(),
{
    let n = records.len() - 1;
    let rest = records.drop_last();
    assert(rest =~= d.extracted_pages.take(n));
    let p = records.last();
    assert(p == d.extracted_pages[n]);
    if i < refs_to(d, rest, page).len() {
        refs_resolve(d, rest, page, i);
    } else {
        let r = refs_to(d, records, page)[i];
        assert(d.extracted_pages[n].page_uuid == r.page_uuid);
        assert(has_page(d, r.page_uuid));
        assert forall|k: int| #[trigger] first_page(d, r.page_uuid, k) implies d.extracted_pages[k].page
            == r.page by {
            assert(d.extracted_pages[k].page_uuid == d.extracted_pages[n].page_uuid);
        }
    }
}

/// What resolves keeps resolving when a run and entries are appended.
proof fn resolving_is_kept(
    d: DocView,
    run: ExtractionView,
    entries: Seq<TocEntryView>,
    r: PageRefView,
)
    requires
        ref_resolves(d, r),
    ensures
        ref_resolves(with_toc(d, run, entries), r),
{
    let after = with_toc(d, run, entries);
    let k = choose|k: int|
        0 <= k < d.extractions.len() && (#[trigger] d.extractions[k]).uuid == r.extraction_uuid;
    assert(after.extractions[k].uuid == r.extraction_uuid);
    let m = choose|m: int|
        0 <= m < d.extracted_pages.len() && (#[trigger] d.extracted_pages[m]).page_uuid
            == r.page_uuid;
    assert(after.extracted_pages[m].page_uuid == r.page_uuid);
    assert forall|i: int| #[trigger] first_page(after, r.page_uuid, i) implies after.extracted_pages[i].page
        == r.page by {
        assert(first_page(d, r.page_uuid, i));
    }
}

/// Appending a build result to a consistent document keeps it consistent: the
/// run, the parents and the pages that its entries refer to are all there.
pub proof fn appending_keeps_consistency(
    d: DocView,
    run: ExtractionView,
    rows: Seq<RowView>,
    entries: Seq<TocEntryView>,
)
    requires
        consistent(d),
        pages_agree(d),
        entries_match(rows, d, run.uuid, entries),
    ensures
        consistent(with_toc(d, run, entries)),
{
    let after = with_toc(d, run, entries);
    let n = d.toc.len() as int;
    let last = d.extractions.len() as int;
    assert(after.extractions[last].uuid == run.uuid);
    assert(has_extraction(after, run.uuid));
    assert forall|i: int| 0 <= i < after.extracted_pages.len() implies has_extraction(
        after,
        (#[trigger] after.extracted_pages[i]).extraction_uuid,
    ) by {
        let uuid = d.extracted_pages[i].extraction_uuid;
        assert(has_extraction(d, uuid));
        let k = choose|k: int|
            0 <= k < d.extractions.len() && (#[trigger] d.extractions[k]).uuid == uuid;
        assert(after.extractions[k].uuid == uuid);
    }
    assert forall|i: int| 0 <= i < after.toc.len() implies entry_resolves(
        after,
        #[trigger] after.toc[i],
    ) by {
        let t = after.toc[i];
        if i < n {
            assert(t == d.toc[i]);
            assert(entry_resolves(d, d.toc[i]));
            let k = choose|k: int|
                0 <= k < d.extractions.len() && (#[trigger] d.extractions[k]).uuid == t.built_by;
            assert(after.extractions[k].uuid == t.built_by);
            if let Some(parent) = t.parent {
                let m = choose|m: int| 0 <= m < d.toc.len() && (#[trigger] d.toc[m]).id == parent;
                assert(after.toc[m].id == parent);
            }
            assert forall|j: int| 0 <= j < t.page_refs.len() implies ref_resolves(
                after,
                #[trigger] t.page_refs[j],
            ) by {
                resolving_is_kept(d, run, entries, t.page_refs[j]);
            }
        } else {
            let e = i - n;
            assert(t == entries[e]);
            assert(entry_matches(rows, d, run.uuid, entries, e));
            parent_row_is_nearest(rows, e);
            if let Some(j) = parent_row(rows, e) {
                assert(after.toc[n + j].id == entries[j].id);
            }
            assert(d.extracted_pages.take(d.extracted_pages.len() as int) =~= d.extracted_pages);
            assert forall|j: int| 0 <= j < t.page_refs.len() implies ref_resolves(
                after,
                #[trigger] t.page_refs[j],
            ) by {
                refs_resolve(d, d.extracted_pages, target_page(rows[e]), j);
                resolving_is_kept(d, run, entries, t.page_refs[j]);
            }
        }
    }
}

/// An entry's parent is an earlier entry on a smaller level.
pub proof fn parents_are_above(
    rows: Seq<RowView>,
    d: DocView,
    built_by: ExtractionId,
    entries: Seq<TocEntryView>,
    i: int,
)
    requires
        entries_match(rows, d, built_by, entries),
        0 <= i < entries.len(),
    ensures
        match entries[i].parent {
            Some(id) => exists|j: int|
                #![trigger entries[j]]
                0 <= j < i && entries[j].id == id && entries[j].level < entries[i].level,
            None => forall|j: int|
                0 <= j < i ==> (#[trigger] entries[j]).level >= entries[i].level,
        },
{
    parent_row_is_nearest(rows, i);
    assert(entry_matches(rows, d, built_by, entries, i));
    match parent_row(rows, i) {
        Some(j) => {
            assert(entry_matches(rows, d, built_by, entries, j));
            assert(entries[j].id == entries[i].parent->0);
        },
        None => {
            assert forall|j: int| 0 <= j < i implies (#[trigger] entries[j]).level
                >= entries[i].level by {
                assert(entry_matches(rows, d, built_by, entries, j));
                assert(rows[j].level >= rows[i].level);
            }
        },
    }
}

/// Does each entry name the run as its maker, and an earlier entry as its parent if
/// it has one?
pub open spec fn hangs_together(run: ExtractionId, entries: Seq<TocEntryView>) -> bool {
    forall|i: int|
        #![trigger entries[i]]
        0 <= i < entries.len() ==> entries[i].built_by == run && (
        entries[i].parent matches Some(id) ==> exists|j: int|
            #![trigger entries[j]]
            0 <= j < i && entries[j].id == id)
}

/// Does the build hang together, and is a consistent document still so with it? Its
/// records of one page identity have to agree on their page number.
pub open spec fn fits_in(d: DocView, b: TocBuildResult) -> bool {
    &&& hangs_together(b.extraction@.uuid, views(b.entries@))
    &&& consistent(d) && pages_agree(d) ==> consistent(
        with_toc(d, b.extraction@, views(b.entries@)),
    )
}

/// Entries that match rows hang together, and keep a consistent document so.
pub proof fn build_fits_in(
    rows: Seq<RowView>,
    d: DocView,
    run: ExtractionView,
    entries: Seq<TocEntryView>,
)
    requires
        entries_match(rows, d, run.uuid, entries),
    ensures
        hangs_together(run.uuid, entries),
        consistent(d) && pages_agree(d) ==> consistent(with_toc(d, run, entries)),
{
    assert forall|i: int| 0 <= i < entries.len() implies (#[trigger] entries[i]).built_by
        == run.uuid && (entries[i].parent matches Some(id) ==> exists|j: int|
        #![trigger entries[j]]
        0 <= j < i && entries[j].id == id) by {
        assert(entry_matches(rows, d, run.uuid, entries, i));
        parents_are_above(rows, d, run.uuid, entries, i);
    }
    if consistent(d) && pages_agree(d) {
        appending_keeps_consistency(d, run, rows, entries);
    }
}

// ---------------------------------------------------------------------------
// Building by headings
// ---------------------------------------------------------------------------

/// The parameters that name the page range of a build.
pub open spec fn range_params(
    params: Seq<(Seq<char>, Json)>,
    first: u32,
    last: u32,
) -> Seq<(Seq<char>, Json)> {
    with_param(
        with_param(params, "page_start"@, whole_json(first as i64)),
        "page_end_inclusive"@,
        whole_json(last as i64),
    )
}

fn set_range(params: &mut Params, first: u32, last: u32)
    ensures
        final(params)@ == range_params(old(params)@, first, last),
{
    params.insert(String::from_str("page_start"), crate::json::of_i64(first as i64));
    params.insert(String::from_str("page_end_inclusive"), crate::json::of_i64(last as i64));
}

/// Is this a build from the Markdown headings of the pages between `first` and
/// `last`?
pub open spec fn is_heading_build(d: DocView, first: u32, last: u32, b: TocBuildResult) -> bool {
    let pages = pass1_pages(d.extracted_pages, first, last);
    &&& b.extraction@.model == "toc-heuristic@v1"@
    &&& b.extraction@.prompt == "(heuristic markdown-heading parser, no LLM call)"@
    &&& b.extraction@.params == range_params(Seq::empty(), first, last)
    &&& run_is_new(b.extraction@)
    &&& entries_match(
        heading_rows(pages, pages.len()),
        d,
        b.extraction@.uuid,
        views(b.entries@),
    )
    &&& entries_are_new(views(b.entries@))
    &&& b.issues@.len() == 0
}

/// Build a table of contents from the Markdown headings of the pages between
/// `first` and `last`.
pub fn build_via_heuristic(doc: &Doc, first: u32, last: u32) -> (r: TocBuildResult)
    ensures
        is_heading_build(doc@, first, last, r),
        fits_in(doc@, r),
{
    let pages = collect_pass1_pages(doc, first, last);
    let mut params = Params::new();
    set_range(&mut params, first, last);
    let extraction = Extraction {
        uuid: ExtractionId::new(),
        model: ModelId(String::from_str("toc-heuristic@v1")),
        prompt: PromptText(String::from_str("(heuristic markdown-heading parser, no LLM call)")),
        params,
        created_at: Timestamp::now(),
    };
    let rows = rows_from_headings(&pages);
    let entries = build_entries(&rows, doc, extraction.uuid);
    proof {
        build_fits_in(views(rows@), doc@, extraction@, views(entries@));
    }
    TocBuildResult { extraction, entries, issues: Vec::new() }
}

// ---------------------------------------------------------------------------
// Building by a language model
// ---------------------------------------------------------------------------

/// Server of the language model.
pub const QWEN_35B_URL: &'static str =
    "https://ferrite-systems--parselab-qwen36-35b-a3b-serve.modal.run";

/// The language model.
pub const QWEN_35B_MODEL: &'static str = "Qwen/Qwen3.6-35B-A3B";

/// Output budget of the answer.
pub const MAX_TOKENS: u32 = 16384;

/// How a table of contents is built.
#[derive(Debug, Clone)]
enum Backend {
    Llm { url: String, model: String },
    Heuristic,
}

/// A builder of tables of contents.
#[derive(Debug, Clone)]
pub struct TocBuilder {
    backend: Backend,
}

impl TocBuilder {
    /// Is this a builder by the language model `model` at `url`?
    pub closed spec fn asks(&self, url: Seq<char>, model: Seq<char>) -> bool {
        self.backend matches Backend::Llm { url: u, model: m } && u@ == url && m@ == model
    }

    /// Is this a builder by headings?
    pub closed spec fn is_heuristic(&self) -> bool {
        self.backend is Heuristic
    }

    /// The builder by the deployed language model.
    pub fn new_qwen_35b() -> (r: Self)
        ensures
            r.asks(QWEN_35B_URL@, QWEN_35B_MODEL@),
    {
        TocBuilder {
            backend: Backend::Llm {
                url: String::from_str(QWEN_35B_URL),
                model: String::from_str(QWEN_35B_MODEL),
            },
        }
    }

    /// A builder by another language model.
    pub fn with_endpoint(url: &str, model: &str) -> (r: Self)
        ensures
            r.asks(url@, model@),
    {
        TocBuilder {
            backend: Backend::Llm { url: String::from_str(url), model: String::from_str(model) },
        }
    }

    /// The builder by headings: no server, and usually a flatter result.
    pub fn heuristic() -> (r: Self)
        ensures
            r.is_heuristic(),
    {
        TocBuilder { backend: Backend::Heuristic }
    }

    /// Build a table of contents from the Markdown of the pages between `first` and
    /// `last`: at once from the headings, or with what the language model answers.
    pub fn build(&self, doc: &Doc, first: u32, last: u32, temperature: &Real) -> (r: Result<
        BuildStep,
        Error,
    >)
        ensures
            self.is_heuristic() ==> (r matches Ok(BuildStep::Done(b)) && is_heading_build(
                doc@,
                first,
                last,
                b,
            ) && fits_in(doc@, b)),
            forall|url: Seq<char>, model: Seq<char>| #[trigger]
                self.asks(url, model) ==> match r {
                    Ok(BuildStep::Ask { url: u, model: m, plan }) => u@ == url && m@ == model
                        && is_llm_plan(doc@, first, last, model, temperature@, plan),
                    Ok(BuildStep::Done(_)) => false,
                    Err(e) => pass1_pages(doc@.extracted_pages, first, last).len() == 0 && e@
                        == no_pages(first, last),
                },
    {
        match &self.backend {
            Backend::Heuristic => Ok(BuildStep::Done(build_via_heuristic(doc, first, last))),
            Backend::Llm { url, model } => match llm_plan(
                doc,
                first,
                last,
                model.as_str(),
                temperature,
            ) {
                Ok(plan) => Ok(BuildStep::Ask { url: url.clone(), model: model.clone(), plan }),
                Err(e) => Err(e),
            },
        }
    }
}

/// What there is to do to build a table of contents.
#[derive(Debug, Clone)]
pub enum BuildStep {
    /// It is built.
    Done(TocBuildResult),
    /// The language model has to be asked; [`finish_llm_build`] does the rest.
    Ask { url: String, model: String, plan: LlmPlan },
}

/// What goes to the language model, and the run record that it is filed under.
#[derive(Debug, Clone)]
pub struct LlmPlan {
    pub prompt: String,
    pub extraction: Extraction,
}

/// Why there is nothing to ask.
pub open spec fn no_pages(first: u32, last: u32) -> ErrorView {
    ErrorView::TocBuild(
        "no Pass 1 markdown PageExtractions in range "@ + decimal(first as nat) + "..="@ + decimal(
            last as nat,
        ),
    )
}

/// The parameters that a run of the language model is recorded with.
pub open spec fn llm_params(temperature: Seq<char>, first: u32, last: u32) -> Seq<
    (Seq<char>, Json),
> {
    range_params(
        with_param(
            with_param(Seq::empty(), "max_tokens"@, whole_json(MAX_TOKENS as i64)),
            "temperature"@,
            real_json(temperature),
        ),
        first,
        last,
    )
}

/// Is this the plan of a build from the pages between `first` and `last`, of which
/// there is one at least?
pub open spec fn is_llm_plan(
    d: DocView,
    first: u32,
    last: u32,
    model: Seq<char>,
    temperature: Seq<char>,
    plan: LlmPlan,
) -> bool {
    let pages = pass1_pages(d.extracted_pages, first, last);
    &&& pages.len() > 0
    &&& plan.prompt@ == toc_prompt(pages)
    &&& plan.extraction@.model == model
    &&& plan.extraction@.prompt == toc_prompt(pages)
    &&& plan.extraction@.params == llm_params(temperature, first, last)
    &&& run_is_new(plan.extraction@)
}

/// Plan a build from the pages between `first` and `last`. Without a Markdown
/// page there is nothing to ask.
pub fn llm_plan(doc: &Doc, first: u32, last: u32, model: &str, temperature: &Real) -> (r: Result<
    LlmPlan,
    Error,
>)
    ensures
        ({
            let pages = pass1_pages(doc@.extracted_pages, first, last);
            match r {
                Err(e) => pages.len() == 0 && e@ == no_pages(first, last),
                Ok(plan) => is_llm_plan(doc@, first, last, model@, temperature@, plan),
            }
        }),
{
    let pages = collect_pass1_pages(doc, first, last);
    assert(shown(pages@).len() == pages@.len());
    if pages.len() == 0 {
        return Err(
            Error::TocBuild(
                String::from_str("no Pass 1 markdown PageExtractions in range ").concat(
                    decimal_text(first as u64).as_str(),
                ).concat("..=").concat(decimal_text(last as u64).as_str()),
            ),
        );
    }
    let prompt = build_prompt(&pages);
    let mut params = Params::new();
    params.insert(String::from_str("max_tokens"), crate::json::of_i64(MAX_TOKENS as i64));
    params.insert(String::from_str("temperature"), crate::json::of_real(temperature));
    set_range(&mut params, first, last);
    let extraction = Extraction {
        uuid: ExtractionId::new(),
        model: ModelId(String::from_str(model)),
        prompt: PromptText(prompt.clone()),
        params,
        created_at: Timestamp::now(),
    };
    Ok(LlmPlan { prompt, extraction })
}

/// A prompt without an image and without reasoning.
pub open spec fn quiet_prompt(
    model: Seq<char>,
    prompt: Seq<char>,
    max_tokens: u32,
    temperature: Seq<char>,
) -> ChatRequestView {
    ChatRequestView {
        chat_template_kwargs: Some(no_thinking()),
        ..text_request(model, prompt, max_tokens, temperature)
    }
}

/// The request that asks for the table of contents.
pub fn toc_request(model: &str, prompt: &str, temperature: Real) -> (r: ChatRequest)
    ensures
        r@ == quiet_prompt(model@, prompt@, MAX_TOKENS, temperature@),
{
    ChatRequest::text_only(model, prompt, MAX_TOKENS, temperature).without_thinking()
}

/// The smallest request: it asks for one token, to find out whether the server
/// is up.
pub fn ping_request(model: &str, temperature: Real) -> (r: ChatRequest)
    ensures
        r@ == quiet_prompt(model@, "ping"@, 1, temperature@),
{
    ChatRequest::text_only(model, "ping", 1, temperature).without_thinking()
}

/// The answer in the outcome of a request, or the error.
pub open spec fn answer_in(o: HttpOutcome) -> Result<Seq<char>, ErrorView> {
    match o {
        HttpOutcome::Transport(e) => Err(ErrorView::Transport(e@)),
        HttpOutcome::Status { status, body } => Err(ErrorView::HttpStatus { status, body: body@ }),
        HttpOutcome::Undecodable(e) => Err(ErrorView::Transport(e@)),
        HttpOutcome::Decoded(r) => match first_content(r) {
            Some(s) => Ok(s),
            None => Err(ErrorView::TocBuild("response had no message content"@)),
        },
    }
}

/// The answer in the outcome of a request, or the error.
pub fn read_answer(o: HttpOutcome) -> (r: Result<String, Error>)
    ensures
        match r {
            Ok(s) => answer_in(o) == Ok::<Seq<char>, ErrorView>(s@),
            Err(e) => answer_in(o) == Err::<Seq<char>, ErrorView>(e@),
        },
{
    match o {
        HttpOutcome::Transport(e) => Err(Error::Transport(e)),
        HttpOutcome::Status { status, body } => Err(Error::HttpStatus { status, body }),
        HttpOutcome::Undecodable(e) => Err(Error::Transport(e)),
        HttpOutcome::Decoded(body) => {
            let none = String::from_str("response had no message content");
            if body.choices.len() == 0 {
                return Err(Error::TocBuild(none));
            }
            match &body.choices[0].message.content {
                Some(s) => Ok(s.clone()),
                None => Err(Error::TocBuild(none)),
            }
        },
    }
}

/// The JSON in an answer: what stands inside a code fence, if there is one.
pub open spec fn json_part(raw: Seq<char>) -> Seq<char> {
    let t = trim(raw);
    if !starts_with(t, "```"@) {
        t
    } else {
        let opened = if starts_with(t, "```json"@) {
            t.skip("```json"@.len() as int)
        } else {
            t.skip("```"@.len() as int)
        };
        let inner = trim_start(opened, CharClass::Newline);
        if ends_with(inner, "```"@) {
            inner.take(inner.len() - "```"@.len())
        } else {
            inner
        }
    }
}

/// The JSON in an answer.
pub fn response_json(raw: &str) -> (r: String)
    ensures
        r@ == json_part(raw@),
{
    let t = trimmed(&chars_of(raw));
    let fence = chars_of("```");
    let tagged = chars_of("```json");
    if !has_prefix(&t, &fence) {
        return string_of(&t);
    }
    let from: usize = if has_prefix(&t, &tagged) {
        tagged.len()
    } else {
        fence.len()
    };
    let opened = slice(&t, from, t.len());
    assert(opened@ =~= t@.skip(from as int));
    let inner = trimmed_start(&opened, CharClass::Newline);
    if has_suffix(&inner, &fence) {
        let body = slice(&inner, 0, inner.len() - fence.len());
        assert(body@ =~= inner@.take(inner@.len() - fence@.len()));
        string_of(&body)
    } else {
        string_of(&inner)
    }
}

/// A decoded answer.
#[derive(Debug, Clone)]
pub struct LlmResponse {
    pub rows: Vec<LlmRow>,
    pub issues: Vec<TocIssue>,
}

/// A row as the model gives it: any part may be missing.
#[derive(Debug, Clone)]
pub struct LlmRow {
    pub level: Option<u8>,
    pub number: Option<String>,
    pub title: Option<String>,
    /// The page that the row points to.
    pub page: Option<u32>,
    /// The page that the row was found on.
    pub source_page: Option<u32>,
}

/// What is left of a decoded answer.
#[derive(Debug, Clone)]
pub struct ParsedResponse {
    pub rows: Vec<ParsedRow>,
    pub issues: Vec<TocIssue>,
}

/// The level of a row: 1 where the model gives none or 0.
pub open spec fn row_level(level: Option<u8>) -> u8 {
    match level {
        Some(l) => if l < 1 {
            1
        } else {
            l
        },
        None => 1,
    }
}

/// The row, if it has a title and names the page it was found on.
pub open spec fn usable_row(row: LlmRow) -> Option<RowView> {
    match (row.title, row.source_page) {
        (Some(title), Some(source_page)) => if title@.len() == 0 {
            None
        } else {
            Some(
                RowView {
                    level: row_level(row.level),
                    number: opt_view(row.number),
                    title: title@,
                    destination_page: row.page,
                    source_page,
                },
            )
        },
        _ => None,
    }
}

/// The usable ones of the first `n` rows.
pub open spec fn usable_rows(rows: Seq<LlmRow>, n: nat) -> Seq<RowView>
    decreases n,
{
    if n == 0 {
        Seq::empty()
    } else {
        let rest = usable_rows(rows, (n - 1) as nat);
        match usable_row(rows[n - 1]) {
            Some(r) => rest.push(r),
            None => rest,
        }
    }
}

fn keep_row(row: &LlmRow) -> (r: Option<ParsedRow>)
    ensures
        opt_view(r) == usable_row(*row),
{
    let title = match &row.title {
        Some(t) => t,
        None => return None,
    };
    let source_page: u32 = match row.source_page {
        Some(p) => p,
        None => return None,
    };
    if title.as_str().is_empty() {
        return None;
    }
    let level: u8 = match row.level {
        Some(l) => if l < 1 {
            1
        } else {
            l
        },
        None => 1,
    };
    let number = match &row.number {
        Some(s) => Some(s.clone()),
        None => None,
    };
    Some(
        ParsedRow { level, number, title: title.clone(), destination_page: row.page, source_page },
    )
}

/// Keep the usable rows of a decoded answer, in order.
pub fn parse_rows(resp: LlmResponse) -> (r: ParsedResponse)
    ensures
        views(r.rows@) == usable_rows(resp.rows@, resp.rows@.len()),
        r.issues == resp.issues,
{
    let mut rows: Vec<ParsedRow> = Vec::new();
    assert(views(rows@) =~= usable_rows(resp.rows@, 0));
    for i in 0..resp.rows.len()
        invariant
            views(rows@) == usable_rows(resp.rows@, i as nat),
    {
        let ghost before = views(rows@);
        if let Some(row) = keep_row(&resp.rows[i]) {
            rows.push(row);
            assert(views(rows@) =~= before.push(row@));
        }
    }
    ParsedResponse { rows, issues: resp.issues }
}

/// The error for an answer that does not decode.
pub fn undecodable_answer(why: &str) -> (r: Error)
    ensures
        r@ == ErrorView::TocBuild("decode: "@ + why@),
{
    Error::TocBuild(String::from_str("decode: ").concat(why))
}

/// Complete a build with the rows of the answer. Without a row there is nothing to
/// build from, and the caller can build by headings instead.
pub fn finish_llm_build(plan: LlmPlan, parsed: ParsedResponse, doc: &Doc) -> (r: Result<
    TocBuildResult,
    Error,
>)
    ensures
        parsed.rows@.len() == 0 <==> r is Err,
        match r {
            Err(e) => e@ == ErrorView::TocBuild("response had no extractable rows"@),
            Ok(b) => {
                &&& b.extraction == plan.extraction
                &&& entries_match(
                    views(parsed.rows@),
                    doc@,
                    plan.extraction@.uuid,
                    views(b.entries@),
                )
                &&& entries_are_new(views(b.entries@))
                &&& b.issues == parsed.issues
                &&& fits_in(doc@, b)
            },
        },
{
    if parsed.rows.len() == 0 {
        return Err(Error::TocBuild(String::from_str("response had no extractable rows")));
    }
    let entries = build_entries(&parsed.rows, doc, plan.extraction.uuid);
    proof {
        build_fits_in(views(parsed.rows@), doc@, plan.extraction@, views(entries@));
    }
    Ok(TocBuildResult { extraction: plan.extraction, entries, issues: parsed.issues })
}

// ---------------------------------------------------------------------------
// Waiting for the server
// ---------------------------------------------------------------------------

/// How long to wait for a server that is starting, in milliseconds.
pub const WARM_UP_MAX_WAIT_MS: u64 = 600_000;

/// How long to wait between two pings, in milliseconds.
pub const WARM_UP_BACKOFF_MS: u64 = 20_000;

/// What became of a ping.
#[derive(Debug, Clone)]
pub enum PingOutcome {
    Success,
    /// A status other than success.
    Status { status: u16, body: String },
    /// Timed out, or nobody answered.
    Unreachable,
    /// Any other failure to get through.
    Failed(String),
}

/// What to do after a ping.
#[derive(Debug, Clone)]
pub enum WarmUpNext {
    /// The server is up.
    Ready,
    /// Ping again after the backoff.
    Retry,
    GiveUp(Error),
}

/// What to do after a ping, and whether to tell the user that the server is
/// starting.
#[derive(Debug, Clone)]
pub struct WarmUpStep {
    pub announce: bool,
    pub next: WarmUpNext,
}

/// The wait for a server that may be starting.
#[derive(Debug, Clone, Copy, PartialEq, Eq, Structural)]
pub struct WarmUp {
    /// Has the user been told that the server is starting?
    pub announced: bool,
}

/// Does this outcome mean that the server is still starting?
pub open spec fn is_starting(o: PingOutcome) -> bool {
    o is Unreachable || (o matches PingOutcome::Status { status, .. } && status == 408)
}

pub open spec fn timed_out(shown_secs: u64) -> ErrorView {
    ErrorView::TocBuild("warm-up timed out after "@ + decimal(shown_secs as nat) + "s"@)
}

impl WarmUp {
    pub fn new() -> (r: Self)
        ensures
            !r.announced,
    {
        WarmUp { announced: false }
    }

    /// Decide what to do after a ping, `waited_ms` after the first one.
    /// `shown_secs` is the wait in seconds, as it is shown to the user.
    pub fn step(&mut self, o: PingOutcome, waited_ms: u64, shown_secs: u64) -> (r: WarmUpStep)
        ensures
            final(self).announced == (old(self).announced || is_starting(o)),
            r.announce == (is_starting(o) && !old(self).announced),
            match o {
                PingOutcome::Success => r.next is Ready,
                PingOutcome::Failed(e) => r.next matches WarmUpNext::GiveUp(x) && x@
                    == ErrorView::Transport(e@),
                PingOutcome::Status { status, body } => status != 408 ==> (
                r.next matches WarmUpNext::GiveUp(x) && x@ == (ErrorView::HttpStatus {
                    status,
                    body: body@,
                })),
                PingOutcome::Unreachable => true,
            },
            is_starting(o) ==> if waited_ms >= WARM_UP_MAX_WAIT_MS {
                r.next matches WarmUpNext::GiveUp(x) && x@ == timed_out(shown_secs)
            } else {
                r.next is Retry
            },
    {
        let next = match o {
            PingOutcome::Success => Some(WarmUpNext::Ready),
            PingOutcome::Failed(e) => Some(WarmUpNext::GiveUp(Error::Transport(e))),
            PingOutcome::Status { status, body } => if status == 408 {
                None
            } else {
                Some(WarmUpNext::GiveUp(Error::HttpStatus { status, body }))
            },
            PingOutcome::Unreachable => None,
        };
        match next {
            Some(next) => WarmUpStep { announce: false, next },
            None => {
                let announce = !self.announced;
                self.announced = true;
                if waited_ms >= WARM_UP_MAX_WAIT_MS {
                    let why = String::from_str("warm-up timed out after ").concat(
                        decimal_text(shown_secs).as_str(),
                    ).concat("s");
                    WarmUpStep { announce, next: WarmUpNext::GiveUp(Error::TocBuild(why)) }
                } else {
                    WarmUpStep { announce, next: WarmUpNext::Retry }
                }
            },
        }
    }
}

} // verus!
