//! The texts that the inspector shows.

use crate::ad_hoc::{AdHocResponse, AdHocResponseView, AdHocUsage};
use crate::component::{
    ComponentRow, ComponentRowView, component_json, component_rows, parse_component_json,
    value_rows,
};
use crate::ids::{ExtractionId, TocEntryId, id_text, uuid_text};
use crate::inspector::{InspectorPane, RequestState};
use crate::inspector_model::{
    PaneView, RequestView, SPINNER_FRAMES, SelectedRow, block_at, entry_of, record_of, run_of,
};
use crate::inspector_rows::{find_block, find_entry, find_record, find_run};
use crate::ir::{
    BBox, BBoxView, Content, ContentView, Doc, DocView, PageExtraction, PageExtractionView,
    StructuredBlock, StructuredBlockView, TocEntry, TocEntryView, on_page, opt_view, views,
};
use crate::text::{
    chars_of, decimal, decimal_text, has_prefix, join, joined, replace, replaced, same, slice,
    starts_with, string_of, texts,
};
use vstd::prelude::*;
use vstd::utf8::encode_utf8;

verus! {

/// The ending of a word that counts `n` things.
pub open spec fn plural_ending(n: nat) -> Seq<char> {
    if n == 1 {
        ""@
    } else {
        "s"@
    }
}

pub fn plural(n: usize) -> (r: &'static str)
    ensures
        r@ == plural_ending(n as nat),
{
    if n == 1 {
        ""
    } else {
        "s"
    }
}

/// `n` things: the number and the word, with an ending where needed.
pub open spec fn counted(n: nat, word: Seq<char>) -> Seq<char> {
    decimal(n) + word + plural_ending(n)
}

fn count_text(n: usize, word: &str) -> (r: String)
    ensures
        r@ == counted(n as nat, word@),
{
    decimal_text(n as u64).concat(word).concat(plural(n))
}

/// The first `n` characters of a text.
pub open spec fn head(s: Seq<char>, n: nat) -> Seq<char> {
    if s.len() <= n {
        s
    } else {
        s.take(n as int)
    }
}

fn head_of(s: &[char], n: usize) -> (r: String)
    ensures
        r@ == head(s@, n as nat),
{
    let count: usize = if s.len() <= n {
        s.len()
    } else {
        n
    };
    let part = slice(s, 0, count);
    assert(part@ =~= head(s@, n as nat));
    string_of(part.as_slice())
}

// ---------------------------------------------------------------------------
// Header
// ---------------------------------------------------------------------------

/// How much of a document there is.
pub open spec fn summary_line(p: PaneView) -> Seq<char> {
    match p.doc {
        Some(d) => decimal(p.page_count as nat) + " pages · "@ + counted(
            d.extractions.len(),
            " extraction"@,
        ) + " · "@ + counted(d.extracted_pages.len(), " page record"@),
        None => decimal(p.page_count as nat) + " pages · no extraction sidecar"@,
    }
}

/// The beginning of the hash of the source, without the name of its algorithm.
pub open spec fn hash_head(hash: Seq<char>) -> Seq<char> {
    let digits = if starts_with(hash, "sha256:"@) {
        hash.skip("sha256:"@.len() as int)
    } else {
        hash
    };
    "sha256:"@ + head(digits, 12) + "…"@
}

impl InspectorPane {
    /// How much of a document there is.
    pub fn summary_line(&self) -> (r: String)
        ensures
            r@ == summary_line(self@),
    {
        let pages = decimal_text(self.page_count() as u64);
        match self.doc() {
            Some(d) => {
                let runs = count_text(d.extractions.len(), " extraction");
                let records = count_text(d.extracted_pages.len(), " page record");
                pages.concat(" pages · ").concat(runs.as_str()).concat(" · ").concat(
                    records.as_str(),
                )
            },
            None => pages.concat(" pages · no extraction sidecar"),
        }
    }

    /// The beginning of the hash of the source, where there is a document.
    pub fn hash_line(&self) -> (r: Option<String>)
        ensures
            match r {
                Some(t) => self@.doc matches Some(d) && t@ == hash_head(d.content_hash),
                None => self@.doc is None,
            },
    {
        match self.doc() {
            None => None,
            Some(d) => {
                let hash = chars_of(d.content_hash.0.as_str());
                let prefix = chars_of("sha256:");
                let digits = if has_prefix(hash.as_slice(), prefix.as_slice()) {
                    let rest = slice(hash.as_slice(), prefix.len(), hash.len());
                    assert(rest@ =~= hash@.skip(prefix@.len() as int));
                    rest
                } else {
                    hash
                };
                let start = head_of(digits.as_slice(), 12);
                Some(String::from_str("sha256:").concat(start.as_str()).concat("…"))
            },
        }
    }
}

// ---------------------------------------------------------------------------
// Rows
// ---------------------------------------------------------------------------

/// The mark of a row that can be opened.
pub open spec fn triangle_text(can_open: bool, open: bool) -> Seq<char> {
    if !can_open {
        "·"@
    } else if open {
        "▼"@
    } else {
        "▶"@
    }
}

pub fn triangle(can_open: bool, open: bool) -> (r: &'static str)
    ensures
        r@ == triangle_text(can_open, open),
{
    if !can_open {
        "·"
    } else if open {
        "▼"
    } else {
        "▶"
    }
}

/// The name of a page: pages are counted from 1.
pub open spec fn page_title(page: u32) -> Seq<char> {
    "Page "@ + decimal((page + 1) as nat)
}

pub fn page_row_title(page: u32) -> (r: String)
    ensures
        r@ == page_title(page),
{
    String::from_str("Page ").concat(decimal_text(page as u64 + 1).as_str())
}

/// A word for what a record holds.
pub open spec fn content_mark(c: ContentView) -> Seq<char> {
    match c {
        ContentView::Markdown(_) => "md"@,
        ContentView::Structured(s) => decimal(s.blocks.len()) + "b"@,
        ContentView::Error(_) => "err"@,
    }
}

/// What the records of a page hold.
pub open spec fn page_summary_text(records: Seq<PageExtractionView>) -> Seq<char> {
    if records.len() == 0 {
        "—"@
    } else {
        joined(records.map_values(|r: PageExtractionView| content_mark(r.content)), " · "@)
    }
}

fn mark_of(c: &Content) -> (r: String)
    ensures
        r@ == content_mark(c@),
{
    match c {
        Content::Markdown(_) => String::from_str("md"),
        Content::Structured(s) => decimal_text(s.blocks.len() as u64).concat("b"),
        Content::Error(_) => String::from_str("err"),
    }
}

/// What the records of page `page` hold.
pub fn page_summary(doc: &Doc, page: u32) -> (r: String)
    ensures
        r@ == page_summary_text(on_page(doc@.extracted_pages, page)),
{
    let records = doc.page_extractions(page);
    let ghost shown = on_page(doc@.extracted_pages, page);
    let ghost marks = shown.map_values(|r: PageExtractionView| content_mark(r.content));
    assert(records@.len() == shown.len());
    if records.len() == 0 {
        return String::from_str("—");
    }
    let mut parts: Vec<String> = Vec::new();
    for i in 0..records.len()
        invariant
            records@.map_values(|p: &PageExtraction| p@) == shown,
            marks == shown.map_values(|r: PageExtractionView| content_mark(r.content)),
            texts(parts@) == marks.take(i as int),
    {
        assert(shown[i as int] == records@[i as int]@) by {
            assert(records@.map_values(|p: &PageExtraction| p@)[i as int] == records@[i as int]@);
        }
        let mark = mark_of(&records[i].content);
        assert(marks[i as int] == mark@);
        let ghost done = texts(parts@);
        parts.push(mark);
        assert(texts(parts@) =~= done.push(mark@));
        assert(texts(parts@) =~= marks.take(i + 1));
    }
    assert(marks.take(marks.len() as int) =~= marks);
    join(&parts, " · ")
}

/// The model of a run.
pub open spec fn model_text(d: DocView, run: ExtractionId) -> Seq<char> {
    match run_of(d.extractions, run) {
        Some(e) => e.model,
        None => "(unknown model)"@,
    }
}

pub fn model_label(doc: &Doc, run: ExtractionId) -> (r: String)
    ensures
        r@ == model_text(doc@, run),
{
    match find_run(&doc.extractions, run) {
        Some(e) => e.model.0.clone(),
        None => String::from_str("(unknown model)"),
    }
}

/// What a record holds, for its row. The size of a text is that of its UTF-8
/// bytes.
pub open spec fn variant_text(c: ContentView) -> Seq<char> {
    match c {
        ContentView::Markdown(m) => "markdown · "@ + decimal(
            encode_utf8(m).len() as usize as nat,
        ) + " chars"@,
        ContentView::Structured(s) => "structured · "@ + counted(s.blocks.len(), " block"@),
        ContentView::Error(e) => "error · "@ + e.kind,
    }
}

pub fn variant_label(c: &Content) -> (r: String)
    ensures
        r@ == variant_text(c@),
{
    match c {
        Content::Markdown(m) => {
            let size: usize = m.markdown.as_str().len();
            String::from_str("markdown · ").concat(decimal_text(size as u64).as_str()).concat(
                " chars",
            )
        },
        Content::Structured(s) => String::from_str("structured · ").concat(
            count_text(s.blocks.len(), " block").as_str(),
        ),
        Content::Error(e) => String::from_str("error · ").concat(e.kind.as_str()),
    }
}

/// The level of an entry.
pub open spec fn level_text(level: u8) -> Seq<char> {
    "L"@ + decimal(level as nat)
}

pub fn level_chip(level: u8) -> (r: String)
    ensures
        r@ == level_text(level),
{
    String::from_str("L").concat(decimal_text(level as u64).as_str())
}

/// A page as the table of contents numbers it.
pub open spec fn printed_page(page: u32) -> Seq<char> {
    "p."@ + decimal(page as nat)
}

fn printed(page: u32) -> (r: String)
    ensures
        r@ == printed_page(page),
{
    String::from_str("p.").concat(decimal_text(page as u64).as_str())
}

/// Where an entry begins.
pub open spec fn entry_page_text(e: TocEntryView) -> Seq<char> {
    if e.page_refs.len() > 0 {
        printed_page(e.page_refs[0].page)
    } else {
        "—"@
    }
}

pub fn toc_page_label(e: &TocEntry) -> (r: String)
    ensures
        r@ == entry_page_text(e@),
{
    if e.page_refs.len() > 0 {
        assert(e@.page_refs[0] == e.page_refs@[0]@);
        printed(e.page_refs[0].page)
    } else {
        String::from_str("—")
    }
}

/// The text of a block in one line.
pub open spec fn preview_text(b: StructuredBlockView) -> Seq<char> {
    match b.text {
        Some(t) => replaced(t, '\n', ' '),
        None => "(no text)"@,
    }
}

pub fn block_preview(b: &StructuredBlock) -> (r: String)
    ensures
        r@ == preview_text(b@),
{
    match &b.text {
        Some(t) => string_of(replace(chars_of(t.as_str()).as_slice(), '\n', ' ').as_slice()),
        None => String::from_str("(no text)"),
    }
}

/// The number of a block in its row.
pub fn block_number(idx: usize) -> (r: String)
    ensures
        r@ == decimal(idx as nat) + "."@,
{
    decimal_text(idx as u64).concat(".")
}

// ---------------------------------------------------------------------------
// Details
// ---------------------------------------------------------------------------

/// What is said beside the title of a detail: nothing, a text, or a bounding box
/// whose numbers are to be rounded.
#[derive(Debug, Clone)]
pub enum DetailMeta {
    Nothing,
    Text(String),
    Region(BBox),
}

pub enum DetailMetaView {
    Nothing,
    Text(Seq<char>),
    Region(BBoxView),
}

impl View for DetailMeta {
    type V = DetailMetaView;

    open spec fn view(&self) -> DetailMetaView {
        match *self {
            DetailMeta::Nothing => DetailMetaView::Nothing,
            DetailMeta::Text(t) => DetailMetaView::Text(t@),
            DetailMeta::Region(b) => DetailMetaView::Region(b@),
        }
    }
}

/// The details of the selected row.
#[derive(Debug, Clone)]
pub struct Detail {
    pub title: String,
    pub chip: Option<String>,
    pub meta: DetailMeta,
    pub body: Option<String>,
}

pub struct DetailView {
    pub title: Seq<char>,
    pub chip: Option<Seq<char>>,
    pub meta: DetailMetaView,
    pub body: Option<Seq<char>>,
}

impl View for Detail {
    type V = DetailView;

    open spec fn view(&self) -> DetailView {
        DetailView {
            title: self.title@,
            chip: opt_view(self.chip),
            meta: self.meta@,
            body: opt_view(self.body),
        }
    }
}

/// The titles of the entries above an entry, from the top down to its own. No
/// more than `fuel` of them, counted from the entry.
pub open spec fn lineage(toc: Seq<TocEntryView>, e: TocEntryView, fuel: nat) -> Seq<Seq<char>>
    decreases fuel,
{
    if fuel == 0 {
        Seq::empty()
    } else {
        let above = match e.parent {
            None => Seq::empty(),
            Some(p) => match entry_of(toc, p) {
                None => Seq::empty(),
                Some(up) => lineage(toc, up, (fuel - 1) as nat),
            },
        };
        above.push(e.title)
    }
}

/// The pages that an entry refers to.
pub open spec fn pages_text(e: TocEntryView) -> Seq<char> {
    if e.page_refs.len() == 0 {
        "(no page refs)"@
    } else {
        "Pages: "@ + joined(
            e.page_refs.map_values(|r: crate::ir::PageRefView| printed_page(r.page)),
            ", "@,
        )
    }
}

/// The details of an entry: who built it, what stands above it, and its pages.
pub open spec fn toc_detail(d: DocView, e: TocEntryView) -> DetailView {
    DetailView {
        title: "ToC · "@ + e.title,
        chip: Some(level_text(e.level)),
        meta: DetailMetaView::Text(
            "model: "@ + model_text(d, e.built_by) + "  ·  built_by: "@ + head(
                uuid_text(e.built_by.0),
                8,
            ) + "…  ·  "@ + counted(e.page_refs.len(), " page ref"@),
        ),
        body: Some(
            joined(lineage(d.toc, e, d.toc.len() + 1), " › "@) + "\n\n"@ + pages_text(e),
        ),
    }
}

/// The pages that an entry refers to.
fn pages_line(e: &TocEntry) -> (r: String)
    ensures
        r@ == pages_text(e@),
{
    if e.page_refs.len() == 0 {
        return String::from_str("(no page refs)");
    }
    let ghost all = e@.page_refs.map_values(|r: crate::ir::PageRefView| printed_page(r.page));
    let mut parts: Vec<String> = Vec::new();
    for i in 0..e.page_refs.len()
        invariant
            all == e@.page_refs.map_values(|r: crate::ir::PageRefView| printed_page(r.page)),
            texts(parts@) == all.take(i as int),
    {
        assert(e@.page_refs[i as int] == e.page_refs@[i as int]@);
        let part = printed(e.page_refs[i].page);
        assert(all[i as int] == part@);
        let ghost done = texts(parts@);
        parts.push(part);
        assert(texts(parts@) =~= done.push(part@));
        assert(texts(parts@) =~= all.take(i + 1));
    }
    assert(all.take(all.len() as int) =~= all);
    String::from_str("Pages: ").concat(join(&parts, ", ").as_str())
}

/// The titles in the opposite order.
fn reversed(parts: &Vec<String>) -> (r: Vec<String>)
    ensures
        texts(r@) == texts(parts@).reverse(),
{
    let ghost all = texts(parts@).reverse();
    let mut out: Vec<String> = Vec::new();
    for i in 0..parts.len()
        invariant
            all == texts(parts@).reverse(),
            texts(out@) == all.take(i as int),
    {
        let part = parts[parts.len() - 1 - i].clone();
        assert(all[i as int] == part@);
        let ghost done = texts(out@);
        out.push(part);
        assert(texts(out@) =~= done.push(part@));
        assert(texts(out@) =~= all.take(i + 1));
    }
    assert(all.take(all.len() as int) =~= all);
    out
}

/// The titles from the top down to an entry.
fn chain_line(doc: &Doc, e: &TocEntry) -> (r: String)
    ensures
        r@ == joined(lineage(doc@.toc, e@, doc@.toc.len() + 1), " › "@),
{
    let ghost toc = doc@.toc;
    let ghost all = lineage(toc, e@, toc.len() + 1);
    let mut up: Vec<String> = Vec::new();
    let mut cursor: Option<&TocEntry> = Some(e);
    let mut hops: usize = 0;
    let limit: usize = doc.toc.len();
    assert(texts(up@).reverse() =~= Seq::<Seq<char>>::empty());
    assert(all =~= lineage(toc, e@, toc.len() + 1) + texts(up@).reverse());
    while cursor.is_some() && hops <= limit
        invariant
            toc == doc@.toc,
            limit == toc.len(),
            limit == doc.toc@.len(),
            hops <= limit + 1,
            all == (match cursor {
                Some(c) => lineage(toc, c@, (limit + 1 - hops) as nat),
                None => Seq::empty(),
            }) + texts(up@).reverse(),
        decreases
            limit + 1 - hops + (if cursor is Some {
                1int
            } else {
                0int
            }),
    {
        if let Some(c) = cursor {
            let ghost before = texts(up@);
            let title = c.title.clone();
            let ghost fuel = (limit + 1 - hops) as nat;
            up.push(title);
            assert(texts(up@) =~= before.push(title@));
            assert(texts(up@).reverse() =~= seq![title@] + before.reverse());
            let ghost above = match c.parent {
                None => Seq::<Seq<char>>::empty(),
                Some(p) => match entry_of(toc, p) {
                    None => Seq::empty(),
                    Some(up) => lineage(toc, up, (fuel - 1) as nat),
                },
            };
            assert(lineage(toc, c@, fuel) == above.push(title@));
            assert(above.push(title@) + before.reverse() =~= above + texts(up@).reverse());
            cursor = match c.parent {
                None => None,
                Some(p) => find_entry(&doc.toc, p),
            };
            if hops == limit {
                assert(above =~= Seq::<Seq<char>>::empty());
                proof {
                    assert(all =~= texts(up@).reverse());
                }
                cursor = None;
            } else {
                hops = hops + 1;
            }
        }
    }
    assert(all =~= texts(up@).reverse());
    join(&reversed(&up), " › ")
}

/// The details of an entry; nothing where it is missing.
pub fn build_toc_detail(doc: &Doc, id: TocEntryId) -> (r: Option<Detail>)
    ensures
        match r {
            Some(t) => entry_of(doc@.toc, id) matches Some(e) && t@ == toc_detail(doc@, e),
            None => entry_of(doc@.toc, id) is None,
        },
{
    match find_entry(&doc.toc, id) {
        None => None,
        Some(e) => {
            let model = model_label(doc, e.built_by);
            let built_by = chars_of(id_text(e.built_by.0).as_str());
            let short = head_of(built_by.as_slice(), 8);
            let refs = count_text(e.page_refs.len(), " page ref");
            let meta = String::from_str("model: ").concat(model.as_str()).concat(
                "  ·  built_by: ",
            ).concat(short.as_str()).concat("…  ·  ").concat(refs.as_str());
            let body = chain_line(doc, e).concat("\n\n").concat(pages_line(e).as_str());
            Some(
                Detail {
                    title: String::from_str("ToC · ").concat(e.title.as_str()),
                    chip: Some(level_chip(e.level)),
                    meta: DetailMeta::Text(meta),
                    body: Some(body),
                },
            )
        },
    }
}

/// The details of a page.
pub open spec fn page_detail(p: PaneView, page: u32) -> DetailView {
    let count = match p.doc {
        Some(d) => on_page(d.extracted_pages, page).len(),
        None => 0,
    };
    DetailView {
        title: page_title(page),
        chip: None,
        meta: DetailMetaView::Nothing,
        body: Some(
            if count == 0 {
                "No extractions on this page."@
            } else {
                counted(count, " extraction"@) + " on this page. Expand the row to see them."@
            },
        ),
    }
}

/// What a record holds, for its details. The size of a text is that of its
/// characters.
pub open spec fn content_text(c: ContentView) -> Seq<char> {
    match c {
        ContentView::Markdown(m) => "markdown · "@ + decimal(m.len()) + " chars"@,
        ContentView::Structured(s) => counted(s.blocks.len(), " block"@),
        ContentView::Error(e) => "error · "@ + e.kind,
    }
}

/// What there is to read of a record: its text, the prompt of its run, or what
/// went wrong.
pub open spec fn content_body(d: DocView, r: PageExtractionView) -> Option<Seq<char>> {
    match r.content {
        ContentView::Markdown(m) => Some(m),
        ContentView::Structured(_) => match run_of(d.extractions, r.extraction_uuid) {
            Some(e) => Some(e.prompt),
            None => None,
        },
        ContentView::Error(e) => Some(e.message),
    }
}

/// The details of a record.
pub open spec fn run_detail(p: PaneView, page: u32, run: ExtractionId) -> DetailView {
    let title = "Extraction · page "@ + decimal((page + 1) as nat);
    let found = match p.doc {
        Some(d) => record_of(d.extracted_pages, page, run),
        None => None,
    };
    match (p.doc, found) {
        (Some(d), Some(r)) => DetailView {
            title,
            chip: None,
            meta: DetailMetaView::Text(
                "model: "@ + model_text(d, r.extraction_uuid) + "  ·  "@ + content_text(r.content),
            ),
            body: content_body(d, r),
        },
        _ => DetailView {
            title,
            chip: None,
            meta: DetailMetaView::Text("model: (unknown)  ·  "@),
            body: None,
        },
    }
}

/// The details of a block.
pub open spec fn block_detail(p: PaneView, page: u32, run: ExtractionId, idx: usize) -> DetailView {
    let title = "Block "@ + decimal(idx as nat) + " · page "@ + decimal((page + 1) as nat);
    let found = match p.doc {
        Some(d) => block_at(d, page, run, idx),
        None => None,
    };
    match found {
        Some(b) => DetailView {
            title,
            chip: Some(b.kind),
            meta: DetailMetaView::Region(b.bbox),
            body: b.text,
        },
        None => DetailView {
            title,
            chip: Some("(missing)"@),
            meta: DetailMetaView::Text("(0, 0, 0, 0)"@),
            body: None,
        },
    }
}

/// The details of the selected row.
pub open spec fn detail(p: PaneView) -> DetailView {
    match p.selected {
        None => DetailView {
            title: "Detail"@,
            chip: None,
            meta: DetailMetaView::Nothing,
            body: Some("(select a row)"@),
        },
        Some(SelectedRow::Page(page)) => page_detail(p, page),
        Some(SelectedRow::Extraction(page, run)) => run_detail(p, page, run),
        Some(SelectedRow::Block(page, run, idx)) => block_detail(p, page, run, idx),
        Some(SelectedRow::Toc(id)) => {
            let found = match p.doc {
                Some(d) => entry_of(d.toc, id),
                None => None,
            };
            match (p.doc, found) {
                (Some(d), Some(e)) => toc_detail(d, e),
                _ => DetailView {
                    title: "ToC entry"@,
                    chip: None,
                    meta: DetailMetaView::Nothing,
                    body: Some("(missing)"@),
                },
            }
        },
    }
}

impl InspectorPane {
    fn page_detail(&self, page: u32) -> (r: Detail)
        ensures
            r@ == page_detail(self@, page),
    {
        let count: usize = match self.doc() {
            Some(d) => {
                let records = d.page_extractions(page);
                assert(records@.len() == on_page(d@.extracted_pages, page).len());
                records.len()
            },
            None => 0,
        };
        let body = if count == 0 {
            String::from_str("No extractions on this page.")
        } else {
            count_text(count, " extraction").concat(" on this page. Expand the row to see them.")
        };
        Detail { title: page_row_title(page), chip: None, meta: DetailMeta::Nothing, body: Some(body) }
    }

    fn run_detail(&self, page: u32, run: ExtractionId) -> (r: Detail)
        ensures
            r@ == run_detail(self@, page, run),
    {
        let title = String::from_str("Extraction · page ").concat(
            decimal_text(page as u64 + 1).as_str(),
        );
        if let Some(d) = self.doc() {
            if let Some(pe) = find_record(&d.extracted_pages, page, run) {
                let model = model_label(d, pe.extraction_uuid);
                let summary: String;
                let body: Option<String>;
                match &pe.content {
                    Content::Markdown(m) => {
                        let size: usize = chars_of(m.markdown.as_str()).len();
                        summary = String::from_str("markdown · ").concat(
                            decimal_text(size as u64).as_str(),
                        ).concat(" chars");
                        body = Some(m.markdown.clone());
                    },
                    Content::Structured(s) => {
                        summary = count_text(s.blocks.len(), " block");
                        body = match find_run(&d.extractions, pe.extraction_uuid) {
                            Some(e) => Some(e.prompt.0.clone()),
                            None => None,
                        };
                    },
                    Content::Error(e) => {
                        summary = String::from_str("error · ").concat(e.kind.as_str());
                        body = Some(e.message.clone());
                    },
                }
                let meta = String::from_str("model: ").concat(model.as_str()).concat(
                    "  ·  ",
                ).concat(summary.as_str());
                return Detail { title, chip: None, meta: DetailMeta::Text(meta), body };
            }
        }
        Detail {
            title,
            chip: None,
            meta: DetailMeta::Text(String::from_str("model: (unknown)  ·  ")),
            body: None,
        }
    }

    fn block_detail(&self, page: u32, run: ExtractionId, idx: usize) -> (r: Detail)
        ensures
            r@ == block_detail(self@, page, run, idx),
    {
        let title = String::from_str("Block ").concat(decimal_text(idx as u64).as_str()).concat(
            " · page ",
        ).concat(decimal_text(page as u64 + 1).as_str());
        if let Some(d) = self.doc() {
            if let Some(b) = find_block(d, page, run, idx) {
                return Detail {
                    title,
                    chip: Some(b.kind.clone()),
                    meta: DetailMeta::Region(b.bbox.copy()),
                    body: crate::ir::copied_text(&b.text),
                };
            }
        }
        Detail {
            title,
            chip: Some(String::from_str("(missing)")),
            meta: DetailMeta::Text(String::from_str("(0, 0, 0, 0)")),
            body: None,
        }
    }

    /// The details of the selected row.
    pub fn detail(&self) -> (r: Detail)
        ensures
            r@ == detail(self@),
    {
        match self.selected_row() {
            None => Detail {
                title: String::from_str("Detail"),
                chip: None,
                meta: DetailMeta::Nothing,
                body: Some(String::from_str("(select a row)")),
            },
            Some(SelectedRow::Page(page)) => self.page_detail(page),
            Some(SelectedRow::Extraction(page, run)) => self.run_detail(page, run),
            Some(SelectedRow::Block(page, run, idx)) => self.block_detail(page, run, idx),
            Some(SelectedRow::Toc(id)) => {
                if let Some(d) = self.doc() {
                    if let Some(t) = build_toc_detail(d, id) {
                        return t;
                    }
                }
                Detail {
                    title: String::from_str("ToC entry"),
                    chip: None,
                    meta: DetailMeta::Nothing,
                    body: Some(String::from_str("(missing)")),
                }
            },
        }
    }
}

// ---------------------------------------------------------------------------
// Requests
// ---------------------------------------------------------------------------

/// A frame of the spinner.
pub open spec fn spinner_text(frame: int) -> Seq<char> {
    let f = frame % SPINNER_FRAMES as int;
    if f == 0 {
        "⠋"@
    } else if f == 1 {
        "⠙"@
    } else if f == 2 {
        "⠹"@
    } else if f == 3 {
        "⠸"@
    } else if f == 4 {
        "⠼"@
    } else if f == 5 {
        "⠴"@
    } else if f == 6 {
        "⠦"@
    } else if f == 7 {
        "⠧"@
    } else if f == 8 {
        "⠇"@
    } else {
        "⠏"@
    }
}

fn spinner_glyph(frame: usize) -> (r: &'static str)
    ensures
        r@ == spinner_text(frame as int),
{
    let f: usize = frame % SPINNER_FRAMES;
    if f == 0 {
        "⠋"
    } else if f == 1 {
        "⠙"
    } else if f == 2 {
        "⠹"
    } else if f == 3 {
        "⠸"
    } else if f == 4 {
        "⠼"
    } else if f == 5 {
        "⠴"
    } else if f == 6 {
        "⠦"
    } else if f == 7 {
        "⠧"
    } else if f == 8 {
        "⠇"
    } else {
        "⠏"
    }
}

/// How many tokens went in and out.
pub open spec fn usage_text(u: Option<AdHocUsage>) -> Seq<char> {
    match u {
        Some(u) => " · in "@ + decimal(u.prompt_tokens as nat) + " / out "@ + decimal(
            u.completion_tokens as nat,
        ),
        None => ""@,
    }
}

fn usage_part(u: &Option<AdHocUsage>) -> (r: String)
    ensures
        r@ == usage_text(*u),
{
    match u {
        Some(u) => String::from_str(" · in ").concat(
            decimal_text(u.prompt_tokens as u64).as_str(),
        ).concat(" / out ").concat(decimal_text(u.completion_tokens as u64).as_str()),
        None => String::from_str(""),
    }
}

/// Why a model stopped, where that is not the ordinary reason.
pub open spec fn finish_text(reason: Option<Seq<char>>) -> Seq<char> {
    match reason {
        Some(r) => if r == "stop"@ {
            ""@
        } else {
            " · finish="@ + r
        },
        None => ""@,
    }
}

fn finish_part(reason: &Option<String>) -> (r: String)
    ensures
        r@ == finish_text(opt_view(*reason)),
{
    match reason {
        Some(r) => if same(r.as_str(), "stop") {
            String::from_str("")
        } else {
            String::from_str(" · finish=").concat(r.as_str())
        },
        None => String::from_str(""),
    }
}

/// Who answered, after how many seconds, and with how many tokens. `elapsed` is
/// the number of seconds with two decimal places.
pub open spec fn answer_header(r: AdHocResponseView, elapsed: Seq<char>) -> Seq<char> {
    r.model.label_text() + " · "@ + elapsed + "s"@ + usage_text(r.usage)
}

fn answered_by(r: &AdHocResponse, elapsed: &str) -> (s: String)
    ensures
        s@ == answer_header(r@, elapsed@),
{
    String::from_str(r.model.label()).concat(" · ").concat(elapsed).concat("s").concat(
        usage_part(&r.usage).as_str(),
    )
}

/// What is shown of a prompt's answer: a line above it, and the answer.
pub open spec fn answer_text(p: PaneView, elapsed: Seq<char>) -> (Seq<char>, Seq<char>) {
    match p.prompt {
        RequestView::Idle => ("Response"@, "(submit a preset to dispatch)"@),
        RequestView::Pending => (
            "Response · "@ + spinner_text(p.spinner_frame as int) + " working…"@,
            ""@,
        ),
        RequestView::Done(r) => (
            answer_header(r, elapsed) + finish_text(r.finish_reason),
            r.content,
        ),
        RequestView::Failed(m) => ("Response · failed"@, m),
    }
}

/// What is shown in the tab of the component model.
#[derive(Debug, Clone)]
pub enum ComponentBody {
    Empty,
    Working(String),
    Failed(String),
    Rows { header: String, rows: Vec<ComponentRow> },
    /// The answer as it came, where it does not read as JSON.
    Raw { header: String, text: String },
}

pub enum ComponentBodyView {
    Empty,
    Working(Seq<char>),
    Failed(Seq<char>),
    Rows { header: Seq<char>, rows: Seq<ComponentRowView> },
    Raw { header: Seq<char>, text: Seq<char> },
}

impl View for ComponentBody {
    type V = ComponentBodyView;

    open spec fn view(&self) -> ComponentBodyView {
        match *self {
            ComponentBody::Empty => ComponentBodyView::Empty,
            ComponentBody::Working(t) => ComponentBodyView::Working(t@),
            ComponentBody::Failed(t) => ComponentBodyView::Failed(t@),
            ComponentBody::Rows { header, rows } => ComponentBodyView::Rows {
                header: header@,
                rows: views(rows@),
            },
            ComponentBody::Raw { header, text } => ComponentBodyView::Raw {
                header: header@,
                text: text@,
            },
        }
    }
}

/// What is shown of the component model.
pub open spec fn component_body(p: PaneView, elapsed: Seq<char>) -> ComponentBodyView {
    match p.component {
        RequestView::Idle => ComponentBodyView::Empty,
        RequestView::Pending => ComponentBodyView::Working(
            spinner_text(p.spinner_frame as int) + " working…"@,
        ),
        RequestView::Failed(m) => ComponentBodyView::Failed(m),
        RequestView::Done(r) => match component_json(r.content) {
            Some(tree) => ComponentBodyView::Rows {
                header: answer_header(r, elapsed),
                rows: value_rows(tree, 0),
            },
            None => ComponentBodyView::Raw { header: answer_header(r, elapsed), text: r.content },
        },
    }
}

/// Is there a page in Markdown?
pub open spec fn has_markdown(p: PaneView) -> bool {
    p.doc matches Some(d) && exists|i: int|
        0 <= i < d.extracted_pages.len() && (#[trigger] d.extracted_pages[i]).content is Markdown
}

/// The label of the button that asks for the component model.
pub open spec fn component_button_text(p: PaneView) -> Seq<char> {
    if p.component is Pending {
        spinner_text(p.spinner_frame as int) + " Extracting…"@
    } else if !has_markdown(p) {
        "Extract component model (need Pass 1 markdown)"@
    } else {
        "Extract component model"@
    }
}

impl InspectorPane {
    /// What is shown of a prompt's answer: a line above it, and the answer.
    /// `elapsed` is the number of seconds that it took, with two decimal places.
    pub fn prompt_response(&self, elapsed: &str) -> (r: (String, String))
        ensures
            (r.0@, r.1@) == answer_text(self@, elapsed@),
    {
        match self.prompt_state() {
            RequestState::Idle => (
                String::from_str("Response"),
                String::from_str("(submit a preset to dispatch)"),
            ),
            RequestState::Pending => (
                String::from_str("Response · ").concat(spinner_glyph(self.spinner_frame())).concat(
                    " working…",
                ),
                String::from_str(""),
            ),
            RequestState::Done(a) => (
                answered_by(a, elapsed).concat(finish_part(&a.finish_reason).as_str()),
                a.content.clone(),
            ),
            RequestState::Failed(m) => (String::from_str("Response · failed"), m.clone()),
        }
    }

    /// The mark behind a page: a plus that asks for its layout, or the spinner
    /// while the layout is on its way.
    pub fn pass2_glyph(&self, page: u32) -> (r: &'static str)
        ensures
            r@ == (if self@.in_flight.contains(page) {
                spinner_text(self@.spinner_frame as int)
            } else {
                "+"@
            }),
    {
        if self.pass2_is_in_flight(page) {
            spinner_glyph(self.spinner_frame())
        } else {
            "+"
        }
    }

    /// Is there a page in Markdown?
    pub fn has_markdown(&self) -> (r: bool)
        ensures
            r == has_markdown(self@),
    {
        if let Some(d) = self.doc() {
            for i in 0..d.extracted_pages.len()
                invariant
                    self@.doc == Some(d@),
                    forall|k: int|
                        0 <= k < i ==> !((#[trigger] d@.extracted_pages[k]).content is Markdown),
            {
                assert(d@.extracted_pages[i as int] == d.extracted_pages@[i as int]@);
                if let Content::Markdown(_) = &d.extracted_pages[i].content {
                    return true;
                }
            }
        }
        false
    }

    /// The label of the button that asks for the component model.
    pub fn component_button(&self) -> (r: String)
        ensures
            r@ == component_button_text(self@),
    {
        if let RequestState::Pending = self.component_state() {
            String::from_str(spinner_glyph(self.spinner_frame())).concat(" Extracting…")
        } else if !self.has_markdown() {
            String::from_str("Extract component model (need Pass 1 markdown)")
        } else {
            String::from_str("Extract component model")
        }
    }

    /// Does the button that asks for the component model work?
    pub fn component_button_enabled(&self) -> (r: bool)
        ensures
            r == (!(self@.component is Pending) && has_markdown(self@)),
    {
        let pending = match self.component_state() {
            RequestState::Pending => true,
            _ => false,
        };
        !pending && self.has_markdown()
    }

    /// What is shown of the component model. `elapsed` is the number of seconds
    /// that it took, with two decimal places.
    pub fn component_body(&self, elapsed: &str) -> (r: ComponentBody)
        ensures
            r@ == component_body(self@, elapsed@),
    {
        match self.component_state() {
            RequestState::Idle => ComponentBody::Empty,
            RequestState::Pending => ComponentBody::Working(
                String::from_str(spinner_glyph(self.spinner_frame())).concat(" working…"),
            ),
            RequestState::Failed(m) => ComponentBody::Failed(m.clone()),
            RequestState::Done(a) => {
                let header = answered_by(a, elapsed);
                match parse_component_json(a.content.as_str()) {
                    Some(v) => ComponentBody::Rows { header, rows: component_rows(&v) },
                    None => ComponentBody::Raw { header, text: a.content.clone() },
                }
            },
        }
    }
}

} // verus!
