//! Which part of a value each part of its model stands for.

use crate::ad_hoc::AdHocResponse;
use crate::component::{ComponentRow, ComponentRowView};
use crate::error::{Error, ErrorView};
use crate::extractor::ExtractionResult;
use crate::inspector_rows::Candidate;
use crate::inspector_text::Detail;
use crate::ir::{
    BBox, Content, ContentView, Doc, ErrorContent, Extraction, PageExtraction, PageMeta, PageMetrics,
    PageRef, Param, StructuredBlock, StructuredPage, TocEntry, opt_view, views,
};
use crate::json::json_tree;
use crate::openai::{ChatRequest, ContentPart, Message, PartView, Reply};
use crate::pass2::LayoutElement;
use crate::pdf::PageSelection;
use crate::toc::ParsedRow;
use vstd::prelude::*;

verus! {

/// A list is seen item by item, and what may be missing is seen where it is there.
pub proof fn lists_are_seen_item_by_item<T: View>(s: Seq<T>, o: Option<T>, i: int)
    ensures
        views(s).len() == s.len(),
        0 <= i < s.len() ==> views(s)[i] == s[i]@,
        match o {
            Some(v) => opt_view(o) == Some(v@),
            None => opt_view(o) is None,
        },
{
}

/// A box is seen by its place and its size.
pub proof fn boxes_are_seen(b: BBox, s: PageSelection)
    ensures
        b@.x == b.x@,
        b@.y == b.y@,
        b@.w == b.w@,
        b@.h == b.h@,
        s@ == (s.page, s.bbox@),
{
}

/// A page is seen by its size, its rotation and its resolution, and its metrics by the time
/// and the tokens.
pub proof fn sizes_and_metrics_are_seen(m: PageMeta, t: PageMetrics)
    ensures
        m@.width_pts == m.width_pts@,
        m@.height_pts == m.height_pts@,
        m@.rotation_deg == m.rotation_deg,
        m@.dpi == m.dpi,
        t@.elapsed_secs == t.elapsed_secs@,
        t@.input_tokens == t.input_tokens,
        t@.output_tokens == t.output_tokens,
{
}

/// A layout is seen block by block, and a block by its kind, its box, its text and its
/// confidence.
pub proof fn layouts_are_seen(p: StructuredPage, b: StructuredBlock, e: LayoutElement)
    ensures
        p@.blocks == views(p.blocks@),
        p@.page_meta == opt_view(p.page_meta),
        b@.kind == b.kind@,
        b@.bbox == b.bbox@,
        b@.text == opt_view(b.text),
        b@.confidence == opt_view(b.confidence),
        e@.kind == e.kind@,
        e@.x1 == e.x1@,
        e@.y1 == e.y1@,
        e@.x2 == e.x2@,
        e@.y2 == e.y2@,
        e@.text == opt_view(e.text),
        e@.confidence == opt_view(e.confidence),
{
}

/// What a record holds is seen as what it is.
pub proof fn contents_are_seen(c: Content, e: ErrorContent)
    ensures
        match c {
            Content::Markdown(m) => c@ == ContentView::Markdown(m.markdown@),
            Content::Structured(s) => c@ == ContentView::Structured(s@),
            Content::Error(e) => c@ == ContentView::Error(e@),
        },
        e@.kind == e.kind@,
        e@.message == e.message@,
{
}

/// A record is seen by its identity, its page, its run, what it holds and its metrics.
pub proof fn records_are_seen(p: PageExtraction, r: PageRef)
    ensures
        p@.page_uuid == p.page_uuid,
        p@.page == p.page,
        p@.extraction_uuid == p.extraction_uuid,
        p@.content == p.content@,
        p@.metrics == opt_view(p.metrics),
        r@.page == r.page,
        r@.model == r.model.0@,
        r@.page_uuid == r.page_uuid,
        r@.extraction_uuid == r.extraction_uuid,
{
}

/// A run is seen by its identity, its model, its prompt, its parameters and its time.
pub proof fn runs_are_seen(e: Extraction, p: Param, r: ExtractionResult)
    ensures
        e@.uuid == e.uuid,
        e@.model == e.model.0@,
        e@.prompt == e.prompt.0@,
        e@.params == e.params@,
        e@.created_at == e.created_at@,
        p@ == (p.key@, json_tree(p.value)),
        r@.extraction == r.extraction@,
        r@.pages == views(r.pages@),
{
}

/// An entry is seen by its identity, its title, its level, its parent, its references and
/// its run; a row by what was read of it.
pub proof fn entries_are_seen(t: TocEntry, r: ParsedRow)
    ensures
        t@.id == t.id,
        t@.title == t.title@,
        t@.level == t.level,
        t@.parent == t.parent,
        t@.page_refs == views(t.page_refs@),
        t@.built_by == t.built_by,
        r@.level == r.level,
        r@.number == opt_view(r.number),
        r@.title == r.title@,
        r@.destination_page == r.destination_page,
        r@.source_page == r.source_page,
{
}

/// A document is seen by its hash, its runs, its records and its entries.
pub proof fn documents_are_seen(d: Doc)
    ensures
        d@.schema_version == d.schema_version,
        d@.content_hash == d.content_hash.0@,
        d@.extractions == views(d.extractions@),
        d@.extracted_pages == views(d.extracted_pages@),
        d@.toc == views(d.toc@),
{
}

/// A request is seen by its messages and its settings, and a message by its role and its
/// parts.
pub proof fn requests_are_seen(r: ChatRequest, m: Message, c: ContentPart)
    ensures
        r@.model == r.model@,
        r@.messages == views(r.messages@),
        r@.max_tokens == r.max_tokens,
        r@.temperature == r.temperature@,
        r@.frequency_penalty == opt_view(r.frequency_penalty),
        r@.presence_penalty == opt_view(r.presence_penalty),
        match r.chat_template_kwargs {
            Some(v) => r@.chat_template_kwargs == Some(json_tree(v)),
            None => r@.chat_template_kwargs is None,
        },
        m@.role == m.role@,
        m@.content == views(m.content@),
        match c {
            ContentPart::Text { text } => c@ == PartView::Text(text@),
            ContentPart::ImageUrl { image_url } => c@ == PartView::Image(image_url.url@),
        },
{
}

/// An answer is seen by what it says, its tokens and its time.
pub proof fn answers_are_seen(r: Reply, a: AdHocResponse)
    ensures
        r@.content == r.content@,
        r@.input_tokens == r.input_tokens,
        r@.output_tokens == r.output_tokens,
        a@.model == a.model,
        a@.content == a.content@,
        a@.elapsed_secs == a.elapsed_secs@,
        a@.usage == a.usage,
        a@.finish_reason == opt_view(a.finish_reason),
{
}

/// An error is seen as what it is, with what is known of it.
pub proof fn errors_are_seen(e: Error)
    ensures
        match e {
            Error::Transport(s) => e@ == ErrorView::Transport(s@),
            Error::HttpStatus { status, body } => e@ == (ErrorView::HttpStatus {
                status,
                body: body@,
            }),
            Error::MalformedEnvelope(s) => e@ == ErrorView::MalformedEnvelope(s@),
            Error::EmptyPagesForPass2 => e@ == ErrorView::EmptyPagesForPass2,
            Error::Render(s) => e@ == ErrorView::Render(s@),
            Error::LayoutParse(s) => e@ == ErrorView::LayoutParse(s@),
            Error::TocBuild(s) => e@ == ErrorView::TocBuild(s@),
            Error::WorkerResponse(s) => e@ == ErrorView::WorkerResponse(s@),
        },
{
}

/// What is shown is seen text by text.
pub proof fn shown_texts_are_seen(d: Detail, r: ComponentRow, c: Candidate)
    ensures
        d@.title == d.title@,
        d@.chip == opt_view(d.chip),
        d@.meta == d.meta@,
        d@.body == opt_view(d.body),
        match r {
            ComponentRow::Section { title } => r@ == (ComponentRowView::Section { title: title@ }),
            ComponentRow::Label { title, depth } => r@ == (ComponentRowView::Label {
                title: title@,
                depth: depth as nat,
            }),
            ComponentRow::Field { name, value, depth } => r@ == (ComponentRowView::Field {
                name: name@,
                value: value@,
                depth: depth as nat,
            }),
            ComponentRow::Bullet { text, depth } => r@ == (ComponentRowView::Bullet {
                text: text@,
                depth: depth as nat,
            }),
            ComponentRow::Scalar { text, depth } => r@ == (ComponentRowView::Scalar {
                text: text@,
                depth: depth as nat,
            }),
        },
        c@ == (c.run, c.idx, c.bbox@),
{
}

} // verus!
