//! The document: a store of per-page extractions and a table of contents that
//! is anchored in them.
//!
//! A [`Doc`] owns three lists that grow over its lifetime: [`Extraction`]
//! records, one per model run; [`PageExtraction`] records, one per page and run;
//! and [`TocEntry`] records, which refer back to both. [`Doc::validate`] checks
//! that every reference resolves.

use crate::ids::{ExtractionId, PageId, TocEntryId};
use crate::ids::{id_text, is_random_id, uuid_text};
use crate::json::{Json, json_tree};
use crate::number::{Real, equal_numbers};
use crate::sorted::{
    insertion_keeps_order, keys_ordered, update_keeps_order, with_key, with_key_at, with_key_over,
};
use crate::stamp::Timestamp;
use crate::text::{ascii_lowercase, comes_before, lowercase, same, text_less};
use crate::text::text_order_is_total;
use std::collections::HashSet;
use vstd::prelude::*;

verus! {

broadcast use vstd::std_specs::hash::group_hash_axioms;

// ---------------------------------------------------------------------------
// Block colours
// ---------------------------------------------------------------------------

/// The colour of a block kind, as `0xRRGGBB`. Capitals do not matter; a kind
/// that is not in the table has a colour of its own.
pub open spec fn kind_color(kind: Seq<char>) -> u32 {
    let k = ascii_lowercase(kind);
    if k == "table"@ {
        0xdc1e1e
    } else if k == "table_footnote"@ {
        0xc85050
    } else if k == "text"@ {
        0x1e78dc
    } else if k == "title"@ {
        0x1eb43c
    } else if k == "figure"@ {
        0xf08c1e
    } else if k == "figure_caption"@ {
        0xdcaa3c
    } else if k == "footer"@ {
        0x828282
    } else if k == "header"@ {
        0x1ec8c8
    } else if k == "logo"@ {
        0xffd700
    } else if k == "list"@ || k == "list_item"@ {
        0xc83cc8
    } else {
        0xb43cc8
    }
}

/// The colour in which blocks of `kind` are drawn.
pub fn block_kind_color_rgb(kind: &str) -> (r: u32)
    ensures
        r == kind_color(kind@),
{
    let k = lowercase(kind);
    let k = k.as_str();
    if same(k, "table") {
        0xdc1e1e
    } else if same(k, "table_footnote") {
        0xc85050
    } else if same(k, "text") {
        0x1e78dc
    } else if same(k, "title") {
        0x1eb43c
    } else if same(k, "figure") {
        0xf08c1e
    } else if same(k, "figure_caption") {
        0xdcaa3c
    } else if same(k, "footer") {
        0x828282
    } else if same(k, "header") {
        0x1ec8c8
    } else if same(k, "logo") {
        0xffd700
    } else if same(k, "list") || same(k, "list_item") {
        0xc83cc8
    } else {
        0xb43cc8
    }
}

// ---------------------------------------------------------------------------
// Views
// ---------------------------------------------------------------------------

/// The views of a sequence of values.
pub open spec fn views<T: View>(s: Seq<T>) -> Seq<T::V> {
    s.map_values(|x: T| x@)
}

/// The view of what an option holds.
pub open spec fn opt_view<T: View>(o: Option<T>) -> Option<T::V> {
    match o {
        Some(x) => Some(x@),
        None => None,
    }
}

// ---------------------------------------------------------------------------
// Records
// ---------------------------------------------------------------------------

/// Version of the document layout on disk.
pub const SCHEMA_VERSION: u32 = 1;

/// SHA-256 of the source PDF in small hexadecimal digits.
#[derive(Debug, Clone, PartialEq, Eq, Hash)]
pub struct ContentHash(pub String);

/// Stable identifier of a model, by convention `"name@version"`.
#[derive(Debug, Clone, PartialEq, Eq, Hash)]
pub struct ModelId(pub String);

/// Full prompt of an extraction run.
#[derive(Debug, Clone, PartialEq, Eq)]
pub struct PromptText(pub String);

/// Which kind of [`Content`] a page holds.
#[derive(Debug, Clone, Copy, PartialEq, Eq, Structural)]
pub enum FormatType {
    Markdown,
    StructuredJson,
    Error,
}

/// What an extraction run made of a page.
#[derive(Debug, Clone, PartialEq)]
pub enum Content {
    Markdown(MarkdownContent),
    Structured(StructuredPage),
    Error(ErrorContent),
}

#[derive(Debug, Clone, PartialEq)]
pub struct MarkdownContent {
    pub markdown: String,
}

/// A failed page: a short stable token and a message for humans.
#[derive(Debug, Clone, PartialEq)]
pub struct ErrorContent {
    pub kind: String,
    pub message: String,
}

/// How long a page took and how many tokens went in and out.
#[derive(Debug, Clone, PartialEq)]
pub struct PageMetrics {
    pub elapsed_secs: Real,
    pub input_tokens: Option<u32>,
    pub output_tokens: Option<u32>,
}

/// The layout of one page.
#[derive(Debug, Clone, PartialEq)]
pub struct StructuredPage {
    pub blocks: Vec<StructuredBlock>,
    pub page_meta: Option<PageMeta>,
}

#[derive(Debug, Clone, PartialEq)]
pub struct StructuredBlock {
    /// Block kind reported by the model.
    pub kind: String,
    pub bbox: BBox,
    pub text: Option<String>,
    pub confidence: Option<Real>,
}

/// Bounding box in PDF points, from the upper left corner of the page.
#[derive(Debug, Clone, PartialEq)]
pub struct BBox {
    pub x: Real,
    pub y: Real,
    pub w: Real,
    pub h: Real,
}

#[derive(Debug, Clone, PartialEq)]
pub struct PageMeta {
    pub width_pts: Real,
    pub height_pts: Real,
    /// 0, 90, 180 or 270.
    pub rotation_deg: u16,
    pub dpi: Option<u16>,
}

/// One tuning parameter of an extraction run.
#[derive(Debug, Clone, PartialEq)]
pub struct Param {
    pub key: String,
    pub value: serde_json::Value,
}

/// The tuning parameters of an extraction run, one value per key, in the order
/// of the keys.
#[derive(Debug, PartialEq)]
pub struct Params {
    entries: Vec<Param>,
}

/// One model run. A run with another prompt or other parameters is another
/// record; records are never overwritten.
#[derive(Debug, Clone, PartialEq)]
pub struct Extraction {
    pub uuid: ExtractionId,
    pub model: ModelId,
    pub prompt: PromptText,
    pub params: Params,
    pub created_at: Timestamp,
}

/// What one run made of one page. Several of these for one page are normal.
#[derive(Debug, Clone, PartialEq)]
pub struct PageExtraction {
    pub page_uuid: PageId,
    pub page: u32,
    pub extraction_uuid: ExtractionId,
    pub content: Content,
    pub metrics: Option<PageMetrics>,
}

/// Reference from a [`TocEntry`] to a [`PageExtraction`].
#[derive(Debug, Clone, PartialEq)]
pub struct PageRef {
    pub page: u32,
    pub model: ModelId,
    pub page_uuid: PageId,
    pub extraction_uuid: ExtractionId,
}

/// One node of the table of contents.
#[derive(Debug, Clone, PartialEq)]
pub struct TocEntry {
    pub id: TocEntryId,
    pub title: String,
    pub level: u8,
    pub parent: Option<TocEntryId>,
    pub page_refs: Vec<PageRef>,
    /// The run that produced this entry.
    pub built_by: ExtractionId,
}

#[derive(Debug, Clone, PartialEq)]
pub struct Doc {
    pub schema_version: u32,
    pub content_hash: ContentHash,
    pub extractions: Vec<Extraction>,
    pub extracted_pages: Vec<PageExtraction>,
    pub toc: Vec<TocEntry>,
}

/// A reference that does not resolve.
#[derive(Debug, Clone, PartialEq)]
pub enum ValidationError {
    DanglingExtractionRef { via: String, extraction_uuid: ExtractionId },
    DanglingPageRef { entry: TocEntryId, page_uuid: PageId },
    DanglingTocParent { entry: TocEntryId, parent: TocEntryId },
    PageRefPageMismatch { entry: TocEntryId, page_uuid: PageId, ref_page: u32, actual_page: u32 },
}

// ---------------------------------------------------------------------------
// What the records stand for
// ---------------------------------------------------------------------------

pub struct ErrorContentView {
    pub kind: Seq<char>,
    pub message: Seq<char>,
}

pub struct PageMetricsView {
    pub elapsed_secs: Seq<char>,
    pub input_tokens: Option<u32>,
    pub output_tokens: Option<u32>,
}

pub struct BBoxView {
    pub x: Seq<char>,
    pub y: Seq<char>,
    pub w: Seq<char>,
    pub h: Seq<char>,
}

pub struct PageMetaView {
    pub width_pts: Seq<char>,
    pub height_pts: Seq<char>,
    pub rotation_deg: u16,
    pub dpi: Option<u16>,
}

pub struct StructuredBlockView {
    pub kind: Seq<char>,
    pub bbox: BBoxView,
    pub text: Option<Seq<char>>,
    pub confidence: Option<Seq<char>>,
}

pub struct StructuredPageView {
    pub blocks: Seq<StructuredBlockView>,
    pub page_meta: Option<PageMetaView>,
}

pub enum ContentView {
    Markdown(Seq<char>),
    Structured(StructuredPageView),
    Error(ErrorContentView),
}

pub struct ExtractionView {
    pub uuid: ExtractionId,
    pub model: Seq<char>,
    pub prompt: Seq<char>,
    pub params: Seq<(Seq<char>, Json)>,
    pub created_at: (i64, u32),
}

pub struct PageExtractionView {
    pub page_uuid: PageId,
    pub page: u32,
    pub extraction_uuid: ExtractionId,
    pub content: ContentView,
    pub metrics: Option<PageMetricsView>,
}

pub struct PageRefView {
    pub page: u32,
    pub model: Seq<char>,
    pub page_uuid: PageId,
    pub extraction_uuid: ExtractionId,
}

pub struct TocEntryView {
    pub id: TocEntryId,
    pub title: Seq<char>,
    pub level: u8,
    pub parent: Option<TocEntryId>,
    pub page_refs: Seq<PageRefView>,
    pub built_by: ExtractionId,
}

pub struct DocView {
    pub schema_version: u32,
    pub content_hash: Seq<char>,
    pub extractions: Seq<ExtractionView>,
    pub extracted_pages: Seq<PageExtractionView>,
    pub toc: Seq<TocEntryView>,
}

pub enum FaultView {
    DanglingExtractionRef { via: Seq<char>, extraction_uuid: ExtractionId },
    DanglingPageRef { entry: TocEntryId, page_uuid: PageId },
    DanglingTocParent { entry: TocEntryId, parent: TocEntryId },
    PageRefPageMismatch { entry: TocEntryId, page_uuid: PageId, ref_page: u32, actual_page: u32 },
}

impl View for ContentHash {
    type V = Seq<char>;

    open spec fn view(&self) -> Seq<char> {
        self.0@
    }
}

impl View for ModelId {
    type V = Seq<char>;

    open spec fn view(&self) -> Seq<char> {
        self.0@
    }
}

impl View for PromptText {
    type V = Seq<char>;

    open spec fn view(&self) -> Seq<char> {
        self.0@
    }
}

impl View for MarkdownContent {
    type V = Seq<char>;

    open spec fn view(&self) -> Seq<char> {
        self.markdown@
    }
}

impl View for ErrorContent {
    type V = ErrorContentView;

    open spec fn view(&self) -> ErrorContentView {
        ErrorContentView { kind: self.kind@, message: self.message@ }
    }
}

impl View for PageMetrics {
    type V = PageMetricsView;

    open spec fn view(&self) -> PageMetricsView {
        PageMetricsView {
            elapsed_secs: self.elapsed_secs@,
            input_tokens: self.input_tokens,
            output_tokens: self.output_tokens,
        }
    }
}

impl View for BBox {
    type V = BBoxView;

    open spec fn view(&self) -> BBoxView {
        BBoxView { x: self.x@, y: self.y@, w: self.w@, h: self.h@ }
    }
}

impl View for PageMeta {
    type V = PageMetaView;

    open spec fn view(&self) -> PageMetaView {
        PageMetaView {
            width_pts: self.width_pts@,
            height_pts: self.height_pts@,
            rotation_deg: self.rotation_deg,
            dpi: self.dpi,
        }
    }
}

impl View for StructuredBlock {
    type V = StructuredBlockView;

    open spec fn view(&self) -> StructuredBlockView {
        StructuredBlockView {
            kind: self.kind@,
            bbox: self.bbox@,
            text: opt_view(self.text),
            confidence: opt_view(self.confidence),
        }
    }
}

impl View for StructuredPage {
    type V = StructuredPageView;

    open spec fn view(&self) -> StructuredPageView {
        StructuredPageView { blocks: views(self.blocks@), page_meta: opt_view(self.page_meta) }
    }
}

impl View for Content {
    type V = ContentView;

    open spec fn view(&self) -> ContentView {
        match self {
            Content::Markdown(m) => ContentView::Markdown(m@),
            Content::Structured(s) => ContentView::Structured(s@),
            Content::Error(e) => ContentView::Error(e@),
        }
    }
}

impl View for Param {
    type V = (Seq<char>, Json);

    open spec fn view(&self) -> (Seq<char>, Json) {
        (self.key@, json_tree(self.value))
    }
}

impl View for Params {
    type V = Seq<(Seq<char>, Json)>;

    closed spec fn view(&self) -> Seq<(Seq<char>, Json)> {
        views(self.entries@)
    }
}

impl View for Extraction {
    type V = ExtractionView;

    open spec fn view(&self) -> ExtractionView {
        ExtractionView {
            uuid: self.uuid,
            model: self.model@,
            prompt: self.prompt@,
            params: self.params@,
            created_at: self.created_at@,
        }
    }
}

impl View for PageExtraction {
    type V = PageExtractionView;

    open spec fn view(&self) -> PageExtractionView {
        PageExtractionView {
            page_uuid: self.page_uuid,
            page: self.page,
            extraction_uuid: self.extraction_uuid,
            content: self.content@,
            metrics: opt_view(self.metrics),
        }
    }
}

impl View for PageRef {
    type V = PageRefView;

    open spec fn view(&self) -> PageRefView {
        PageRefView {
            page: self.page,
            model: self.model@,
            page_uuid: self.page_uuid,
            extraction_uuid: self.extraction_uuid,
        }
    }
}

impl View for TocEntry {
    type V = TocEntryView;

    open spec fn view(&self) -> TocEntryView {
        TocEntryView {
            id: self.id,
            title: self.title@,
            level: self.level,
            parent: self.parent,
            page_refs: views(self.page_refs@),
            built_by: self.built_by,
        }
    }
}

impl View for Doc {
    type V = DocView;

    open spec fn view(&self) -> DocView {
        DocView {
            schema_version: self.schema_version,
            content_hash: self.content_hash@,
            extractions: views(self.extractions@),
            extracted_pages: views(self.extracted_pages@),
            toc: views(self.toc@),
        }
    }
}

impl View for ValidationError {
    type V = FaultView;

    open spec fn view(&self) -> FaultView {
        match *self {
            ValidationError::DanglingExtractionRef { via, extraction_uuid } =>
                FaultView::DanglingExtractionRef { via: via@, extraction_uuid },
            ValidationError::DanglingPageRef { entry, page_uuid } => FaultView::DanglingPageRef {
                entry,
                page_uuid,
            },
            ValidationError::DanglingTocParent { entry, parent } => FaultView::DanglingTocParent {
                entry,
                parent,
            },
            ValidationError::PageRefPageMismatch { entry, page_uuid, ref_page, actual_page } =>
                FaultView::PageRefPageMismatch { entry, page_uuid, ref_page, actual_page },
        }
    }
}

// ---------------------------------------------------------------------------
// Formats
// ---------------------------------------------------------------------------

/// The format of a page's content.
pub open spec fn format_of(c: ContentView) -> FormatType {
    match c {
        ContentView::Markdown(_) => FormatType::Markdown,
        ContentView::Structured(_) => FormatType::StructuredJson,
        ContentView::Error(_) => FormatType::Error,
    }
}

impl Content {
    pub fn format_type(&self) -> (r: FormatType)
        ensures
            r == format_of(self@),
    {
        match self {
            Content::Markdown(_) => FormatType::Markdown,
            Content::Structured(_) => FormatType::StructuredJson,
            Content::Error(_) => FormatType::Error,
        }
    }
}

impl PageExtraction {
    pub fn format_type(&self) -> (r: FormatType)
        ensures
            r == format_of(self@.content),
    {
        self.content.format_type()
    }
}

/// Are the two boxes equal, number by number?
pub open spec fn equal_boxes(a: BBoxView, b: BBoxView) -> bool {
    &&& equal_numbers(a.x, b.x)
    &&& equal_numbers(a.y, b.y)
    &&& equal_numbers(a.w, b.w)
    &&& equal_numbers(a.h, b.h)
}

/// Are the two regions equal, if they are any? A region is a box on a page.
pub open spec fn equal_regions(a: Option<(u32, BBoxView)>, b: Option<(u32, BBoxView)>) -> bool {
    match (a, b) {
        (None, None) => true,
        (Some(r), Some(s)) => r.0 == s.0 && equal_boxes(r.1, s.1),
        _ => false,
    }
}

/// Is this the region, or one that equals it?
pub open spec fn is_region(region: Option<(u32, BBoxView)>, page: u32, bbox: BBoxView) -> bool {
    region == Some((page, bbox)) || equal_regions(region, Some((page, bbox)))
}

impl BBox {
    pub fn copy(&self) -> (r: BBox)
        ensures
            r@ == self@,
    {
        BBox { x: self.x.copy(), y: self.y.copy(), w: self.w.copy(), h: self.h.copy() }
    }

    /// Are the two boxes equal, number by number?
    pub fn same(&self, other: &BBox) -> (r: bool)
        ensures
            r == equal_boxes(self@, other@),
    {
        self.x.same(&other.x) && self.y.same(&other.y) && self.w.same(&other.w) && self.h.same(
            &other.h,
        )
    }
}

/// A copy of an optional text.
pub fn copied_text(s: &Option<String>) -> (r: Option<String>)
    ensures
        opt_view(r) == opt_view(*s),
{
    match s {
        Some(s) => Some(s.clone()),
        None => None,
    }
}

impl StructuredBlock {
    pub fn copy(&self) -> (r: StructuredBlock)
        ensures
            r@ == self@,
    {
        StructuredBlock {
            kind: self.kind.clone(),
            bbox: self.bbox.copy(),
            text: copied_text(&self.text),
            confidence: match &self.confidence {
                Some(c) => Some(c.copy()),
                None => None,
            },
        }
    }
}

impl Default for StructuredPage {
    fn default() -> (r: Self)
        ensures
            r@.blocks.len() == 0,
            r@.page_meta is None,
    {
        StructuredPage { blocks: Vec::new(), page_meta: None }
    }
}

// ---------------------------------------------------------------------------
// Parameters
// ---------------------------------------------------------------------------

/// `params` with `key` set to `value`.
pub open spec fn with_param(
    params: Seq<(Seq<char>, Json)>,
    key: Seq<char>,
    value: Json,
) -> Seq<(Seq<char>, Json)> {
    with_key(params, key, value)
}

impl Params {
    #[verifier::type_invariant]
    spec fn in_order(self) -> bool {
        keys_ordered(views(self.entries@))
    }

    pub fn new() -> (r: Params)
        ensures
            r@ == Seq::<(Seq<char>, Json)>::empty(),
    {
        let entries: Vec<Param> = Vec::new();
        assert(views(entries@) =~= Seq::<(Seq<char>, Json)>::empty());
        Params { entries }
    }

    pub fn len(&self) -> (r: usize)
        ensures
            r == self@.len(),
    {
        self.entries.len()
    }

    pub fn is_empty(&self) -> (r: bool)
        ensures
            r == (self@.len() == 0),
    {
        self.entries.len() == 0
    }

    /// The parameter at position `i` of the key order.
    pub fn at(&self, i: usize) -> (r: &Param)
        requires
            i < self@.len(),
        ensures
            r@ == self@[i as int],
            keys_ordered(self@),
    {
        proof {
            use_type_invariant(&*self);
        }
        &self.entries[i]
    }

    /// Set `key` to `value`, whether it was set before or not.
    pub fn insert(&mut self, key: String, value: serde_json::Value)
        ensures
            final(self)@ == with_param(old(self)@, key@, json_tree(value)),
            keys_ordered(final(self)@),
    {
        proof {
            use_type_invariant(&*self);
        }
        let ghost before = self@;
        let ghost tree = json_tree(value);
        let mut entries: Vec<Param> = Vec::new();
        std::mem::swap(&mut entries, &mut self.entries);
        let mut at: usize = entries.len();
        while at > 0 && comes_before(key.as_str(), entries[at - 1].key.as_str())
            invariant
                at <= entries@.len(),
                views(entries@) == before,
                keys_ordered(before),
                forall|j: int| at <= j < before.len() ==> text_less(key@, #[trigger] before[j].0),
            decreases at,
        {
            at = at - 1;
            assert(before[at as int] == entries@[at as int]@);
        }
        if at > 0 && same(key.as_str(), entries[at - 1].key.as_str()) {
            let i: usize = at - 1;
            assert(before[i as int] == entries@[i as int]@);
            proof {
                with_key_over(before, key@, tree, i as int);
                update_keeps_order(before, key@, tree, i as int);
            }
            let ghost after = before.update(i as int, (key@, tree));
            entries.set(i, Param { key, value });
            assert(views(entries@) =~= after);
        } else {
            proof {
                if at > 0 {
                    assert(before[at - 1] == entries@[at - 1]@);
                    text_order_is_total(before[at - 1].0, key@);
                }
                with_key_at(before, key@, tree, at as int);
                insertion_keeps_order(before, key@, tree, at as int);
            }
            let ghost after = before.insert(at as int, (key@, tree));
            entries.insert(at, Param { key, value });
            assert(views(entries@) =~= after);
        }
        self.entries = entries;
    }
}

impl Clone for Params {
    fn clone(&self) -> (r: Self)
        ensures
            r@ == self@,
    {
        proof {
            use_type_invariant(&*self);
        }
        let mut entries: Vec<Param> = Vec::new();
        for i in 0..self.entries.len()
            invariant
                views(entries@) == views(self.entries@).take(i as int),
        {
            let p = &self.entries[i];
            let ghost done = views(entries@);
            let copy = Param { key: p.key.clone(), value: p.value.clone() };
            assert(copy@ == p@);
            entries.push(copy);
            assert(views(entries@) =~= done.push(copy@));
            assert(views(entries@) =~= views(self.entries@).take(i + 1));
        }
        assert(views(entries@) =~= views(self.entries@));
        Params { entries }
    }
}

// ---------------------------------------------------------------------------
// New records
// ---------------------------------------------------------------------------

/// Can this be the record of a run that was made just now? Its identity is a random
/// one, and its time one that a clock shows.
pub open spec fn run_is_new(e: ExtractionView) -> bool {
    &&& is_random_id(e.uuid.0)
    &&& e.created_at.0 >= 0
    &&& e.created_at.1 < 1_000_000_000
}

/// Can this be a page record that was made just now? Its identity is a random one.
pub open spec fn page_is_new(p: PageExtractionView) -> bool {
    is_random_id(p.page_uuid.0)
}

/// Can this be an entry that was made just now? Its identity is a random one.
pub open spec fn entry_is_new(t: TocEntryView) -> bool {
    is_random_id(t.id.0)
}

// ---------------------------------------------------------------------------
// Lookups
// ---------------------------------------------------------------------------

/// Does the document hold this extraction run?
pub open spec fn has_extraction(d: DocView, uuid: ExtractionId) -> bool {
    exists|i: int| 0 <= i < d.extractions.len() && (#[trigger] d.extractions[i]).uuid == uuid
}

/// Does the document hold this page record?
pub open spec fn has_page(d: DocView, page_uuid: PageId) -> bool {
    exists|i: int|
        0 <= i < d.extracted_pages.len() && (#[trigger] d.extracted_pages[i]).page_uuid == page_uuid
}

/// Does the document hold this entry?
pub open spec fn has_toc_entry(d: DocView, id: TocEntryId) -> bool {
    exists|i: int| 0 <= i < d.toc.len() && (#[trigger] d.toc[i]).id == id
}

/// Is position `i` the first one with an extraction run of this identity?
pub open spec fn first_extraction(d: DocView, uuid: ExtractionId, i: int) -> bool {
    &&& 0 <= i < d.extractions.len()
    &&& d.extractions[i].uuid == uuid
    &&& forall|j: int| 0 <= j < i ==> (#[trigger] d.extractions[j]).uuid != uuid
}

/// Is position `i` the first one with a page record of this identity?
pub open spec fn first_page(d: DocView, page_uuid: PageId, i: int) -> bool {
    &&& 0 <= i < d.extracted_pages.len()
    &&& d.extracted_pages[i].page_uuid == page_uuid
    &&& forall|j: int| 0 <= j < i ==> (#[trigger] d.extracted_pages[j]).page_uuid != page_uuid
}

/// Is position `i` the first one with an entry of this identity?
pub open spec fn first_toc_entry(d: DocView, id: TocEntryId, i: int) -> bool {
    &&& 0 <= i < d.toc.len()
    &&& d.toc[i].id == id
    &&& forall|j: int| 0 <= j < i ==> (#[trigger] d.toc[j]).id != id
}

/// The records of page number `page`, in document order.
pub open spec fn on_page(pages: Seq<PageExtractionView>, page: u32) -> Seq<PageExtractionView>
    decreases pages.len(),
{
    if pages.len() == 0 {
        Seq::empty()
    } else {
        let rest = on_page(pages.drop_last(), page);
        if pages.last().page == page {
            rest.push(pages.last())
        } else {
            rest
        }
    }
}

impl Doc {
    /// All records of the given page, in document order.
    pub fn page_extractions(&self, page: u32) -> (r: Vec<&PageExtraction>)
        ensures
            r@.map_values(|p: &PageExtraction| p@) == on_page(self@.extracted_pages, page),
    {
        let mut out: Vec<&PageExtraction> = Vec::new();
        assert(out@.map_values(|p: &PageExtraction| p@) =~= on_page(
            self@.extracted_pages.take(0),
            page,
        ));
        for i in 0..self.extracted_pages.len()
            invariant
                out@.map_values(|p: &PageExtraction| p@) == on_page(
                    self@.extracted_pages.take(i as int),
                    page,
                ),
        {
            let ghost shown = out@.map_values(|p: &PageExtraction| p@);
            let ghost upto = self@.extracted_pages.take(i + 1);
            assert(upto.drop_last() =~= self@.extracted_pages.take(i as int));
            let p = &self.extracted_pages[i];
            assert(upto.last() == p@);
            if p.page == page {
                out.push(p);
                assert(out@.map_values(|p: &PageExtraction| p@) =~= shown.push(p@));
            }
        }
        assert(self@.extracted_pages.take(self@.extracted_pages.len() as int)
            =~= self@.extracted_pages);
        out
    }

    /// The first record with this page identity.
    pub fn page_extraction(&self, page_uuid: PageId) -> (r: Option<&PageExtraction>)
        ensures
            match r {
                Some(p) => exists|i: int|
                    #[trigger] first_page(self@, page_uuid, i) && p@ == self@.extracted_pages[i],
                None => !has_page(self@, page_uuid),
            },
    {
        for i in 0..self.extracted_pages.len()
            invariant
                forall|j: int|
                    0 <= j < i ==> (#[trigger] self@.extracted_pages[j]).page_uuid != page_uuid,
        {
            assert(self@.extracted_pages[i as int] == self.extracted_pages@[i as int]@);
            if self.extracted_pages[i].page_uuid == page_uuid {
                assert(first_page(self@, page_uuid, i as int));
                return Some(&self.extracted_pages[i]);
            }
        }
        None
    }

    /// The first extraction run with this identity.
    pub fn extraction(&self, uuid: ExtractionId) -> (r: Option<&Extraction>)
        ensures
            match r {
                Some(e) => exists|i: int|
                    #[trigger] first_extraction(self@, uuid, i) && e@ == self@.extractions[i],
                None => !has_extraction(self@, uuid),
            },
    {
        for i in 0..self.extractions.len()
            invariant
                forall|j: int| 0 <= j < i ==> (#[trigger] self@.extractions[j]).uuid != uuid,
        {
            assert(self@.extractions[i as int] == self.extractions@[i as int]@);
            if self.extractions[i].uuid == uuid {
                assert(first_extraction(self@, uuid, i as int));
                return Some(&self.extractions[i]);
            }
        }
        None
    }

    /// The first entry with this identity.
    pub fn toc_entry(&self, id: TocEntryId) -> (r: Option<&TocEntry>)
        ensures
            match r {
                Some(t) => exists|i: int|
                    #[trigger] first_toc_entry(self@, id, i) && t@ == self@.toc[i],
                None => !has_toc_entry(self@, id),
            },
    {
        for i in 0..self.toc.len()
            invariant
                forall|j: int| 0 <= j < i ==> (#[trigger] self@.toc[j]).id != id,
        {
            assert(self@.toc[i as int] == self.toc@[i as int]@);
            if self.toc[i].id == id {
                assert(first_toc_entry(self@, id, i as int));
                return Some(&self.toc[i]);
            }
        }
        None
    }
}

// ---------------------------------------------------------------------------
// Validation
// ---------------------------------------------------------------------------

/// Does page reference `r` resolve to a run and to a page record of the same
/// page number?
pub open spec fn ref_resolves(d: DocView, r: PageRefView) -> bool {
    &&& has_extraction(d, r.extraction_uuid)
    &&& has_page(d, r.page_uuid)
    &&& forall|i: int| #[trigger]
        first_page(d, r.page_uuid, i) ==> d.extracted_pages[i].page == r.page
}

/// Do all references of entry `t` resolve?
pub open spec fn entry_resolves(d: DocView, t: TocEntryView) -> bool {
    &&& has_extraction(d, t.built_by)
    &&& (t.parent matches Some(parent) ==> has_toc_entry(d, parent))
    &&& forall|i: int|
        0 <= i < t.page_refs.len() ==> ref_resolves(d, #[trigger] t.page_refs[i])
}

/// Do all references inside the document resolve?
pub open spec fn consistent(d: DocView) -> bool {
    &&& forall|i: int|
        0 <= i < d.extracted_pages.len() ==> has_extraction(
            d,
            (#[trigger] d.extracted_pages[i]).extraction_uuid,
        )
    &&& forall|i: int| 0 <= i < d.toc.len() ==> entry_resolves(d, #[trigger] d.toc[i])
}

pub open spec fn via_page(page_uuid: PageId) -> Seq<char> {
    "PageExtraction(page_uuid="@ + uuid_text(page_uuid.0) + ")"@
}

pub open spec fn via_built_by(id: TocEntryId) -> Seq<char> {
    "TocEntry(id="@ + uuid_text(id.0) + ").built_by"@
}

pub open spec fn via_page_ref(id: TocEntryId) -> Seq<char> {
    "TocEntry(id="@ + uuid_text(id.0) + ").page_refs.extraction_uuid"@
}

/// The faults of one page record.
pub open spec fn page_faults(d: DocView, p: PageExtractionView) -> Seq<FaultView> {
    if has_extraction(d, p.extraction_uuid) {
        Seq::empty()
    } else {
        seq![
            FaultView::DanglingExtractionRef {
                via: via_page(p.page_uuid),
                extraction_uuid: p.extraction_uuid,
            },
        ]
    }
}

/// The faults of one page reference of entry `id`: that of the run first, then
/// that of the page record.
pub open spec fn ref_faults(d: DocView, id: TocEntryId, r: PageRefView) -> Seq<FaultView> {
    let run = if has_extraction(d, r.extraction_uuid) {
        Seq::empty()
    } else {
        seq![
            FaultView::DanglingExtractionRef {
                via: via_page_ref(id),
                extraction_uuid: r.extraction_uuid,
            },
        ]
    };
    let page = if !has_page(d, r.page_uuid) {
        seq![FaultView::DanglingPageRef { entry: id, page_uuid: r.page_uuid }]
    } else {
        let i = choose|i: int| first_page(d, r.page_uuid, i);
        if d.extracted_pages[i].page != r.page {
            seq![
                FaultView::PageRefPageMismatch {
                    entry: id,
                    page_uuid: r.page_uuid,
                    ref_page: r.page,
                    actual_page: d.extracted_pages[i].page,
                },
            ]
        } else {
            Seq::empty()
        }
    };
    run + page
}

/// The faults of one entry's own references: its run first, then its parent.
pub open spec fn link_faults(d: DocView, t: TocEntryView) -> Seq<FaultView> {
    let run = if has_extraction(d, t.built_by) {
        Seq::empty()
    } else {
        seq![
            FaultView::DanglingExtractionRef {
                via: via_built_by(t.id),
                extraction_uuid: t.built_by,
            },
        ]
    };
    let up = match t.parent {
        Some(parent) => if has_toc_entry(d, parent) {
            Seq::empty()
        } else {
            seq![FaultView::DanglingTocParent { entry: t.id, parent }]
        },
        None => Seq::empty(),
    };
    run + up
}

/// The faults of the first `n` page references of entry `id`.
pub open spec fn refs_faults(d: DocView, id: TocEntryId, refs: Seq<PageRefView>, n: nat) -> Seq<
    FaultView,
>
    decreases n,
{
    if n == 0 {
        Seq::empty()
    } else {
        refs_faults(d, id, refs, (n - 1) as nat) + ref_faults(d, id, refs[n - 1])
    }
}

/// The faults of one entry: its own references, then its page references.
pub open spec fn entry_faults(d: DocView, t: TocEntryView) -> Seq<FaultView> {
    link_faults(d, t) + refs_faults(d, t.id, t.page_refs, t.page_refs.len())
}

/// The faults of the first `n` page records.
pub open spec fn pages_faults(d: DocView, n: nat) -> Seq<FaultView>
    decreases n,
{
    if n == 0 {
        Seq::empty()
    } else {
        pages_faults(d, (n - 1) as nat) + page_faults(d, d.extracted_pages[n - 1])
    }
}

/// The faults of the first `n` entries.
pub open spec fn toc_faults(d: DocView, n: nat) -> Seq<FaultView>
    decreases n,
{
    if n == 0 {
        Seq::empty()
    } else {
        toc_faults(d, (n - 1) as nat) + entry_faults(d, d.toc[n - 1])
    }
}

/// Every fault of the document: page records first, then the table of contents,
/// both in document order.
pub open spec fn faults(d: DocView) -> Seq<FaultView> {
    pages_faults(d, d.extracted_pages.len()) + toc_faults(d, d.toc.len())
}

/// A page identity that the document holds has a first position.
pub proof fn first_page_exists(d: DocView, page_uuid: PageId)
    requires
        has_page(d, page_uuid),
    ensures
        exists|i: int| first_page(d, page_uuid, i),
{
    let k = choose|i: int|
        0 <= i < d.extracted_pages.len() && (#[trigger] d.extracted_pages[i]).page_uuid
            == page_uuid;
    first_page_up_to(d, page_uuid, k);
}

proof fn first_page_up_to(d: DocView, page_uuid: PageId, k: int)
    requires
        0 <= k < d.extracted_pages.len(),
        d.extracted_pages[k].page_uuid == page_uuid,
    ensures
        exists|i: int| first_page(d, page_uuid, i),
    decreases k,
{
    if forall|j: int| 0 <= j < k ==> (#[trigger] d.extracted_pages[j]).page_uuid != page_uuid {
        assert(first_page(d, page_uuid, k));
    } else {
        let j = choose|j: int|
            0 <= j < k && (#[trigger] d.extracted_pages[j]).page_uuid == page_uuid;
        first_page_up_to(d, page_uuid, j);
    }
}

/// There is one first position at most.
pub proof fn first_page_unique(d: DocView, page_uuid: PageId, i: int, j: int)
    requires
        first_page(d, page_uuid, i),
        first_page(d, page_uuid, j),
    ensures
        i == j,
{
    if i < j {
        assert(d.extracted_pages[i].page_uuid == page_uuid);
    } else if j < i {
        assert(d.extracted_pages[j].page_uuid == page_uuid);
    }
}

proof fn ref_faults_empty(d: DocView, id: TocEntryId, r: PageRefView)
    ensures
        ref_faults(d, id, r).len() == 0 <==> ref_resolves(d, r),
{
    if has_page(d, r.page_uuid) {
        first_page_exists(d, r.page_uuid);
        let k = choose|i: int| first_page(d, r.page_uuid, i);
        assert forall|i: int| #[trigger] first_page(d, r.page_uuid, i) implies i == k by {
            first_page_unique(d, r.page_uuid, i, k);
        }
    }
}

proof fn refs_faults_empty(d: DocView, id: TocEntryId, refs: Seq<PageRefView>, n: nat)
    requires
        n <= refs.len(),
    ensures
        refs_faults(d, id, refs, n).len() == 0 <==> (forall|i: int|
            0 <= i < n ==> ref_resolves(d, #[trigger] refs[i])),
    decreases n,
{
    if n > 0 {
        refs_faults_empty(d, id, refs, (n - 1) as nat);
        ref_faults_empty(d, id, refs[n - 1]);
    }
}

proof fn entry_faults_empty(d: DocView, t: TocEntryView)
    ensures
        entry_faults(d, t).len() == 0 <==> entry_resolves(d, t),
{
    refs_faults_empty(d, t.id, t.page_refs, t.page_refs.len());
}

proof fn pages_faults_empty(d: DocView, n: nat)
    requires
        n <= d.extracted_pages.len(),
    ensures
        pages_faults(d, n).len() == 0 <==> (forall|i: int|
            0 <= i < n ==> has_extraction(d, (#[trigger] d.extracted_pages[i]).extraction_uuid)),
    decreases n,
{
    if n > 0 {
        pages_faults_empty(d, (n - 1) as nat);
    }
}

proof fn toc_faults_empty(d: DocView, n: nat)
    requires
        n <= d.toc.len(),
    ensures
        toc_faults(d, n).len() == 0 <==> (forall|i: int|
            0 <= i < n ==> entry_resolves(d, #[trigger] d.toc[i])),
    decreases n,
{
    if n > 0 {
        toc_faults_empty(d, (n - 1) as nat);
        entry_faults_empty(d, d.toc[n - 1]);
    }
}

/// A document has no fault exactly when all its references resolve.
pub proof fn no_faults_means_consistent(d: DocView)
    ensures
        faults(d).len() == 0 <==> consistent(d),
{
    pages_faults_empty(d, d.extracted_pages.len());
    toc_faults_empty(d, d.toc.len());
}

fn extraction_fault(via: String, extraction_uuid: ExtractionId) -> (r: ValidationError)
    ensures
        r@ == (FaultView::DanglingExtractionRef { via: via@, extraction_uuid }),
{
    ValidationError::DanglingExtractionRef { via, extraction_uuid }
}

fn labelled(before: &str, id: u128, after: &str) -> (r: String)
    ensures
        r@ == before@ + uuid_text(id) + after@,
{
    String::from_str(before).concat(id_text(id).as_str()).concat(after)
}

/// Append `fault` to the list.
fn report(errs: &mut Vec<ValidationError>, fault: ValidationError)
    ensures
        views(final(errs)@) == views(old(errs)@) + seq![fault@],
{
    let ghost before = views(errs@);
    errs.push(fault);
    assert(views(errs@) =~= before + seq![fault@]);
}

/// The identities that the references of a document are checked against.
struct Index {
    extractions: HashSet<u128>,
    pages: HashSet<u128>,
    entries: HashSet<u128>,
}

impl Index {
    spec fn covers(&self, d: DocView) -> bool {
        &&& forall|id: ExtractionId| #[trigger] has_extraction(d, id) <==> self.extractions@.contains(id.0)
        &&& forall|id: PageId| #[trigger] has_page(d, id) <==> self.pages@.contains(id.0)
        &&& forall|id: TocEntryId| #[trigger] has_toc_entry(d, id) <==> self.entries@.contains(id.0)
    }
}

impl Doc {
    fn index(&self) -> (r: Index)
        ensures
            r.covers(self@),
    {
        let mut extractions: HashSet<u128> = HashSet::new();
        for i in 0..self.extractions.len()
            invariant
                forall|id: u128|
                    extractions@.contains(id) <==> exists|k: int|
                        0 <= k < i && (#[trigger] self@.extractions[k]).uuid.0 == id,
        {
            assert(self@.extractions[i as int] == self.extractions@[i as int]@);
            extractions.insert(self.extractions[i].uuid.0);
        }
        let mut pages: HashSet<u128> = HashSet::new();
        for i in 0..self.extracted_pages.len()
            invariant
                forall|id: u128|
                    pages@.contains(id) <==> exists|k: int|
                        0 <= k < i && (#[trigger] self@.extracted_pages[k]).page_uuid.0 == id,
        {
            assert(self@.extracted_pages[i as int] == self.extracted_pages@[i as int]@);
            pages.insert(self.extracted_pages[i].page_uuid.0);
        }
        let mut entries: HashSet<u128> = HashSet::new();
        for i in 0..self.toc.len()
            invariant
                forall|id: u128|
                    entries@.contains(id) <==> exists|k: int|
                        0 <= k < i && (#[trigger] self@.toc[k]).id.0 == id,
        {
            assert(self@.toc[i as int] == self.toc@[i as int]@);
            entries.insert(self.toc[i].id.0);
        }
        let r = Index { extractions, pages, entries };
        proof {
            assert forall|id: ExtractionId| #[trigger] has_extraction(self@, id)
                <==> r.extractions@.contains(id.0) by {}
            assert forall|id: PageId| #[trigger] has_page(self@, id) <==> r.pages@.contains(
                id.0,
            ) by {}
            assert forall|id: TocEntryId| #[trigger] has_toc_entry(self@, id)
                <==> r.entries@.contains(id.0) by {}
        }
        r
    }

    /// Report the faults of one page reference.
    fn check_ref(&self, known: &Index, id: TocEntryId, r: &PageRef, errs: &mut Vec<ValidationError>)
        requires
            known.covers(self@),
        ensures
            views(final(errs)@) == views(old(errs)@) + ref_faults(self@, id, r@),
    {
        let ghost start = views(errs@);
        if !known.extractions.contains(&r.extraction_uuid.0) {
            let via = labelled("TocEntry(id=", id.0, ").page_refs.extraction_uuid");
            report(errs, extraction_fault(via, r.extraction_uuid));
        }
        let ghost mid = views(errs@);
        if !known.pages.contains(&r.page_uuid.0) {
            report(errs, ValidationError::DanglingPageRef { entry: id, page_uuid: r.page_uuid });
        } else if let Some(pe) = self.page_extraction(r.page_uuid) {
            proof {
                let i = choose|i: int| first_page(self@, r.page_uuid, i);
                let k = choose|k: int|
                    #[trigger] first_page(self@, r.page_uuid, k) && pe@ == self@.extracted_pages[k];
                first_page_unique(self@, r.page_uuid, i, k);
            }
            if pe.page != r.page {
                report(
                    errs,
                    ValidationError::PageRefPageMismatch {
                        entry: id,
                        page_uuid: r.page_uuid,
                        ref_page: r.page,
                        actual_page: pe.page,
                    },
                );
            }
        }
        assert(views(errs@) =~= start + ref_faults(self@, id, r@));
    }

    /// Report the faults of one entry.
    fn check_entry(&self, known: &Index, t: &TocEntry, errs: &mut Vec<ValidationError>)
        requires
            known.covers(self@),
        ensures
            views(final(errs)@) == views(old(errs)@) + entry_faults(self@, t@),
    {
        let ghost start = views(errs@);
        if !known.extractions.contains(&t.built_by.0) {
            let via = labelled("TocEntry(id=", t.id.0, ").built_by");
            report(errs, extraction_fault(via, t.built_by));
        }
        if let Some(parent) = t.parent {
            if !known.entries.contains(&parent.0) {
                report(errs, ValidationError::DanglingTocParent { entry: t.id, parent });
            }
        }
        let ghost linked = start + link_faults(self@, t@);
        assert(views(errs@) =~= linked);
        for i in 0..t.page_refs.len()
            invariant
                known.covers(self@),
                views(errs@) == linked + refs_faults(self@, t.id, t@.page_refs, i as nat),
        {
            assert(t@.page_refs[i as int] == t.page_refs@[i as int]@);
            self.check_ref(known, t.id, &t.page_refs[i], errs);
            assert(views(errs@) =~= linked + refs_faults(self@, t.id, t@.page_refs, (i + 1) as nat));
        }
        assert(views(errs@) =~= start + entry_faults(self@, t@));
    }

    /// Check that every reference inside the document resolves. Every fault
    /// found is returned, in document order.
    pub fn validate(&self) -> (r: Result<(), Vec<ValidationError>>)
        ensures
            match r {
                Ok(()) => consistent(self@),
                Err(errs) => !consistent(self@) && errs@.len() > 0 && views(errs@) == faults(self@),
            },
    {
        let known = self.index();
        let mut errs: Vec<ValidationError> = Vec::new();
        assert(views(errs@) =~= pages_faults(self@, 0));
        for i in 0..self.extracted_pages.len()
            invariant
                known.covers(self@),
                views(errs@) == pages_faults(self@, i as nat),
        {
            let p = &self.extracted_pages[i];
            assert(self@.extracted_pages[i as int] == p@);
            if !known.extractions.contains(&p.extraction_uuid.0) {
                let via = labelled("PageExtraction(page_uuid=", p.page_uuid.0, ")");
                report(&mut errs, extraction_fault(via, p.extraction_uuid));
            }
            assert(views(errs@) =~= pages_faults(self@, (i + 1) as nat));
        }
        let ghost start = views(errs@);
        assert(start =~= start + toc_faults(self@, 0));
        for i in 0..self.toc.len()
            invariant
                known.covers(self@),
                views(errs@) == start + toc_faults(self@, i as nat),
        {
            assert(self@.toc[i as int] == self.toc@[i as int]@);
            self.check_entry(&known, &self.toc[i], &mut errs);
            assert(views(errs@) =~= start + toc_faults(self@, (i + 1) as nat));
        }
        proof {
            no_faults_means_consistent(self@);
        }
        if errs.len() == 0 {
            Ok(())
        } else {
            Err(errs)
        }
    }
}

} // verus!
