//! Extraction runs on the deployed model servers.
//!
//! What is sent, and what becomes of each answer, is decided here; sending it is
//! the caller's.

use crate::error::{Error, ErrorView};
use crate::ids::{ExtractionId, PageId};
use crate::ir::{
    BBox, BBoxView, Content, ContentView, ErrorContent, ErrorContentView, Extraction,
    MarkdownContent, ModelId, PageExtraction, PageExtractionView, PageMeta, PageMetaView,
    PageMetrics, PageMetricsView, Params, PromptText, StructuredBlock, StructuredBlockView,
    StructuredPage, StructuredPageView, copied_text, page_is_new, run_is_new, views, with_param,
};
use crate::json::{Json, real_json, whole_json};
use crate::number::Real;
use crate::openai::{
    ChatRequest, HttpOutcome, base64_text, encode_base64, fits_base64, page_request, reply_in,
    reply_of,
};
use crate::pass2::{
    LayoutElement, LayoutElementView, layout_in_text, layout_message, parse_layout_json,
};
use crate::stamp::Timestamp;
use vstd::prelude::*;

verus! {

// ---------------------------------------------------------------------------
// Plans
// ---------------------------------------------------------------------------

/// What an answer is read as.
#[derive(Debug, Clone, Copy, PartialEq, Eq, Structural)]
pub enum PassFormat {
    Markdown,
    StructuredJson,
}

/// Token budget of a Markdown page.
pub const PASS1_MAX_TOKENS: u32 = 1024;

/// Requests in flight at a time in a Markdown pass.
pub const PASS1_DEFAULT_CONCURRENCY: usize = 16;

/// Token budget of a layout page.
pub const PASS2_MAX_TOKENS: u32 = 4096;

/// Requests in flight at a time in a layout pass.
pub const PASS2_DEFAULT_CONCURRENCY: usize = 4;

/// The resolution at which pages are rendered, in dots per inch.
pub const DEFAULT_RENDER_DPI: u16 = 200;

/// Server of the Markdown pass.
pub const PASS1_URL: &'static str = "https://ferrite-systems--parselab-glm-ocr-serve.modal.run";

/// Server of the layout pass.
pub const PASS2_URL: &'static str = "https://ferrite-systems--parselab-inf2-flash-serve.modal.run";

/// Model of the Markdown pass.
pub const PASS1_MODEL_ID: &'static str = "zai-org/GLM-OCR";

/// Prompt of the Markdown pass.
pub const PASS1_PROMPT: &'static str = "Text Recognition:";

/// Model of the layout pass.
pub const PASS2_MODEL_ID: &'static str = "infly/Infinity-Parser2-Flash";

/// Prompt of the layout pass.
pub const PASS2_PROMPT: &'static str = "Extract document layout as a JSON array, \
with as few blocks as possible. One table = one block (full HTML in text). \
Group adjacent paragraphs into one text block. Skip page furniture. \
Each element: {\"bbox\":[x1,y1,x2,y2], \"category\":\"...\", \"text\":\"...\"}. \
Return ONLY the JSON array.";

/// Where the two passes are sent, and how many requests may be in flight.
#[derive(Debug, Clone)]
pub struct ModalExtractor {
    pub pass1_url: String,
    pub pass2_url: String,
    pub pass1_concurrency: usize,
    pub pass2_concurrency: usize,
}

/// Everything that a pass needs to know.
#[derive(Debug, Clone)]
pub struct PassPlan {
    pub url: String,
    pub model: &'static str,
    pub prompt: &'static str,
    pub max_tokens: u32,
    pub concurrency: usize,
    pub format: PassFormat,
    pub pages: Vec<u32>,
}

/// The numbers below `count`, in order.
pub open spec fn all_pages(count: u32) -> Seq<u32> {
    Seq::new(count as nat, |i: int| i as u32)
}

pub open spec fn at_least_one(n: usize) -> usize {
    if n < 1 {
        1
    } else {
        n
    }
}

fn copied(pages: &[u32]) -> (r: Vec<u32>)
    ensures
        r@ == pages@,
{
    let mut out: Vec<u32> = Vec::new();
    for i in 0..pages.len()
        invariant
            out@ == pages@.take(i as int),
    {
        out.push(pages[i]);
        assert(out@ =~= pages@.take(i + 1));
    }
    assert(out@ =~= pages@);
    out
}

impl ModalExtractor {
    pub fn new(pass1_url: &str, pass2_url: &str) -> (r: Self)
        ensures
            r.pass1_url@ == pass1_url@,
            r.pass2_url@ == pass2_url@,
            r.pass1_concurrency == PASS1_DEFAULT_CONCURRENCY,
            r.pass2_concurrency == PASS2_DEFAULT_CONCURRENCY,
    {
        ModalExtractor {
            pass1_url: String::from_str(pass1_url),
            pass2_url: String::from_str(pass2_url),
            pass1_concurrency: PASS1_DEFAULT_CONCURRENCY,
            pass2_concurrency: PASS2_DEFAULT_CONCURRENCY,
        }
    }

    /// Override how many requests may be in flight; at least one is allowed.
    pub fn with_concurrency(self, pass1: usize, pass2: usize) -> (r: Self)
        ensures
            r.pass1_url == self.pass1_url,
            r.pass2_url == self.pass2_url,
            r.pass1_concurrency == at_least_one(pass1),
            r.pass2_concurrency == at_least_one(pass2),
    {
        ModalExtractor {
            pass1_url: self.pass1_url,
            pass2_url: self.pass2_url,
            pass1_concurrency: if pass1 < 1 {
                1
            } else {
                pass1
            },
            pass2_concurrency: if pass2 < 1 {
                1
            } else {
                pass2
            },
        }
    }

    /// The Markdown pass over the pages named, or over all `page_count` pages
    /// where none are.
    pub fn pass1_plan(&self, pages: Option<&[u32]>, page_count: u32) -> (r: PassPlan)
        ensures
            r.url@ == self.pass1_url@,
            r.model@ == PASS1_MODEL_ID@,
            r.prompt@ == PASS1_PROMPT@,
            r.max_tokens == PASS1_MAX_TOKENS,
            r.concurrency == self.pass1_concurrency,
            r.format is Markdown,
            r.pages@ == (match pages {
                Some(p) => p@,
                None => all_pages(page_count),
            }),
    {
        let pages = match pages {
            Some(p) => copied(p),
            None => {
                let mut all: Vec<u32> = Vec::new();
                for i in 0..page_count
                    invariant
                        all@ == all_pages(i),
                {
                    all.push(i);
                    assert(all@ =~= all_pages((i + 1) as u32));
                }
                all
            },
        };
        PassPlan {
            url: self.pass1_url.clone(),
            model: PASS1_MODEL_ID,
            prompt: PASS1_PROMPT,
            max_tokens: PASS1_MAX_TOKENS,
            concurrency: self.pass1_concurrency,
            format: PassFormat::Markdown,
            pages,
        }
    }

    /// The layout pass over the pages named, of which there has to be one.
    pub fn pass2_plan(&self, pages: &[u32]) -> (r: Result<PassPlan, Error>)
        ensures
            match r {
                Err(e) => pages@.len() == 0 && e@ == ErrorView::EmptyPagesForPass2,
                Ok(p) => {
                    &&& pages@.len() > 0
                    &&& p.url@ == self.pass2_url@
                    &&& p.model@ == PASS2_MODEL_ID@
                    &&& p.prompt@ == PASS2_PROMPT@
                    &&& p.max_tokens == PASS2_MAX_TOKENS
                    &&& p.concurrency == self.pass2_concurrency
                    &&& p.format is StructuredJson
                    &&& p.pages@ == pages@
                },
            },
    {
        if pages.len() == 0 {
            return Err(Error::EmptyPagesForPass2);
        }
        Ok(
            PassPlan {
                url: self.pass2_url.clone(),
                model: PASS2_MODEL_ID,
                prompt: PASS2_PROMPT,
                max_tokens: PASS2_MAX_TOKENS,
                concurrency: self.pass2_concurrency,
                format: PassFormat::StructuredJson,
                pages: copied(pages),
            },
        )
    }
}

/// The parameters that a run is recorded with.
pub open spec fn pass_params(max_tokens: u32, temperature: Seq<char>, dpi: Seq<char>) -> Seq<
    (Seq<char>, Json),
> {
    with_param(
        with_param(
            with_param(Seq::empty(), "dpi"@, real_json(dpi)),
            "max_tokens"@,
            whole_json(max_tokens as i64),
        ),
        "temperature"@,
        real_json(temperature),
    )
}

/// The run record of a pass.
pub fn pass_extraction(plan: &PassPlan, dpi: &Real, temperature: &Real) -> (r: Extraction)
    ensures
        r@.model == plan.model@,
        r@.prompt == plan.prompt@,
        r@.params == pass_params(plan.max_tokens, temperature@, dpi@),
        run_is_new(r@),
{
    let mut params = Params::new();
    params.insert(String::from_str("dpi"), crate::json::of_real(dpi));
    params.insert(String::from_str("max_tokens"), crate::json::of_i64(plan.max_tokens as i64));
    params.insert(String::from_str("temperature"), crate::json::of_real(temperature));
    Extraction {
        uuid: ExtractionId::new(),
        model: ModelId(String::from_str(plan.model)),
        prompt: PromptText(String::from_str(plan.prompt)),
        params,
        created_at: Timestamp::now(),
    }
}

// ---------------------------------------------------------------------------
// Pages
// ---------------------------------------------------------------------------

/// One rendered page.
#[derive(Debug, Clone)]
pub struct PageImage {
    /// Index of the page, from 0.
    pub page: u32,
    pub png_bytes: Vec<u8>,
    pub width_px: u32,
    pub height_px: u32,
    pub width_pts: Real,
    pub height_pts: Real,
    pub rotation_deg: u16,
    /// Resolution of the rendering in whole dots per inch.
    pub dpi: u16,
}

/// The request for one rendered page.
pub fn image_request(
    model: &str,
    prompt: &str,
    max_tokens: u32,
    png_bytes: &[u8],
    temperature: Real,
) -> (r: ChatRequest)
    requires
        fits_base64(png_bytes@.len()),
    ensures
        r@ == page_request(model@, prompt@, base64_text(png_bytes@), max_tokens, temperature@),
{
    let png = encode_base64(png_bytes);
    ChatRequest::single_page(model, prompt, png.as_str(), max_tokens, temperature)
}

/// What an answer comes to: content, or a layout whose boxes are still on the
/// model's grid.
#[derive(Debug, Clone)]
pub enum PageContent {
    Ready(Content),
    Layout(Vec<LayoutElement>),
}

pub enum PageContentView {
    Ready(ContentView),
    Layout(Seq<LayoutElementView>),
}

impl View for PageContent {
    type V = PageContentView;

    open spec fn view(&self) -> PageContentView {
        match self {
            PageContent::Ready(c) => PageContentView::Ready(c@),
            PageContent::Layout(l) => PageContentView::Layout(views(l@)),
        }
    }
}

/// What an answer comes to. An answer without a layout in it becomes a page
/// error, so that the other pages of the run survive.
pub open spec fn content_in(format: PassFormat, raw: Seq<char>) -> PageContentView {
    match format {
        PassFormat::Markdown => PageContentView::Ready(ContentView::Markdown(raw)),
        PassFormat::StructuredJson => match layout_in_text(raw) {
            Ok(layout) => PageContentView::Layout(layout),
            Err(e) => PageContentView::Ready(
                ContentView::Error(
                    ErrorContentView { kind: "parse_error"@, message: layout_message(e) },
                ),
            ),
        },
    }
}

/// Read an answer.
pub fn read_content(format: PassFormat, raw: String) -> (r: PageContent)
    ensures
        r@ == content_in(format, raw@),
{
    match format {
        PassFormat::Markdown => PageContent::Ready(
            Content::Markdown(MarkdownContent { markdown: raw }),
        ),
        PassFormat::StructuredJson => match parse_layout_json(raw.as_str()) {
            Ok(layout) => PageContent::Layout(layout),
            Err(e) => PageContent::Ready(
                Content::Error(
                    ErrorContent { kind: String::from_str("parse_error"), message: e.message() },
                ),
            ),
        },
    }
}

/// The block that an element becomes once its box is in page points.
pub open spec fn placed(e: LayoutElementView, bbox: BBoxView) -> StructuredBlockView {
    StructuredBlockView { kind: e.kind, bbox, text: e.text, confidence: e.confidence }
}

/// What is recorded of the page that a layout belongs to.
pub open spec fn meta_of(img: PageImage) -> PageMetaView {
    PageMetaView {
        width_pts: img.width_pts@,
        height_pts: img.height_pts@,
        rotation_deg: img.rotation_deg,
        dpi: Some(img.dpi),
    }
}

/// The content of a page with a layout, given the boxes of its elements in page
/// points.
pub fn layout_content(layout: Vec<LayoutElement>, boxes: Vec<BBox>, img: &PageImage) -> (r: Content)
    requires
        layout@.len() == boxes@.len(),
    ensures
        r@ == ContentView::Structured(
            StructuredPageView {
                blocks: Seq::new(layout@.len(), |i: int| placed(layout@[i]@, boxes@[i]@)),
                page_meta: Some(meta_of(*img)),
            },
        ),
{
    let mut blocks: Vec<StructuredBlock> = Vec::new();
    let ghost all = Seq::new(layout@.len(), |i: int| placed(layout@[i]@, boxes@[i]@));
    assert(views(blocks@) =~= all.take(0));
    for i in 0..layout.len()
        invariant
            layout@.len() == boxes@.len(),
            all == Seq::new(layout@.len(), |i: int| placed(layout@[i]@, boxes@[i]@)),
            views(blocks@) == all.take(i as int),
    {
        let e = &layout[i];
        let block = StructuredBlock {
            kind: e.kind.clone(),
            bbox: boxes[i].copy(),
            text: copied_text(&e.text),
            confidence: match &e.confidence {
                Some(c) => Some(c.copy()),
                None => None,
            },
        };
        let ghost before = views(blocks@);
        assert(block@ == all[i as int]);
        blocks.push(block);
        assert(views(blocks@) =~= before.push(block@));
        assert(views(blocks@) =~= all.take(i + 1));
    }
    assert(all.take(all.len() as int) =~= all);
    let meta = PageMeta {
        width_pts: img.width_pts.copy(),
        height_pts: img.height_pts.copy(),
        rotation_deg: img.rotation_deg,
        dpi: Some(img.dpi),
    };
    Content::Structured(StructuredPage { blocks, page_meta: Some(meta) })
}

/// Is `p` a new record of page `page` of a run, with this content and these
/// metrics?
pub open spec fn is_page_record(
    p: PageExtractionView,
    page: u32,
    run: ExtractionId,
    content: ContentView,
    elapsed_secs: Seq<char>,
    input_tokens: Option<u32>,
    output_tokens: Option<u32>,
) -> bool {
    &&& page_is_new(p)
    &&& p.page == page
    &&& p.extraction_uuid == run
    &&& p.content == content
    &&& p.metrics == Some(PageMetricsView { elapsed_secs, input_tokens, output_tokens })
}

/// The record of a page that was answered.
pub fn answered_page(
    page: u32,
    run: ExtractionId,
    content: Content,
    elapsed_secs: Real,
    input_tokens: Option<u32>,
    output_tokens: Option<u32>,
) -> (r: PageExtraction)
    ensures
        is_page_record(
            r@,
            page,
            run,
            content@,
            elapsed_secs@,
            input_tokens,
            output_tokens,
        ),
{
    PageExtraction {
        page_uuid: PageId::new(),
        page,
        extraction_uuid: run,
        content,
        metrics: Some(PageMetrics { elapsed_secs, input_tokens, output_tokens }),
    }
}

/// The content of a page whose request failed.
pub open spec fn request_error(message: Seq<char>) -> ContentView {
    ContentView::Error(ErrorContentView { kind: "request_error"@, message })
}

/// What there is to do about the outcome of a page's request.
#[derive(Debug, Clone)]
pub enum PageStep {
    /// The record is complete.
    Done(PageExtraction),
    /// The boxes of the layout still have to be put in page points.
    Place { layout: Vec<LayoutElement>, input_tokens: Option<u32>, output_tokens: Option<u32> },
}

/// Is `s` what there is to do about outcome `o` of the request for page `page`?
pub open spec fn is_step(
    s: PageStep,
    format: PassFormat,
    page: u32,
    run: ExtractionId,
    o: HttpOutcome,
    elapsed_secs: Seq<char>,
) -> bool {
    match reply_in(o) {
        Err(message) => s matches PageStep::Done(p) && is_page_record(
            p@,
            page,
            run,
            request_error(message),
            elapsed_secs,
            None,
            None,
        ),
        Ok(reply) => match content_in(format, reply.content) {
            PageContentView::Ready(c) => s matches PageStep::Done(p) && is_page_record(
                p@,
                page,
                run,
                c,
                elapsed_secs,
                reply.input_tokens,
                reply.output_tokens,
            ),
            PageContentView::Layout(l) => {
                &&& s matches PageStep::Place { layout, input_tokens, output_tokens }
                &&& views(layout@) == l
                &&& input_tokens == reply.input_tokens
                &&& output_tokens == reply.output_tokens
            },
        },
    }
}

/// Decide what there is to do about the outcome of a page's request. Every page
/// comes to a record: a failure becomes a page error.
pub fn page_step(
    format: PassFormat,
    page: u32,
    run: ExtractionId,
    o: HttpOutcome,
    elapsed_secs: Real,
) -> (r: PageStep)
    ensures
        is_step(r, format, page, run, o, elapsed_secs@),
{
    match reply_of(o) {
        Err(message) => {
            let content = Content::Error(
                ErrorContent { kind: String::from_str("request_error"), message },
            );
            PageStep::Done(answered_page(page, run, content, elapsed_secs, None, None))
        },
        Ok(reply) => match read_content(format, reply.content) {
            PageContent::Ready(content) => PageStep::Done(
                answered_page(
                    page,
                    run,
                    content,
                    elapsed_secs,
                    reply.input_tokens,
                    reply.output_tokens,
                ),
            ),
            PageContent::Layout(layout) => PageStep::Place {
                layout,
                input_tokens: reply.input_tokens,
                output_tokens: reply.output_tokens,
            },
        },
    }
}

/// Complete the record of a page whose layout has been put in page points.
pub fn placed_page(
    layout: Vec<LayoutElement>,
    boxes: Vec<BBox>,
    img: &PageImage,
    run: ExtractionId,
    elapsed_secs: Real,
    input_tokens: Option<u32>,
    output_tokens: Option<u32>,
) -> (r: PageExtraction)
    requires
        layout@.len() == boxes@.len(),
    ensures
        is_page_record(
            r@,
            img.page,
            run,
            ContentView::Structured(
                (StructuredPageView {
                    blocks: Seq::new(layout@.len(), |i: int| placed(layout@[i]@, boxes@[i]@)),
                    page_meta: Some(meta_of(*img)),
                }),
            ),
            elapsed_secs@,
            input_tokens,
            output_tokens,
        ),
{
    let content = layout_content(layout, boxes, img);
    answered_page(img.page, run, content, elapsed_secs, input_tokens, output_tokens)
}

/// Whatever becomes of the request for a page, there will be a record of that page
/// under that run: at once, or, for a layout, once its boxes are placed.
pub proof fn every_page_comes_to_a_record(
    s: PageStep,
    format: PassFormat,
    page: u32,
    run: ExtractionId,
    o: HttpOutcome,
    elapsed_secs: Seq<char>,
)
    requires
        is_step(s, format, page, run, o, elapsed_secs),
    ensures
        match s {
            PageStep::Done(p) => {
                &&& page_is_new(p@)
                &&& p@.page == page
                &&& p@.extraction_uuid == run
                &&& p@.metrics matches Some(m) && m.elapsed_secs == elapsed_secs
            },
            PageStep::Place { .. } => format is StructuredJson && reply_in(o) is Ok,
        },
{
}

/// A request that fails becomes a page error with the reason.
pub proof fn failed_requests_become_page_errors(
    s: PageStep,
    format: PassFormat,
    page: u32,
    run: ExtractionId,
    o: HttpOutcome,
    elapsed_secs: Seq<char>,
)
    requires
        is_step(s, format, page, run, o, elapsed_secs),
        reply_in(o) is Err,
    ensures
        s matches PageStep::Done(p) && p@.content == request_error(reply_in(o)->Err_0),
{
}

// ---------------------------------------------------------------------------
// Bulk runs
// ---------------------------------------------------------------------------

/// One page of a bulk run, with a key by which the caller finds it again.
#[derive(Debug, Clone)]
pub struct ExtractTask {
    pub key: String,
    pub page_image: PageImage,
}

/// What became of one page of a bulk run.
#[derive(Debug)]
pub struct ExtractTaskResult {
    pub key: String,
    pub page: u32,
    pub content: Result<String, String>,
    pub input_tokens: Option<u32>,
    pub output_tokens: Option<u32>,
    pub elapsed_secs: Real,
}

/// The result of a bulk task whose request had outcome `o`.
pub fn bulk_result(key: String, page: u32, o: HttpOutcome, elapsed_secs: Real) -> (r:
    ExtractTaskResult)
    ensures
        r.key@ == key@,
        r.page == page,
        r.elapsed_secs@ == elapsed_secs@,
        match reply_in(o) {
            Ok(reply) => {
                &&& r.content matches Ok(s) && s@ == reply.content
                &&& r.input_tokens == reply.input_tokens
                &&& r.output_tokens == reply.output_tokens
            },
            Err(message) => {
                &&& r.content matches Err(s) && s@ == message
                &&& r.input_tokens is None
                &&& r.output_tokens is None
            },
        },
{
    match reply_of(o) {
        Ok(reply) => ExtractTaskResult {
            key,
            page,
            content: Ok(reply.content),
            input_tokens: reply.input_tokens,
            output_tokens: reply.output_tokens,
            elapsed_secs,
        },
        Err(message) => ExtractTaskResult {
            key,
            page,
            content: Err(message),
            input_tokens: None,
            output_tokens: None,
            elapsed_secs,
        },
    }
}

} // verus!
