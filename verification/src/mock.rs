//! An extractor without a model, for tests and development.

use crate::error::{Error, ErrorView};
use crate::extractor::{ExtractionResult, pages_asked_for, pages_of_run, result_is_new};
use crate::ids::{ExtractionId, PageId};
use crate::ir::{
    Content, ContentView, Extraction, ExtractionView, MarkdownContent, ModelId, PageExtraction,
    PageMetrics, PageMetricsView, Params, PromptText, StructuredPage, page_is_new, run_is_new,
};
use crate::json::Json;
use crate::number::{Real, double_text, with_cents};
use crate::stamp::Timestamp;
use crate::text::{decimal, decimal_text};
use vstd::prelude::*;

verus! {

pub struct MockExtractor;

/// The metrics that every page of a run gets.
pub open spec fn canned_metrics(m: PageMetricsView, cents: u8, input: u32, output: u32) -> bool {
    &&& double_text(with_cents(0, cents)) == Some(m.elapsed_secs)
    &&& m.input_tokens == Some(input)
    &&& m.output_tokens == Some(output)
}

/// Is this a run record of the mock?
pub open spec fn canned_run(e: ExtractionView, model: Seq<char>) -> bool {
    &&& e.model == model
    &&& e.prompt == "mock prompt"@
    &&& e.params == Seq::<(Seq<char>, Json)>::empty()
}

fn canned_extraction(model: &str) -> (r: Extraction)
    ensures
        canned_run(r@, model@),
        run_is_new(r@),
{
    Extraction {
        uuid: ExtractionId::new(),
        model: ModelId(String::from_str(model)),
        prompt: PromptText(String::from_str("mock prompt")),
        params: Params::new(),
        created_at: Timestamp::now(),
    }
}

/// The Markdown of page `page`.
pub open spec fn mock_markdown(page: u32) -> Seq<char> {
    "# mock page "@ + decimal(page as nat)
}

fn mock_page(page: u32, extraction_uuid: ExtractionId, content: Content, metrics: PageMetrics) -> (r:
    PageExtraction)
    ensures
        page_is_new(r@),
        r@.page == page,
        r@.extraction_uuid == extraction_uuid,
        r@.content == content@,
        r@.metrics == Some(metrics@),
{
    PageExtraction {
        page_uuid: PageId::new(),
        page,
        extraction_uuid,
        content,
        metrics: Some(metrics),
    }
}

impl MockExtractor {
    /// One Markdown page for each page asked for, or page 0 where none is named.
    /// Never fails.
    pub fn pass1(&self, _pdf: &[u8], pages: Option<&[u32]>) -> (r: Result<ExtractionResult, Error>)
        ensures
            match r {
                Err(_) => false,
                Ok(v) => {
                    &&& canned_run(v@.extraction, "mock-pass1@v1"@)
                    &&& result_is_new(v@)
                    &&& pages_of_run(v@)
                    &&& pages_asked_for(
                        v@,
                        (match pages {
                            Some(p) => p@,
                            None => seq![0u32],
                        }),
                    )
                    &&& forall|i: int|
                        0 <= i < v@.pages.len() ==> (#[trigger] v@.pages[i]).content
                            == ContentView::Markdown(mock_markdown(v@.pages[i].page))
                    &&& forall|i: int|
                        0 <= i < v@.pages.len() ==> ((#[trigger] v@.pages[i]).metrics matches Some(
                            m,
                        ) && canned_metrics(m, 1, 100, 50))
                },
            },
    {
        let zero: [u32; 1] = [0];
        let asked: &[u32] = match pages {
            Some(p) => p,
            None => &zero,
        };
        let ghost wanted = match pages {
            Some(p) => p@,
            None => seq![0u32],
        };
        assert(asked@ =~= wanted);
        let extraction = canned_extraction("mock-pass1@v1");
        let uuid = extraction.uuid;
        let mut out: Vec<PageExtraction> = Vec::new();
        for i in 0..asked.len()
            invariant
                out@.len() == i,
                forall|k: int|
                    0 <= k < i ==> {
                        let p = (#[trigger] out@[k])@;
                        &&& page_is_new(p)
                        &&& p.page == asked@[k]
                        &&& p.extraction_uuid == uuid
                        &&& p.content == ContentView::Markdown(mock_markdown(asked@[k]))
                        &&& p.metrics matches Some(m) && canned_metrics(m, 1, 100, 50)
                    },
        {
            let page: u32 = asked[i];
            let markdown = String::from_str("# mock page ").concat(
                decimal_text(page as u64).as_str(),
            );
            let metrics = PageMetrics {
                elapsed_secs: Real::from_cents(0, 1),
                input_tokens: Some(100),
                output_tokens: Some(50),
            };
            let content = Content::Markdown(MarkdownContent { markdown });
            out.push(mock_page(page, uuid, content, metrics));
        }
        let r = ExtractionResult { extraction, pages: out };
        assert forall|i: int| 0 <= i < r@.pages.len() implies #[trigger] r@.pages[i]
            == out@[i]@ by {}
        Ok(r)
    }

    /// One empty layout for each page asked for.
    pub fn pass2(&self, _pdf: &[u8], pages: &[u32]) -> (r: Result<ExtractionResult, Error>)
        ensures
            match r {
                Err(e) => pages@.len() == 0 && e@ == ErrorView::EmptyPagesForPass2,
                Ok(v) => {
                    &&& pages@.len() > 0
                    &&& canned_run(v@.extraction, "mock-pass2@v1"@)
                    &&& result_is_new(v@)
                    &&& pages_of_run(v@)
                    &&& pages_asked_for(v@, pages@)
                    &&& forall|i: int|
                        0 <= i < v@.pages.len() ==> ((
                        #[trigger] v@.pages[i]).content matches ContentView::Structured(p)
                            && p.blocks.len() == 0 && p.page_meta is None)
                    &&& forall|i: int|
                        0 <= i < v@.pages.len() ==> ((#[trigger] v@.pages[i]).metrics matches Some(
                            m,
                        ) && canned_metrics(m, 50, 3000, 1500))
                },
            },
    {
        if pages.len() == 0 {
            return Err(Error::EmptyPagesForPass2);
        }
        let extraction = canned_extraction("mock-pass2@v1");
        let uuid = extraction.uuid;
        let mut out: Vec<PageExtraction> = Vec::new();
        for i in 0..pages.len()
            invariant
                out@.len() == i,
                forall|k: int|
                    0 <= k < i ==> {
                        let p = (#[trigger] out@[k])@;
                        &&& page_is_new(p)
                        &&& p.page == pages@[k]
                        &&& p.extraction_uuid == uuid
                        &&& p.content matches ContentView::Structured(s) && s.blocks.len() == 0
                            && s.page_meta is None
                        &&& p.metrics matches Some(m) && canned_metrics(m, 50, 3000, 1500)
                    },
        {
            let metrics = PageMetrics {
                elapsed_secs: Real::from_cents(0, 50),
                input_tokens: Some(3000),
                output_tokens: Some(1500),
            };
            let content = Content::Structured(StructuredPage::default());
            out.push(mock_page(pages[i], uuid, content, metrics));
        }
        let r = ExtractionResult { extraction, pages: out };
        assert forall|i: int| 0 <= i < r@.pages.len() implies #[trigger] r@.pages[i]
            == out@[i]@ by {}
        Ok(r)
    }
}

} // verus!
