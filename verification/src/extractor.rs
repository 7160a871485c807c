//! What extraction runs are asked for and what they return.

use crate::ir::{
    Extraction, ExtractionView, PageExtraction, PageExtractionView, page_is_new, run_is_new, views,
};
use vstd::prelude::*;

verus! {

/// The models that can extract a whole document.
#[derive(Debug, Clone, Copy, PartialEq, Eq, Structural)]
pub enum ExtractorModel {
    /// Markdown of every page, without boxes.
    GlmOcr,
    /// Layout of every page, with boxes.
    Inf2Flash,
}

impl ExtractorModel {
    /// All models, in the order in which pickers show them.
    pub fn all() -> (r: Vec<ExtractorModel>)
        ensures
            r@ == seq![ExtractorModel::GlmOcr, ExtractorModel::Inf2Flash],
    {
        vec![ExtractorModel::GlmOcr, ExtractorModel::Inf2Flash]
    }

    pub open spec fn label_text(self) -> Seq<char> {
        match self {
            ExtractorModel::GlmOcr => "GLM-OCR (markdown)"@,
            ExtractorModel::Inf2Flash => "Inf2-Flash (structured)"@,
        }
    }

    /// The name that pickers show.
    pub fn label(self) -> (r: &'static str)
        ensures
            r@ == self.label_text(),
    {
        match self {
            ExtractorModel::GlmOcr => "GLM-OCR (markdown)",
            ExtractorModel::Inf2Flash => "Inf2-Flash (structured)",
        }
    }

    pub open spec fn app_name(self) -> Seq<char> {
        match self {
            ExtractorModel::GlmOcr => "parselab-glm-ocr"@,
            ExtractorModel::Inf2Flash => "parselab-inf2-flash"@,
        }
    }

    /// The deployed app that hosts the model.
    pub fn modal_app_name(self) -> (r: &'static str)
        ensures
            r@ == self.app_name(),
    {
        match self {
            ExtractorModel::GlmOcr => "parselab-glm-ocr",
            ExtractorModel::Inf2Flash => "parselab-inf2-flash",
        }
    }
}

/// A run and its pages, ready to be appended to a document.
#[derive(Debug, Clone, PartialEq)]
pub struct ExtractionResult {
    pub extraction: Extraction,
    pub pages: Vec<PageExtraction>,
}

pub struct ExtractionResultView {
    pub extraction: ExtractionView,
    pub pages: Seq<PageExtractionView>,
}

impl View for ExtractionResult {
    type V = ExtractionResultView;

    open spec fn view(&self) -> ExtractionResultView {
        ExtractionResultView { extraction: self.extraction@, pages: views(self.pages@) }
    }
}

/// Do all pages belong to the run?
pub open spec fn pages_of_run(r: ExtractionResultView) -> bool {
    forall|i: int|
        0 <= i < r.pages.len() ==> (#[trigger] r.pages[i]).extraction_uuid == r.extraction.uuid
}

/// Are the run and its pages new?
pub open spec fn result_is_new(r: ExtractionResultView) -> bool {
    &&& run_is_new(r.extraction)
    &&& forall|i: int| 0 <= i < r.pages.len() ==> page_is_new(#[trigger] r.pages[i])
}

/// Are these the pages that were asked for, in that order?
pub open spec fn pages_asked_for(r: ExtractionResultView, asked: Seq<u32>) -> bool {
    &&& r.pages.len() == asked.len()
    &&& forall|i: int| 0 <= i < asked.len() ==> (#[trigger] r.pages[i]).page == asked[i]
}

} // verus!
