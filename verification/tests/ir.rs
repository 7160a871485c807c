//! The document: lookups, validation, parameters.

use parselab::ids::{ExtractionId, PageId, TocEntryId};
use parselab::ir::{
    block_kind_color_rgb, BBox, Content, ContentHash, Doc, ErrorContent, Extraction, FormatType,
    MarkdownContent, ModelId, PageExtraction, PageMeta, PageMetrics, PageRef, Params, PromptText,
    StructuredBlock, StructuredPage, TocEntry, ValidationError, SCHEMA_VERSION,
};
use parselab::number::Real;
use parselab::stamp::Timestamp;

fn number(text: &str) -> Real {
    Real::parse(text).unwrap()
}

fn fixed_ts() -> Timestamp {
    Timestamp::parse_rfc3339("2026-04-29T12:00:00Z").unwrap()
}

fn extraction(model: &str, prompt: &str, params: Params) -> Extraction {
    Extraction {
        uuid: ExtractionId::new(),
        model: ModelId(model.to_string()),
        prompt: PromptText(prompt.to_string()),
        params,
        created_at: fixed_ts(),
    }
}

fn build_doc() -> Doc {
    let mut params = Params::new();
    params.insert("dpi".to_string(), serde_json::Value::from(200));
    params.insert("max_new_tokens".to_string(), serde_json::Value::from(8192));
    let extr_pass1 = extraction("glm-ocr@v1", "extract markdown from this page", params);
    let extr_pass2 = extraction(
        "infinity-parser2-pro@v1",
        "extract structured blocks with bboxes",
        Params::new(),
    );
    let extr_toc = extraction(
        "toc-builder@v1",
        "build a hierarchical ToC from per-page markdown",
        Params::new(),
    );
    let pe1 = PageExtraction {
        page_uuid: PageId::new(),
        page: 0,
        extraction_uuid: extr_pass1.uuid,
        content: Content::Markdown(MarkdownContent {
            markdown: "# Datasheet Title".to_string(),
        }),
        metrics: Some(PageMetrics {
            elapsed_secs: number("1.4"),
            input_tokens: Some(1024),
            output_tokens: Some(217),
        }),
    };
    let pe2 = PageExtraction {
        page_uuid: PageId::new(),
        page: 1,
        extraction_uuid: extr_pass1.uuid,
        content: Content::Markdown(MarkdownContent {
            markdown: "## Electrical Characteristics\n\n| Param | Min | Typ | Max |".to_string(),
        }),
        metrics: None,
    };
    let pe3 = PageExtraction {
        page_uuid: PageId::new(),
        page: 1,
        extraction_uuid: extr_pass2.uuid,
        content: Content::Structured(StructuredPage {
            blocks: vec![StructuredBlock {
                kind: "table".to_string(),
                bbox: BBox {
                    x: number("72.0"),
                    y: number("120.0"),
                    w: number("450.0"),
                    h: number("200.0"),
                },
                text: Some("Param | Min | Typ | Max | …".to_string()),
                confidence: Some(number("0.92")),
            }],
            page_meta: Some(PageMeta {
                width_pts: number("612.0"),
                height_pts: number("792.0"),
                rotation_deg: 0,
                dpi: Some(300),
            }),
        }),
        metrics: None,
    };
    let toc_root = TocEntry {
        id: TocEntryId::new(),
        title: "Electrical Characteristics".to_string(),
        level: 1,
        parent: None,
        page_refs: vec![PageRef {
            page: 1,
            model: ModelId("glm-ocr@v1".to_string()),
            page_uuid: pe2.page_uuid,
            extraction_uuid: pe2.extraction_uuid,
        }],
        built_by: extr_toc.uuid,
    };
    Doc {
        schema_version: SCHEMA_VERSION,
        content_hash: ContentHash("0123456789abcdef".repeat(4)),
        extractions: vec![extr_pass1, extr_pass2, extr_toc],
        extracted_pages: vec![pe1, pe2, pe3],
        toc: vec![toc_root],
    }
}

#[test]
fn validate_passes_on_well_formed_doc() {
    let doc = build_doc();
    if let Err(errs) = doc.validate() {
        panic!("validation errors: {errs:?}");
    }
}

#[test]
fn page_extractions_returns_all_for_page() {
    let doc = build_doc();
    let pages = doc.page_extractions(1);
    assert_eq!(pages.len(), 2);
    let formats: Vec<_> = pages.iter().map(|p| p.format_type()).collect();
    assert!(formats.contains(&FormatType::Markdown));
    assert!(formats.contains(&FormatType::StructuredJson));
}

#[test]
fn extraction_lookup_by_uuid() {
    let doc = build_doc();
    let id = doc.extractions[0].uuid;
    assert_eq!(doc.extraction(id).map(|e| &e.model), Some(&doc.extractions[0].model));
    assert!(doc.extraction(ExtractionId::new()).is_none());
}

#[test]
fn validate_catches_dangling_extraction_ref() {
    let mut doc = build_doc();
    doc.extracted_pages[0].extraction_uuid = ExtractionId::new();
    let errs = doc.validate().expect_err("validation should fail");
    assert!(errs.iter().any(|e| matches!(e, ValidationError::DanglingExtractionRef { .. })));
}

#[test]
fn validate_catches_page_mismatch() {
    let mut doc = build_doc();
    doc.toc[0].page_refs[0].page = 99;
    let errs = doc.validate().expect_err("validation should fail");
    assert!(errs.iter().any(|e| matches!(e, ValidationError::PageRefPageMismatch { .. })));
}

#[test]
fn validate_catches_dangling_toc_parent() {
    let mut doc = build_doc();
    doc.toc[0].parent = Some(TocEntryId::new());
    let errs = doc.validate().expect_err("validation should fail");
    assert!(errs.iter().any(|e| matches!(e, ValidationError::DanglingTocParent { .. })));
}

#[test]
fn validate_catches_dangling_page_ref() {
    let mut doc = build_doc();
    let gone = PageId::new();
    doc.toc[0].page_refs[0].page_uuid = gone;
    let entry = doc.toc[0].id;
    assert_eq!(
        doc.validate(),
        Err(vec![ValidationError::DanglingPageRef { entry, page_uuid: gone }])
    );
}

#[test]
fn faults_come_in_document_order_with_their_places() {
    let mut doc = build_doc();
    doc.extracted_pages[0].page_uuid = PageId(0x00112233_4455_6677_8899_aabbccddeeff);
    doc.extracted_pages[0].extraction_uuid = ExtractionId(1);
    doc.toc[0].id = TocEntryId(0xff);
    doc.toc[0].built_by = ExtractionId(2);
    doc.toc[0].page_refs[0].extraction_uuid = ExtractionId(3);
    let errs = doc.validate().expect_err("validation should fail");
    assert_eq!(
        errs,
        vec![
            ValidationError::DanglingExtractionRef {
                via: "PageExtraction(page_uuid=00112233-4455-6677-8899-aabbccddeeff)".to_string(),
                extraction_uuid: ExtractionId(1),
            },
            ValidationError::DanglingExtractionRef {
                via: "TocEntry(id=00000000-0000-0000-0000-0000000000ff).built_by".to_string(),
                extraction_uuid: ExtractionId(2),
            },
            ValidationError::DanglingExtractionRef {
                via: "TocEntry(id=00000000-0000-0000-0000-0000000000ff).page_refs.extraction_uuid"
                    .to_string(),
                extraction_uuid: ExtractionId(3),
            },
        ]
    );
}

#[test]
fn lookups_by_page_and_entry() {
    let doc = build_doc();
    let page = doc.extracted_pages[2].page_uuid;
    assert_eq!(doc.page_extraction(page), Some(&doc.extracted_pages[2]));
    assert!(doc.page_extraction(PageId(7)).is_none());
    let entry = doc.toc[0].id;
    assert_eq!(doc.toc_entry(entry), Some(&doc.toc[0]));
    assert!(doc.toc_entry(TocEntryId(7)).is_none());
    assert!(doc.page_extractions(9).is_empty());
}

#[test]
fn params_hold_one_value_per_key_in_key_order() {
    let mut params = Params::new();
    assert!(params.is_empty());
    params.insert("b".to_string(), serde_json::Value::from(1));
    params.insert("a".to_string(), serde_json::Value::from(2));
    params.insert("b".to_string(), serde_json::Value::from(3));
    assert_eq!(params.len(), 2);
    assert_eq!(params.at(0).key, "a");
    assert_eq!(params.at(0).value, serde_json::Value::from(2));
    assert_eq!(params.at(1).key, "b");
    assert_eq!(params.at(1).value, serde_json::Value::from(3));
    assert_eq!(params.clone(), params);
}

#[test]
fn formats_follow_contents() {
    let error = Content::Error(ErrorContent {
        kind: "render_failed".to_string(),
        message: "pymupdf raised on encrypted page".to_string(),
    });
    assert_eq!(error.format_type(), FormatType::Error);
    assert_eq!(
        Content::Structured(StructuredPage::default()).format_type(),
        FormatType::StructuredJson
    );
}

#[test]
fn colours_ignore_capitals_and_have_a_fallback() {
    assert_eq!(block_kind_color_rgb("table"), 0xdc1e1e);
    assert_eq!(block_kind_color_rgb("Table"), 0xdc1e1e);
    assert_eq!(block_kind_color_rgb("list_item"), block_kind_color_rgb("LIST"));
    assert_eq!(block_kind_color_rgb("anything else"), 0xb43cc8);
}

#[test]
fn reordering_reorders_the_faults() {
    let mut doc = build_doc();
    let mut child = doc.toc[0].clone();
    child.id = TocEntryId::new();
    child.parent = Some(doc.toc[0].id);
    doc.toc.insert(0, child);
    doc.extractions.reverse();
    assert_eq!(doc.validate(), Ok(()));
    doc.toc[0].built_by = ExtractionId::new();
    doc.toc[1].parent = Some(TocEntryId::new());
    let errs = doc.validate().expect_err("two faults");
    doc.toc.reverse();
    doc.extractions.reverse();
    let mut again = doc.validate().expect_err("two faults");
    again.reverse();
    assert_eq!(errs.len(), 2);
    assert_eq!(errs, again);
}
