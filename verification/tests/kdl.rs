//! Documents as KDL text.

use parselab::ids::{ExtractionId, PageId, TocEntryId};
use parselab::ir::{
    BBox, Content, ContentHash, Doc, ErrorContent, Extraction, MarkdownContent, ModelId,
    PageExtraction, PageMeta, PageMetrics, PageRef, Params, PromptText, StructuredBlock,
    StructuredPage, TocEntry, SCHEMA_VERSION,
};
use parselab::kdl_model::IrKdlError;
use parselab::number::Real;
use parselab::stamp::Timestamp;

fn number(text: &str) -> Real {
    Real::parse(text).unwrap()
}

fn fixed_ts() -> Timestamp {
    Timestamp::parse_rfc3339("2026-04-29T12:00:00Z").unwrap()
}

fn extraction(model: &str, prompt: &str, params: Params) -> Extraction {
    Extraction {
        uuid: ExtractionId::new(),
        model: ModelId(model.to_string()),
        prompt: PromptText(prompt.to_string()),
        params,
        created_at: fixed_ts(),
    }
}

fn build_doc() -> Doc {
    let mut params = Params::new();
    params.insert("dpi".to_string(), serde_json::Value::from(200));
    params.insert("max_new_tokens".to_string(), serde_json::Value::from(8192));
    let extr_pass1 = extraction("glm-ocr@v1", "extract markdown from this page", params);
    let extr_pass2 = extraction(
        "infinity-parser2-pro@v1",
        "extract structured blocks with bboxes",
        Params::new(),
    );
    let extr_toc = extraction(
        "toc-builder@v1",
        "build a hierarchical ToC from per-page markdown",
        Params::new(),
    );
    let pe1 = PageExtraction {
        page_uuid: PageId::new(),
        page: 0,
        extraction_uuid: extr_pass1.uuid,
        content: Content::Markdown(MarkdownContent {
            markdown: "# Datasheet Title".to_string(),
        }),
        metrics: Some(PageMetrics {
            elapsed_secs: number("1.4"),
            input_tokens: Some(1024),
            output_tokens: Some(217),
        }),
    };
    let pe2 = PageExtraction {
        page_uuid: PageId::new(),
        page: 1,
        extraction_uuid: extr_pass1.uuid,
        content: Content::Markdown(MarkdownContent {
            markdown: "## Electrical Characteristics\n\n| Param | Min | Typ | Max |".to_string(),
        }),
        metrics: None,
    };
    let pe3 = PageExtraction {
        page_uuid: PageId::new(),
        page: 1,
        extraction_uuid: extr_pass2.uuid,
        content: Content::Structured(StructuredPage {
            blocks: vec![StructuredBlock {
                kind: "table".to_string(),
                bbox: BBox {
                    x: number("72.0"),
                    y: number("120.0"),
                    w: number("450.0"),
                    h: number("200.0"),
                },
                text: Some("Param | Min | Typ | Max | …".to_string()),
                confidence: Some(number("0.92")),
            }],
            page_meta: Some(PageMeta {
                width_pts: number("612.0"),
                height_pts: number("792.0"),
                rotation_deg: 0,
                dpi: Some(300),
            }),
        }),
        metrics: None,
    };
    let pe4 = PageExtraction {
        page_uuid: PageId::new(),
        page: 4,
        extraction_uuid: extr_pass1.uuid,
        content: Content::Error(ErrorContent {
            kind: "render_failed".to_string(),
            message: "pymupdf raised on encrypted page".to_string(),
        }),
        metrics: Some(PageMetrics {
            elapsed_secs: number("0.25"),
            input_tokens: None,
            output_tokens: None,
        }),
    };
    let toc_root = TocEntry {
        id: TocEntryId::new(),
        title: "Electrical Characteristics".to_string(),
        level: 1,
        parent: None,
        page_refs: vec![PageRef {
            page: 1,
            model: ModelId("glm-ocr@v1".to_string()),
            page_uuid: pe2.page_uuid,
            extraction_uuid: pe2.extraction_uuid,
        }],
        built_by: extr_toc.uuid,
    };
    Doc {
        schema_version: SCHEMA_VERSION,
        content_hash: ContentHash("0123456789abcdef".repeat(4)),
        extractions: vec![extr_pass1, extr_pass2, extr_toc],
        extracted_pages: vec![pe1, pe2, pe3, pe4],
        toc: vec![toc_root],
    }
}

fn empty_doc(hash: &str) -> Doc {
    Doc {
        schema_version: SCHEMA_VERSION,
        content_hash: ContentHash(hash.to_string()),
        extractions: Vec::new(),
        extracted_pages: Vec::new(),
        toc: Vec::new(),
    }
}

#[test]
fn kdl_serde_round_trip_doc() {
    let doc = build_doc();
    let kdl = doc.to_kdl_string();
    let parsed = Doc::from_kdl_str(&kdl)
        .unwrap_or_else(|e| panic!("parse failed: {}\n--- KDL ---\n{kdl}", e.message()));
    assert_eq!(doc, parsed, "round-trip mismatch\n--- KDL ---\n{kdl}");
}

#[test]
fn empty_doc_round_trips() {
    let doc = empty_doc("deadbeef");
    let kdl = doc.to_kdl_string();
    let parsed = Doc::from_kdl_str(&kdl).unwrap();
    assert_eq!(doc, parsed);
}

#[test]
fn complex_param_uses_json_typed_string() {
    let mut params = Params::new();
    params.insert(
        "stop_tokens".to_string(),
        serde_json::Value::Array(vec![
            serde_json::Value::from("<|end|>"),
            serde_json::Value::from("###"),
        ]),
    );
    let extr = extraction("test@v1", "...", params);
    let mut doc = empty_doc("abc");
    doc.extractions.push(extr.clone());
    let kdl = doc.to_kdl_string();
    assert!(kdl.contains("(json)"), "complex param should use (json) type annotation:\n{kdl}");
    let parsed = Doc::from_kdl_str(&kdl).unwrap();
    assert_eq!(doc, parsed);
}

#[test]
fn parsing_the_document_and_the_text_agree() {
    let doc = build_doc();
    let kdl = doc.to_kdl_string();
    let tree: kdl::KdlDocument = kdl.parse().unwrap();
    assert_eq!(Doc::from_kdl_document(&tree), Ok(doc));
}

#[test]
fn parameters_of_every_kind_round_trip() {
    let mut params = Params::new();
    params.insert("null".to_string(), serde_json::Value::Null);
    params.insert("yes".to_string(), serde_json::Value::Bool(true));
    params.insert("no".to_string(), serde_json::Value::Bool(false));
    params.insert("least".to_string(), serde_json::Value::from(i64::MIN));
    params.insert("most".to_string(), serde_json::Value::from(i64::MAX));
    params.insert("half".to_string(), serde_json::Value::from(0.5));
    params.insert("text".to_string(), serde_json::Value::from("a \"b\" \\ c"));
    let mut nested = serde_json::Map::new();
    nested.insert("k".to_string(), serde_json::Value::Array(vec![serde_json::Value::from(1)]));
    params.insert("object".to_string(), serde_json::Value::Object(nested));
    let mut doc = empty_doc("abc");
    doc.extractions.push(extraction("m", "p", params));
    let kdl = doc.to_kdl_string();
    assert_eq!(Doc::from_kdl_str(&kdl), Ok(doc), "{kdl}");
}

#[test]
fn texts_with_escapes_and_odd_words_round_trip() {
    let odd = [
        "",
        " ",
        "true",
        "null",
        "inf",
        "nan",
        "-inf",
        "12",
        "-1",
        "a=b",
        "a b",
        "(x)",
        "{x}",
        "\"quoted\"",
        "back\\slash",
        "tab\tand\nnewline\r\n",
        "\u{8}\u{c}",
        "…→ ünï",
        "#true",
        "/-x",
        "//x",
        "r\"x\"",
        "x;y",
        "-",
        "+",
        ".",
        "a\u{a0}b",
    ];
    for text in odd {
        let mut doc = empty_doc(text);
        doc.extractions.push(extraction(text, text, Params::new()));
        let mut params = Params::new();
        params.insert(text.to_string(), serde_json::Value::from(text));
        doc.extractions[0].params = params;
        let run = doc.extractions[0].uuid;
        doc.extracted_pages.push(PageExtraction {
            page_uuid: PageId::new(),
            page: u32::MAX,
            extraction_uuid: run,
            content: Content::Markdown(MarkdownContent { markdown: text.to_string() }),
            metrics: None,
        });
        let kdl = doc.to_kdl_string();
        assert_eq!(Doc::from_kdl_str(&kdl), Ok(doc), "{text:?}\n{kdl}");
    }
}

#[test]
fn whole_numbers_come_back() {
    let mut params = Params::new();
    params.insert("big".to_string(), serde_json::Value::from(u64::MAX));
    params.insert("edge".to_string(), serde_json::Value::from(i64::MAX));
    params.insert("over".to_string(), serde_json::Value::from(i64::MAX as u64 + 1));
    params.insert("small".to_string(), serde_json::Value::from(i64::MIN));
    params.insert("zero".to_string(), serde_json::Value::from(0));
    let mut doc = empty_doc("abc");
    doc.extractions.push(extraction("m", "p", params));
    let parsed = Doc::from_kdl_str(&doc.to_kdl_string());
    assert_eq!(parsed, Ok(doc));
}

#[test]
fn lists_and_objects_come_back() {
    let mut members = serde_json::Map::new();
    members.insert("a\u{1}\n\"\\".to_string(), serde_json::Value::Null);
    members.insert("b".to_string(), serde_json::Value::from(0.1));
    let mut params = Params::new();
    params.insert("object".to_string(), serde_json::Value::Object(members));
    let items = vec![
        serde_json::Value::from("\u{b}\u{1f}x"),
        serde_json::Value::from(u64::MAX),
        serde_json::Value::from(1e300),
        serde_json::Value::from(5e-324),
        serde_json::Value::from(-0.0),
        serde_json::Value::from(122.416294033786585),
        serde_json::Value::Array(Vec::new()),
    ];
    params.insert("list".to_string(), serde_json::Value::Array(items));
    let mut doc = empty_doc("abc");
    doc.extractions.push(extraction("m", "p", params));
    let kdl = doc.to_kdl_string();
    assert!(kdl.contains("(json)"), "{kdl}");
    assert_eq!(Doc::from_kdl_str(&kdl), Ok(doc), "{kdl}");
}

#[test]
fn times_come_back_to_the_nanosecond() {
    for (secs, nanos) in [
        (1_000_000_000, 0),
        (1_000_000_000, 5),
        (1_000_000_000, 5_000),
        (1_000_000_000, 500_000_000),
        (-1, 999_999_999),
        (59, 1_999_999_999),
        (-62_167_219_200, 1),
        (253_402_300_799, 999_000_000),
    ] {
        let mut doc = empty_doc("abc");
        let mut e = extraction("m", "p", Params::new());
        e.created_at = Timestamp::new(secs, nanos).unwrap();
        doc.extractions.push(e);
        let kdl = doc.to_kdl_string();
        assert_eq!(Doc::from_kdl_str(&kdl), Ok(doc), "{kdl}");
    }
}

#[test]
fn bad_texts_are_refused_with_the_reason() {
    assert!(matches!(Doc::from_kdl_str("{"), Err(IrKdlError::Parse(_))));
    assert_eq!(Doc::from_kdl_str(""), Err(IrKdlError::MissingNode("doc")));
    assert_eq!(
        Doc::from_kdl_str("doc").map_err(|e| e.message()),
        Err("missing required property `schema_version` on `doc`".to_string())
    );
    let text = build_doc().to_kdl_string();
    let unknown = text.replace("markdown", "prose");
    assert!(matches!(Doc::from_kdl_str(&unknown), Err(IrKdlError::UnknownContent(_))));
    let stamp = text.replace("2026-04-29T12:00:00Z", "yesterday");
    assert!(matches!(Doc::from_kdl_str(&stamp), Err(IrKdlError::InvalidTimestamp { .. })));
}

#[test]
fn a_bad_identity_is_named() {
    let mut doc = empty_doc("abc");
    let mut e = extraction("m", "p", Params::new());
    e.uuid = ExtractionId(0x0123);
    doc.extractions.push(e);
    let kdl = doc.to_kdl_string();
    assert!(kdl.contains("00000000-0000-0000-0000-000000000123"), "{kdl}");
    let bad = kdl.replace("00000000-0000-0000-0000-000000000123", "not-an-id");
    match Doc::from_kdl_str(&bad) {
        Err(IrKdlError::InvalidUuid { value, .. }) => assert_eq!(value, "not-an-id"),
        other => panic!("{other:?}"),
    }
}

#[test]
fn a_bad_json_parameter_is_named() {
    let mut params = Params::new();
    params.insert("stop".to_string(), serde_json::Value::Array(vec![serde_json::Value::from(1)]));
    let mut doc = empty_doc("abc");
    doc.extractions.push(extraction("m", "p", params));
    let kdl = doc.to_kdl_string();
    assert!(kdl.contains("[1]"), "{kdl}");
    let bad = kdl.replace("[1]", "[1");
    match Doc::from_kdl_str(&bad) {
        Err(IrKdlError::InvalidJsonParam { field, .. }) => assert_eq!(field, "stop"),
        other => panic!("{other:?}"),
    }
}
