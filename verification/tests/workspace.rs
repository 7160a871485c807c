//! The two panes together.

use parselab::ad_hoc::{AdHocModel, AdHocResponse};
use parselab::extractor::{ExtractionResult, ExtractorModel};
use parselab::ids::{ExtractionId, PageId};
use parselab::inspector::{InspectorEvent, InspectorPane, RequestState};
use parselab::inspector_model::SelectedRow;
use parselab::ir::{
    BBox, Content, ContentHash, Doc, MarkdownContent, PageExtraction, StructuredBlock,
    StructuredPage, SCHEMA_VERSION,
};
use parselab::mock::MockExtractor;
use parselab::number::Real;
use parselab::pdf::{PdfPane, PdfPaneEvent};
use parselab::workspace::{
    build_component_prompt, build_doc_from_pass1, crop_failed, file_result, finish_component,
    finish_pass2, finish_prompt, no_component_prompt, on_inspector_event, on_selection_changed,
    run_plan, sidecar_name, sync_overlay, Dispatch, Reply, RunPlan, COMPONENT_PROMPT_PREAMBLE,
};

fn bbox(x: i128) -> BBox {
    BBox {
        x: Real::from_whole(x),
        y: Real::from_whole(0),
        w: Real::from_whole(1),
        h: Real::from_whole(1),
    }
}

fn page(id: u128, page: u32, content: Content) -> PageExtraction {
    PageExtraction {
        page_uuid: PageId(id),
        page,
        extraction_uuid: ExtractionId(1),
        content,
        metrics: None,
    }
}

fn markdown(text: &str) -> Content {
    Content::Markdown(MarkdownContent { markdown: text.to_string() })
}

fn doc(pages: Vec<PageExtraction>) -> Doc {
    Doc {
        schema_version: SCHEMA_VERSION,
        content_hash: ContentHash("h".to_string()),
        extractions: Vec::new(),
        extracted_pages: pages,
        toc: Vec::new(),
    }
}

fn with_block() -> Doc {
    doc(vec![page(
        1,
        1,
        Content::Structured(StructuredPage {
            blocks: vec![StructuredBlock {
                kind: "table".to_string(),
                bbox: bbox(5),
                text: None,
                confidence: None,
            }],
            page_meta: None,
        }),
    )])
}

fn panes() -> (PdfPane, InspectorPane) {
    let pdf = match PdfPane::build(4, 4) {
        Ok((p, _)) => p,
        Err(e) => panic!("{e:?}"),
    };
    (pdf, InspectorPane::build(Some(with_block()), "x.pdf".to_string(), 4))
}

#[test]
fn events_of_the_inspector_reach_the_pdf() {
    let (mut pdf, inspector) = panes();
    let (_, d) = on_inspector_event(&mut pdf, &inspector, InspectorEvent::GotoPage(2));
    assert!(matches!(d, Dispatch::Nothing));
    assert_eq!(pdf.current_page(), 2);
    sync_overlay(&mut pdf, &inspector);
    assert_eq!(pdf.overlay_on(1).map(|b| b.len()), Some(1));
    let (e, _) = on_inspector_event(
        &mut pdf,
        &inspector,
        InspectorEvent::SelectBlock { page: 1, bbox: bbox(5) },
    );
    assert!(matches!(e.event, Some(PdfPaneEvent::SelectionChanged(Some(_)))));
    let (e, _) = on_inspector_event(&mut pdf, &inspector, InspectorEvent::SelectionCleared);
    assert!(matches!(e.event, Some(PdfPaneEvent::SelectionChanged(None))));
    let (_, d) =
        on_inspector_event(&mut pdf, &inspector, InspectorEvent::ExtractPagePass2 { page: 3 });
    assert!(matches!(d, Dispatch::Pass2 { page: 3 }));
    let (_, d) = on_inspector_event(&mut pdf, &inspector, InspectorEvent::ExtractComponentModel);
    assert!(matches!(d, Dispatch::Component));
    let prompt = InspectorEvent::PromptSubmit {
        page: 1,
        bbox: bbox(5),
        model: AdHocModel::GlmOcr,
        prompt: "p".to_string(),
    };
    let (_, d) = on_inspector_event(&mut pdf, &inspector, prompt);
    assert!(matches!(d, Dispatch::Prompt { page: 1, .. }));
}

#[test]
fn a_block_survives_its_own_echo() {
    let (mut pdf, mut inspector) = panes();
    let row = SelectedRow::Block(1, ExtractionId(1), 0);
    let effects = inspector.set_selected_row(row);
    for event in effects.events {
        let (e, _) = on_inspector_event(&mut pdf, &inspector, event);
        if let Some(PdfPaneEvent::SelectionChanged(s)) = e.event {
            let scores = vec![1.0f32.to_bits()];
            on_selection_changed(&mut inspector, s.as_ref(), &scores);
        }
    }
    assert_eq!(inspector.selected_row(), Some(row));
    assert_eq!(inspector.pdf_selection().map(|s| s.0), Some(1));
}

#[test]
fn a_page_row_survives_the_cleared_region() {
    let (mut pdf, mut inspector) = panes();
    pdf.set_selection(1, &bbox(5));
    let effects = inspector.set_selected_row(SelectedRow::Page(1));
    for event in effects.events {
        let (e, _) = on_inspector_event(&mut pdf, &inspector, event);
        if let Some(PdfPaneEvent::SelectionChanged(s)) = e.event {
            on_selection_changed(&mut inspector, s.as_ref(), &Vec::new());
        }
    }
    assert_eq!(inspector.selected_row(), Some(SelectedRow::Page(1)));
    assert!(pdf.current_selection().is_none());
}

#[test]
fn regions_without_a_match_keep_the_row() {
    let (mut pdf, mut inspector) = panes();
    inspector.set_selected_row(SelectedRow::Page(0));
    let e = pdf.set_selection(1, &bbox(90));
    if let Some(PdfPaneEvent::SelectionChanged(s)) = e.event {
        on_selection_changed(&mut inspector, s.as_ref(), &vec![0]);
    }
    assert_eq!(inspector.selected_row(), Some(SelectedRow::Page(0)));
    assert_eq!(inspector.pdf_selection().map(|s| s.0), Some(1));
}

fn response() -> AdHocResponse {
    AdHocResponse {
        model: AdHocModel::GlmOcr,
        content: "c".to_string(),
        elapsed_secs: Real::from_whole(1),
        usage: None,
        finish_reason: None,
    }
}

fn failure(s: &RequestState) -> String {
    match s {
        RequestState::Failed(m) => m.clone(),
        other => panic!("{other:?}"),
    }
}

#[test]
fn replies_reach_the_inspector() {
    let (_, mut inspector) = panes();
    finish_prompt(&mut inspector, Reply::Came(response()));
    assert!(matches!(inspector.prompt_state(), RequestState::Done(_)));
    finish_prompt(&mut inspector, Reply::Failed("m".to_string()));
    assert_eq!(failure(inspector.prompt_state()), "m");
    finish_prompt(&mut inspector, Reply::GivenUp);
    assert_eq!(failure(inspector.prompt_state()), "dispatch task cancelled");
    crop_failed(&mut inspector, "e");
    assert_eq!(failure(inspector.prompt_state()), "crop selection: e");
    finish_component(&mut inspector, Reply::GivenUp);
    assert_eq!(failure(inspector.component_state()), "dispatch task cancelled");
    no_component_prompt(&mut inspector);
    assert_eq!(
        failure(inspector.component_state()),
        "no Pass 1 markdown available — load a doc with an .ir.kdl sidecar"
    );
    inspector.request_pass2_for_page(2);
    finish_pass2(&mut inspector, 2, Reply::Failed("m".to_string()));
    assert!(!inspector.pass2_is_in_flight(2));
    inspector.request_pass2_for_page(2);
    let result = MockExtractor.pass2(b"", &[2]).unwrap();
    finish_pass2(&mut inspector, 2, Reply::Came(result));
    assert_eq!(inspector.doc().unwrap().extracted_pages.len(), 2);
}

#[test]
fn runs_are_planned_and_filed() {
    assert!(matches!(run_plan(ExtractorModel::GlmOcr, 3), RunPlan::Pass1));
    match run_plan(ExtractorModel::Inf2Flash, 3) {
        RunPlan::Pass2(pages) => assert_eq!(pages, vec![0, 1, 2]),
        other => panic!("{other:?}"),
    }
    let first: ExtractionResult = MockExtractor.pass1(b"", Some(&[0, 1])).unwrap();
    let d = file_result(None, 1234, first.clone());
    assert_eq!(d, build_doc_from_pass1(1234, first));
    assert_eq!(d.content_hash.0, "inline:1234");
    assert_eq!(d.extractions.len(), 1);
    d.validate().unwrap();
    let d = file_result(Some(d), 1234, MockExtractor.pass2(b"", &[1]).unwrap());
    assert_eq!((d.extractions.len(), d.extracted_pages.len()), (2, 3));
    d.validate().unwrap();
}

#[test]
fn component_prompts_take_the_latest_pages_in_order() {
    assert_eq!(build_component_prompt(&with_block()), None);
    let d = doc(vec![
        page(1, 4, markdown("later")),
        page(2, 0, markdown("old")),
        page(3, 0, markdown("new\n")),
    ]);
    assert_eq!(
        build_component_prompt(&d),
        Some(format!(
            "{COMPONENT_PROMPT_PREAMBLE}=== page 1 ===\n\nnew\n\n=== page 5 ===\n\nlater\n\n"
        ))
    );
    assert!(COMPONENT_PROMPT_PREAMBLE.contains("  \"part_number\": string — the primary part"));
    assert!(COMPONENT_PROMPT_PREAMBLE.ends_with("Markdown:\n\n"));
    let many = doc((0..12).map(|i| page(i as u128, i, markdown("x"))).collect());
    let prompt = build_component_prompt(&many).unwrap();
    assert!(prompt.contains("=== page 10 ==="));
    assert!(!prompt.contains("=== page 11 ==="));
}

#[test]
fn a_document_is_kept_next_to_its_pdf() {
    assert_eq!(sidecar_name("foo.pdf"), "foo.ir.kdl");
    assert_eq!(sidecar_name("foo.v2.pdf"), "foo.v2.ir.kdl");
    assert_eq!(sidecar_name("foo"), "foo.ir.kdl");
    assert_eq!(sidecar_name(".pdf"), ".pdf.ir.kdl");
}
