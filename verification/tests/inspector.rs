//! The inspector pane.

use parselab::ad_hoc::{AdHocModel, AdHocResponse, AdHocUsage};
use parselab::component::{
    component_rows, component_scalar_string, humanize_key, parse_component_json, ComponentRow,
};
use parselab::ids::{ExtractionId, PageId, TocEntryId};
use parselab::inspector::{
    prompt_preset_label, prompt_preset_text, Effects, InspectorEvent, InspectorPane, RequestState,
};
use parselab::inspector_model::{RenderedRow, SelectedRow, Tab};
use parselab::inspector_text::{
    block_number, block_preview, build_toc_detail, level_chip, model_label, page_row_title,
    page_summary, plural, toc_page_label, triangle, variant_label, ComponentBody, DetailMeta,
};
use parselab::ir::{
    BBox, Content, ContentHash, Doc, ErrorContent, Extraction, MarkdownContent, ModelId,
    PageExtraction, PageRef, Params, PromptText, StructuredBlock, StructuredPage, TocEntry,
    SCHEMA_VERSION,
};
use parselab::number::Real;
use parselab::stamp::Timestamp;

fn bbox(x: i128) -> BBox {
    BBox {
        x: Real::from_whole(x),
        y: Real::from_whole(0),
        w: Real::from_whole(10),
        h: Real::from_whole(10),
    }
}

fn block(kind: &str, x: i128) -> StructuredBlock {
    StructuredBlock {
        kind: kind.to_string(),
        bbox: bbox(x),
        text: Some(format!("{kind}\ntext")),
        confidence: None,
    }
}

fn run(id: u128, model: &str) -> Extraction {
    Extraction {
        uuid: ExtractionId(id),
        model: ModelId(model.to_string()),
        prompt: PromptText(format!("prompt of {model}")),
        params: Params::new(),
        created_at: Timestamp::new(0, 0).unwrap(),
    }
}

fn record(id: u128, page: u32, run: u128, content: Content) -> PageExtraction {
    PageExtraction {
        page_uuid: PageId(id),
        page,
        extraction_uuid: ExtractionId(run),
        content,
        metrics: None,
    }
}

fn markdown(text: &str) -> Content {
    Content::Markdown(MarkdownContent { markdown: text.to_string() })
}

fn layout(blocks: Vec<StructuredBlock>) -> Content {
    Content::Structured(StructuredPage { blocks, page_meta: None })
}

fn entry(id: u128, title: &str, parent: Option<u128>, pages: &[u32]) -> TocEntry {
    TocEntry {
        id: TocEntryId(id),
        title: title.to_string(),
        level: 2,
        parent: parent.map(TocEntryId),
        page_refs: pages
            .iter()
            .map(|p| PageRef {
                page: *p,
                model: ModelId("m".to_string()),
                page_uuid: PageId(1),
                extraction_uuid: ExtractionId(1),
            })
            .collect(),
        built_by: ExtractionId(1),
    }
}

fn doc() -> Doc {
    Doc {
        schema_version: SCHEMA_VERSION,
        content_hash: ContentHash("sha256:0123456789abcdef".to_string()),
        extractions: vec![run(1, "glm"), run(2, "inf")],
        extracted_pages: vec![
            record(10, 3, 1, markdown("späte Seite")),
            record(11, 1, 2, layout(vec![block("table", 0), block("text", 100)])),
            record(12, 1, 1, markdown("x")),
            record(13, 0, 1, markdown("# A")),
            record(
                14,
                7,
                1,
                Content::Error(ErrorContent {
                    kind: "boom".to_string(),
                    message: "it broke".to_string(),
                }),
            ),
        ],
        toc: vec![
            entry(1, "Root", None, &[1, 2]),
            entry(2, "Child", Some(1), &[4]),
            entry(3, "Leaf", None, &[]),
            entry(4, "Grandchild", Some(2), &[]),
        ],
    }
}

fn pane() -> InspectorPane {
    InspectorPane::build(Some(doc()), "chip.pdf".to_string(), 5)
}

fn block_row(i: usize) -> SelectedRow {
    SelectedRow::Block(1, ExtractionId(2), i)
}

fn names(e: &Effects) -> Vec<String> {
    e.events
        .iter()
        .map(|e| match e {
            InspectorEvent::GotoPage(p) => format!("goto {p}"),
            InspectorEvent::SelectBlock { page, bbox } => format!("block {page} {}", bbox.x.text()),
            InspectorEvent::OverlayChanged => "overlay".to_string(),
            InspectorEvent::SelectionCleared => "cleared".to_string(),
            InspectorEvent::PromptSubmit { page, model, prompt, .. } => {
                format!("prompt {page} {} {prompt}", model.label())
            }
            InspectorEvent::ExtractPagePass2 { page } => format!("pass2 {page}"),
            InspectorEvent::ExtractComponentModel => "component".to_string(),
        })
        .collect()
}

#[test]
fn opens_on_the_first_pages_with_records() {
    let p = pane();
    assert!(p.page_is_expanded(0) && p.page_is_expanded(1) && p.page_is_expanded(3));
    assert!(!p.page_is_expanded(2) && !p.page_is_expanded(7));
    assert!(p.toc_entry_is_expanded(TocEntryId(1)));
    assert!(!p.toc_entry_is_expanded(TocEntryId(2)));
    assert!(!p.toc_entry_is_expanded(TocEntryId(3)));
    let kinds: Vec<(&str, bool)> = (0..p.kinds().len())
        .map(|i| (p.kinds().at(i).kind.as_str(), p.kinds().at(i).enabled))
        .collect();
    assert_eq!(kinds, vec![("table", true), ("text", true)]);
}

#[test]
fn rows_follow_what_is_open() {
    let mut p = pane();
    let row = |p: &InspectorPane| p.rendered_rows();
    assert_eq!(
        row(&p),
        vec![
            RenderedRow::Page(0),
            RenderedRow::Extraction { page: 0, run: ExtractionId(1), can_expand: false },
            RenderedRow::Page(1),
            RenderedRow::Extraction { page: 1, run: ExtractionId(2), can_expand: true },
            RenderedRow::Extraction { page: 1, run: ExtractionId(1), can_expand: false },
            RenderedRow::Page(2),
            RenderedRow::Page(3),
            RenderedRow::Extraction { page: 3, run: ExtractionId(1), can_expand: false },
            RenderedRow::Page(4),
        ]
    );
    p.toggle_page(2);
    p.toggle_page(0);
    p.toggle_page(3);
    p.toggle_extraction(1, ExtractionId(2));
    assert_eq!(
        row(&p),
        vec![
            RenderedRow::Page(0),
            RenderedRow::Page(1),
            RenderedRow::Extraction { page: 1, run: ExtractionId(2), can_expand: true },
            RenderedRow::Block(1, ExtractionId(2), 0),
            RenderedRow::Block(1, ExtractionId(2), 1),
            RenderedRow::Extraction { page: 1, run: ExtractionId(1), can_expand: false },
            RenderedRow::Page(2),
            RenderedRow::EmptyExtractionsStub(2),
            RenderedRow::Page(3),
            RenderedRow::Page(4),
        ]
    );
    assert_eq!(p.row_y_offset(block_row(1)), Some((22 + 22 + 20 + 18, 18)));
    assert_eq!(p.row_y_offset(SelectedRow::Page(9)), None);
}

#[test]
fn toc_rows_follow_what_is_open() {
    let mut p = pane();
    p.set_active_tab(Tab::Toc);
    assert!(p.rows_fit());
    assert_eq!(
        p.rendered_rows(),
        vec![
            RenderedRow::Toc { id: TocEntryId(1), depth: 0, has_children: true },
            RenderedRow::Toc { id: TocEntryId(2), depth: 1, has_children: true },
            RenderedRow::Toc { id: TocEntryId(3), depth: 0, has_children: false },
        ]
    );
    p.toggle_toc_entry(TocEntryId(2));
    assert_eq!(
        p.rendered_rows()[2],
        RenderedRow::Toc { id: TocEntryId(4), depth: 2, has_children: false }
    );
}

#[test]
fn circles_in_the_toc_are_noticed() {
    let mut d = doc();
    d.toc = vec![entry(1, "A", None, &[]), entry(1, "B", Some(1), &[])];
    let mut p = InspectorPane::build(Some(d), "x".to_string(), 1);
    assert!(p.rows_fit());
    p.set_active_tab(Tab::Toc);
    assert!(!p.rows_fit());
    p.toggle_toc_entry(TocEntryId(1));
    assert!(p.rows_fit());
}

#[test]
fn toggling_twice_changes_nothing() {
    let mut p = pane();
    let before = p.rendered_rows();
    assert!(p.toggle_page(1).notify);
    assert_ne!(p.rendered_rows(), before);
    p.toggle_page(1);
    assert_eq!(p.rendered_rows(), before);
}

#[test]
fn kinds_switch_the_overlay() {
    let mut p = pane();
    let snapshot = p.overlay_snapshot();
    assert_eq!(snapshot.len(), 1);
    assert_eq!(snapshot[&1].len(), 2);
    assert_eq!(names(&p.toggle_kind("table")), vec!["overlay"]);
    let snapshot = p.overlay_snapshot();
    assert_eq!(snapshot[&1].len(), 1);
    assert_eq!(snapshot[&1][0].kind, "text");
    p.toggle_kind("table");
    assert_eq!(p.overlay_snapshot()[&1].len(), 2);
    p.toggle_kind("unheard of");
    assert_eq!(p.kinds().len(), 3);
    assert!(!p.kinds().at(2).enabled);
}

#[test]
fn clicks_drive_the_pdf() {
    let mut p = pane();
    assert_eq!(names(&p.on_page_row_click(1)), vec!["goto 1", "cleared"]);
    assert!(!p.page_is_expanded(1));
    assert_eq!(names(&p.on_page_row_click(1)), vec!["goto 1", "cleared"]);
    assert_eq!(
        names(&p.on_extraction_row_click(1, ExtractionId(2), true)),
        vec!["goto 1", "cleared"]
    );
    assert!(p.extraction_is_expanded(1, ExtractionId(2)));
    p.on_extraction_row_click(1, ExtractionId(1), false);
    assert!(!p.extraction_is_expanded(1, ExtractionId(1)));
    assert_eq!(names(&p.on_block_row_click(1, ExtractionId(2), 1)), vec!["block 1 100"]);
    assert!(names(&p.on_block_row_click(1, ExtractionId(2), 9)).is_empty());
    assert_eq!(names(&p.on_toc_row_click(TocEntryId(1), true)), vec!["goto 0", "cleared"]);
    assert!(!p.toc_entry_is_expanded(TocEntryId(1)));
    assert_eq!(names(&p.on_toc_row_click(TocEntryId(2), false)), vec!["goto 3", "cleared"]);
    assert_eq!(names(&p.on_toc_row_click(TocEntryId(3), false)), vec!["cleared"]);
    assert!(names(&p.on_toc_row_click(TocEntryId(99), false)).is_empty());
    assert_eq!(p.take_pending_scroll(), Some(SelectedRow::Toc(TocEntryId(99))));
    assert_eq!(p.take_pending_scroll(), None);
}

#[test]
fn selecting_the_same_row_does_nothing() {
    let mut p = pane();
    assert!(p.set_selected_row(SelectedRow::Page(2)).notify);
    let again = p.set_selected_row(SelectedRow::Page(2));
    assert!(!again.notify && again.events.is_empty());
    assert_eq!(names(&p.on_select_activate()), vec!["goto 2", "cleared"]);
}

#[test]
fn arrows_move_within_what_is_shown() {
    let mut p = pane();
    p.move_selection(1);
    assert_eq!(p.selected_row(), Some(SelectedRow::Page(0)));
    p.move_selection(2);
    assert_eq!(p.selected_row(), Some(SelectedRow::Page(1)));
    p.move_selection(-100);
    assert_eq!(p.selected_row(), Some(SelectedRow::Page(0)));
    p.move_selection(isize::MAX);
    assert_eq!(p.selected_row(), Some(SelectedRow::Page(4)));
    p.on_clear_selection_action();
    p.move_selection(-1);
    assert_eq!(p.selected_row(), Some(SelectedRow::Page(4)));
    p.set_active_tab(Tab::Prompt);
    assert!(!p.move_selection(1).notify);
}

#[test]
fn left_and_right_walk_the_tree() {
    let mut p = pane();
    p.set_selected_row(SelectedRow::Page(1));
    p.on_select_right();
    assert_eq!(p.selected_row(), Some(SelectedRow::Extraction(1, ExtractionId(2))));
    assert!(p.on_select_right().notify);
    assert!(p.extraction_is_expanded(1, ExtractionId(2)));
    p.on_select_right();
    assert_eq!(p.selected_row(), Some(block_row(0)));
    assert!(!p.on_select_right().notify);
    p.on_select_left();
    assert_eq!(p.selected_row(), Some(SelectedRow::Extraction(1, ExtractionId(2))));
    p.on_select_left();
    assert!(!p.extraction_is_expanded(1, ExtractionId(2)));
    p.on_select_left();
    assert_eq!(p.selected_row(), Some(SelectedRow::Page(1)));
    p.on_select_left();
    assert!(!p.page_is_expanded(1));
    assert!(!p.on_select_left().notify);
    p.set_selected_row(SelectedRow::Toc(TocEntryId(1)));
    p.on_select_right();
    assert_eq!(p.selected_row(), Some(SelectedRow::Toc(TocEntryId(2))));
    p.on_select_left();
    assert_eq!(p.selected_row(), Some(SelectedRow::Toc(TocEntryId(1))));
    p.set_selected_row(SelectedRow::Toc(TocEntryId(3)));
    assert!(!p.on_select_right().notify);
}

#[test]
fn escape_and_dropped_regions() {
    let mut p = pane();
    p.set_selected_row(block_row(0));
    assert!(p.clear_block_selection().notify);
    assert_eq!(p.selected_row(), None);
    p.set_selected_row(SelectedRow::Page(0));
    assert!(!p.clear_block_selection().notify);
    assert_eq!(p.selected_row(), Some(SelectedRow::Page(0)));
    assert_eq!(names(&p.on_clear_selection_action()), vec!["cleared"]);
    assert_eq!(p.selected_row(), None);
}

#[test]
fn the_best_match_is_revealed_once() {
    let mut p = pane();
    let found = p.reveal_candidates(1);
    assert_eq!(found.len(), 2);
    assert_eq!(found[1].bbox, bbox(100));
    let score = |x: f32| x.to_bits();
    assert!(!p.reveal_block(1, &vec![score(0.1), score(0.05)]).notify);
    assert_eq!(p.selected_row(), None);
    assert!(p.reveal_block(1, &vec![score(0.5), score(0.9)]).notify);
    assert_eq!(p.selected_row(), Some(block_row(1)));
    assert!(p.rendered_rows().contains(&RenderedRow::Block(1, ExtractionId(2), 1)));
    assert!(!p.reveal_block(1, &vec![score(0.5), score(0.9)]).notify);
    assert!(p.reveal_block(1, &vec![score(0.9), score(0.9)]).notify);
    assert_eq!(p.selected_row(), Some(block_row(0)));
    assert!(p.reveal_candidates(2).is_empty());
    assert!(!p.reveal_block(2, &Vec::new()).notify);
}

fn response(content: &str) -> AdHocResponse {
    AdHocResponse {
        model: AdHocModel::Qwen36MoE,
        content: content.to_string(),
        elapsed_secs: Real::parse("1.5").unwrap(),
        usage: Some(AdHocUsage { prompt_tokens: 12, completion_tokens: 34 }),
        finish_reason: Some("length".to_string()),
    }
}

#[test]
fn prompts_go_out_once() {
    let mut p = pane();
    assert!(names(&p.submit_prompt()).is_empty());
    assert!(p.set_pdf_selection(Some((2, bbox(5)))).notify);
    assert!(!p.set_pdf_selection(Some((2, bbox(5)))).notify);
    p.select_prompt_model(AdHocModel::Qwen36MoE);
    assert!(!p.select_prompt_model(AdHocModel::Qwen36MoE).notify);
    assert!(p.select_prompt_preset(1).notify);
    assert!(!p.select_prompt_preset(4).notify);
    let sent = p.submit_prompt();
    assert_eq!(
        names(&sent),
        vec![
            "prompt 2 Qwen3.6 35B-A3B Transcribe all text in this image exactly. Preserve line breaks where meaningful."
        ]
    );
    assert!(sent.start_spinner);
    assert!(names(&p.submit_prompt()).is_empty());
    assert!(p.any_spinning());
    assert_eq!(p.prompt_response("").0, "Response · ⠋ working…");
    let (on, _) = p.tick();
    assert!(on);
    assert_eq!(p.prompt_response("").0, "Response · ⠙ working…");
    for _ in 0..9 {
        p.tick();
    }
    assert_eq!(p.spinner_frame(), 0);
    p.set_prompt_response(response("done"));
    assert!(!p.any_spinning());
    assert!(!p.tick().0);
    assert_eq!(
        p.prompt_response("1.50"),
        ("Qwen3.6 35B-A3B · 1.50s · in 12 / out 34 · finish=length".to_string(), "done".to_string())
    );
    p.set_prompt_error("bad".to_string());
    assert_eq!(p.prompt_response(""), ("Response · failed".to_string(), "bad".to_string()));
}

#[test]
fn presets_have_labels_and_texts() {
    assert_eq!(prompt_preset_label(0), "Describe what you see");
    assert_eq!(prompt_preset_text(0), "Describe what you see in this image. Be concise.");
    assert_eq!(
        prompt_preset_text(2),
        "Extract this content as a Markdown table. If the content is not naturally tabular, render it as best you can. Return only the table — no preamble, no explanation."
    );
    assert_eq!(
        prompt_preset_text(3),
        "Extract the key parameters in this image as a JSON object keyed by parameter name. Use the units printed in the source. Return only the JSON — no preamble, no code fence."
    );
}

#[test]
fn layouts_are_asked_for_once_and_filed() {
    let mut p = pane();
    let asked = p.request_pass2_for_page(4);
    assert_eq!(names(&asked), vec!["pass2 4"]);
    assert!(asked.start_spinner);
    assert!(names(&p.request_pass2_for_page(4)).is_empty());
    assert!(!p.mark_pass2_in_flight(4).notify);
    let second = p.request_pass2_for_page(2);
    assert!(!second.start_spinner);
    assert_eq!(p.pass2_glyph(4), "⠋");
    assert_eq!(p.pass2_glyph(0), "+");
    assert!(p.clear_pass2_in_flight(2).notify);
    assert!(!p.clear_pass2_in_flight(2).notify);
    let came = p.insert_pass2_result(
        4,
        run(5, "new"),
        vec![record(50, 4, 5, layout(vec![block("figure", 1)]))],
    );
    assert_eq!(names(&came), vec!["overlay"]);
    assert!(!p.any_spinning());
    assert_eq!(p.doc().unwrap().extractions.len(), 3);
    assert!(p.rendered_rows().contains(&RenderedRow::Block(4, ExtractionId(5), 0)));
    assert_eq!(p.kinds().len(), 3);
    assert_eq!(p.overlay_snapshot()[&4].len(), 1);
}

#[test]
fn without_a_document_nothing_is_shown() {
    let mut p = InspectorPane::build(None, "chip.pdf".to_string(), 5);
    assert!(p.rendered_rows().is_empty());
    assert!(p.overlay_snapshot().is_empty());
    assert_eq!(p.summary_line(), "5 pages · no extraction sidecar");
    assert_eq!(p.hash_line(), None);
    assert!(names(&p.on_page_row_click(0)).is_empty());
    assert_eq!(p.detail().title, "Page 1");
    p.insert_pass2_result(0, run(1, "m"), Vec::new());
    assert!(p.doc().is_none());
    assert_eq!(p.source_label(), "chip.pdf");
}

#[test]
fn headers_and_rows_read_well() {
    let p = pane();
    assert_eq!(p.summary_line(), "5 pages · 2 extractions · 5 page records");
    assert_eq!(p.hash_line().as_deref(), Some("sha256:0123456789ab…"));
    let d = doc();
    assert_eq!(page_summary(&d, 1), "2b · md");
    assert_eq!(page_summary(&d, 7), "err");
    assert_eq!(page_summary(&d, 2), "—");
    assert_eq!(page_row_title(0), "Page 1");
    assert_eq!(model_label(&d, ExtractionId(2)), "inf");
    assert_eq!(model_label(&d, ExtractionId(77)), "(unknown model)");
    assert_eq!(variant_label(&d.extracted_pages[0].content), "markdown · 12 chars");
    assert_eq!(variant_label(&d.extracted_pages[1].content), "structured · 2 blocks");
    assert_eq!(variant_label(&d.extracted_pages[4].content), "error · boom");
    assert_eq!(triangle(false, true), "·");
    assert_eq!(triangle(true, true), "▼");
    assert_eq!(triangle(true, false), "▶");
    assert_eq!(level_chip(2), "L2");
    assert_eq!(toc_page_label(&d.toc[0]), "p.1");
    assert_eq!(toc_page_label(&d.toc[2]), "—");
    assert_eq!(block_preview(&block("a", 0)), "a text");
    assert_eq!(block_number(3), "3.");
    assert_eq!(plural(1), "");
    assert_eq!(plural(0), "s");
}

#[test]
fn details_follow_the_selection() {
    let mut p = pane();
    let d = p.detail();
    assert_eq!((d.title.as_str(), d.body.as_deref()), ("Detail", Some("(select a row)")));
    p.set_selected_row(SelectedRow::Page(1));
    assert_eq!(
        p.detail().body.as_deref(),
        Some("2 extractions on this page. Expand the row to see them.")
    );
    p.set_selected_row(SelectedRow::Page(2));
    assert_eq!(p.detail().body.as_deref(), Some("No extractions on this page."));
    p.set_selected_row(SelectedRow::Extraction(3, ExtractionId(1)));
    let d = p.detail();
    assert_eq!(d.title, "Extraction · page 4");
    assert_eq!(d.body.as_deref(), Some("späte Seite"));
    assert!(matches!(d.meta, DetailMeta::Text(t) if t == "model: glm  ·  markdown · 11 chars"));
    p.set_selected_row(SelectedRow::Extraction(1, ExtractionId(2)));
    assert_eq!(p.detail().body.as_deref(), Some("prompt of inf"));
    p.set_selected_row(SelectedRow::Extraction(9, ExtractionId(2)));
    assert!(matches!(p.detail().meta, DetailMeta::Text(t) if t == "model: (unknown)  ·  "));
    p.set_selected_row(block_row(1));
    let d = p.detail();
    assert_eq!(d.title, "Block 1 · page 2");
    assert_eq!(d.chip.as_deref(), Some("text"));
    assert!(matches!(d.meta, DetailMeta::Region(b) if b == bbox(100)));
    p.set_selected_row(block_row(7));
    let d = p.detail();
    assert_eq!(d.chip.as_deref(), Some("(missing)"));
    assert!(matches!(d.meta, DetailMeta::Text(t) if t == "(0, 0, 0, 0)"));
    p.set_selected_row(SelectedRow::Toc(TocEntryId(4)));
    let d = p.detail();
    assert_eq!(d.title, "ToC · Grandchild");
    assert_eq!(d.body.as_deref(), Some("Root › Child › Grandchild\n\n(no page refs)"));
    p.set_selected_row(SelectedRow::Toc(TocEntryId(9)));
    assert_eq!(p.detail().title, "ToC entry");
}

#[test]
fn toc_details_name_builder_and_pages() {
    let d = build_toc_detail(&doc(), TocEntryId(1)).unwrap();
    assert_eq!(d.chip.as_deref(), Some("L2"));
    assert_eq!(d.body.as_deref(), Some("Root\n\nPages: p.1, p.2"));
    assert!(matches!(
        d.meta,
        DetailMeta::Text(t) if t == "model: glm  ·  built_by: 00000000…  ·  2 page refs"
    ));
    assert!(build_toc_detail(&doc(), TocEntryId(9)).is_none());
}

#[test]
fn a_circle_of_parents_ends() {
    let mut d = doc();
    d.toc = vec![entry(1, "A", Some(2), &[]), entry(2, "B", Some(1), &[])];
    let t = build_toc_detail(&d, TocEntryId(1)).unwrap();
    assert_eq!(t.body.as_deref(), Some("A › B › A\n\n(no page refs)"));
}

#[test]
fn components_are_asked_for_once() {
    let mut p = pane();
    assert_eq!(p.component_button(), "Extract component model");
    assert!(p.component_button_enabled());
    assert!(matches!(p.component_body(""), ComponentBody::Empty));
    assert_eq!(names(&p.request_component_extraction()), vec!["component"]);
    assert!(names(&p.request_component_extraction()).is_empty());
    assert_eq!(p.component_button(), "⠋ Extracting…");
    assert!(!p.component_button_enabled());
    assert!(matches!(p.component_body(""), ComponentBody::Working(t) if t == "⠋ working…"));
    p.set_component_error("nope".to_string());
    assert!(matches!(p.component_body(""), ComponentBody::Failed(t) if t == "nope"));
    p.set_component_response(response("no json here"));
    match p.component_body("2.00") {
        ComponentBody::Raw { header, text } => {
            assert_eq!(header, "Qwen3.6 35B-A3B · 2.00s · in 12 / out 34");
            assert_eq!(text, "no json here");
        }
        other => panic!("{other:?}"),
    }
    p.set_component_response(response("Sure: {\"part_number\": \"X\"} done"));
    match p.component_body("2.00") {
        ComponentBody::Rows { rows, .. } => assert_eq!(
            rows,
            vec![ComponentRow::Field {
                name: "Part number".to_string(),
                value: "X".to_string(),
                depth: 0,
            }]
        ),
        other => panic!("{other:?}"),
    }
    assert!(matches!(p.component_state(), RequestState::Done(_)));
    let empty = InspectorPane::build(None, String::new(), 0);
    assert_eq!(empty.component_button(), "Extract component model (need Pass 1 markdown)");
}

#[test]
fn json_is_found_inside_prose() {
    let parsed = |s: &str| parse_component_json(s).map(|v| v.to_string());
    assert_eq!(parsed(" [1] "), Some("[1]".to_string()));
    assert_eq!(parsed("```json\n{\"a\": 1}\n```"), Some("{\"a\":1}".to_string()));
    assert_eq!(
        parsed("x {\"a\": \"}\\\"{\", \"b\": {}} y }"),
        Some("{\"a\":\"}\\\"{\",\"b\":{}}".to_string())
    );
    assert_eq!(parsed("{\"a\": 1"), None);
    assert_eq!(parsed("none"), None);
    assert_eq!(parsed("{a} {\"b\": 1}"), None);
}

#[test]
fn values_become_rows() {
    let v: serde_json::Value = serde_json::from_str(
        "{\"a_b\": {\"c\": null, \"d\": [1, \"two\", {\"x\": true}]}, \"e\": false, \"f\": 1.5, \"g\": []}",
    )
    .unwrap();
    let title = |s: &str| s.to_string();
    assert_eq!(
        component_rows(&v),
        vec![
            ComponentRow::Section { title: title("A b") },
            ComponentRow::Field { name: title("C"), value: title("—"), depth: 1 },
            ComponentRow::Label { title: title("D"), depth: 1 },
            ComponentRow::Bullet { text: title("• 1"), depth: 2 },
            ComponentRow::Bullet { text: title("• two"), depth: 2 },
            ComponentRow::Bullet { text: title("• {\"x\":true}"), depth: 2 },
            ComponentRow::Field { name: title("E"), value: title("false"), depth: 0 },
            ComponentRow::Field { name: title("F"), value: title("1.5"), depth: 0 },
            ComponentRow::Section { title: title("G") },
        ]
    );
    assert_eq!(
        component_rows(&serde_json::Value::from("x")),
        vec![ComponentRow::Scalar { text: title("x"), depth: 0 }]
    );
    assert_eq!(component_scalar_string(&serde_json::Value::Bool(true)), "true");
}

#[test]
fn deep_values_are_refused_by_the_reader() {
    let nested = |n: usize| format!("{}1{}", "{\"a\":".repeat(n), "}".repeat(n));
    let v = parse_component_json(&nested(127)).unwrap();
    assert_eq!(component_rows(&v).len(), 127);
    assert!(parse_component_json(&nested(128)).is_none());
}

#[test]
fn keys_become_labels() {
    assert_eq!(humanize_key("part_number"), "Part number");
    assert_eq!(humanize_key("i_dd_run"), "I dd run");
    assert_eq!(humanize_key("a-b"), "A b");
    assert_eq!(humanize_key(""), "");
    assert_eq!(humanize_key("_x"), " x");
    assert_eq!(humanize_key("éclair"), "Éclair");
    assert_eq!(humanize_key("ßa"), "SSa");
}
