//! Layouts that a model wrote.

use parselab::pass2::{parse_layout_json, strip_fences, LayoutElement, LayoutParseError};

/// US Letter page dimensions in PDF points.
const US_LETTER_PTS: (f32, f32) = (612.0, 792.0);

struct Placed {
    kind: String,
    x: f32,
    y: f32,
    w: f32,
    h: f32,
    text: Option<String>,
    confidence: Option<f32>,
}

fn grid(r: &parselab::number::Real) -> f32 {
    r.text().parse::<f64>().unwrap() as f32
}

fn placed(e: &LayoutElement, pdf: (f32, f32)) -> Placed {
    let (sx, sy) = (pdf.0 / 1000.0, pdf.1 / 1000.0);
    let (x1, y1, x2, y2) = (grid(&e.x1), grid(&e.y1), grid(&e.x2), grid(&e.y2));
    Placed {
        kind: e.kind.clone(),
        x: x1 * sx,
        y: y1 * sy,
        w: (x2 - x1) * sx,
        h: (y2 - y1) * sy,
        text: e.text.clone(),
        confidence: e.confidence.as_ref().map(grid),
    }
}

fn parse(raw: &str, pdf: (f32, f32)) -> Result<Vec<Placed>, LayoutParseError> {
    parse_layout_json(raw).map(|l| l.iter().map(|e| placed(e, pdf)).collect())
}

fn fault(raw: &str) -> LayoutParseError {
    match parse_layout_json(raw) {
        Ok(_) => panic!("should fail"),
        Err(e) => e,
    }
}

fn approx_eq(a: f32, b: f32, eps: f32) -> bool {
    (a - b).abs() < eps
}

#[test]
fn parses_top_level_array_with_fences() {
    let raw = r#"```json
[{"bbox": [100, 200, 500, 400], "category": "table", "text": "hi"}]
```"#;
    let blocks = parse(raw, US_LETTER_PTS).expect("parse");
    assert_eq!(blocks.len(), 1);
    assert_eq!(blocks[0].kind, "table");
    assert_eq!(blocks[0].text.as_deref(), Some("hi"));
    assert!(approx_eq(blocks[0].x, 61.2, 0.01));
    assert!(approx_eq(blocks[0].w, 244.8, 0.01));
}

#[test]
fn parses_top_level_array_without_fences() {
    let raw = r#"[{"bbox": [0, 0, 100, 100], "category": "title", "text": "T"}]"#;
    let blocks = parse(raw, (200.0, 200.0)).expect("parse");
    assert_eq!(blocks.len(), 1);
    assert!(approx_eq(blocks[0].w, 20.0, 0.001));
    assert!(approx_eq(blocks[0].h, 20.0, 0.001));
}

#[test]
fn parses_dict_wrapped_layout_elements() {
    let raw = r#"{"layout_elements": [{"bbox": [1, 2, 3, 4], "category": "x"}]}"#;
    let blocks = parse(raw, (10.0, 10.0)).expect("parse");
    assert_eq!(blocks.len(), 1);
    assert_eq!(blocks[0].kind, "x");
    assert!(blocks[0].text.is_none());
}

#[test]
fn parses_dict_wrapped_elements_alias() {
    let raw = r#"{"elements": [{"bbox": [0, 0, 1, 1]}]}"#;
    let blocks = parse(raw, (10.0, 10.0)).expect("parse");
    assert_eq!(blocks.len(), 1);
    assert_eq!(blocks[0].kind, "unknown");
}

#[test]
fn parses_dict_wrapped_regions_alias() {
    let raw = r#"{"regions": [{"bbox": [0, 0, 1, 1]}]}"#;
    let blocks = parse(raw, (10.0, 10.0)).expect("parse");
    assert_eq!(blocks.len(), 1);
}

#[test]
fn bbox_only_elements_parse_with_text_none() {
    let raw = r#"[{"bbox": [10, 20, 30, 40]}, {"bbox": [50, 60, 70, 80]}]"#;
    let blocks = parse(raw, (100.0, 100.0)).expect("parse");
    assert_eq!(blocks.len(), 2);
    assert!(blocks.iter().all(|b| b.text.is_none()));
    assert!(blocks.iter().all(|b| b.kind == "unknown"));
}

#[test]
fn elements_without_valid_bbox_are_skipped() {
    let raw = r#"[
            {"bbox": [1, 2, 3, 4], "category": "ok"},
            {"category": "no_bbox"},
            {"bbox": [1, 2, 3], "category": "wrong_len"},
            {"bbox": "not_an_array"},
            {"bbox": [1, 2, 3, 4], "category": "ok2"}
        ]"#;
    let blocks = parse(raw, (10.0, 10.0)).expect("parse");
    assert_eq!(blocks.len(), 2);
    assert_eq!(blocks[0].kind, "ok");
    assert_eq!(blocks[1].kind, "ok2");
}

#[test]
fn confidence_field_is_preserved_when_present() {
    let raw = r#"[{"bbox": [0, 0, 1, 1], "category": "table", "confidence": 0.92}]"#;
    let blocks = parse(raw, (10.0, 10.0)).expect("parse");
    assert_eq!(blocks[0].confidence, Some(0.92));
}

#[test]
fn malformed_json_returns_decode_error_with_head_snippet() {
    let raw = r#"[{"bbox": [85, 34, 249, 80], "bbox": "broken}]"#;
    match fault(raw) {
        LayoutParseError::JsonDecode { head, .. } => {
            assert!(head.contains("85, 34"), "head should carry the start: {head:?}");
        }
        other => panic!("expected JsonDecode, got {other:?}"),
    }
}

#[test]
fn dict_with_no_known_array_key_returns_unexpected_shape() {
    let raw = r#"{"foo": [1, 2, 3]}"#;
    assert!(matches!(fault(raw), LayoutParseError::UnexpectedShape { kind: "object" }));
}

#[test]
fn top_level_string_returns_unexpected_shape() {
    let raw = r#""I am a string""#;
    assert!(matches!(fault(raw), LayoutParseError::UnexpectedShape { kind: "string" }));
}

#[test]
fn empty_array_yields_zero_blocks() {
    let raw = "[]";
    let blocks = parse(raw, (10.0, 10.0)).expect("parse");
    assert!(blocks.is_empty());
}

#[test]
fn boxes_stay_on_the_grid() {
    let raw = r#"[{"bbox": [250, 250.5, 750, 1000], "category": "table"}]"#;
    let layout = parse_layout_json(raw).expect("parse");
    let e = &layout[0];
    let corners: Vec<&str> = vec![e.x1.text(), e.y1.text(), e.x2.text(), e.y2.text()];
    assert_eq!(corners, vec!["250", "250.5", "750", "1000"]);
}

#[test]
fn fence_with_language_tag_and_no_trailing_fence() {
    let raw = "```json\n[{\"bbox\": [0, 0, 1, 1], \"category\": \"x\"}]";
    let blocks = parse(raw, (10.0, 10.0)).expect("parse");
    assert_eq!(blocks.len(), 1);
}

#[test]
fn html_table_text_round_trips_intact() {
    let raw = r#"[{"bbox": [0, 0, 100, 100], "category": "table",
            "text": "<table><tr><th>Min</th><th>Max</th></tr><tr><td>40</td><td>—</td></tr></table>"}]"#;
    let blocks = parse(raw, (1000.0, 1000.0)).expect("parse");
    let text = blocks[0].text.as_deref().unwrap();
    assert!(text.contains("<table>"));
    assert!(text.contains("<th>Min</th>"));
    assert!(text.contains("<td>40</td>"));
}

#[test]
fn fences_come_off_and_bare_text_stays() {
    assert_eq!(strip_fences("```json\n[1]\n```"), "[1]");
    assert_eq!(strip_fences("```\n[1]\n```"), "[1]");
    assert_eq!(strip_fences("  [1]  "), "[1]");
}

#[test]
fn messages_say_what_is_wrong() {
    assert_eq!(
        fault("12").message(),
        "unexpected layout shape (top level was number, no element list found)"
    );
    let message = fault("[\"a\\u0001").message();
    assert!(message.starts_with("layout json decode failed: "), "{message}");
    assert!(message.ends_with("(head: \"[\\\"a\\\\u0001\")"), "{message}");
}

#[test]
fn the_head_of_a_long_answer_is_cut() {
    let raw = "x".repeat(500);
    match fault(&raw) {
        LayoutParseError::JsonDecode { head, .. } => assert_eq!(head, "x".repeat(120)),
        other => panic!("{other:?}"),
    }
}
