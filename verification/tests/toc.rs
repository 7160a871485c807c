//! Tables of contents.

use parselab::error::Error;
use parselab::ids::{ExtractionId, PageId, TocEntryId};
use parselab::ir::{
    Content, ContentHash, Doc, Extraction, MarkdownContent, ModelId, PageExtraction, PageMetrics,
    Params, PromptText, SCHEMA_VERSION,
};
use parselab::number::Real;
use parselab::openai::{ChatResponse, Choice, HttpOutcome, ResponseMessage};
use parselab::stamp::Timestamp;
use parselab::toc::{
    build_entries, build_via_heuristic, finish_llm_build, llm_plan, parse_rows, ping_request,
    place_entries,
    read_answer, response_json, toc_request, undecodable_answer, BuildStep, LlmResponse, LlmRow,
    ParsedResponse, ParsedRow, PingOutcome, TocBuilder, TocIssue, WarmUp, WarmUpNext,
    QWEN_35B_MODEL,
};

fn page_md(run: ExtractionId, page: u32, md: &str) -> PageExtraction {
    PageExtraction {
        page_uuid: PageId::new(),
        page,
        extraction_uuid: run,
        content: Content::Markdown(MarkdownContent { markdown: md.to_string() }),
        metrics: Some(PageMetrics {
            elapsed_secs: Real::from_whole(0),
            input_tokens: None,
            output_tokens: None,
        }),
    }
}

fn fixture_doc() -> Doc {
    let pass1_uuid = ExtractionId::new();
    let extraction = Extraction {
        uuid: pass1_uuid,
        model: ModelId("zai-org/GLM-OCR".to_string()),
        prompt: PromptText("Text Recognition:".to_string()),
        params: Params::new(),
        created_at: Timestamp::now(),
    };
    Doc {
        schema_version: SCHEMA_VERSION,
        content_hash: ContentHash("sha256:test".to_string()),
        extractions: vec![extraction],
        extracted_pages: vec![
            page_md(pass1_uuid, 0, "# Datasheet\n\nIntroduction prose."),
            page_md(
                pass1_uuid,
                1,
                "# Table of Contents\n\n## Overview\n\n### Features\n\n## Electrical Characteristics\n\n### Absolute Maximum Ratings",
            ),
            page_md(pass1_uuid, 2, "Continued ToC content..."),
        ],
        toc: Vec::new(),
    }
}

fn whole(v: &serde_json::Value, key: &str) -> Option<u32> {
    v.get(key).and_then(|n| n.as_u64()).map(|n| n as u32)
}

fn words(v: &serde_json::Value, key: &str) -> Option<String> {
    v.get(key).and_then(|s| s.as_str()).map(|s| s.to_string())
}

fn decoded(raw: &str) -> LlmResponse {
    let v: serde_json::Value = serde_json::from_str(&response_json(raw)).unwrap();
    let rows = v.get("rows").and_then(|r| r.as_array()).unwrap();
    let issues = v.get("issues").and_then(|r| r.as_array()).unwrap();
    LlmResponse {
        rows: rows
            .iter()
            .map(|r| LlmRow {
                level: whole(r, "level").map(|l| l as u8),
                number: words(r, "number"),
                title: words(r, "title"),
                page: whole(r, "page"),
                source_page: whole(r, "_page"),
            })
            .collect(),
        issues: issues
            .iter()
            .map(|i| TocIssue {
                kind: words(i, "kind").unwrap_or_default(),
                page: whole(i, "page"),
                description: words(i, "description"),
                evidence: words(i, "evidence"),
            })
            .collect(),
    }
}

fn parse_response(raw: &str) -> ParsedResponse {
    parse_rows(decoded(raw))
}

#[test]
fn heuristic_emits_hierarchical_toc_and_validates() {
    let doc = fixture_doc();
    let step = TocBuilder::heuristic().build(&doc, 0, 2, &Real::from_whole(0)).unwrap();
    let result = match step {
        BuildStep::Done(result) => result,
        other => panic!("{other:?}"),
    };
    assert!(!result.entries.is_empty(), "should emit entries");

    let titles: Vec<&str> = result.entries.iter().map(|e| e.title.as_str()).collect();
    assert!(titles.iter().any(|t| *t == "Overview"));
    assert!(titles.iter().any(|t| *t == "Features"));
    assert!(titles.iter().any(|t| *t == "Electrical Characteristics"));

    let overview = result.entries.iter().find(|e| e.title == "Overview").expect("Overview present");
    let features = result.entries.iter().find(|e| e.title == "Features").expect("Features present");
    assert_eq!(features.parent, Some(overview.id));
    assert_eq!(features.level, 3);

    for entry in &result.entries {
        assert_eq!(entry.built_by, result.extraction.uuid);
    }

    let mut doc = doc;
    doc.extractions.push(result.extraction.clone());
    doc.toc.extend(result.entries.clone());
    doc.validate().expect("invariants must hold");
}

#[test]
fn parse_response_strips_code_fence() {
    let raw = "```json\n{\"rows\": [{\"level\": 1, \"title\": \"Foo\", \"_page\": 0}], \"issues\": []}\n```";
    let parsed = parse_response(raw);
    assert_eq!(parsed.rows.len(), 1);
    assert_eq!(parsed.rows[0].title, "Foo");
    assert_eq!(parsed.rows[0].source_page, 0);
}

#[test]
fn parse_response_skips_rows_without_source_page() {
    let raw = r#"{"rows": [
            {"level": 1, "title": "WithPage", "_page": 0},
            {"level": 1, "title": "MissingPage"}
        ], "issues": []}"#;
    let parsed = parse_response(raw);
    assert_eq!(parsed.rows.len(), 1);
    assert_eq!(parsed.rows[0].title, "WithPage");
}

#[test]
fn build_entries_links_destination_page_and_validates() {
    let doc = fixture_doc();
    let extraction_uuid = ExtractionId::new();
    let rows = vec![
        ParsedRow {
            level: 1,
            number: Some("1".to_string()),
            title: "Overview".to_string(),
            destination_page: Some(0),
            source_page: 1,
        },
        ParsedRow {
            level: 2,
            number: Some("1.1".to_string()),
            title: "Features".to_string(),
            destination_page: Some(2),
            source_page: 1,
        },
        ParsedRow {
            level: 1,
            number: Some("2".to_string()),
            title: "Electrical".to_string(),
            destination_page: Some(2),
            source_page: 1,
        },
    ];

    let entries = build_entries(&rows, &doc, extraction_uuid);
    assert_eq!(entries.len(), 3);
    assert_eq!(entries[0].parent, None);
    assert_eq!(entries[1].parent, Some(entries[0].id));
    assert_eq!(entries[2].parent, None);

    assert_eq!(entries[0].page_refs.first().map(|r| r.page), Some(0));
    assert_eq!(entries[1].page_refs.first().map(|r| r.page), Some(2));

    let mut doc = doc;
    doc.extractions.push(Extraction {
        uuid: extraction_uuid,
        model: ModelId(QWEN_35B_MODEL.to_string()),
        prompt: PromptText("test".to_string()),
        params: Params::new(),
        created_at: Timestamp::now(),
    });
    doc.toc.extend(entries);
    doc.validate().expect("invariants must hold");
}

#[test]
fn headings_of_every_shape() {
    let mut doc = fixture_doc();
    let run = doc.extractions[0].uuid;
    doc.extracted_pages = vec![page_md(
        run,
        0,
        "#No space\n####### seven\n  ## Padded ##  \n#\ntext # not\n###### Six\n",
    )];
    let result = build_via_heuristic(&doc, 0, 0);
    let seen: Vec<(u8, &str)> = result.entries.iter().map(|e| (e.level, e.title.as_str())).collect();
    assert_eq!(seen, vec![(2, "Padded"), (6, "Six")]);
    assert_eq!(result.entries[1].parent, Some(result.entries[0].id));
}

#[test]
fn the_latest_record_of_a_page_is_read() {
    let mut doc = fixture_doc();
    let run = doc.extractions[0].uuid;
    doc.extracted_pages.push(page_md(run, 1, "# Newer"));
    let result = build_via_heuristic(&doc, 1, 1);
    let titles: Vec<&str> = result.entries.iter().map(|e| e.title.as_str()).collect();
    assert_eq!(titles, vec!["Newer"]);
    assert_eq!(result.entries[0].page_refs.len(), 2);
}

#[test]
fn plans_hold_prompt_and_parameters() {
    let doc = fixture_doc();
    let plan = llm_plan(&doc, 0, 2, "m", &Real::from_whole(0)).unwrap();
    assert!(plan.prompt.contains("=== PAGE 0 ==="));
    assert!(plan.prompt.contains("=== PAGE 2 ==="));
    assert_eq!(plan.extraction.prompt.0, plan.prompt);
    assert_eq!(plan.extraction.model.0, "m");
    let keys: Vec<&str> =
        (0..plan.extraction.params.len()).map(|i| plan.extraction.params.at(i).key.as_str()).collect();
    assert!(keys.contains(&"max_tokens"));
    assert!(keys.contains(&"temperature"));
}

#[test]
fn a_range_without_markdown_is_refused() {
    let doc = fixture_doc();
    match llm_plan(&doc, 7, 9, "m", &Real::from_whole(0)) {
        Err(e) => assert_eq!(
            e,
            Error::TocBuild("no Pass 1 markdown PageExtractions in range 7..=9".to_string())
        ),
        Ok(_) => panic!("should fail"),
    }
}

#[test]
fn requests_switch_reasoning_off() {
    let request = toc_request("m", "p", Real::from_whole(0));
    assert_eq!(request.max_tokens, 16384);
    let kwargs = request.chat_template_kwargs.unwrap();
    assert_eq!(kwargs.to_string(), "{\"enable_thinking\":false}");
    assert_eq!(ping_request("m", Real::from_whole(0)).max_tokens, 1);
}

#[test]
fn answers_and_their_failures() {
    let body = |content: Option<&str>| {
        HttpOutcome::Decoded(ChatResponse {
            choices: vec![Choice {
                message: ResponseMessage { content: content.map(|s| s.to_string()) },
                finish_reason: None,
            }],
            usage: None,
        })
    };
    assert_eq!(read_answer(body(Some("x"))), Ok("x".to_string()));
    assert_eq!(
        read_answer(body(None)),
        Err(Error::TocBuild("response had no message content".to_string()))
    );
    assert_eq!(
        read_answer(HttpOutcome::Transport("down".to_string())),
        Err(Error::Transport("down".to_string()))
    );
    assert_eq!(
        read_answer(HttpOutcome::Status { status: 500, body: "b".to_string() }),
        Err(Error::HttpStatus { status: 500, body: "b".to_string() })
    );
    assert_eq!(undecodable_answer("x"), Error::TocBuild("decode: x".to_string()));
}

#[test]
fn a_build_is_completed_from_the_rows() {
    let doc = fixture_doc();
    let plan = llm_plan(&doc, 0, 2, "m", &Real::from_whole(0)).unwrap();
    let uuid = plan.extraction.uuid;
    let parsed = parse_response(
        "{\"rows\": [{\"level\": 0, \"title\": \"A\", \"page\": 2, \"_page\": 1}, {\"title\": \"\", \"_page\": 1}], \"issues\": [{\"kind\": \"doubt\"}]}",
    );
    let result = finish_llm_build(plan, parsed, &doc).unwrap();
    assert_eq!(result.entries.len(), 1);
    assert_eq!(result.entries[0].level, 1);
    assert_eq!(result.entries[0].built_by, uuid);
    assert_eq!(result.issues[0].kind, "doubt");
}

#[test]
fn an_answer_without_a_usable_row_is_an_error() {
    let doc = fixture_doc();
    for answer in [
        "{\"rows\": [], \"issues\": []}",
        "{\"rows\": [{\"title\": \"\", \"_page\": 1}, {\"title\": \"A\", \"page\": 2}], \"issues\": []}",
    ] {
        let plan = llm_plan(&doc, 0, 2, "m", &Real::from_whole(0)).unwrap();
        match finish_llm_build(plan, parse_response(answer), &doc) {
            Err(e) => {
                assert_eq!(e, Error::TocBuild("response had no extractable rows".to_string()))
            }
            Ok(_) => panic!("{answer}"),
        }
    }
}

#[test]
fn builders_know_their_backend() {
    let doc = fixture_doc();
    let zero = Real::from_whole(0);
    match TocBuilder::heuristic().build(&doc, 0, 2, &zero) {
        Ok(BuildStep::Done(b)) => {
            assert_eq!(b.extraction.model.0, "toc-heuristic@v1");
            assert_eq!(b.entries.len(), 6);
        }
        other => panic!("{other:?}"),
    }
    match TocBuilder::with_endpoint("u", "m").build(&doc, 0, 2, &zero) {
        Ok(BuildStep::Ask { url, model, plan }) => {
            assert_eq!(url, "u");
            assert_eq!(model, "m");
            assert_eq!(plan.extraction.model.0, "m");
        }
        other => panic!("{other:?}"),
    }
    match TocBuilder::new_qwen_35b().build(&doc, 0, 2, &zero) {
        Ok(BuildStep::Ask { model, .. }) => assert_eq!(model, "Qwen/Qwen3.6-35B-A3B"),
        other => panic!("{other:?}"),
    }
    assert!(TocBuilder::new_qwen_35b().build(&doc, 7, 9, &zero).is_err());
}

#[test]
fn entries_carry_the_identities_they_are_given() {
    let doc = fixture_doc();
    let parsed = parse_response(
        "{\"rows\": [{\"level\": 1, \"title\": \"A\", \"_page\": 1}, {\"level\": 2, \"title\": \"B\", \"_page\": 1}], \"issues\": []}",
    );
    let ids = vec![TocEntryId(5), TocEntryId(6)];
    let entries = place_entries(&parsed.rows, &doc, ExtractionId(1), &ids);
    let made: Vec<TocEntryId> = entries.iter().map(|e| e.id).collect();
    assert_eq!(made, ids);
    assert_eq!(entries[1].parent, Some(TocEntryId(5)));
    let drawn = build_entries(&parsed.rows, &doc, ExtractionId(1));
    assert_ne!(drawn[0].id, drawn[1].id);
    assert_eq!((drawn[0].id.0 >> 76) & 0xf, 4);
}

#[test]
fn warming_up_waits_announces_once_and_gives_up() {
    let mut w = WarmUp::new();
    let first = w.step(PingOutcome::Unreachable, 0, 0);
    assert!(first.announce);
    assert!(matches!(first.next, WarmUpNext::Retry));
    let second = w.step(PingOutcome::Status { status: 408, body: String::new() }, 20_000, 20);
    assert!(!second.announce);
    assert!(matches!(second.next, WarmUpNext::Retry));
    match w.step(PingOutcome::Unreachable, 600_000, 600).next {
        WarmUpNext::GiveUp(e) => {
            assert_eq!(e, Error::TocBuild("warm-up timed out after 600s".to_string()))
        }
        other => panic!("{other:?}"),
    }
    assert!(matches!(w.step(PingOutcome::Success, 1, 1).next, WarmUpNext::Ready));
    match w.step(PingOutcome::Status { status: 401, body: "no".to_string() }, 1, 1).next {
        WarmUpNext::GiveUp(e) => {
            assert_eq!(e, Error::HttpStatus { status: 401, body: "no".to_string() })
        }
        other => panic!("{other:?}"),
    }
}
