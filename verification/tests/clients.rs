//! Requests to the model servers and what comes back.

use parselab::ad_hoc::{endpoint, image_prompt, read_response, text_prompt, AdHocModel};
use parselab::discovery::{
    decode_failure, deployed_workers, is_live, listing_failure, spawn_failure, startup_lines,
    ModalAppRow,
};
use parselab::error::Error;
use parselab::extractor::ExtractorModel;
use parselab::ids::ExtractionId;
use parselab::ir::{BBox, Content};
use parselab::modal::{
    bulk_result, image_request, page_step, pass_extraction, placed_page, ModalExtractor, PageImage,
    PageStep, PassFormat, PASS1_MODEL_ID, PASS1_URL, PASS2_MODEL_ID, PASS2_URL,
};
use parselab::number::Real;
use parselab::openai::{
    completions_endpoint, reply_of, ChatRequest, ChatResponse, Choice, ContentPart, HttpOutcome,
    ResponseMessage, Usage,
};

fn zero() -> Real {
    Real::from_whole(0)
}

fn answer(content: Option<&str>, finish: Option<&str>, usage: Option<Usage>) -> HttpOutcome {
    HttpOutcome::Decoded(ChatResponse {
        choices: vec![Choice {
            message: ResponseMessage { content: content.map(|s| s.to_string()) },
            finish_reason: finish.map(|s| s.to_string()),
        }],
        usage,
    })
}

fn usage() -> Option<Usage> {
    Some(Usage { prompt_tokens: 7, completion_tokens: 3, total_tokens: Some(10) })
}

fn parts(r: &ChatRequest) -> Vec<String> {
    r.messages[0]
        .content
        .iter()
        .map(|p| match p {
            ContentPart::Text { text } => format!("text {text}"),
            ContentPart::ImageUrl { image_url } => format!("image {}", image_url.url),
        })
        .collect()
}

#[test]
fn endpoints_lose_trailing_slashes() {
    assert_eq!(completions_endpoint("http://h"), "http://h/v1/chat/completions");
    assert_eq!(completions_endpoint("http://h//"), "http://h/v1/chat/completions");
    assert_eq!(
        endpoint(AdHocModel::GlmOcr),
        "https://ferrite-systems--parselab-glm-ocr-serve.modal.run/v1/chat/completions"
    );
}

#[test]
fn images_travel_as_base64() {
    let r = image_request("m", "p", 9, b"hello", zero());
    assert_eq!(parts(&r), vec!["image data:image/png;base64,aGVsbG8=", "text p"]);
    assert_eq!(r.max_tokens, 9);
    assert_eq!(r.temperature.text(), "0");
    let empty = image_request("m", "p", 9, b"", zero());
    assert_eq!(parts(&empty)[0], "image data:image/png;base64,");
    let two = image_request("m", "p", 9, &[0xfb, 0xff], zero());
    assert_eq!(parts(&two)[0], "image data:image/png;base64,+/8=");
}

#[test]
fn only_qwen_is_told_not_to_think() {
    assert!(image_prompt(AdHocModel::GlmOcr, b"x", "p", zero()).chat_template_kwargs.is_none());
    assert!(text_prompt(AdHocModel::InfinityParser2Flash, "p", zero())
        .chat_template_kwargs
        .is_none());
    let r = text_prompt(AdHocModel::Qwen36MoE, "p", zero());
    assert_eq!(r.chat_template_kwargs.unwrap().to_string(), "{\"enable_thinking\":false}");
    assert_eq!(r.max_tokens, 8192);
    assert_eq!(r.model, "Qwen/Qwen3.6-35B-A3B");
    assert_eq!(parts(&text_prompt(AdHocModel::GlmOcr, "p", zero())), vec!["text p"]);
}

#[test]
fn penalties_are_set() {
    let r = ChatRequest::text_only("m", "p", 1, zero())
        .with_frequency_penalty(Real::parse("0.5").unwrap());
    assert_eq!(r.frequency_penalty.unwrap().text(), "0.5");
}

#[test]
fn models_have_names() {
    let labels: Vec<&str> = AdHocModel::all().into_iter().map(|m| m.label()).collect();
    assert_eq!(labels, vec!["GLM-OCR", "Infinity-Parser2-Flash", "Qwen3.6 35B-A3B"]);
    assert_eq!(AdHocModel::Qwen36MoE.modal_app_name(), "parselab-qwen36-35b-a3b");
    let models: Vec<&str> = ExtractorModel::all().into_iter().map(|m| m.label()).collect();
    assert_eq!(models, vec!["GLM-OCR (markdown)", "Inf2-Flash (structured)"]);
    assert_eq!(ExtractorModel::Inf2Flash.modal_app_name(), "parselab-inf2-flash");
}

#[test]
fn prompts_go_to_the_models_of_the_passes() {
    let ids: Vec<&str> = AdHocModel::all().into_iter().map(|m| m.model_id()).collect();
    assert_eq!(
        ids,
        vec!["zai-org/GLM-OCR", "infly/Infinity-Parser2-Flash", "Qwen/Qwen3.6-35B-A3B"]
    );
    assert_eq!(AdHocModel::GlmOcr.model_id(), PASS1_MODEL_ID);
    assert_eq!(AdHocModel::InfinityParser2Flash.model_id(), PASS2_MODEL_ID);
    let plan = ModalExtractor::new(PASS1_URL, PASS2_URL).pass2_plan(&vec![0]).unwrap();
    assert_eq!(plan.model, AdHocModel::InfinityParser2Flash.model_id());
    assert_eq!(plan.url, AdHocModel::InfinityParser2Flash.url());
}

#[test]
fn responses_are_read() {
    let r = read_response(
        AdHocModel::GlmOcr,
        answer(Some("hi"), Some("length"), usage()),
        Real::parse("1.25").unwrap(),
    )
    .unwrap();
    assert_eq!(r.content, "hi");
    assert_eq!(r.finish_reason.as_deref(), Some("length"));
    assert_eq!(r.usage.unwrap().completion_tokens, 3);
    assert_eq!(r.elapsed_secs.text(), "1.25");
}

#[test]
fn failures_of_responses_are_told_apart() {
    let fail = |o: HttpOutcome| read_response(AdHocModel::GlmOcr, o, zero()).unwrap_err();
    assert_eq!(fail(HttpOutcome::Transport("t".to_string())), Error::Transport("t".to_string()));
    assert_eq!(fail(HttpOutcome::Undecodable("u".to_string())), Error::Transport("u".to_string()));
    assert_eq!(
        fail(HttpOutcome::Status { status: 503, body: "b".to_string() }),
        Error::HttpStatus { status: 503, body: "b".to_string() }
    );
    assert_eq!(
        fail(answer(None, None, None)),
        Error::WorkerResponse("response had no message content".to_string())
    );
    assert_eq!(
        fail(HttpOutcome::Decoded(ChatResponse { choices: Vec::new(), usage: None })),
        Error::WorkerResponse("response had no choices".to_string())
    );
}

#[test]
fn replies_say_what_went_wrong() {
    assert_eq!(
        reply_of(HttpOutcome::Transport("down".to_string())),
        Err("transport: down".to_string())
    );
    assert_eq!(
        reply_of(HttpOutcome::Status { status: 404, body: "gone".to_string() }),
        Err("http 404: gone".to_string())
    );
    assert_eq!(
        reply_of(HttpOutcome::Undecodable("eof".to_string())),
        Err("decode response: eof".to_string())
    );
    assert_eq!(
        reply_of(answer(None, None, None)),
        Err("response had no message content".to_string())
    );
    let ok = reply_of(answer(Some("x"), None, usage())).unwrap();
    assert_eq!((ok.content.as_str(), ok.input_tokens, ok.output_tokens), ("x", Some(7), Some(3)));
}

fn image() -> PageImage {
    PageImage {
        page: 4,
        png_bytes: vec![1, 2, 3],
        width_px: 10,
        height_px: 20,
        width_pts: Real::from_whole(612),
        height_pts: Real::from_whole(792),
        rotation_deg: 90,
        dpi: 200,
    }
}

#[test]
fn plans_cover_the_pages_asked_for() {
    let e = ModalExtractor::new("u1", "u2").with_concurrency(0, 3);
    assert_eq!((e.pass1_concurrency, e.pass2_concurrency), (1, 3));
    assert_eq!(e.pass1_plan(None, 3).pages, vec![0, 1, 2]);
    assert_eq!(e.pass1_plan(Some(&[5]), 3).pages, vec![5]);
    assert_eq!(e.pass2_plan(&[]).unwrap_err(), Error::EmptyPagesForPass2);
    let plan = e.pass2_plan(&[2, 1]).unwrap();
    assert_eq!(plan.pages, vec![2, 1]);
    assert_eq!(plan.url, "u2");
    let run = pass_extraction(&plan, &Real::from_whole(200), &zero());
    assert_eq!(run.model.0, plan.model);
    let keys: Vec<&str> = (0..run.params.len()).map(|i| run.params.at(i).key.as_str()).collect();
    assert_eq!(keys, vec!["dpi", "max_tokens", "temperature"]);
}

#[test]
fn every_page_comes_to_a_record() {
    let run = ExtractionId(9);
    let failed = page_step(
        PassFormat::Markdown,
        4,
        run,
        HttpOutcome::Transport("down".to_string()),
        zero(),
    );
    match failed {
        PageStep::Done(p) => {
            assert_eq!((p.page, p.extraction_uuid), (4, run));
            match p.content {
                Content::Error(e) => {
                    assert_eq!(e.kind, "request_error");
                    assert_eq!(e.message, "transport: down");
                }
                other => panic!("{other:?}"),
            }
        }
        other => panic!("{other:?}"),
    }
    match page_step(PassFormat::Markdown, 4, run, answer(Some("# md"), None, usage()), zero()) {
        PageStep::Done(p) => {
            assert!(matches!(p.content, Content::Markdown(_)));
            assert_eq!(p.metrics.unwrap().input_tokens, Some(7));
        }
        other => panic!("{other:?}"),
    }
    match page_step(PassFormat::StructuredJson, 4, run, answer(Some("nope"), None, None), zero()) {
        PageStep::Done(p) => match p.content {
            Content::Error(e) => assert_eq!(e.kind, "parse_error"),
            other => panic!("{other:?}"),
        },
        other => panic!("{other:?}"),
    }
}

#[test]
fn layouts_are_placed_on_their_page() {
    let run = ExtractionId(9);
    let step = page_step(
        PassFormat::StructuredJson,
        4,
        run,
        answer(Some("[{\"bbox\": [0, 0, 1, 1], \"category\": \"table\"}]"), None, None),
        zero(),
    );
    let layout = match step {
        PageStep::Place { layout, .. } => layout,
        other => panic!("{other:?}"),
    };
    let bbox = BBox { x: zero(), y: zero(), w: Real::from_whole(5), h: Real::from_whole(6) };
    let page = placed_page(layout, vec![bbox.clone()], &image(), run, zero(), None, Some(1));
    assert_eq!(page.page, 4);
    match page.content {
        Content::Structured(s) => {
            assert_eq!(s.blocks[0].kind, "table");
            assert_eq!(s.blocks[0].bbox, bbox);
            let meta = s.page_meta.unwrap();
            assert_eq!((meta.rotation_deg, meta.dpi), (90, Some(200)));
        }
        other => panic!("{other:?}"),
    }
}

#[test]
fn bulk_results_keep_their_key() {
    let ok = bulk_result("k".to_string(), 3, answer(Some("x"), None, usage()), zero());
    assert_eq!((ok.key.as_str(), ok.page), ("k", 3));
    assert_eq!(ok.content, Ok("x".to_string()));
    let bad = bulk_result("k".to_string(), 3, HttpOutcome::Transport("d".to_string()), zero());
    assert_eq!(bad.content, Err("transport: d".to_string()));
    assert_eq!(bad.input_tokens, None);
}

fn row(description: &str, state: &str) -> ModalAppRow {
    ModalAppRow { description: description.to_string(), state: state.to_string() }
}

#[test]
fn deployed_servers_are_listed_once_in_order() {
    let rows = vec![
        row("parselab-b", "deployed"),
        row("parselab-a", "deployed"),
        row("parselab-b", "deployed"),
        row("parselab-c", "stopped"),
        row("other", "deployed"),
    ];
    let names = deployed_workers(&rows);
    assert!(is_live(&names, "parselab-a") && is_live(&names, "parselab-b"));
    assert!(!is_live(&names, "parselab-c") && !is_live(&names, "other"));
    assert_eq!(names, vec!["parselab-a", "parselab-b"]);
    assert_eq!(
        startup_lines(&names),
        vec!["deployed parselab workers (2):", "  - parselab-a", "  - parselab-b"]
    );
    assert_eq!(startup_lines(&Vec::new()).len(), 1);
}

#[test]
fn failures_of_the_listing_are_told_apart() {
    assert_eq!(
        listing_failure(Some(2), "  boom\n").message(),
        "worker response: modal app list failed (status 2): boom"
    );
    assert_eq!(
        listing_failure(None, ""),
        Error::WorkerResponse("modal app list failed (status -1): ".to_string())
    );
    assert_eq!(
        spawn_failure(true, "x"),
        Error::WorkerResponse(
            "modal CLI not on PATH; install with `uv tool install modal` or `pip install modal`"
                .to_string()
        )
    );
    assert_eq!(
        spawn_failure(false, "x"),
        Error::WorkerResponse("spawn modal CLI: x".to_string())
    );
    assert_eq!(decode_failure("x"), Error::WorkerResponse("parse modal JSON: x".to_string()));
}
