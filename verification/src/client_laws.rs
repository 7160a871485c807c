//! What goes to the servers and what comes of their answers, part by part.

use crate::ad_hoc::{AdHocModel, AdHocUsage, quiet, response_in};
use crate::discovery::{ModalAppRow, is_deployed, listing_failed, start_lines};
use crate::error::{ErrorView, error_message};
use crate::extractor::ExtractorModel;
use crate::ids::ExtractionId;
use crate::ir::{BBoxView, ContentView, views};
use crate::json::{Json, Num, real_json, whole_json};
use crate::modal::{
    PageImage, PageStep, PassFormat, all_pages, at_least_one, is_step, meta_of,
    pass_params, placed,
};
use crate::openai::{
    ChatRequestView, ChatResponse, HttpOutcome, PartView, completions_url, page_request,
    reply_in, text_request,
};
use crate::pass2::{LayoutElementView, layout_in_text, layout_message};
use crate::sorted::with_key;
use crate::text::{CharClass, decimal, signed_decimal, starts_with, trim, trim_end};
use crate::toc::{
    MAX_TOKENS, PingOutcome, answer_in, is_starting, llm_params, no_pages, quiet_prompt, range_params,
    timed_out,
};
use vstd::prelude::*;

verus! {

// ---------------------------------------------------------------------------
// Requests
// ---------------------------------------------------------------------------

/// A request about an image is a single message of the user with two parts: the image, as
/// the address that holds its base64, and behind it the prompt.
pub proof fn image_requests_hold_image_and_prompt(
    model: Seq<char>,
    prompt: Seq<char>,
    png_base64: Seq<char>,
    max_tokens: u32,
    temperature: Seq<char>,
)
    ensures
        ({
            let r = page_request(model, prompt, png_base64, max_tokens, temperature);
            &&& r.model == model
            &&& r.messages.len() == 1
            &&& r.messages[0].role == "user"@
            &&& r.messages[0].content.len() == 2
            &&& r.messages[0].content[0] == PartView::Image("data:image/png;base64,"@ + png_base64)
            &&& r.messages[0].content[1] == PartView::Text(prompt)
            &&& r.max_tokens == max_tokens
            &&& r.temperature == temperature
            &&& r.frequency_penalty is None
            &&& r.presence_penalty is None
            &&& r.chat_template_kwargs is None
        }),
{
}

/// A request about text is a single message of the user with the prompt as its only part.
pub proof fn text_requests_hold_the_prompt(
    model: Seq<char>,
    prompt: Seq<char>,
    max_tokens: u32,
    temperature: Seq<char>,
)
    ensures
        ({
            let r = text_request(model, prompt, max_tokens, temperature);
            &&& r.model == model
            &&& r.messages.len() == 1
            &&& r.messages[0].role == "user"@
            &&& r.messages[0].content.len() == 1
            &&& r.messages[0].content[0] == PartView::Text(prompt)
            &&& r.max_tokens == max_tokens
            &&& r.temperature == temperature
            &&& r.frequency_penalty is None
            &&& r.presence_penalty is None
            &&& r.chat_template_kwargs is None
        }),
        ({
            let r = quiet_prompt(model, prompt, max_tokens, temperature);
            &&& r.model == model
            &&& r.messages.len() == 1
            &&& r.messages[0].role == "user"@
            &&& r.messages[0].content.len() == 1
            &&& r.messages[0].content[0] == PartView::Text(prompt)
            &&& r.max_tokens == max_tokens
            &&& r.temperature == temperature
            &&& r.chat_template_kwargs == Some(
                Json::Object(seq![("enable_thinking"@, Json::Bool(false))]),
            )
        }),
{
}

/// Qwen is told not to reason, and nobody else is; nothing else of a request changes.
pub proof fn only_qwen_is_quieted(model: AdHocModel, r: ChatRequestView)
    ensures
        ({
            let q = quiet(model, r);
            &&& q.model == r.model
            &&& q.messages == r.messages
            &&& q.max_tokens == r.max_tokens
            &&& q.temperature == r.temperature
            &&& q.frequency_penalty == r.frequency_penalty
            &&& q.presence_penalty == r.presence_penalty
            &&& model is Qwen36MoE ==> q.chat_template_kwargs == Some(
                Json::Object(seq![("enable_thinking"@, Json::Bool(false))]),
            )
            &&& model is GlmOcr ==> q.chat_template_kwargs == r.chat_template_kwargs
            &&& model is InfinityParser2Flash ==> q.chat_template_kwargs == r.chat_template_kwargs
        }),
{
}

/// However many slashes an address ends in, there is one before the path.
pub proof fn addresses_are_joined_by_one_slash(base: Seq<char>, slashes: nat)
    requires
        base.len() > 0 ==> base.last() != '/',
    ensures
        completions_url(base + Seq::new(slashes, |i: int| '/')) == base + "/v1/chat/completions"@,
    decreases slashes,
{
    let s = base + Seq::new(slashes, |i: int| '/');
    if slashes > 0 {
        addresses_are_joined_by_one_slash(base, (slashes - 1) as nat);
        assert(s.last() == '/');
        assert(s.drop_last() =~= base + Seq::new((slashes - 1) as nat, |i: int| '/'));
        assert(trim_end(s, CharClass::Slash) == trim_end(s.drop_last(), CharClass::Slash));
    } else {
        assert(s =~= base);
    }
}

// ---------------------------------------------------------------------------
// Answers
// ---------------------------------------------------------------------------

/// Does the answer say `text`?
pub open spec fn says(r: ChatResponse, text: Seq<char>) -> bool {
    r.choices@.len() > 0 && (r.choices@[0].message.content matches Some(c) && c@ == text)
}

/// What an answer says is its reply, with the tokens that were counted.
pub proof fn answers_are_replies(r: ChatResponse, text: Seq<char>)
    requires
        says(r, text),
    ensures
        reply_in(HttpOutcome::Decoded(r)) matches Ok(v) && {
            &&& v.content == text
            &&& r.usage matches Some(u) ==> v.input_tokens == Some(u.prompt_tokens)
                && v.output_tokens == Some(u.completion_tokens)
            &&& r.usage is None ==> v.input_tokens is None && v.output_tokens is None
        },
        answer_in(HttpOutcome::Decoded(r)) == Ok::<Seq<char>, ErrorView>(text),
{
}

/// Without an answer that says something there is no reply, and it is said why.
pub proof fn failures_are_no_replies(o: HttpOutcome)
    requires
        o matches HttpOutcome::Decoded(r) ==> forall|text: Seq<char>| !#[trigger] says(r, text),
    ensures
        reply_in(o) matches Err(why) && match o {
            HttpOutcome::Transport(e) => why == "transport: "@ + e@,
            HttpOutcome::Status { status, body } => why == "http "@ + decimal(status as nat) + ": "@
                + body@,
            HttpOutcome::Undecodable(e) => why == "decode response: "@ + e@,
            HttpOutcome::Decoded(_) => why == "response had no message content"@,
        },
        answer_in(o) matches Err(why) && match o {
            HttpOutcome::Transport(e) => why == ErrorView::Transport(e@),
            HttpOutcome::Status { status, body } => why == (ErrorView::HttpStatus {
                status,
                body: body@,
            }),
            HttpOutcome::Undecodable(e) => why == ErrorView::Transport(e@),
            HttpOutcome::Decoded(_) => why == ErrorView::TocBuild(
                "response had no message content"@,
            ),
        },
{
    if let HttpOutcome::Decoded(r) = o {
        if r.choices@.len() > 0 {
            if let Some(c) = r.choices@[0].message.content {
                assert(says(r, c@));
            }
        }
    }
}

/// What an answer to a prompt says is its response, under the model that was asked and
/// with the time it took.
pub proof fn answers_are_responses(model: AdHocModel, r: ChatResponse, text: Seq<char>, secs: Seq<char>)
    requires
        says(r, text),
    ensures
        response_in(model, HttpOutcome::Decoded(r), secs) matches Ok(v) && {
            &&& v.model == model
            &&& v.content == text
            &&& v.elapsed_secs == secs
            &&& r.usage matches Some(u) ==> v.usage == Some(
                (AdHocUsage {
                    prompt_tokens: u.prompt_tokens,
                    completion_tokens: u.completion_tokens,
                }),
            )
            &&& r.usage is None ==> v.usage is None
            &&& match r.choices@[0].finish_reason {
                Some(why) => v.finish_reason == Some(why@),
                None => v.finish_reason is None,
            }
        },
{
}

/// Without an answer that says something there is no response, and it is said why.
pub proof fn failures_are_no_responses(model: AdHocModel, o: HttpOutcome, secs: Seq<char>)
    requires
        o matches HttpOutcome::Decoded(r) ==> forall|text: Seq<char>| !#[trigger] says(r, text),
    ensures
        response_in(model, o, secs) matches Err(why) && match o {
            HttpOutcome::Transport(e) => why == ErrorView::Transport(e@),
            HttpOutcome::Status { status, body } => why == (ErrorView::HttpStatus {
                status,
                body: body@,
            }),
            HttpOutcome::Undecodable(e) => why == ErrorView::Transport(e@),
            HttpOutcome::Decoded(r) => why == ErrorView::WorkerResponse(
                if r.choices@.len() == 0 {
                    "response had no choices"@
                } else {
                    "response had no message content"@
                },
            ),
        },
{
    if let HttpOutcome::Decoded(r) = o {
        if r.choices@.len() > 0 {
            if let Some(c) = r.choices@[0].message.content {
                assert(says(r, c@));
            }
        }
    }
}

/// The message of an error ends in what is known of it.
pub proof fn messages_say_what_happened(why: Seq<char>, status: u16)
    ensures
        error_message(ErrorView::Transport(why)) == "transport: "@ + why,
        error_message(ErrorView::HttpStatus { status, body: why }) == "worker http "@ + decimal(
            status as nat,
        ) + ": "@ + why,
        error_message(ErrorView::MalformedEnvelope(why)) == "malformed envelope: "@ + why,
        error_message(ErrorView::EmptyPagesForPass2) == "pass2 requires at least one page"@,
        error_message(ErrorView::Render(why)) == "render: "@ + why,
        error_message(ErrorView::LayoutParse(why)) == "layout parse: "@ + why,
        error_message(ErrorView::TocBuild(why)) == "toc build: "@ + why,
        error_message(ErrorView::WorkerResponse(why)) == "worker response: "@ + why,
{
}

// ---------------------------------------------------------------------------
// Pages
// ---------------------------------------------------------------------------

/// What is answered in the Markdown pass is the Markdown of the page, character by
/// character, with the tokens that were counted.
pub proof fn markdown_answers_are_kept(
    s: PageStep,
    page: u32,
    run: ExtractionId,
    r: ChatResponse,
    text: Seq<char>,
    secs: Seq<char>,
)
    requires
        is_step(s, PassFormat::Markdown, page, run, HttpOutcome::Decoded(r), secs),
        says(r, text),
    ensures
        s matches PageStep::Done(p) && {
            &&& p@.page == page
            &&& p@.extraction_uuid == run
            &&& p@.content == ContentView::Markdown(text)
            &&& p@.metrics matches Some(m) && {
                &&& m.elapsed_secs == secs
                &&& r.usage matches Some(u) ==> m.input_tokens == Some(u.prompt_tokens)
                    && m.output_tokens == Some(u.completion_tokens)
                &&& r.usage is None ==> m.input_tokens is None && m.output_tokens is None
            }
        },
{
    answers_are_replies(r, text);
}

/// What is answered in the layout pass is the layout in it, if there is one, and else an
/// error that says why.
pub proof fn layout_answers_are_placed(
    s: PageStep,
    page: u32,
    run: ExtractionId,
    r: ChatResponse,
    text: Seq<char>,
    secs: Seq<char>,
)
    requires
        is_step(s, PassFormat::StructuredJson, page, run, HttpOutcome::Decoded(r), secs),
        says(r, text),
    ensures
        match layout_in_text(text) {
            Ok(l) => s matches PageStep::Place { layout, input_tokens, output_tokens } && {
                &&& layout@.len() == l.len()
                &&& forall|i: int| 0 <= i < l.len() ==> (#[trigger] layout@[i])@ == l[i]
                &&& r.usage matches Some(u) ==> input_tokens == Some(u.prompt_tokens)
                    && output_tokens == Some(u.completion_tokens)
                &&& r.usage is None ==> input_tokens is None && output_tokens is None
            },
            Err(e) => s matches PageStep::Done(p) && {
                &&& p@.page == page
                &&& p@.extraction_uuid == run
                &&& p@.content matches ContentView::Error(c) && {
                    &&& c.kind == "parse_error"@
                    &&& c.message == layout_message(e)
                }
                &&& p@.metrics matches Some(m) && m.elapsed_secs == secs
            },
        },
{
    answers_are_replies(r, text);
    if let PageStep::Place { layout, .. } = s {
        assert forall|i: int| 0 <= i < layout@.len() implies (#[trigger] layout@[i])@ == views(
            layout@,
        )[i] by {}
    }
}

/// A page whose request failed holds the reason, and no tokens.
pub proof fn failures_are_kept(
    s: PageStep,
    format: PassFormat,
    page: u32,
    run: ExtractionId,
    o: HttpOutcome,
    secs: Seq<char>,
)
    requires
        is_step(s, format, page, run, o, secs),
        reply_in(o) is Err,
    ensures
        s matches PageStep::Done(p) && {
            &&& p@.page == page
            &&& p@.extraction_uuid == run
            &&& p@.content matches ContentView::Error(c) && {
                &&& c.kind == "request_error"@
                &&& c.message == reply_in(o)->Err_0
            }
            &&& p@.metrics matches Some(m) && {
                &&& m.elapsed_secs == secs
                &&& m.input_tokens is None
                &&& m.output_tokens is None
            }
        },
{
}

/// Placing an element changes nothing but its box, and a page is recorded as it was
/// rendered.
pub proof fn placing_changes_the_box(e: LayoutElementView, bbox: BBoxView, img: PageImage)
    ensures
        placed(e, bbox).bbox == bbox,
        placed(e, bbox).kind == e.kind,
        placed(e, bbox).text == e.text,
        placed(e, bbox).confidence == e.confidence,
        meta_of(img).width_pts == img.width_pts@,
        meta_of(img).height_pts == img.height_pts@,
        meta_of(img).rotation_deg == img.rotation_deg,
        meta_of(img).dpi == Some(img.dpi),
{
}

/// All pages are those below the count, each once, in order.
pub proof fn all_pages_are_numbered(count: u32, page: u32)
    ensures
        all_pages(count).len() == count,
        page < count ==> all_pages(count)[page as int] == page,
        all_pages(count).contains(page) <==> page < count,
{
    if page < count {
        assert(all_pages(count)[page as int] == page);
    }
}

/// One request at least may be in flight, and else as many as asked for.
pub proof fn one_request_at_least(n: usize)
    ensures
        at_least_one(n) >= 1,
        n >= 1 ==> at_least_one(n) == n,
        n == 0 ==> at_least_one(n) == 1,
{
}

// ---------------------------------------------------------------------------
// Parameters
// ---------------------------------------------------------------------------

/// Setting a key puts the value under it and leaves every other one.
pub proof fn set_keys_are_there<V>(s: Seq<(Seq<char>, V)>, key: Seq<char>, value: V)
    ensures
        with_key(s, key, value).contains((key, value)),
        forall|x: (Seq<char>, V)| x.0 != key && s.contains(x) ==> #[trigger] with_key(
            s,
            key,
            value,
        ).contains(x),
        forall|x: (Seq<char>, V)| #[trigger]
            with_key(s, key, value).contains(x) ==> x == (key, value) || s.contains(x),
    decreases s.len(),
{
    let out = with_key(s, key, value);
    if s.len() == 0 {
        assert(out[0] == (key, value));
    } else {
        let init = s.drop_last();
        let n = s.len() - 1;
        assert(s[n] == s.last());
        if s.last().0 == key {
            assert(out[n] == (key, value));
            assert forall|x: (Seq<char>, V)| x.0 != key && s.contains(x) implies #[trigger]
                out.contains(x) by {
                let i = choose|i: int| 0 <= i < s.len() && s[i] == x;
                assert(out[i] == x);
            }
            assert forall|x: (Seq<char>, V)| #[trigger] out.contains(x) implies x == (key, value)
                || s.contains(x) by {
                let i = choose|i: int| 0 <= i < out.len() && out[i] == x;
                if i < n {
                    assert(s[i] == x);
                }
            }
        } else if crate::text::text_less(s.last().0, key) {
            assert(out[n + 1] == (key, value));
            assert forall|x: (Seq<char>, V)| x.0 != key && s.contains(x) implies #[trigger]
                out.contains(x) by {
                let i = choose|i: int| 0 <= i < s.len() && s[i] == x;
                assert(out[i] == x);
            }
            assert forall|x: (Seq<char>, V)| #[trigger] out.contains(x) implies x == (key, value)
                || s.contains(x) by {
                let i = choose|i: int| 0 <= i < out.len() && out[i] == x;
                if i <= n {
                    assert(s[i] == x);
                }
            }
        } else {
            set_keys_are_there(init, key, value);
            let mid = with_key(init, key, value);
            assert(mid.contains((key, value)));
            let at = choose|i: int| 0 <= i < mid.len() && mid[i] == (key, value);
            assert(out[at] == (key, value));
            assert forall|x: (Seq<char>, V)| x.0 != key && s.contains(x) implies #[trigger]
                out.contains(x) by {
                let i = choose|i: int| 0 <= i < s.len() && s[i] == x;
                if i < n {
                    assert(init[i] == x);
                    assert(mid.contains(x));
                    let k = choose|k: int| 0 <= k < mid.len() && mid[k] == x;
                    assert(out[k] == x);
                } else {
                    assert(out[mid.len() as int] == x);
                }
            }
            assert forall|x: (Seq<char>, V)| #[trigger] out.contains(x) implies x == (key, value)
                || s.contains(x) by {
                let i = choose|i: int| 0 <= i < out.len() && out[i] == x;
                if i < mid.len() {
                    assert(mid[i] == x);
                    assert(mid.contains(x));
                    if x != (key, value) {
                        let k = choose|k: int| 0 <= k < init.len() && init[k] == x;
                        assert(s[k] == x);
                    }
                }
            }
        }
    }
}

proof fn names_of_params_differ()
    ensures
        "dpi"@ != "max_tokens"@,
        "dpi"@ != "temperature"@,
        "max_tokens"@ != "temperature"@,
        "max_tokens"@ != "page_start"@,
        "max_tokens"@ != "page_end_inclusive"@,
        "temperature"@ != "page_start"@,
        "temperature"@ != "page_end_inclusive"@,
        "page_start"@ != "page_end_inclusive"@,
{
    reveal_strlit("dpi");
    reveal_strlit("max_tokens");
    reveal_strlit("temperature");
    reveal_strlit("page_start");
    reveal_strlit("page_end_inclusive");
    assert("max_tokens"@[0] == 'm');
    assert("page_start"@[0] == 'p');
    assert("dpi"@.len() == 3);
    assert("temperature"@.len() == 11);
    assert("page_end_inclusive"@.len() == 18);
}

/// Is the text that of a finite number?
pub open spec fn finite(text: Seq<char>) -> bool {
    text != "NaN"@ && text != "inf"@ && text != "-inf"@
}

/// A pass is recorded with its resolution, its budget and its temperature, each under its
/// name, and with nothing else.
pub proof fn passes_are_recorded_by_name(max_tokens: u32, temperature: Seq<char>, dpi: Seq<char>)
    requires
        finite(temperature),
        finite(dpi),
    ensures
        forall|x: (Seq<char>, Json)| #[trigger]
            pass_params(max_tokens, temperature, dpi).contains(x) <==> {
                ||| x == ("dpi"@, Json::Number(Num::Float(dpi)))
                ||| x == ("max_tokens"@, Json::Number(Num::Pos(max_tokens as u64)))
                ||| x == ("temperature"@, Json::Number(Num::Float(temperature)))
            },
{
    names_of_params_differ();
    let none = Seq::<(Seq<char>, Json)>::empty();
    let d = Json::Number(Num::Float(dpi));
    let m = Json::Number(Num::Pos(max_tokens as u64));
    let t = Json::Number(Num::Float(temperature));
    let one = with_key(none, "dpi"@, d);
    let two = with_key(one, "max_tokens"@, m);
    set_keys_are_there(none, "dpi"@, d);
    set_keys_are_there(one, "max_tokens"@, m);
    set_keys_are_there(two, "temperature"@, t);
    let all = with_key(two, "temperature"@, t);
    assert(pass_params(max_tokens, temperature, dpi) == all);
    assert forall|x: (Seq<char>, Json)| #[trigger] all.contains(x) <==> {
        ||| x == ("dpi"@, d)
        ||| x == ("max_tokens"@, m)
        ||| x == ("temperature"@, t)
    } by {
        if x == ("dpi"@, d) {
            assert(one.contains(x));
            assert(two.contains(x));
        }
        if x == ("max_tokens"@, m) {
            assert(two.contains(x));
        }
        if all.contains(x) && x != ("temperature"@, t) {
            assert(two.contains(x));
            if x != ("max_tokens"@, m) {
                assert(one.contains(x));
            }
        }
    }
}

/// A build is recorded with its first and its last page, each under its name.
pub proof fn ranges_are_recorded_by_name(first: u32, last: u32)
    ensures
        forall|x: (Seq<char>, Json)| #[trigger]
            range_params(Seq::empty(), first, last).contains(x) <==> {
                ||| x == ("page_start"@, Json::Number(Num::Pos(first as u64)))
                ||| x == ("page_end_inclusive"@, Json::Number(Num::Pos(last as u64)))
            },
{
    names_of_params_differ();
    let none = Seq::<(Seq<char>, Json)>::empty();
    let f = Json::Number(Num::Pos(first as u64));
    let l = Json::Number(Num::Pos(last as u64));
    let one = with_key(none, "page_start"@, f);
    let all = with_key(one, "page_end_inclusive"@, l);
    set_keys_are_there(none, "page_start"@, f);
    set_keys_are_there(one, "page_end_inclusive"@, l);
    assert(range_params(none, first, last) == all);
    assert forall|x: (Seq<char>, Json)| #[trigger] all.contains(x) <==> {
        ||| x == ("page_start"@, f)
        ||| x == ("page_end_inclusive"@, l)
    } by {
        if x == ("page_start"@, f) {
            assert(one.contains(x));
        }
        if all.contains(x) && x != ("page_end_inclusive"@, l) {
            assert(one.contains(x));
        }
    }
}

/// A build by the language model is recorded with its budget and its temperature, too.
pub proof fn builds_are_recorded_by_name(temperature: Seq<char>, first: u32, last: u32)
    requires
        finite(temperature),
    ensures
        forall|x: (Seq<char>, Json)| #[trigger]
            llm_params(temperature, first, last).contains(x) <==> {
                ||| x == ("max_tokens"@, Json::Number(Num::Pos(MAX_TOKENS as u64)))
                ||| x == ("temperature"@, Json::Number(Num::Float(temperature)))
                ||| x == ("page_start"@, Json::Number(Num::Pos(first as u64)))
                ||| x == ("page_end_inclusive"@, Json::Number(Num::Pos(last as u64)))
            },
{
    names_of_params_differ();
    let none = Seq::<(Seq<char>, Json)>::empty();
    let m = Json::Number(Num::Pos(MAX_TOKENS as u64));
    let t = Json::Number(Num::Float(temperature));
    let f = Json::Number(Num::Pos(first as u64));
    let l = Json::Number(Num::Pos(last as u64));
    let one = with_key(none, "max_tokens"@, m);
    let two = with_key(one, "temperature"@, t);
    let three = with_key(two, "page_start"@, f);
    let all = with_key(three, "page_end_inclusive"@, l);
    set_keys_are_there(none, "max_tokens"@, m);
    set_keys_are_there(one, "temperature"@, t);
    set_keys_are_there(two, "page_start"@, f);
    set_keys_are_there(three, "page_end_inclusive"@, l);
    assert(llm_params(temperature, first, last) == all);
    assert forall|x: (Seq<char>, Json)| #[trigger] all.contains(x) <==> {
        ||| x == ("max_tokens"@, m)
        ||| x == ("temperature"@, t)
        ||| x == ("page_start"@, f)
        ||| x == ("page_end_inclusive"@, l)
    } by {
        if x == ("max_tokens"@, m) {
            assert(one.contains(x));
            assert(two.contains(x));
            assert(three.contains(x));
        }
        if x == ("temperature"@, t) {
            assert(two.contains(x));
            assert(three.contains(x));
        }
        if x == ("page_start"@, f) {
            assert(three.contains(x));
        }
        if all.contains(x) && x != ("page_end_inclusive"@, l) {
            assert(three.contains(x));
            if x != ("page_start"@, f) {
                assert(two.contains(x));
                if x != ("temperature"@, t) {
                    assert(one.contains(x));
                }
            }
        }
    }
}

/// Where there is no page to build from, the error names the range.
pub proof fn missing_pages_are_named(first: u32, last: u32)
    ensures
        no_pages(first, last) == ErrorView::TocBuild(
            "no Pass 1 markdown PageExtractions in range "@ + decimal(first as nat) + "..="@
                + decimal(last as nat),
        ),
{
}

// ---------------------------------------------------------------------------
// Deployed servers
// ---------------------------------------------------------------------------

/// A server of this project is one whose name goes on behind the name of the project, and
/// it is deployed if its state says so.
pub proof fn deployed_servers_say_so(row: ModalAppRow)
    ensures
        is_deployed(row) <==> row.state@ == "deployed"@ && exists|rest: Seq<char>|
            row.description@ == #[trigger] ("parselab-"@ + rest),
{
    let part = "parselab-"@;
    let s = row.description@;
    if starts_with(s, part) {
        assert(s =~= s.subrange(0, part.len() as int) + s.skip(part.len() as int));
        assert(s == part + s.skip(part.len() as int));
    }
    if exists|rest: Seq<char>| s == #[trigger] (part + rest) {
        let rest = choose|rest: Seq<char>| s == #[trigger] (part + rest);
        assert(s.subrange(0, part.len() as int) =~= part);
    }
}

/// Every deployed server gets a line with its name, in their order, behind a line with
/// their number.
pub proof fn every_server_gets_a_line(names: Seq<Seq<char>>, i: int)
    requires
        0 <= i < names.len(),
    ensures
        start_lines(names).len() == names.len() + 1,
        start_lines(names)[0] == "deployed parselab workers ("@ + decimal(names.len()) + "):"@,
        start_lines(names)[i + 1] == "  - "@ + names[i],
{
}

/// A listing that failed is reported with its status and what it wrote, without white
/// space around it; a listing without a status has minus one.
pub proof fn failed_listings_are_reported(code: i32, stderr: Seq<char>)
    ensures
        listing_failed(Some(code), stderr) == ErrorView::WorkerResponse(
            "modal app list failed (status "@ + signed_decimal(code as int) + "): "@ + trim(stderr),
        ),
        listing_failed(None, stderr) == listing_failed(Some(-1i32), stderr),
{
}

// ---------------------------------------------------------------------------
// Models
// ---------------------------------------------------------------------------

/// No two models share a name, an identifier, a server or an app.
pub proof fn models_are_told_apart(a: AdHocModel, b: AdHocModel)
    requires
        a != b,
    ensures
        a.label_text() != b.label_text(),
        a.id() != b.id(),
        a.url_text() != b.url_text(),
        a.app_name() != b.app_name(),
{
    reveal_strlit("GLM-OCR");
    reveal_strlit("Infinity-Parser2-Flash");
    reveal_strlit("Qwen3.6 35B-A3B");
    reveal_strlit("parselab-glm-ocr");
    reveal_strlit("parselab-inf2-flash");
    reveal_strlit("parselab-qwen36-35b-a3b");
    reveal_strlit("zai-org/GLM-OCR");
    reveal_strlit("infly/Infinity-Parser2-Flash");
    reveal_strlit("Qwen/Qwen3.6-35B-A3B");
    reveal_strlit("https://ferrite-systems--parselab-glm-ocr-serve.modal.run");
    reveal_strlit("https://ferrite-systems--parselab-inf2-flash-serve.modal.run");
    reveal_strlit("https://ferrite-systems--parselab-qwen36-35b-a3b-serve.modal.run");
    assert(a.label_text().len() != b.label_text().len());
    assert(a.id().len() != b.id().len());
    assert(a.url_text().len() != b.url_text().len());
    assert(a.app_name().len() != b.app_name().len());
}

/// The apps of the models are servers of this project, and a pass and a prompt to the same
/// model go to the same app.
pub proof fn apps_are_of_this_project(m: AdHocModel, e: ExtractorModel)
    ensures
        starts_with(m.app_name(), "parselab-"@),
        starts_with(e.app_name(), "parselab-"@),
        ExtractorModel::GlmOcr.app_name() == AdHocModel::GlmOcr.app_name(),
        ExtractorModel::Inf2Flash.app_name() == AdHocModel::InfinityParser2Flash.app_name(),
{
    reveal_strlit("parselab-");
    reveal_strlit("parselab-glm-ocr");
    reveal_strlit("parselab-inf2-flash");
    reveal_strlit("parselab-qwen36-35b-a3b");
    assert("parselab-glm-ocr"@.subrange(0, 9) =~= "parselab-"@);
    assert("parselab-inf2-flash"@.subrange(0, 9) =~= "parselab-"@);
    assert("parselab-qwen36-35b-a3b"@.subrange(0, 9) =~= "parselab-"@);
}

/// A server is starting where it cannot be reached or takes too long, and in no other case.
pub proof fn only_silence_means_starting(o: PingOutcome)
    ensures
        match o {
            PingOutcome::Success => !is_starting(o),
            PingOutcome::Failed(_) => !is_starting(o),
            PingOutcome::Unreachable => is_starting(o),
            PingOutcome::Status { status, .. } => is_starting(o) <==> status == 408,
        },
        forall|secs: u64| #[trigger]
            timed_out(secs) == ErrorView::TocBuild(
                "warm-up timed out after "@ + decimal(secs as nat) + "s"@,
            ),
{
}

/// A finite number is that number in JSON, and any other is null; a whole number is that
/// number.
pub proof fn numbers_are_kept_in_json(text: Seq<char>, i: i64)
    ensures
        finite(text) ==> real_json(text) == Json::Number(Num::Float(text)),
        !finite(text) ==> real_json(text) == Json::Null,
        i >= 0 ==> whole_json(i) == Json::Number(Num::Pos(i as u64)),
        i < 0 ==> whole_json(i) == Json::Number(Num::Neg(i)),
{
}

} // verus!
