//! Chat completion requests and responses, as far as the model servers use them.

use crate::ir::{opt_view, views};
use crate::json::{Json, json_tree};
use crate::number::Real;
use crate::text::{CharClass, chars_of, decimal, decimal_text, string_of, trim_end, trimmed_end};
use vstd::prelude::*;

verus! {

// ---------------------------------------------------------------------------
// Requests
// ---------------------------------------------------------------------------

/// Body of a chat completion request.
#[derive(Debug, Clone)]
pub struct ChatRequest {
    pub model: String,
    pub messages: Vec<Message>,
    pub max_tokens: u32,
    pub temperature: Real,
    /// Penalty on repeated tokens, between -2 and 2.
    pub frequency_penalty: Option<Real>,
    /// Penalty on tokens that have occurred at all.
    pub presence_penalty: Option<Real>,
    /// Extra arguments for the server's chat template.
    pub chat_template_kwargs: Option<serde_json::Value>,
}

#[derive(Debug, Clone)]
pub struct Message {
    pub role: String,
    pub content: Vec<ContentPart>,
}

/// One part of a message: a text or an image.
#[derive(Debug, Clone)]
pub enum ContentPart {
    Text { text: String },
    ImageUrl { image_url: ImageUrl },
}

#[derive(Debug, Clone)]
pub struct ImageUrl {
    pub url: String,
}

pub enum PartView {
    Text(Seq<char>),
    Image(Seq<char>),
}

pub struct MessageView {
    pub role: Seq<char>,
    pub content: Seq<PartView>,
}

pub struct ChatRequestView {
    pub model: Seq<char>,
    pub messages: Seq<MessageView>,
    pub max_tokens: u32,
    pub temperature: Seq<char>,
    pub frequency_penalty: Option<Seq<char>>,
    pub presence_penalty: Option<Seq<char>>,
    pub chat_template_kwargs: Option<Json>,
}

impl View for ContentPart {
    type V = PartView;

    open spec fn view(&self) -> PartView {
        match self {
            ContentPart::Text { text } => PartView::Text(text@),
            ContentPart::ImageUrl { image_url } => PartView::Image(image_url.url@),
        }
    }
}

impl View for Message {
    type V = MessageView;

    open spec fn view(&self) -> MessageView {
        MessageView { role: self.role@, content: views(self.content@) }
    }
}

impl View for ChatRequest {
    type V = ChatRequestView;

    open spec fn view(&self) -> ChatRequestView {
        ChatRequestView {
            model: self.model@,
            messages: views(self.messages@),
            max_tokens: self.max_tokens,
            temperature: self.temperature@,
            frequency_penalty: opt_view(self.frequency_penalty),
            presence_penalty: opt_view(self.presence_penalty),
            chat_template_kwargs: match self.chat_template_kwargs {
                Some(v) => Some(json_tree(v)),
                None => None,
            },
        }
    }
}

/// A request with a single user message and no extras.
pub open spec fn user_request(
    model: Seq<char>,
    content: Seq<PartView>,
    max_tokens: u32,
    temperature: Seq<char>,
) -> ChatRequestView {
    ChatRequestView {
        model,
        messages: seq![MessageView { role: "user"@, content }],
        max_tokens,
        temperature,
        frequency_penalty: None,
        presence_penalty: None,
        chat_template_kwargs: None,
    }
}

/// The address that carries a PNG image in base64.
pub open spec fn png_data_url(png_base64: Seq<char>) -> Seq<char> {
    "data:image/png;base64,"@ + png_base64
}

/// The request for one image and one prompt, the image first.
pub open spec fn page_request(
    model: Seq<char>,
    prompt: Seq<char>,
    png_base64: Seq<char>,
    max_tokens: u32,
    temperature: Seq<char>,
) -> ChatRequestView {
    user_request(
        model,
        seq![PartView::Image(png_data_url(png_base64)), PartView::Text(prompt)],
        max_tokens,
        temperature,
    )
}

/// The request for a prompt alone.
pub open spec fn text_request(
    model: Seq<char>,
    prompt: Seq<char>,
    max_tokens: u32,
    temperature: Seq<char>,
) -> ChatRequestView {
    user_request(model, seq![PartView::Text(prompt)], max_tokens, temperature)
}

/// What tells a server to leave out its reasoning.
pub open spec fn no_thinking() -> Json {
    Json::Object(seq![("enable_thinking"@, Json::Bool(false))])
}

fn user_message(content: Vec<ContentPart>) -> (r: Vec<Message>)
    ensures
        views(r@) == seq![MessageView { role: "user"@, content: views(content@) }],
{
    let mut messages: Vec<Message> = Vec::new();
    messages.push(Message { role: String::from_str("user"), content });
    assert(views(messages@) =~= seq![
        MessageView { role: "user"@, content: views(content@) },
    ]);
    messages
}

impl ChatRequest {
    /// A request with one image, given as base64 of its PNG bytes, and one
    /// prompt.
    pub fn single_page(
        model: &str,
        prompt: &str,
        png_base64: &str,
        max_tokens: u32,
        temperature: Real,
    ) -> (r: Self)
        ensures
            r@ == page_request(model@, prompt@, png_base64@, max_tokens, temperature@),
    {
        let url = String::from_str("data:image/png;base64,").concat(png_base64);
        let mut content: Vec<ContentPart> = Vec::new();
        content.push(ContentPart::ImageUrl { image_url: ImageUrl { url } });
        content.push(ContentPart::Text { text: String::from_str(prompt) });
        assert(views(content@) =~= seq![
            PartView::Image(png_data_url(png_base64@)),
            PartView::Text(prompt@),
        ]);
        ChatRequest {
            model: String::from_str(model),
            messages: user_message(content),
            max_tokens,
            temperature,
            frequency_penalty: None,
            presence_penalty: None,
            chat_template_kwargs: None,
        }
    }

    /// A request with a prompt alone.
    pub fn text_only(model: &str, prompt: &str, max_tokens: u32, temperature: Real) -> (r: Self)
        ensures
            r@ == text_request(model@, prompt@, max_tokens, temperature@),
    {
        let mut content: Vec<ContentPart> = Vec::new();
        content.push(ContentPart::Text { text: String::from_str(prompt) });
        assert(views(content@) =~= seq![PartView::Text(prompt@)]);
        ChatRequest {
            model: String::from_str(model),
            messages: user_message(content),
            max_tokens,
            temperature,
            frequency_penalty: None,
            presence_penalty: None,
            chat_template_kwargs: None,
        }
    }

    /// Ask the server to leave out its reasoning.
    pub fn without_thinking(self) -> (r: Self)
        ensures
            r@ == (ChatRequestView { chat_template_kwargs: Some(no_thinking()), ..self@ }),
    {
        let kwargs = crate::json::of_member("enable_thinking", crate::json::of_bool(false));
        ChatRequest { chat_template_kwargs: Some(kwargs), ..self }
    }

    /// Set the penalty on repeated tokens.
    pub fn with_frequency_penalty(self, p: Real) -> (r: Self)
        ensures
            r@ == (ChatRequestView { frequency_penalty: Some(p@), ..self@ }),
    {
        ChatRequest { frequency_penalty: Some(p), ..self }
    }
}

/// The address of the chat completion endpoint of a server.
pub open spec fn completions_url(url: Seq<char>) -> Seq<char> {
    trim_end(url, CharClass::Slash) + "/v1/chat/completions"@
}

pub fn completions_endpoint(url: &str) -> (r: String)
    ensures
        r@ == completions_url(url@),
{
    let base = trimmed_end(&chars_of(url), CharClass::Slash);
    string_of(&base).concat("/v1/chat/completions")
}

// ---------------------------------------------------------------------------
// Base64
// ---------------------------------------------------------------------------

/// The character of a six-bit number in standard base64.
pub open spec fn base64_char(n: int) -> char {
    if n < 26 {
        (65 + n) as char
    } else if n < 52 {
        (71 + n) as char
    } else if n < 62 {
        (n - 4) as char
    } else if n == 62 {
        '+'
    } else {
        '/'
    }
}

/// Standard base64 with padding: each three bytes make four characters.
pub open spec fn base64_text(bytes: Seq<u8>) -> Seq<char>
    decreases bytes.len(),
{
    if bytes.len() == 0 {
        Seq::empty()
    } else {
        let a = bytes[0] as int;
        let b = if bytes.len() > 1 { bytes[1] as int } else { 0 };
        let c = if bytes.len() > 2 { bytes[2] as int } else { 0 };
        let group = seq![
            base64_char(a / 4),
            base64_char((a % 4) * 16 + b / 16),
            if bytes.len() > 1 { base64_char((b % 16) * 4 + c / 64) } else { '=' },
            if bytes.len() > 2 { base64_char(c % 64) } else { '=' },
        ];
        if bytes.len() <= 3 {
            group
        } else {
            group + base64_text(bytes.skip(3))
        }
    }
}

/// Does the base64 text of this many bytes fit in memory?
pub open spec fn fits_base64(len: nat) -> bool {
    (len + 2) / 3 * 4 <= isize::MAX
}

/// Calls `encode` of the standard engine of the `base64` crate.
#[verifier::external_body]
pub(crate) fn encode_base64(bytes: &[u8]) -> (r: String)
    requires
        fits_base64(bytes@.len()),
    ensures
        r@ == base64_text(bytes@),
{
    base64::Engine::encode(&base64::engine::general_purpose::STANDARD, bytes)
}

// ---------------------------------------------------------------------------
// Responses
// ---------------------------------------------------------------------------

/// Body of a chat completion response.
#[derive(Debug, Clone)]
pub struct ChatResponse {
    pub choices: Vec<Choice>,
    pub usage: Option<Usage>,
}

#[derive(Debug, Clone)]
pub struct Choice {
    pub message: ResponseMessage,
    /// `"stop"`, `"length"`, `"content_filter"` or nothing.
    pub finish_reason: Option<String>,
}

#[derive(Debug, Clone)]
pub struct ResponseMessage {
    pub content: Option<String>,
}

#[derive(Debug, Clone, Copy, PartialEq, Eq, Structural)]
pub struct Usage {
    pub prompt_tokens: u32,
    pub completion_tokens: u32,
    pub total_tokens: Option<u32>,
}

/// What became of a request.
#[derive(Debug, Clone)]
pub enum HttpOutcome {
    /// The request did not get through.
    Transport(String),
    /// The server answered with a status other than success.
    Status { status: u16, body: String },
    /// The server answered with success, but the body does not decode.
    Undecodable(String),
    /// The decoded answer.
    Decoded(ChatResponse),
}

/// What a server said about a page, with the tokens that went in and out.
#[derive(Debug, Clone, PartialEq)]
pub struct Reply {
    pub content: String,
    pub input_tokens: Option<u32>,
    pub output_tokens: Option<u32>,
}

pub struct ReplyView {
    pub content: Seq<char>,
    pub input_tokens: Option<u32>,
    pub output_tokens: Option<u32>,
}

impl View for Reply {
    type V = ReplyView;

    open spec fn view(&self) -> ReplyView {
        ReplyView {
            content: self.content@,
            input_tokens: self.input_tokens,
            output_tokens: self.output_tokens,
        }
    }
}

/// The text of the first choice, if there is one.
pub open spec fn first_content(r: ChatResponse) -> Option<Seq<char>> {
    if r.choices@.len() == 0 {
        None
    } else {
        opt_view(r.choices@[0].message.content)
    }
}

pub open spec fn prompt_tokens(u: Option<Usage>) -> Option<u32> {
    match u {
        Some(u) => Some(u.prompt_tokens),
        None => None,
    }
}

pub open spec fn completion_tokens(u: Option<Usage>) -> Option<u32> {
    match u {
        Some(u) => Some(u.completion_tokens),
        None => None,
    }
}

/// The reply in an outcome, or why there is none.
pub open spec fn reply_in(o: HttpOutcome) -> Result<ReplyView, Seq<char>> {
    match o {
        HttpOutcome::Transport(e) => Err("transport: "@ + e@),
        HttpOutcome::Status { status, body } => Err(
            "http "@ + decimal(status as nat) + ": "@ + body@,
        ),
        HttpOutcome::Undecodable(e) => Err("decode response: "@ + e@),
        HttpOutcome::Decoded(r) => match first_content(r) {
            None => Err("response had no message content"@),
            Some(content) => Ok(
                ReplyView {
                    content,
                    input_tokens: prompt_tokens(r.usage),
                    output_tokens: completion_tokens(r.usage),
                },
            ),
        },
    }
}

/// The reply in an outcome, or why there is none.
pub fn reply_of(o: HttpOutcome) -> (r: Result<Reply, String>)
    ensures
        match r {
            Ok(v) => reply_in(o) == Ok::<ReplyView, Seq<char>>(v@),
            Err(e) => reply_in(o) == Err::<ReplyView, Seq<char>>(e@),
        },
{
    match o {
        HttpOutcome::Transport(e) => Err(String::from_str("transport: ").concat(e.as_str())),
        HttpOutcome::Status { status, body } => Err(
            String::from_str("http ").concat(decimal_text(status as u64).as_str()).concat(
                ": ",
            ).concat(body.as_str()),
        ),
        HttpOutcome::Undecodable(e) => Err(
            String::from_str("decode response: ").concat(e.as_str()),
        ),
        HttpOutcome::Decoded(body) => {
            let none = String::from_str("response had no message content");
            if body.choices.len() == 0 {
                return Err(none);
            }
            match &body.choices[0].message.content {
                None => Err(none),
                Some(content) => {
                    let input_tokens = match body.usage {
                        Some(u) => Some(u.prompt_tokens),
                        None => None,
                    };
                    let output_tokens = match body.usage {
                        Some(u) => Some(u.completion_tokens),
                        None => None,
                    };
                    Ok(Reply { content: content.clone(), input_tokens, output_tokens })
                },
            }
        },
    }
}

} // verus!
