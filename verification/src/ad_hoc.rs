//! Ad-hoc requests: one prompt of the user, with or without an image, to one of
//! the deployed models.

use crate::error::{Error, ErrorView};
use crate::ir::opt_view;
use crate::modal::{PASS1_MODEL_ID, PASS1_URL, PASS2_MODEL_ID, PASS2_URL};
use crate::number::Real;
use crate::openai::{
    ChatRequest, ChatRequestView, HttpOutcome, Usage, base64_text, completions_url, encode_base64,
    fits_base64, no_thinking, page_request, text_request,
};
use crate::openai::{completions_endpoint, first_content};
use crate::toc::{QWEN_35B_MODEL, QWEN_35B_URL};
use vstd::prelude::*;

verus! {

/// The deployed models.
#[derive(Debug, Clone, Copy, PartialEq, Eq, Structural)]
pub enum AdHocModel {
    GlmOcr,
    InfinityParser2Flash,
    Qwen36MoE,
}

impl AdHocModel {
    /// All models, in the order in which pickers show them.
    pub fn all() -> (r: Vec<AdHocModel>)
        ensures
            r@ == seq![
                AdHocModel::GlmOcr,
                AdHocModel::InfinityParser2Flash,
                AdHocModel::Qwen36MoE,
            ],
    {
        vec![AdHocModel::GlmOcr, AdHocModel::InfinityParser2Flash, AdHocModel::Qwen36MoE]
    }

    /// The name that pickers show.
    pub open spec fn label_text(self) -> Seq<char> {
        match self {
            AdHocModel::GlmOcr => "GLM-OCR"@,
            AdHocModel::InfinityParser2Flash => "Infinity-Parser2-Flash"@,
            AdHocModel::Qwen36MoE => "Qwen3.6 35B-A3B"@,
        }
    }

    pub fn label(self) -> (r: &'static str)
        ensures
            r@ == self.label_text(),
    {
        match self {
            AdHocModel::GlmOcr => "GLM-OCR",
            AdHocModel::InfinityParser2Flash => "Infinity-Parser2-Flash",
            AdHocModel::Qwen36MoE => "Qwen3.6 35B-A3B",
        }
    }

    /// The address of the model's server.
    pub open spec fn url_text(self) -> Seq<char> {
        match self {
            AdHocModel::GlmOcr => PASS1_URL@,
            AdHocModel::InfinityParser2Flash => PASS2_URL@,
            AdHocModel::Qwen36MoE => QWEN_35B_URL@,
        }
    }

    pub fn url(self) -> (r: &'static str)
        ensures
            r@ == self.url_text(),
    {
        match self {
            AdHocModel::GlmOcr => PASS1_URL,
            AdHocModel::InfinityParser2Flash => PASS2_URL,
            AdHocModel::Qwen36MoE => QWEN_35B_URL,
        }
    }

    /// The deployed app that hosts the model.
    pub open spec fn app_name(self) -> Seq<char> {
        match self {
            AdHocModel::GlmOcr => "parselab-glm-ocr"@,
            AdHocModel::InfinityParser2Flash => "parselab-inf2-flash"@,
            AdHocModel::Qwen36MoE => "parselab-qwen36-35b-a3b"@,
        }
    }

    pub fn modal_app_name(self) -> (r: &'static str)
        ensures
            r@ == self.app_name(),
    {
        match self {
            AdHocModel::GlmOcr => "parselab-glm-ocr",
            AdHocModel::InfinityParser2Flash => "parselab-inf2-flash",
            AdHocModel::Qwen36MoE => "parselab-qwen36-35b-a3b",
        }
    }

    /// The identifier that requests name the model by.
    pub open spec fn id(self) -> Seq<char> {
        match self {
            AdHocModel::GlmOcr => PASS1_MODEL_ID@,
            AdHocModel::InfinityParser2Flash => PASS2_MODEL_ID@,
            AdHocModel::Qwen36MoE => QWEN_35B_MODEL@,
        }
    }

    pub fn model_id(self) -> (r: &'static str)
        ensures
            r@ == self.id(),
    {
        match self {
            AdHocModel::GlmOcr => PASS1_MODEL_ID,
            AdHocModel::InfinityParser2Flash => PASS2_MODEL_ID,
            AdHocModel::Qwen36MoE => QWEN_35B_MODEL,
        }
    }

    /// Only Qwen reasons aloud unless told otherwise.
    pub fn disable_thinking(self) -> (r: bool)
        ensures
            r == (self is Qwen36MoE),
    {
        match self {
            AdHocModel::Qwen36MoE => true,
            _ => false,
        }
    }
}

/// The models are the ones of the two passes and of the tables of contents, under
/// the same names and on the same servers.
pub proof fn models_are_those_of_the_passes()
    ensures
        AdHocModel::GlmOcr.id() == PASS1_MODEL_ID@,
        AdHocModel::GlmOcr.url_text() == PASS1_URL@,
        AdHocModel::InfinityParser2Flash.id() == PASS2_MODEL_ID@,
        AdHocModel::InfinityParser2Flash.url_text() == PASS2_URL@,
        AdHocModel::Qwen36MoE.id() == QWEN_35B_MODEL@,
        AdHocModel::Qwen36MoE.url_text() == QWEN_35B_URL@,
{
}

/// Output budget for a prompt about an image.
pub const MAX_TOKENS: u32 = 4096;

/// Output budget for a prompt about text.
pub const TEXT_MAX_TOKENS: u32 = 8192;

#[derive(Debug, Clone)]
pub struct AdHocResponse {
    pub model: AdHocModel,
    pub content: String,
    pub elapsed_secs: Real,
    pub usage: Option<AdHocUsage>,
    /// `"stop"`, `"length"`, `"content_filter"` or nothing.
    pub finish_reason: Option<String>,
}

#[derive(Debug, Clone, Copy, PartialEq, Eq, Structural)]
pub struct AdHocUsage {
    pub prompt_tokens: u32,
    pub completion_tokens: u32,
}

pub struct AdHocResponseView {
    pub model: AdHocModel,
    pub content: Seq<char>,
    pub elapsed_secs: Seq<char>,
    pub usage: Option<AdHocUsage>,
    pub finish_reason: Option<Seq<char>>,
}

impl View for AdHocResponse {
    type V = AdHocResponseView;

    open spec fn view(&self) -> AdHocResponseView {
        AdHocResponseView {
            model: self.model,
            content: self.content@,
            elapsed_secs: self.elapsed_secs@,
            usage: self.usage,
            finish_reason: opt_view(self.finish_reason),
        }
    }
}

/// The request, with reasoning switched off where the model would reason aloud.
pub open spec fn quiet(model: AdHocModel, r: ChatRequestView) -> ChatRequestView {
    if model is Qwen36MoE {
        ChatRequestView { chat_template_kwargs: Some(no_thinking()), ..r }
    } else {
        r
    }
}

fn quieted(model: AdHocModel, request: ChatRequest) -> (r: ChatRequest)
    ensures
        r@ == quiet(model, request@),
{
    if model.disable_thinking() {
        request.without_thinking()
    } else {
        request
    }
}

/// The request for a prompt about an image, given by its PNG bytes.
pub fn image_prompt(model: AdHocModel, png_bytes: &[u8], prompt: &str, temperature: Real) -> (r:
    ChatRequest)
    requires
        fits_base64(png_bytes@.len()),
    ensures
        r@ == quiet(
            model,
            page_request(
                model.id(),
                prompt@,
                base64_text(png_bytes@),
                MAX_TOKENS,
                temperature@,
            ),
        ),
{
    let png = encode_base64(png_bytes);
    let request = ChatRequest::single_page(
        model.model_id(),
        prompt,
        png.as_str(),
        MAX_TOKENS,
        temperature,
    );
    quieted(model, request)
}

/// The request for a prompt about text.
pub fn text_prompt(model: AdHocModel, prompt: &str, temperature: Real) -> (r: ChatRequest)
    ensures
        r@ == quiet(model, text_request(model.id(), prompt@, TEXT_MAX_TOKENS, temperature@)),
{
    quieted(model, ChatRequest::text_only(model.model_id(), prompt, TEXT_MAX_TOKENS, temperature))
}

/// The endpoint that requests to the model go to.
pub fn endpoint(model: AdHocModel) -> (r: String)
    ensures
        r@ == completions_url(model.url_text()),
{
    completions_endpoint(model.url())
}

pub open spec fn usage_of(u: Option<Usage>) -> Option<AdHocUsage> {
    match u {
        Some(u) => Some(
            AdHocUsage {
                prompt_tokens: u.prompt_tokens,
                completion_tokens: u.completion_tokens,
            },
        ),
        None => None,
    }
}

/// The response in an outcome, or the error.
pub open spec fn response_in(
    model: AdHocModel,
    o: HttpOutcome,
    elapsed_secs: Seq<char>,
) -> Result<AdHocResponseView, ErrorView> {
    match o {
        HttpOutcome::Transport(e) => Err(ErrorView::Transport(e@)),
        HttpOutcome::Status { status, body } => Err(ErrorView::HttpStatus { status, body: body@ }),
        HttpOutcome::Undecodable(e) => Err(ErrorView::Transport(e@)),
        HttpOutcome::Decoded(r) => if r.choices@.len() == 0 {
            Err(ErrorView::WorkerResponse("response had no choices"@))
        } else {
            match first_content(r) {
                None => Err(ErrorView::WorkerResponse("response had no message content"@)),
                Some(content) => Ok(
                    AdHocResponseView {
                        model,
                        content,
                        elapsed_secs,
                        usage: usage_of(r.usage),
                        finish_reason: opt_view(r.choices@[0].finish_reason),
                    },
                ),
            }
        },
    }
}

/// The response in the outcome of a request to `model`, or the error.
pub fn read_response(model: AdHocModel, o: HttpOutcome, elapsed_secs: Real) -> (r: Result<
    AdHocResponse,
    Error,
>)
    ensures
        match r {
            Ok(v) => response_in(model, o, elapsed_secs@) == Ok::<AdHocResponseView, ErrorView>(v@),
            Err(e) => response_in(model, o, elapsed_secs@) == Err::<AdHocResponseView, ErrorView>(
                e@,
            ),
        },
{
    match o {
        HttpOutcome::Transport(e) => Err(Error::Transport(e)),
        HttpOutcome::Status { status, body } => Err(Error::HttpStatus { status, body }),
        HttpOutcome::Undecodable(e) => Err(Error::Transport(e)),
        HttpOutcome::Decoded(body) => {
            if body.choices.len() == 0 {
                return Err(Error::WorkerResponse(String::from_str("response had no choices")));
            }
            let choice = &body.choices[0];
            match &choice.message.content {
                None => Err(
                    Error::WorkerResponse(String::from_str("response had no message content")),
                ),
                Some(content) => {
                    let usage = match body.usage {
                        Some(u) => Some(
                            AdHocUsage {
                                prompt_tokens: u.prompt_tokens,
                                completion_tokens: u.completion_tokens,
                            },
                        ),
                        None => None,
                    };
                    let finish_reason = match &choice.finish_reason {
                        Some(s) => Some(s.clone()),
                        None => None,
                    };
                    Ok(
                        AdHocResponse {
                            model,
                            content: content.clone(),
                            elapsed_secs,
                            usage,
                            finish_reason,
                        },
                    )
                },
            }
        },
    }
}

} // verus!
