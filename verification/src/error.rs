//! What can go wrong between the library and the model servers.

use crate::text::{decimal, decimal_text};
use vstd::prelude::*;

verus! {

#[derive(Debug, Clone, PartialEq)]
pub enum Error {
    /// The request did not get through; a retry is safe.
    Transport(String),
    /// The server answered with a status other than success.
    HttpStatus { status: u16, body: String },
    /// The answer does not have the agreed shape.
    MalformedEnvelope(String),
    /// A layout pass needs an explicit set of pages.
    EmptyPagesForPass2,
    /// A page could not be rendered.
    Render(String),
    /// The layout that a model returned could not be read.
    LayoutParse(String),
    /// No table of contents could be built.
    TocBuild(String),
    /// The answer lacks a required field.
    WorkerResponse(String),
}

pub enum ErrorView {
    Transport(Seq<char>),
    HttpStatus { status: u16, body: Seq<char> },
    MalformedEnvelope(Seq<char>),
    EmptyPagesForPass2,
    Render(Seq<char>),
    LayoutParse(Seq<char>),
    TocBuild(Seq<char>),
    WorkerResponse(Seq<char>),
}

impl View for Error {
    type V = ErrorView;

    open spec fn view(&self) -> ErrorView {
        match self {
            Error::Transport(s) => ErrorView::Transport(s@),
            Error::HttpStatus { status, body } => ErrorView::HttpStatus {
                status: *status,
                body: body@,
            },
            Error::MalformedEnvelope(s) => ErrorView::MalformedEnvelope(s@),
            Error::EmptyPagesForPass2 => ErrorView::EmptyPagesForPass2,
            Error::Render(s) => ErrorView::Render(s@),
            Error::LayoutParse(s) => ErrorView::LayoutParse(s@),
            Error::TocBuild(s) => ErrorView::TocBuild(s@),
            Error::WorkerResponse(s) => ErrorView::WorkerResponse(s@),
        }
    }
}

/// The message for humans.
pub open spec fn error_message(e: ErrorView) -> Seq<char> {
    match e {
        ErrorView::Transport(s) => "transport: "@ + s,
        ErrorView::HttpStatus { status, body } => "worker http "@ + decimal(status as nat) + ": "@
            + body,
        ErrorView::MalformedEnvelope(s) => "malformed envelope: "@ + s,
        ErrorView::EmptyPagesForPass2 => "pass2 requires at least one page"@,
        ErrorView::Render(s) => "render: "@ + s,
        ErrorView::LayoutParse(s) => "layout parse: "@ + s,
        ErrorView::TocBuild(s) => "toc build: "@ + s,
        ErrorView::WorkerResponse(s) => "worker response: "@ + s,
    }
}

impl Error {
    /// The message for humans.
    pub fn message(&self) -> (r: String)
        ensures
            r@ == error_message(self@),
    {
        match self {
            Error::Transport(s) => String::from_str("transport: ").concat(s.as_str()),
            Error::HttpStatus { status, body } => String::from_str("worker http ").concat(
                decimal_text(*status as u64).as_str(),
            ).concat(": ").concat(body.as_str()),
            Error::MalformedEnvelope(s) => String::from_str("malformed envelope: ").concat(
                s.as_str(),
            ),
            Error::EmptyPagesForPass2 => String::from_str("pass2 requires at least one page"),
            Error::Render(s) => String::from_str("render: ").concat(s.as_str()),
            Error::LayoutParse(s) => String::from_str("layout parse: ").concat(s.as_str()),
            Error::TocBuild(s) => String::from_str("toc build: ").concat(s.as_str()),
            Error::WorkerResponse(s) => String::from_str("worker response: ").concat(s.as_str()),
        }
    }
}

} // verus!
