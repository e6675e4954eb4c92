//! The errors of the library.
use vstd::prelude::*;

use crate::text::{cat, debug_of, decimal_of, owned};
#[allow(unused_imports)]
use crate::text::{debug_text, decimal};

verus! {

/// Why a request could not be served.
#[derive(Debug, PartialEq, Eq)]
pub enum Error {
    Cancelled,
    UnknownProvider(String),
    MissingBaseUrl(String),
    UnsupportedModel { provider: String, model: String },
    UnsupportedCapability(String, &'static str),
    State(String),
    Event(String),
    FunctionArguments(String),
    Transport(String),
    HttpStatus { status: u16, body: String },
    Http(String),
    Io(String),
    Image(String),
    Json(String),
}

/// What an error says.
pub enum ErrorView {
    Cancelled,
    UnknownProvider(Seq<char>),
    MissingBaseUrl(Seq<char>),
    UnsupportedModel { provider: Seq<char>, model: Seq<char> },
    UnsupportedCapability(Seq<char>, Seq<char>),
    State(Seq<char>),
    Event(Seq<char>),
    FunctionArguments(Seq<char>),
    Transport(Seq<char>),
    HttpStatus { status: u16, body: Seq<char> },
    Http(Seq<char>),
    Io(Seq<char>),
    Image(Seq<char>),
    Json(Seq<char>),
}

impl DeepView for Error {
    type V = ErrorView;

    open spec fn deep_view(&self) -> ErrorView {
        match self {
            Error::Cancelled => ErrorView::Cancelled,
            Error::UnknownProvider(name) => ErrorView::UnknownProvider(name@),
            Error::MissingBaseUrl(name) => ErrorView::MissingBaseUrl(name@),
            Error::UnsupportedModel { provider, model } => ErrorView::UnsupportedModel {
                provider: provider@,
                model: model@,
            },
            Error::UnsupportedCapability(name, what) => ErrorView::UnsupportedCapability(
                name@,
                what@,
            ),
            Error::State(text) => ErrorView::State(text@),
            Error::Event(text) => ErrorView::Event(text@),
            Error::FunctionArguments(text) => ErrorView::FunctionArguments(text@),
            Error::Transport(text) => ErrorView::Transport(text@),
            Error::HttpStatus { status, body } => ErrorView::HttpStatus {
                status: *status,
                body: body@,
            },
            Error::Http(text) => ErrorView::Http(text@),
            Error::Io(text) => ErrorView::Io(text@),
            Error::Image(text) => ErrorView::Image(text@),
            Error::Json(text) => ErrorView::Json(text@),
        }
    }
}

/// What came of a request: what its value is, or what its error says.
pub open spec fn outcome<T: DeepView>(result: Result<T, Error>) -> Result<T::V, ErrorView> {
    match result {
        Ok(value) => Ok(value.deep_view()),
        Err(error) => Err(error.deep_view()),
    }
}

/// The sentence that tells an error to a reader.
pub open spec fn error_text(error: ErrorView) -> Seq<char> {
    match error {
        ErrorView::Cancelled => "response cancelled"@,
        ErrorView::UnknownProvider(name) => "unknown provider: "@ + name,
        ErrorView::MissingBaseUrl(name) => "provider "@ + name
            + " has no OpenAI-compatible base URL"@,
        ErrorView::UnsupportedModel { provider, model } => "model "@ + debug_text(model)
            + " is not available for provider "@ + debug_text(provider),
        ErrorView::UnsupportedCapability(name, what) => "provider "@ + name + " does not support "@
            + what,
        ErrorView::State(text) => "invalid response state: "@ + text,
        ErrorView::Event(text) => "invalid provider event: "@ + text,
        ErrorView::FunctionArguments(text) => "invalid function-call arguments: "@ + text,
        ErrorView::Transport(text) => "HTTP transport failed: "@ + text,
        ErrorView::HttpStatus { status, body } => "provider returned HTTP "@ + decimal(
            status as nat,
        ) + ": "@ + body,
        ErrorView::Http(text) => "HTTP request failed: "@ + text,
        ErrorView::Io(text) => "filesystem operation failed: "@ + text,
        ErrorView::Image(text) => "image error: "@ + text,
        ErrorView::Json(text) => "JSON error: "@ + text,
    }
}

impl Error {
    /// The sentence that tells the error to a reader.
    pub fn message(&self) -> (text: String)
        ensures
            text@ == error_text(self.deep_view()),
    {
        match self {
            Error::Cancelled => owned("response cancelled"),
            Error::UnknownProvider(name) => cat("unknown provider: ", name.as_str()),
            Error::MissingBaseUrl(name) => {
                let mut out = cat("provider ", name.as_str());
                out.append(" has no OpenAI-compatible base URL");
                out
            },
            Error::UnsupportedModel { provider, model } => {
                let mut out = cat("model ", debug_of(model.as_str()).as_str());
                out.append(" is not available for provider ");
                out.append(debug_of(provider.as_str()).as_str());
                out
            },
            Error::UnsupportedCapability(name, what) => {
                let mut out = cat("provider ", name.as_str());
                out.append(" does not support ");
                out.append(what);
                out
            },
            Error::State(text) => cat("invalid response state: ", text.as_str()),
            Error::Event(text) => cat("invalid provider event: ", text.as_str()),
            Error::FunctionArguments(text) => cat(
                "invalid function-call arguments: ",
                text.as_str(),
            ),
            Error::Transport(text) => cat("HTTP transport failed: ", text.as_str()),
            Error::HttpStatus { status, body } => {
                let mut out = cat(
                    "provider returned HTTP ",
                    decimal_of(*status as u64).as_str(),
                );
                out.append(": ");
                out.append(body.as_str());
                out
            },
            Error::Http(text) => cat("HTTP request failed: ", text.as_str()),
            Error::Io(text) => cat("filesystem operation failed: ", text.as_str()),
            Error::Image(text) => cat("image error: ", text.as_str()),
            Error::Json(text) => cat("JSON error: ", text.as_str()),
        }
    }
}

/// An error of the kind `State`.
pub fn state_error(text: &str) -> (error: Error)
    ensures
        error.deep_view() == ErrorView::State(text@),
{
    Error::State(owned(text))
}

/// An error of the kind `Event`.
pub fn event_error(text: &str) -> (error: Error)
    ensures
        error.deep_view() == ErrorView::Event(text@),
{
    Error::Event(owned(text))
}

} // verus!
