//! A provider engine: one way to ask the providers of models for responses,
//! images, videos and speech.
//!
//! The library builds every request and takes in every answer. What goes over a
//! network, reads a file or waits is done by its caller, which hands over plain
//! values and gets plain values back.
pub mod answers;
pub mod auth;
pub mod azure;
pub mod bedrock;
pub mod calendar;
pub mod catalog;
pub mod chroma;
pub mod codec;
pub mod codex_speech;
pub mod compactions;
pub mod converse;
pub mod courses;
pub mod discovery;
pub mod endpoint;
pub mod error;
pub mod eventstream;
pub mod grounds;
pub mod images;
pub mod json;
pub mod keying;
pub mod machine;
pub mod matting;
pub mod offerings;
pub mod ordered;
pub mod passages;
pub mod pictures;
pub mod pixels;
pub mod properties;
pub mod providers;
pub mod recordings;
pub mod requests;
pub mod response;
pub mod session;
pub mod signing;
pub mod speech;
pub mod text;
pub mod tokens;
pub mod transport;
pub mod video;
pub mod wording;

use vstd::prelude::*;

pub use auth::{load_request_context, normalize_azure_endpoint};
pub use bedrock::{BedrockCredentials, BedrockRequest, CompletedToolCall};
pub use catalog::{prepare_response_request, ModelSpec};
pub use endpoint::endpoint_url;
pub use error::Error;
pub use images::{
    ImageBatchResult, ImageJob, ImageRequest, ImageResult, ImageStreamEvent, ImageStreamRequest,
};
pub use json::{Json, JsonObject};
pub use keying::{prompt_for_white_key, remove_white_key_background, WHITE_KEY_HEX};
pub use machine::ResponseMachine;
pub use ordered::StringMap;
pub use providers::{
    Environment, Provider, ProviderCapabilities, ProviderRegistry, ProviderSpec, RequestContext,
};
pub use response::{
    build_message_item, normalize_tool_output, output_text_from_items, tool_failure_output,
    CodexProtocol, ContextManagement, CoreEvent, InferenceHistoryUpdate, NextAction, ResponseFrame,
    ResponseRequest, ResponseResult, ResponseUsage, RoundResult, ToolCall, ToolOutput, WireRequest,
};
pub use speech::{SpeechFormat, SpeechRequest, SpeechResult};
pub use video::{VideoJob, VideoRequest, VideoResult};

verus! {

/// The version of the library.
pub const VERSION: &'static str = "0.4.0";

} // verus!
