//! Requests for videos and what comes of them.
use vstd::prelude::*;

use crate::codec::base64_encode;
#[allow(unused_imports)]
use crate::codec::base64_text;
use crate::endpoint::endpoint_url;
#[allow(unused_imports)]
use crate::endpoint::endpoint;
use crate::error::{event_error, state_error, Error};
#[allow(unused_imports)]
use crate::error::{outcome, ErrorView};
#[allow(unused_imports)]
use crate::images::size_text;
use crate::images::write_size;
use crate::json::{json_text_of, Json, JsonObject};
#[allow(unused_imports)]
use crate::json::{
    field, json_text, no_members, number_field, number_json, or_empty, text_field, text_json, with,
    JsonView, ObjectView,
};
#[allow(unused_imports)]
use crate::ordered::found_after_put;
use crate::providers::{Provider, RequestContext};
#[allow(unused_imports)]
use crate::providers::{provider_name, ContextView};
#[allow(unused_imports)]
use crate::response::or_null;
use crate::response::text_or_empty;
use crate::text::{
    cat, cat3, clone_option, decimal_of, is_blank, owned, parse_u32, same, split_once, starts_with,
    trim,
};
#[allow(unused_imports)]
use crate::text::{around_first, begins_with, decimal, number_u32, trimmed};

verus! {

/// A request for a video.
#[derive(Debug)]
pub struct VideoRequest {
    pub prompt: String,
    pub context: RequestContext,
    pub model: Option<String>,
    pub size: Option<String>,
    pub width: Option<u32>,
    pub height: Option<u32>,
    pub seconds: Option<u32>,
    pub duration_seconds: Option<u32>,
    pub input_reference: Option<String>,
}

/// What a request for a video is.
pub struct VideoRequestView {
    pub prompt: Seq<char>,
    pub context: ContextView,
    pub model: Option<Seq<char>>,
    pub size: Option<Seq<char>>,
    pub width: Option<u32>,
    pub height: Option<u32>,
    pub seconds: Option<u32>,
    pub duration_seconds: Option<u32>,
    pub input_reference: Option<Seq<char>>,
}

impl DeepView for VideoRequest {
    type V = VideoRequestView;

    open spec fn deep_view(&self) -> VideoRequestView {
        VideoRequestView {
            prompt: self.prompt@,
            context: self.context.deep_view(),
            model: self.model.deep_view(),
            size: self.size.deep_view(),
            width: self.width,
            height: self.height,
            seconds: self.seconds,
            duration_seconds: self.duration_seconds,
            input_reference: self.input_reference.deep_view(),
        }
    }
}

/// What a video was made from.
#[derive(Debug)]
pub struct VideoJob {
    pub job_id: String,
    pub provider: String,
    pub model: String,
    pub prompt: String,
    pub size: String,
    pub width: u32,
    pub height: u32,
    pub duration_seconds: u32,
    pub input_reference: Option<String>,
    pub status: Option<String>,
    pub progress: Option<u32>,
}

/// What a video was made from.
pub struct VideoJobView {
    pub job_id: Seq<char>,
    pub provider: Seq<char>,
    pub model: Seq<char>,
    pub prompt: Seq<char>,
    pub size: Seq<char>,
    pub width: u32,
    pub height: u32,
    pub duration_seconds: u32,
    pub input_reference: Option<Seq<char>>,
    pub status: Option<Seq<char>>,
    pub progress: Option<u32>,
}

impl DeepView for VideoJob {
    type V = VideoJobView;

    open spec fn deep_view(&self) -> VideoJobView {
        VideoJobView {
            job_id: self.job_id@,
            provider: self.provider@,
            model: self.model@,
            prompt: self.prompt@,
            size: self.size@,
            width: self.width,
            height: self.height,
            duration_seconds: self.duration_seconds,
            input_reference: self.input_reference.deep_view(),
            status: self.status.deep_view(),
            progress: self.progress,
        }
    }
}

/// A video.
#[derive(Debug)]
pub struct VideoResult {
    pub job: VideoJob,
    pub content_base64: String,
    pub content_type: String,
}

/// What a video is.
pub struct VideoResultView {
    pub job: VideoJobView,
    pub content_base64: Seq<char>,
    pub content_type: Seq<char>,
}

impl DeepView for VideoResult {
    type V = VideoResultView;

    open spec fn deep_view(&self) -> VideoResultView {
        VideoResultView {
            job: self.job.deep_view(),
            content_base64: self.content_base64@,
            content_type: self.content_type@,
        }
    }
}

/// Whether videos are made of that size.
pub open spec fn is_video_size(size: Seq<char>) -> bool {
    size == "720x1280"@ || size == "1280x720"@ || size == "1024x1792"@ || size == "1792x1024"@
}

/// The size that a request asks for: its size, else its width and height, else
/// the upright one.
pub open spec fn requested_video_size(request: VideoRequestView) -> Seq<char> {
    match (request.size, request.width, request.height) {
        (Some(size), _, _) => size,
        (None, Some(width), Some(height)) => size_text(width, height),
        _ => "720x1280"@,
    }
}

/// The size of the video of a request, with its width and height.
pub open spec fn video_size(request: VideoRequestView) -> Result<
    (Seq<char>, u32, u32),
    ErrorView,
> {
    let size = requested_video_size(request);
    if !is_video_size(size) {
        Err(
            ErrorView::State(
                "unsupported video size "@ + size
                    + "; supported: 720x1280, 1280x720, 1024x1792, 1792x1024"@,
            ),
        )
    } else {
        match around_first(size, 'x') {
            None => Err(ErrorView::State("video size must use WIDTHxHEIGHT format"@)),
            Some((width, height)) => match (number_u32(width), number_u32(height)) {
                (None, _) => Err(ErrorView::State("video width must be an integer"@)),
                (_, None) => Err(ErrorView::State("video height must be an integer"@)),
                (Some(width), Some(height)) => Ok((size, width, height)),
            },
        }
    }
}

/// The size of the video of a request.
pub fn size(request: &VideoRequest) -> (size: Result<(String, u32, u32), Error>)
    ensures
        outcome(size) == video_size(request.deep_view()),
{
    let size = match (&request.size, request.width, request.height) {
        (Some(size), _, _) => size.clone(),
        (None, Some(width), Some(height)) => write_size(width, height),
        _ => owned("720x1280"),
    };
    let text = size.as_str();
    if !(same(text, "720x1280") || same(text, "1280x720") || same(text, "1024x1792") || same(
        text,
        "1792x1024",
    )) {
        return Err(
            Error::State(
                cat3(
                    "unsupported video size ",
                    text,
                    "; supported: 720x1280, 1280x720, 1024x1792, 1792x1024",
                ),
            ),
        );
    }
    let (width, height) = match split_once(text, 'x') {
        Some(parts) => parts,
        None => return Err(state_error("video size must use WIDTHxHEIGHT format")),
    };
    let width: u32 = match parse_u32(width.as_str()) {
        Some(width) => width,
        None => return Err(state_error("video width must be an integer")),
    };
    let height: u32 = match parse_u32(height.as_str()) {
        Some(height) => height,
        None => return Err(state_error("video height must be an integer")),
    };
    Ok((size, width, height))
}

/// Where a request for a video goes.
pub open spec fn video_address(context: ContextView, path: Seq<char>) -> Result<
    Seq<char>,
    ErrorView,
> {
    match context.base_url {
        None => Err(ErrorView::MissingBaseUrl(provider_name(context.provider))),
        Some(url) => endpoint(url, path, context.query),
    }
}

fn video_endpoint(context: &RequestContext, path: &str) -> (url: Result<String, Error>)
    ensures
        outcome(url) == video_address(context.deep_view(), path@),
{
    match &context.base_url {
        None => Err(Error::MissingBaseUrl(owned(context.provider.as_str()))),
        Some(url) => endpoint_url(url.as_str(), path, &context.query),
    }
}

/// The length of a request's video, in seconds.
pub open spec fn video_seconds(request: VideoRequestView) -> u32 {
    match (request.seconds, request.duration_seconds) {
        (Some(seconds), _) => seconds,
        (None, Some(seconds)) => seconds,
        (None, None) => 4,
    }
}

/// A request for a video that was looked over.
#[derive(Debug)]
pub struct VideoPlan {
    pub url: String,
    pub body: Json,
    pub model: String,
    pub prompt: String,
    pub size: String,
    pub width: u32,
    pub height: u32,
    pub seconds: u32,
}

/// A request for a video that was looked over.
pub struct VideoPlanView {
    pub url: Seq<char>,
    pub body: JsonView,
    pub model: Seq<char>,
    pub prompt: Seq<char>,
    pub size: Seq<char>,
    pub width: u32,
    pub height: u32,
    pub seconds: u32,
}

impl DeepView for VideoPlan {
    type V = VideoPlanView;

    open spec fn deep_view(&self) -> VideoPlanView {
        VideoPlanView {
            url: self.url@,
            body: self.body@,
            model: self.model@,
            prompt: self.prompt@,
            size: self.size@,
            width: self.width,
            height: self.height,
            seconds: self.seconds,
        }
    }
}

/// The image that a video goes by: an address, or a file that the provider has.
pub open spec fn reference_json(reference: Seq<char>) -> JsonView {
    let key = if begins_with(reference, "http://"@) || begins_with(reference, "https://"@)
        || begins_with(reference, "data:"@) {
        "image_url"@
    } else {
        "file_id"@
    };
    JsonView::Object(with(no_members(), key, text_json(reference)))
}

/// The body of a request for a video.
pub open spec fn video_body(
    model: Seq<char>,
    prompt: Seq<char>,
    size: Seq<char>,
    seconds: u32,
    reference: Option<Seq<char>>,
) -> ObjectView {
    let body = with(no_members(), "model"@, text_json(model));
    let body = with(body, "prompt"@, text_json(prompt));
    let body = with(body, "size"@, text_json(size));
    let body = with(body, "seconds"@, number_json(seconds as u64));
    match reference {
        Some(reference) => with(body, "input_reference"@, reference_json(reference)),
        None => body,
    }
}

/// The model of a request.
pub open spec fn video_model(request: VideoRequestView) -> Seq<char> {
    match request.model {
        Some(model) => model,
        None => "sora-2"@,
    }
}

/// The plan of a request for a video.
pub open spec fn video_plan(request: VideoRequestView) -> Result<VideoPlanView, ErrorView> {
    let prompt = trimmed(request.prompt);
    let provider = request.context.provider;
    let seconds = video_seconds(request);
    if prompt.len() == 0 {
        Err(ErrorView::State("prompt must not be empty"@))
    } else if provider == Provider::Bedrock {
        Err(
            ErrorView::UnsupportedCapability(
                "bedrock"@,
                "video generation without the optional aws backend"@,
            ),
        )
    } else if provider != Provider::Openai && provider != Provider::Azure {
        Err(ErrorView::UnknownProvider(provider_name(provider)))
    } else {
        match video_size(request) {
            Err(error) => Err(error),
            Ok((size, width, height)) => if seconds != 4 && seconds != 8 && seconds != 12 {
                Err(
                    ErrorView::State(
                        "unsupported seconds "@ + decimal(seconds as nat)
                            + "; supported: 4, 8, 12"@,
                    ),
                )
            } else if request.input_reference matches Some(reference) && trimmed(reference).len()
                == 0 {
                Err(ErrorView::State("input_reference must not be empty"@))
            } else {
                match video_address(request.context, "videos"@) {
                    Err(error) => Err(error),
                    Ok(url) => Ok(
                        VideoPlanView {
                            url,
                            body: JsonView::Object(
                                video_body(
                                    video_model(request),
                                    prompt,
                                    size,
                                    seconds,
                                    request.input_reference,
                                ),
                            ),
                            model: video_model(request),
                            prompt,
                            size,
                            width,
                            height,
                            seconds,
                        },
                    ),
                }
            },
        }
    }
}

fn reference_object(reference: &str) -> (json: Json)
    ensures
        json@ == reference_json(reference@),
{
    let key = if starts_with(reference, "http://") || starts_with(reference, "https://")
        || starts_with(reference, "data:") {
        "image_url"
    } else {
        "file_id"
    };
    Json::object(JsonObject::new().with_text(key, reference))
}

/// Looks over a request for a video.
pub fn plan_video(request: &VideoRequest) -> (plan: Result<VideoPlan, Error>)
    ensures
        outcome(plan) == video_plan(request.deep_view()),
{
    let prompt = trim(request.prompt.as_str());
    if prompt.as_str().is_empty() {
        return Err(state_error("prompt must not be empty"));
    }
    let provider = request.context.provider;
    if provider == Provider::Bedrock {
        return Err(
            Error::UnsupportedCapability(
                owned("bedrock"),
                "video generation without the optional aws backend",
            ),
        );
    }
    if provider != Provider::Openai && provider != Provider::Azure {
        return Err(Error::UnknownProvider(owned(provider.as_str())));
    }
    let model = match &request.model {
        Some(model) => model.clone(),
        None => owned("sora-2"),
    };
    let (size, width, height) = match size(request) {
        Ok(size) => size,
        Err(error) => return Err(error),
    };
    let seconds: u32 = match (request.seconds, request.duration_seconds) {
        (Some(seconds), _) => seconds,
        (None, Some(seconds)) => seconds,
        (None, None) => 4,
    };
    if seconds != 4 && seconds != 8 && seconds != 12 {
        let count = decimal_of(seconds as u64);
        return Err(
            Error::State(
                cat3("unsupported seconds ", count.as_str(), "; supported: 4, 8, 12"),
            ),
        );
    }
    let mut body = JsonObject::new().with_text("model", model.as_str()).with_text(
        "prompt",
        prompt.as_str(),
    ).with_text("size", size.as_str()).with("seconds", Json::number(seconds as u64));
    match &request.input_reference {
        Some(reference) => {
            if is_blank(reference.as_str()) {
                return Err(state_error("input_reference must not be empty"));
            }
            body.insert("input_reference", reference_object(reference.as_str()));
        },
        None => {},
    }
    let url = match video_endpoint(&request.context, "videos") {
        Ok(url) => url,
        Err(error) => return Err(error),
    };
    Ok(VideoPlan { url, body: Json::object(body), model, prompt, size, width, height, seconds })
}

/// What is done next for a video: it is asked after again, or fetched.
#[derive(Debug)]
pub enum VideoStep {
    Poll(String),
    Download(String),
}

/// What is done next for a video.
pub enum VideoStepView {
    Poll(Seq<char>),
    Download(Seq<char>),
}

impl DeepView for VideoStep {
    type V = VideoStepView;

    open spec fn deep_view(&self) -> VideoStepView {
        match self {
            VideoStep::Poll(url) => VideoStepView::Poll(url@),
            VideoStep::Download(url) => VideoStepView::Download(url@),
        }
    }
}

/// The name of a video.
pub open spec fn video_id(video: JsonView) -> Result<Seq<char>, ErrorView> {
    match text_field(video, "id"@) {
        Some(id) => Ok(id),
        None => Err(ErrorView::Event("video response did not include an id"@)),
    }
}

/// What is done next for a video: a complete one is fetched, one that failed is
/// given up, and any other is asked after again.
pub open spec fn video_step(context: ContextView, video: JsonView) -> Result<
    VideoStepView,
    ErrorView,
> {
    let status = or_empty(text_field(video, "status"@));
    if status == "completed"@ {
        match video_id(video) {
            Err(error) => Err(error),
            Ok(id) => match video_address(context, "videos/"@ + id + "/content?variant=video"@) {
                Err(error) => Err(error),
                Ok(url) => Ok(VideoStepView::Download(url)),
            },
        }
    } else if status == "failed"@ || status == "cancelled"@ || status == "expired"@ {
        Err(
            ErrorView::State(
                "video generation ended with status "@ + status + ": "@ + json_text(
                    or_null(field(video, "error"@)),
                ),
            ),
        )
    } else {
        match video_id(video) {
            Err(error) => Err(error),
            Ok(id) => match video_address(context, "videos/"@ + id) {
                Err(error) => Err(error),
                Ok(url) => Ok(VideoStepView::Poll(url)),
            },
        }
    }
}

/// A video is fetched only once it is complete, and one that failed is never
/// asked after again.
pub proof fn only_a_complete_video_is_fetched(context: ContextView, video: JsonView)
    ensures
        video_step(context, video) matches Ok(VideoStepView::Download(_)) ==> text_field(
            video,
            "status"@,
        ) == Some("completed"@),
        text_field(video, "status"@) == Some("failed"@) ==> video_step(context, video) is Err,
{
    reveal_strlit("completed");
    reveal_strlit("failed");
    assert("completed"@.len() != "failed"@.len());
    assert("completed"@.len() > 0);
}

/// A video is asked for as the request wants it: the prompt without blanks at its
/// ends, the model, the size, the length, and the image that it goes by.
pub proof fn a_video_is_asked_for_as_it_was_wanted(request: VideoRequestView)
    ensures
        video_plan(request) matches Ok(plan) ==> {
            &&& request.context.provider == Provider::Openai || request.context.provider
                == Provider::Azure
            &&& trimmed(request.prompt).len() > 0
            &&& text_field(plan.body, "prompt"@) == Some(trimmed(request.prompt))
            &&& plan.prompt == trimmed(request.prompt)
            &&& text_field(plan.body, "model"@) == Some(
                match request.model {
                    Some(model) => model,
                    None => "sora-2"@,
                },
            )
            &&& text_field(plan.body, "model"@) == Some(plan.model)
            &&& text_field(plan.body, "size"@) == Some(plan.size)
            &&& request.size matches Some(size) ==> plan.size == size
            &&& plan.size == "720x1280"@ || plan.size == "1280x720"@ || plan.size == "1024x1792"@
                || plan.size == "1792x1024"@
            &&& number_field(plan.body, "seconds"@) == Some(plan.seconds as u64)
            &&& plan.seconds == 4 || plan.seconds == 8 || plan.seconds == 12
            &&& request.seconds matches Some(seconds) ==> plan.seconds == seconds
            &&& request.seconds is None ==> (request.duration_seconds matches Some(seconds)
                ==> plan.seconds == seconds)
            &&& request.seconds is None && request.duration_seconds is None ==> plan.seconds == 4
            &&& match request.input_reference {
                Some(reference) => field(plan.body, "input_reference"@) matches Some(image)
                    && if begins_with(reference, "http://"@) || begins_with(reference, "https://"@)
                    || begins_with(reference, "data:"@) {
                    text_field(image, "image_url"@) == Some(reference) && field(
                        image,
                        "file_id"@,
                    ) is None
                } else {
                    text_field(image, "file_id"@) == Some(reference) && field(
                        image,
                        "image_url"@,
                    ) is None
                },
                None => field(plan.body, "input_reference"@) is None,
            }
            &&& video_address(request.context, "videos"@) == Ok::<Seq<char>, ErrorView>(plan.url)
        },
{
    broadcast use found_after_put;

    reveal_strlit("model");
    reveal_strlit("prompt");
    reveal_strlit("size");
    reveal_strlit("seconds");
    reveal_strlit("input_reference");
    reveal_strlit("image_url");
    reveal_strlit("file_id");
    assert("model"@.len() == 5);
    assert("prompt"@.len() == 6);
    assert("size"@.len() == 4);
    assert("seconds"@.len() == 7 && "seconds"@[0] == 's');
    assert("input_reference"@.len() == 15);
    assert("image_url"@.len() == 9);
    assert("file_id"@.len() == 7 && "file_id"@[0] == 'f');
}

/// A video that is complete is fetched from its own content, one that has ended
/// otherwise is given up, and any other is asked after under its name.
pub proof fn a_video_is_followed_by_its_name(context: ContextView, video: JsonView, id: Seq<char>)
    requires
        field(video, "id"@) == Some(JsonView::Text(id)),
    ensures
        match text_field(video, "status"@) {
            Some(status) => if status == "completed"@ {
                match video_address(context, "videos/"@ + id + "/content?variant=video"@) {
                    Ok(url) => video_step(context, video) == Ok::<VideoStepView, ErrorView>(
                        VideoStepView::Download(url),
                    ),
                    Err(_) => video_step(context, video) is Err,
                }
            } else if status == "failed"@ || status == "cancelled"@ || status == "expired"@ {
                video_step(context, video) is Err
            } else {
                match video_address(context, "videos/"@ + id) {
                    Ok(url) => video_step(context, video) == Ok::<VideoStepView, ErrorView>(
                        VideoStepView::Poll(url),
                    ),
                    Err(_) => video_step(context, video) is Err,
                }
            },
            None => match video_address(context, "videos/"@ + id) {
                Ok(url) => video_step(context, video) == Ok::<VideoStepView, ErrorView>(
                    VideoStepView::Poll(url),
                ),
                Err(_) => video_step(context, video) is Err,
            },
        },
{
    reveal_strlit("completed");
    reveal_strlit("failed");
    reveal_strlit("cancelled");
    reveal_strlit("expired");
    assert("completed"@.len() == 9 && "completed"@[1] == 'o');
    assert("failed"@.len() == 6);
    assert("cancelled"@.len() == 9 && "cancelled"@[1] == 'a');
    assert("expired"@.len() == 7);
}

/// A request for a video goes where its context says.
pub proof fn a_video_is_asked_for_at_its_base(context: ContextView, path: Seq<char>)
    ensures
        match context.base_url {
            Some(base) => video_address(context, path) == endpoint(base, path, context.query),
            None => video_address(context, path) is Err,
        },
{
}

/// The video that was fetched is the one that was asked for, with the bytes and
/// the type that it came with.
pub proof fn a_video_says_what_it_was_made_from(
    request: VideoRequestView,
    plan: VideoPlanView,
    video: JsonView,
    content: Seq<u8>,
    content_type: Seq<char>,
    id: Seq<char>,
)
    requires
        field(video, "id"@) == Some(JsonView::Text(id)),
    ensures
        video_of(request, plan, video, content, content_type) matches Ok(result) && {
            &&& result.content_base64 == base64_text(content)
            &&& result.content_type == content_type
            &&& result.job.job_id == id
            &&& result.job.provider == provider_name(request.context.provider)
            &&& result.job.model == plan.model
            &&& result.job.prompt == plan.prompt
            &&& result.job.size == plan.size
            &&& result.job.width == plan.width
            &&& result.job.height == plan.height
            &&& result.job.duration_seconds == plan.seconds
            &&& result.job.input_reference == request.input_reference
            &&& result.job.status == text_field(video, "status"@)
            &&& field(video, "progress"@) is None ==> result.job.progress is None
            &&& number_field(video, "progress"@) matches Some(progress) ==> progress <= u32::MAX
                ==> result.job.progress == Some(progress as u32)
        },
{
}

/// A video has one of four sizes, with its width and its height; the upright one where
/// none was asked for.
pub proof fn a_video_has_one_of_four_sizes(request: VideoRequestView)
    ensures
        match video_size(request) {
            Ok((size, width, height)) => {
                &&& (size, width, height) == ("720x1280"@, 720u32, 1280u32) || (size, width, height)
                    == ("1280x720"@, 1280u32, 720u32) || (size, width, height) == (
                    "1024x1792"@,
                    1024u32,
                    1792u32,
                ) || (size, width, height) == ("1792x1024"@, 1792u32, 1024u32)
                &&& request.size matches Some(asked) ==> size == asked
                &&& request.size is None && request.width is Some && request.height is Some
                    ==> width == request.width->0 && height == request.height->0
                &&& request.size is None && (request.width is None || request.height is None)
                    ==> size == "720x1280"@
            },
            Err(_) => {
                let size = requested_video_size(request);
                size != "720x1280"@ && size != "1280x720"@ && size != "1024x1792"@ && size
                    != "1792x1024"@
            },
        },
{
    lemma_size("720x1280"@, 720, 1280);
    lemma_size("1280x720"@, 1280, 720);
    lemma_size("1024x1792"@, 1024, 1792);
    lemma_size("1792x1024"@, 1792, 1024);
    if request.size is None && request.width is Some && request.height is Some {
        crate::pictures::a_written_size_is_read_back(request.width->0, request.height->0);
    }
}

proof fn lemma_size(size: Seq<char>, width: u32, height: u32)
    requires
        (size == "720x1280"@ && width == 720 && height == 1280) || (size == "1280x720"@ && width
            == 1280 && height == 720) || (size == "1024x1792"@ && width == 1024 && height == 1792)
            || (size == "1792x1024"@ && width == 1792 && height == 1024),
    ensures
        around_first(size, 'x') matches Some((a, b)) && number_u32(a) == Some(width) && number_u32(
            b,
        ) == Some(height),
{
    reveal_strlit("720x1280");
    reveal_strlit("1280x720");
    reveal_strlit("1024x1792");
    reveal_strlit("1792x1024");
    reveal_strlit("x");
    reveal_with_fuel(decimal, 5);
    assert(decimal(720) =~= seq!['7', '2', '0']);
    assert(decimal(1280) =~= seq!['1', '2', '8', '0']);
    assert(decimal(1024) =~= seq!['1', '0', '2', '4']);
    assert(decimal(1792) =~= seq!['1', '7', '9', '2']);
    assert(size =~= size_text(width, height));
    crate::pictures::a_written_size_is_read_back(width, height);
}

/// A video that can be made is planned: one of OpenAI or Azure with a prompt, a size and
/// a length that there are, at an address, and by an image that is named where one is
/// given.
pub proof fn a_video_that_can_be_made_is_planned(request: VideoRequestView)
    requires
        request.context.provider == Provider::Openai || request.context.provider == Provider::Azure,
        trimmed(request.prompt).len() > 0,
        video_size(request) is Ok,
        match (request.seconds, request.duration_seconds) {
            (Some(seconds), _) => seconds == 4 || seconds == 8 || seconds == 12,
            (None, Some(seconds)) => seconds == 4 || seconds == 8 || seconds == 12,
            (None, None) => true,
        },
        request.input_reference matches Some(reference) ==> trimmed(reference).len() > 0,
        video_address(request.context, "videos"@) is Ok,
    ensures
        video_plan(request) is Ok,
{
}

fn id_of(video: &Json) -> (id: Result<String, Error>)
    ensures
        outcome(id) == video_id(video@),
{
    match video.get_text("id") {
        Some(id) => Ok(owned(id)),
        None => Err(event_error("video response did not include an id")),
    }
}

/// What is done next for a video.
pub fn next_video_step(context: &RequestContext, video: &Json) -> (step: Result<VideoStep, Error>)
    ensures
        outcome(step) == video_step(context.deep_view(), video@),
{
    let status = text_or_empty(video.get_text("status"));
    let status = status.as_str();
    if same(status, "completed") {
        let id = match id_of(video) {
            Ok(id) => id,
            Err(error) => return Err(error),
        };
        let path = cat3("videos/", id.as_str(), "/content?variant=video");
        return match video_endpoint(context, path.as_str()) {
            Ok(url) => Ok(VideoStep::Download(url)),
            Err(error) => Err(error),
        };
    }
    if same(status, "failed") || same(status, "cancelled") || same(status, "expired") {
        let start = cat3("video generation ended with status ", status, ": ");
        let text = json_text_of(video.member("error"));
        return Err(Error::State(cat(start.as_str(), text.as_str())));
    }
    let id = match id_of(video) {
        Ok(id) => id,
        Err(error) => return Err(error),
    };
    let path = cat("videos/", id.as_str());
    match video_endpoint(context, path.as_str()) {
        Ok(url) => Ok(VideoStep::Poll(url)),
        Err(error) => Err(error),
    }
}

/// The video that was fetched.
pub open spec fn video_of(
    request: VideoRequestView,
    plan: VideoPlanView,
    video: JsonView,
    content: Seq<u8>,
    content_type: Seq<char>,
) -> Result<VideoResultView, ErrorView> {
    match video_id(video) {
        Err(error) => Err(error),
        Ok(job_id) => Ok(
            VideoResultView {
                job: VideoJobView {
                    job_id,
                    provider: provider_name(request.context.provider),
                    model: plan.model,
                    prompt: plan.prompt,
                    size: plan.size,
                    width: plan.width,
                    height: plan.height,
                    duration_seconds: plan.seconds,
                    input_reference: request.input_reference,
                    status: text_field(video, "status"@),
                    progress: match number_field(video, "progress"@) {
                        Some(progress) => Some((progress % 0x1_0000_0000) as u32),
                        None => None,
                    },
                },
                content_base64: base64_text(content),
                content_type,
            },
        ),
    }
}

/// The video that was fetched, with the content and the type that it came with.
pub fn video_result(
    request: &VideoRequest,
    plan: &VideoPlan,
    video: &Json,
    content: &Vec<u8>,
    content_type: &str,
) -> (result: Result<VideoResult, Error>)
    ensures
        outcome(result) == video_of(
            request.deep_view(),
            plan.deep_view(),
            video@,
            content@,
            content_type@,
        ),
{
    let job_id = match id_of(video) {
        Ok(id) => id,
        Err(error) => return Err(error),
    };
    let status: Option<String> = match video.get_text("status") {
        Some(status) => Some(owned(status)),
        None => None,
    };
    let progress: Option<u32> = match video.get_u64("progress") {
        Some(progress) => Some((progress % 0x1_0000_0000) as u32),
        None => None,
    };
    Ok(
        VideoResult {
            job: VideoJob {
                job_id,
                provider: owned(request.context.provider.as_str()),
                model: plan.model.clone(),
                prompt: plan.prompt.clone(),
                size: plan.size.clone(),
                width: plan.width,
                height: plan.height,
                duration_seconds: plan.seconds,
                input_reference: clone_option(&request.input_reference),
                status,
                progress,
            },
            content_base64: base64_encode(content.as_slice()),
            content_type: owned(content_type),
        },
    )
}

} // verus!
