//! Requests for images and what comes of them.
use vstd::prelude::*;

use crate::codec::{base64_decode, base64_encode};
#[allow(unused_imports)]
use crate::codec::{base64_bytes, base64_text};
use crate::endpoint::endpoint_url;
#[allow(unused_imports)]
use crate::endpoint::endpoint;
use crate::error::{event_error, state_error, Error};
#[allow(unused_imports)]
use crate::error::{outcome, ErrorView};
use crate::json::{parse_json, Json, JsonNumber, JsonObject};
#[allow(unused_imports)]
use crate::json::{
    field, lemma_list_view, no_members, number_field, number_json, or_empty, parsed_json,
    text_field, text_json, text_member, with, JsonView, NumberView, ObjectView,
};
use crate::keying::{prompt_for_white_key, remove_white_key_background, EdgeColors};
#[allow(unused_imports)]
use crate::keying::{has_all_colors, keyed_file, WHITE_KEY_REQUIREMENTS};
use crate::ordered::StringMap;
#[allow(unused_imports)]
use crate::ordered::{put, put_if_absent};
use crate::providers::{texts_list, Provider, RequestContext};
#[allow(unused_imports)]
use crate::providers::{provider_name, texts_json, ContextView};
use crate::response::{
    text_or_empty, CodexProtocol, CoreEvent, NextAction, ResponseItem, ResponseRequest,
};
#[allow(unused_imports)]
use crate::response::{ActionView, EventView, RequestView};
use crate::text::{
    after_last, ascii_lower_of, cat, cat3, clone_option, clone_texts, decimal_of, is_blank, owned,
    parse_u32, same, split_once, starts_with, trim,
};
#[allow(unused_imports)]
use crate::text::{
    around_first, ascii_lower_text, begins_with, decimal, joined, last_piece, number_u32, trimmed,
    trimmed_end,
};
use crate::VERSION;

verus! {

/// A request for images.
#[derive(Debug)]
pub struct ImageRequest {
    pub prompt: String,
    pub context: RequestContext,
    pub model: Option<String>,
    pub size: Option<String>,
    pub width: Option<u32>,
    pub height: Option<u32>,
    pub quality: Option<String>,
    pub background: Option<String>,
    pub input_images: Vec<String>,
    pub input_fidelity: Option<String>,
    pub count: u8,
    pub extra_body: JsonObject,
}

/// What a request for images is.
pub struct ImageRequestView {
    pub prompt: Seq<char>,
    pub context: ContextView,
    pub model: Option<Seq<char>>,
    pub size: Option<Seq<char>>,
    pub width: Option<u32>,
    pub height: Option<u32>,
    pub quality: Option<Seq<char>>,
    pub background: Option<Seq<char>>,
    pub input_images: Seq<Seq<char>>,
    pub input_fidelity: Option<Seq<char>>,
    pub count: u8,
    pub extra_body: ObjectView,
}

impl DeepView for ImageRequest {
    type V = ImageRequestView;

    open spec fn deep_view(&self) -> ImageRequestView {
        ImageRequestView {
            prompt: self.prompt@,
            context: self.context.deep_view(),
            model: self.model.deep_view(),
            size: self.size.deep_view(),
            width: self.width,
            height: self.height,
            quality: self.quality.deep_view(),
            background: self.background.deep_view(),
            input_images: self.input_images.deep_view(),
            input_fidelity: self.input_fidelity.deep_view(),
            count: self.count,
            extra_body: self.extra_body@,
        }
    }
}

impl Clone for ImageRequest {
    fn clone(&self) -> (copy: Self)
        ensures
            copy.deep_view() == self.deep_view(),
    {
        ImageRequest {
            prompt: self.prompt.clone(),
            context: self.context.clone(),
            model: clone_option(&self.model),
            size: clone_option(&self.size),
            width: self.width,
            height: self.height,
            quality: clone_option(&self.quality),
            background: clone_option(&self.background),
            input_images: clone_texts(&self.input_images),
            input_fidelity: clone_option(&self.input_fidelity),
            count: self.count,
            extra_body: self.extra_body.clone(),
        }
    }
}

/// How many images a request is for that does not say.
pub fn default_image_count() -> (count: u8)
    ensures
        count == 1,
{
    1
}

/// How many previews a request is for that does not say.
pub fn default_partial_images() -> (count: u8)
    ensures
        count == 2,
{
    2
}

/// A request for an image with previews.
#[derive(Debug)]
pub struct ImageStreamRequest {
    pub image: ImageRequest,
    pub partial_images: u8,
}

/// What an image was made from.
#[derive(Debug)]
pub struct ImageJob {
    pub provider: String,
    pub model: String,
    pub prompt: String,
    pub size: String,
    pub width: Option<u32>,
    pub height: Option<u32>,
    pub mime_type: String,
    pub background: Option<String>,
    pub background_processing: Option<String>,
}

/// What an image was made from.
pub struct ImageJobView {
    pub provider: Seq<char>,
    pub model: Seq<char>,
    pub prompt: Seq<char>,
    pub size: Seq<char>,
    pub width: Option<u32>,
    pub height: Option<u32>,
    pub mime_type: Seq<char>,
    pub background: Option<Seq<char>>,
    pub background_processing: Option<Seq<char>>,
}

impl DeepView for ImageJob {
    type V = ImageJobView;

    open spec fn deep_view(&self) -> ImageJobView {
        ImageJobView {
            provider: self.provider@,
            model: self.model@,
            prompt: self.prompt@,
            size: self.size@,
            width: self.width,
            height: self.height,
            mime_type: self.mime_type@,
            background: self.background.deep_view(),
            background_processing: self.background_processing.deep_view(),
        }
    }
}

impl Clone for ImageJob {
    fn clone(&self) -> (copy: Self)
        ensures
            copy.deep_view() == self.deep_view(),
    {
        ImageJob {
            provider: self.provider.clone(),
            model: self.model.clone(),
            prompt: self.prompt.clone(),
            size: self.size.clone(),
            width: self.width,
            height: self.height,
            mime_type: self.mime_type.clone(),
            background: clone_option(&self.background),
            background_processing: clone_option(&self.background_processing),
        }
    }
}

/// An image.
#[derive(Debug)]
pub struct ImageResult {
    pub job: ImageJob,
    pub content_base64: String,
    pub content_type: String,
}

/// What an image is.
pub struct ImageResultView {
    pub job: ImageJobView,
    pub content_base64: Seq<char>,
    pub content_type: Seq<char>,
}

impl DeepView for ImageResult {
    type V = ImageResultView;

    open spec fn deep_view(&self) -> ImageResultView {
        ImageResultView {
            job: self.job.deep_view(),
            content_base64: self.content_base64@,
            content_type: self.content_type@,
        }
    }
}

/// The images of a request.
#[derive(Debug)]
pub struct ImageBatchResult {
    pub images: Vec<ImageResult>,
    pub usage: Option<Json>,
}

/// What the images of a request are.
pub struct ImageBatchView {
    pub images: Seq<ImageResultView>,
    pub usage: Option<JsonView>,
}

impl DeepView for ImageBatchResult {
    type V = ImageBatchView;

    open spec fn deep_view(&self) -> ImageBatchView {
        ImageBatchView { images: self.images.deep_view(), usage: self.usage.deep_view() }
    }
}

/// What happens while an image is made.
#[derive(Debug)]
pub enum ImageStreamEvent {
    Partial { image_index: u8, partial_index: u8, result: ImageResult },
    Completed { image_index: u8, result: ImageResult },
    BatchCompleted { usage: Option<Json> },
}

/// What happened while an image was made.
pub enum ImageEventView {
    Partial { image_index: u8, partial_index: u8, result: ImageResultView },
    Completed { image_index: u8, result: ImageResultView },
    BatchCompleted { usage: Option<JsonView> },
}

impl DeepView for ImageStreamEvent {
    type V = ImageEventView;

    open spec fn deep_view(&self) -> ImageEventView {
        match self {
            ImageStreamEvent::Partial { image_index, partial_index, result } =>
                ImageEventView::Partial {
                image_index: *image_index,
                partial_index: *partial_index,
                result: result.deep_view(),
            },
            ImageStreamEvent::Completed { image_index, result } => ImageEventView::Completed {
                image_index: *image_index,
                result: result.deep_view(),
            },
            ImageStreamEvent::BatchCompleted { usage } => ImageEventView::BatchCompleted {
                usage: usage.deep_view(),
            },
        }
    }
}

/// What a provider of images offers.
pub struct ImageSpec {
    pub default_model: &'static str,
    pub models: Vec<&'static str>,
    pub sizes: Vec<&'static str>,
    pub base_url: &'static str,
}

/// What a provider of images offers.
pub struct ImageSpecView {
    pub default_model: Seq<char>,
    pub models: Seq<Seq<char>>,
    pub sizes: Seq<Seq<char>>,
    pub base_url: Seq<char>,
}

impl DeepView for ImageSpec {
    type V = ImageSpecView;

    open spec fn deep_view(&self) -> ImageSpecView {
        ImageSpecView {
            default_model: self.default_model@,
            models: self.models.deep_view(),
            sizes: self.sizes.deep_view(),
            base_url: self.base_url@,
        }
    }
}

/// The sizes of OpenAI's images.
pub open spec fn openai_sizes_view() -> Seq<Seq<char>> {
    seq!["1024x1024"@, "1536x1024"@, "1024x1536"@]
}

/// What a provider of images offers.
pub open spec fn image_spec_of(provider: Provider) -> Result<ImageSpecView, ErrorView> {
    match provider {
        Provider::Openai => Ok(
            ImageSpecView {
                default_model: "gpt-image-1"@,
                models: seq!["gpt-image-1"@, "gpt-image-2"@],
                sizes: openai_sizes_view(),
                base_url: "https://api.openai.com/v1"@,
            },
        ),
        Provider::Azure => Ok(
            ImageSpecView {
                default_model: "gpt-image-2"@,
                models: seq!["gpt-image-2"@, "gpt-image-1"@],
                sizes: openai_sizes_view(),
                base_url: ""@,
            },
        ),
        Provider::Nanogpt => Ok(
            ImageSpecView {
                default_model: "qwen-image"@,
                models: seq!["qwen-image"@, "z-image-turbo"@, "hidream"@, "chroma"@],
                sizes: seq!["1024x1024"@],
                base_url: "https://nano-gpt.com/v1"@,
            },
        ),
        _ => Err(ErrorView::UnknownProvider(provider_name(provider))),
    }
}

/// The sizes of OpenAI's images.
pub fn openai_sizes() -> (sizes: Vec<&'static str>)
    ensures
        sizes.deep_view() == openai_sizes_view(),
        sizes@.len() > 0,
{
    let mut sizes: Vec<&'static str> = Vec::new();
    sizes.push("1024x1024");
    sizes.push("1536x1024");
    sizes.push("1024x1536");
    assert(sizes.deep_view() =~= openai_sizes_view());
    sizes
}

fn two(a: &'static str, b: &'static str) -> (list: Vec<&'static str>)
    ensures
        list.deep_view() == seq![a@, b@],
{
    let mut list: Vec<&'static str> = Vec::new();
    list.push(a);
    list.push(b);
    assert(list.deep_view() =~= seq![a@, b@]);
    list
}

/// What a provider of images offers.
pub fn image_spec(provider: Provider) -> (spec: Result<ImageSpec, Error>)
    ensures
        outcome(spec) == image_spec_of(provider),
        spec matches Ok(spec) ==> spec.sizes@.len() > 0,
{
    match provider {
        Provider::Openai => Ok(
            ImageSpec {
                default_model: "gpt-image-1",
                models: two("gpt-image-1", "gpt-image-2"),
                sizes: openai_sizes(),
                base_url: "https://api.openai.com/v1",
            },
        ),
        Provider::Azure => Ok(
            ImageSpec {
                default_model: "gpt-image-2",
                models: two("gpt-image-2", "gpt-image-1"),
                sizes: openai_sizes(),
                base_url: "",
            },
        ),
        Provider::Nanogpt => {
            let mut models: Vec<&'static str> = Vec::new();
            models.push("qwen-image");
            models.push("z-image-turbo");
            models.push("hidream");
            models.push("chroma");
            assert(models.deep_view() =~= seq![
                "qwen-image"@,
                "z-image-turbo"@,
                "hidream"@,
                "chroma"@,
            ]);
            let mut sizes: Vec<&'static str> = Vec::new();
            sizes.push("1024x1024");
            assert(sizes.deep_view() =~= seq!["1024x1024"@]);
            Ok(
                ImageSpec {
                    default_model: "qwen-image",
                    models,
                    sizes,
                    base_url: "https://nano-gpt.com/v1",
                },
            )
        },
        _ => Err(Error::UnknownProvider(owned(provider.as_str()))),
    }
}

fn is_among(texts: &Vec<&'static str>, text: &str) -> (yes: bool)
    ensures
        yes == texts.deep_view().contains(text@),
{
    let ghost all = texts.deep_view();
    for i in 0..texts.len()
        invariant
            all == texts.deep_view(),
            forall|j: int| 0 <= j < i ==> #[trigger] all[j] != text@,
    {
        assert(all[i as int] == texts@[i as int]@);
        if same(texts[i], text) {
            return true;
        }
    }
    false
}

/// The size of an image: its text, and its width and height where it has them.
#[derive(Debug)]
pub struct ResolvedSize {
    pub value: String,
    pub width: Option<u32>,
    pub height: Option<u32>,
}

/// The size of an image.
pub struct SizeView {
    pub value: Seq<char>,
    pub width: Option<u32>,
    pub height: Option<u32>,
}

impl DeepView for ResolvedSize {
    type V = SizeView;

    open spec fn deep_view(&self) -> SizeView {
        SizeView { value: self.value@, width: self.width, height: self.height }
    }
}

/// The width and the height that a size of the form `WIDTHxHEIGHT` writes.
pub open spec fn dimensions(size: Seq<char>) -> Result<(u32, u32), ErrorView> {
    match around_first(size, 'x') {
        None => Err(ErrorView::State("image size must use WIDTHxHEIGHT format: "@ + size)),
        Some((width, height)) => match (number_u32(width), number_u32(height)) {
            (None, _) => Err(ErrorView::State("image width must be an integer"@)),
            (_, None) => Err(ErrorView::State("image height must be an integer"@)),
            (Some(width), Some(height)) => Ok((width, height)),
        },
    }
}

/// Reads the width and the height out of a size.
pub fn parse_dimensions(size: &str) -> (out: Result<(u32, u32), Error>)
    ensures
        outcome(out) == dimensions(size@),
{
    let (width, height) = match split_once(size, 'x') {
        Some(parts) => parts,
        None => return Err(
            Error::State(cat("image size must use WIDTHxHEIGHT format: ", size)),
        ),
    };
    let width: u32 = match parse_u32(width.as_str()) {
        Some(width) => width,
        None => return Err(state_error("image width must be an integer")),
    };
    let height: u32 = match parse_u32(height.as_str()) {
        Some(height) => height,
        None => return Err(state_error("image height must be an integer")),
    };
    Ok((width, height))
}

/// The larger of two numbers.
pub open spec fn larger(a: int, b: int) -> int {
    if a >= b {
        a
    } else {
        b
    }
}

/// The smaller of two numbers.
pub open spec fn smaller(a: int, b: int) -> int {
    if a <= b {
        a
    } else {
        b
    }
}

/// Whether `gpt-image-2` makes images of that size.
pub open spec fn fits_gpt_image_2(width: int, height: int) -> bool {
    &&& larger(width, height) <= 3840
    &&& width % 16 == 0
    &&& height % 16 == 0
    &&& larger(width, height) <= smaller(width, height) * 3
    &&& 655360 <= width * height <= 8294400
}

/// Two numbers as a size.
pub open spec fn size_text(width: u32, height: u32) -> Seq<char> {
    decimal(width as nat) + "x"@ + decimal(height as nat)
}

/// What is said of a size that `gpt-image-2` does not make.
pub open spec fn bad_gpt_image_2_size(width: u32, height: u32) -> ErrorView {
    ErrorView::State(
        "unsupported gpt-image-2 size "@ + size_text(width, height)
            + "; dimensions must be multiples of 16, each edge at most 3840px, aspect ratio at most 3:1, and total pixels between 655360 and 8294400"@,
    )
}

pub(crate) fn write_size(width: u32, height: u32) -> (out: String)
    ensures
        out@ == size_text(width, height),
{
    cat3(decimal_of(width as u64).as_str(), "x", decimal_of(height as u64).as_str())
}

fn validate_gpt_image_2_size(width: u32, height: u32) -> (valid: Result<(), Error>)
    ensures
        match valid {
            Ok(()) => fits_gpt_image_2(width as int, height as int),
            Err(error) => !fits_gpt_image_2(width as int, height as int) && error.deep_view()
                == bad_gpt_image_2_size(width, height),
        },
{
    let longest: u32 = if width >= height {
        width
    } else {
        height
    };
    let shortest: u32 = if width <= height {
        width
    } else {
        height
    };
    assert(width * height <= 0xffff_ffff * 0xffff_ffff) by (nonlinear_arith)
        requires
            width <= 0xffff_ffff,
            height <= 0xffff_ffff,
    ;
    let pixels: u64 = width as u64 * height as u64;
    let valid = longest <= 3840 && width % 16 == 0 && height % 16 == 0 && longest as u64
        <= shortest as u64 * 3 && 655360 <= pixels && pixels <= 8294400;
    if valid {
        return Ok(());
    }
    let size = write_size(width, height);
    Err(
        Error::State(
            cat3(
                "unsupported gpt-image-2 size ",
                size.as_str(),
                "; dimensions must be multiples of 16, each edge at most 3840px, aspect ratio at most 3:1, and total pixels between 655360 and 8294400",
            ),
        ),
    )
}

/// Whether a model is of the family `gpt-image-2`.
pub open spec fn is_image_2(model: Seq<char>) -> bool {
    model == "gpt-image-2"@ || begins_with(model, "gpt-image-2-"@)
}

fn is_gpt_image_2(model: &str) -> (yes: bool)
    ensures
        yes == is_image_2(model@),
{
    same(model, "gpt-image-2") || starts_with(model, "gpt-image-2-")
}

/// The size that a request asks for: its size, else its width and height, else
/// the first that is offered.
pub open spec fn requested_size(request: ImageRequestView, sizes: Seq<Seq<char>>) -> Seq<char> {
    match (request.size, request.width, request.height) {
        (Some(size), _, _) => size,
        (None, Some(width), Some(height)) => size_text(width, height),
        _ => sizes[0],
    }
}

/// The size of the images of a request.
pub open spec fn image_size(
    request: ImageRequestView,
    model: Seq<char>,
    sizes: Seq<Seq<char>>,
) -> Result<SizeView, ErrorView> {
    let size = requested_size(request, sizes);
    if is_image_2(model) && size == "auto"@ {
        Ok(SizeView { value: size, width: None, height: None })
    } else if !is_image_2(model) && !sizes.contains(size) {
        Err(
            ErrorView::State(
                "unsupported image size "@ + size + "; supported: "@ + joined(sizes, ", "@),
            ),
        )
    } else {
        match dimensions(size) {
            Err(error) => Err(error),
            Ok((width, height)) => if is_image_2(model) && !fits_gpt_image_2(
                width as int,
                height as int,
            ) {
                Err(bad_gpt_image_2_size(width, height))
            } else {
                Ok(SizeView { value: size, width: Some(width), height: Some(height) })
            },
        }
    }
}

/// A size that `gpt-image-2` is asked for is left to it or keeps its constraints.
pub proof fn sizes_of_gpt_image_2_keep_its_constraints(
    request: ImageRequestView,
    model: Seq<char>,
    sizes: Seq<Seq<char>>,
)
    requires
        is_image_2(model),
    ensures
        image_size(request, model, sizes) matches Ok(size) ==> match (size.width, size.height) {
            (Some(width), Some(height)) => fits_gpt_image_2(width as int, height as int)
                && dimensions(size.value) == Ok::<(u32, u32), ErrorView>((width, height)),
            _ => size.value == "auto"@,
        },
{
}

/// A size that another model is asked for is one that is offered.
pub proof fn other_models_make_offered_sizes(
    request: ImageRequestView,
    model: Seq<char>,
    sizes: Seq<Seq<char>>,
)
    requires
        !is_image_2(model),
    ensures
        image_size(request, model, sizes) matches Ok(size) ==> sizes.contains(size.value),
{
}

fn join_all(texts: &Vec<&'static str>, separator: &str) -> (out: String)
    ensures
        out@ == joined(texts.deep_view(), separator@),
{
    let mut list: Vec<String> = Vec::new();
    for i in 0..texts.len()
        invariant
            list@.len() == i,
            forall|k: int| 0 <= k < i ==> (#[trigger] list@[k])@ == texts@[k]@,
    {
        list.push(owned(texts[i]));
    }
    assert(list.deep_view() =~= texts.deep_view());
    crate::text::join(&list, separator)
}

/// The size of the images of a request.
pub fn resolve_size(request: &ImageRequest, model: &str, sizes: &Vec<&'static str>) -> (size:
    Result<ResolvedSize, Error>)
    requires
        sizes@.len() > 0,
    ensures
        outcome(size) == image_size(request.deep_view(), model@, sizes.deep_view()),
{
    assert(sizes.deep_view()[0] == sizes@[0]@);
    let size = match (&request.size, request.width, request.height) {
        (Some(size), _, _) => size.clone(),
        (None, Some(width), Some(height)) => write_size(width, height),
        _ => owned(sizes[0]),
    };
    let second = is_gpt_image_2(model);
    if second && same(size.as_str(), "auto") {
        return Ok(ResolvedSize { value: size, width: None, height: None });
    }
    if !second && !is_among(sizes, size.as_str()) {
        let start = cat3("unsupported image size ", size.as_str(), "; supported: ");
        return Err(Error::State(cat(start.as_str(), join_all(sizes, ", ").as_str())));
    }
    let (width, height) = match parse_dimensions(size.as_str()) {
        Ok(dimensions) => dimensions,
        Err(error) => return Err(error),
    };
    if second {
        match validate_gpt_image_2_size(width, height) {
            Ok(()) => {},
            Err(error) => return Err(error),
        }
    }
    Ok(ResolvedSize { value: size, width: Some(width), height: Some(height) })
}

/// Where a request for images goes.
pub open spec fn image_address(context: ContextView, fallback: Seq<char>, route: Seq<char>) ->
    Result<Seq<char>, ErrorView> {
    let base = match context.base_url {
        Some(url) if url.len() > 0 => url,
        _ => fallback,
    };
    if base.len() == 0 {
        Err(ErrorView::MissingBaseUrl(provider_name(context.provider)))
    } else {
        endpoint(base, "images/"@ + route, context.query)
    }
}

fn request_url(context: &RequestContext, fallback: &str, route: &str) -> (url: Result<
    String,
    Error,
>)
    ensures
        outcome(url) == image_address(context.deep_view(), fallback@, route@),
{
    let base = match &context.base_url {
        Some(url) => if url.as_str().is_empty() {
            fallback
        } else {
            url.as_str()
        },
        None => fallback,
    };
    if base.is_empty() {
        return Err(Error::MissingBaseUrl(owned(context.provider.as_str())));
    }
    endpoint_url(base, cat("images/", route).as_str(), &context.query)
}

/// A request for images that was looked over: what they are made from, and how
/// the provider is asked for them.
#[derive(Debug)]
pub struct ImagePlan {
    pub job: ImageJob,
    pub white_keying: bool,
    pub provider_prompt: String,
    pub provider_size: String,
    pub partial_images: Option<u8>,
}

/// A request for images that was looked over.
pub struct ImagePlanView {
    pub job: ImageJobView,
    pub white_keying: bool,
    pub provider_prompt: Seq<char>,
    pub provider_size: Seq<char>,
    pub partial_images: Option<u8>,
}

impl DeepView for ImagePlan {
    type V = ImagePlanView;

    open spec fn deep_view(&self) -> ImagePlanView {
        ImagePlanView {
            job: self.job.deep_view(),
            white_keying: self.white_keying,
            provider_prompt: self.provider_prompt@,
            provider_size: self.provider_size@,
            partial_images: self.partial_images,
        }
    }
}

/// The model of a request.
pub open spec fn image_model(request: ImageRequestView, spec: ImageSpecView) -> Seq<char> {
    match request.model {
        Some(model) => model,
        None => spec.default_model,
    }
}

/// Whether the transparency of an image is prepared by a white ground.
pub open spec fn uses_white_key(request: ImageRequestView, model: Seq<char>) -> bool {
    request.background == Some("transparent"@) && is_image_2(model)
}

/// The size as the provider's model takes it.
pub open spec fn model_size(model: Seq<char>, size: Seq<char>) -> Seq<char> {
    if model == "qwen-image"@ {
        "auto"@
    } else if model == "z-image-turbo"@ {
        "1024*1024"@
    } else {
        size
    }
}

/// The plan of a request whose model was chosen.
pub open spec fn plan_with(
    request: ImageRequestView,
    model: Seq<char>,
    size: SizeView,
    partial_images: Option<u8>,
) -> ImagePlanView {
    let prompt = trimmed(request.prompt);
    let white_keying = uses_white_key(request, model);
    ImagePlanView {
        job: ImageJobView {
            provider: provider_name(request.context.provider),
            model,
            prompt,
            size: size.value,
            width: size.width,
            height: size.height,
            mime_type: "image/png"@,
            background: request.background,
            background_processing: if white_keying {
                Some("white_keying"@)
            } else {
                None
            },
        },
        white_keying,
        provider_prompt: if white_keying {
            trimmed_end(prompt) + WHITE_KEY_REQUIREMENTS@
        } else {
            prompt
        },
        provider_size: model_size(model, size.value),
        partial_images,
    }
}

/// What is wrong with the prompt or the count of a request, where something is.
pub open spec fn batch_fault(request: ImageRequestView) -> Option<ErrorView> {
    if trimmed(request.prompt).len() == 0 {
        Some(ErrorView::State("prompt must not be empty"@))
    } else if !(1 <= request.count <= 10) {
        Some(ErrorView::State("count must be between 1 and 10"@))
    } else {
        None
    }
}

/// The plan of a request for images.
pub open spec fn image_plan(request: ImageRequestView) -> Result<ImagePlanView, ErrorView> {
    match batch_fault(request) {
        Some(error) => Err(error),
        None => match image_spec_of(request.context.provider) {
            Err(error) => Err(error),
            Ok(spec) => {
                let model = image_model(request, spec);
                let name = provider_name(request.context.provider);
                if !spec.models.contains(model) {
                    Err(ErrorView::UnsupportedModel { provider: name, model })
                } else if request.background is Some && request.context.provider
                    == Provider::Nanogpt {
                    Err(ErrorView::UnsupportedCapability(name, "image background selection"@))
                } else {
                    match image_size(request, model, spec.sizes) {
                        Err(error) => Err(error),
                        Ok(size) => Ok(plan_with(request, model, size, None)),
                    }
                }
            },
        },
    }
}

fn make_plan(
    request: &ImageRequest,
    model: String,
    size: ResolvedSize,
    partial_images: Option<u8>,
) -> (plan: ImagePlan)
    ensures
        plan.deep_view() == plan_with(
            request.deep_view(),
            model@,
            size.deep_view(),
            partial_images,
        ),
{
    let prompt = trim(request.prompt.as_str());
    let transparent = match &request.background {
        Some(background) => same(background.as_str(), "transparent"),
        None => false,
    };
    let white_keying = transparent && is_gpt_image_2(model.as_str());
    let provider_prompt = if white_keying {
        prompt_for_white_key(prompt.as_str())
    } else {
        prompt.clone()
    };
    let provider_size = if same(model.as_str(), "qwen-image") {
        owned("auto")
    } else if same(model.as_str(), "z-image-turbo") {
        owned("1024*1024")
    } else {
        size.value.clone()
    };
    ImagePlan {
        job: ImageJob {
            provider: owned(request.context.provider.as_str()),
            model,
            prompt,
            size: size.value,
            width: size.width,
            height: size.height,
            mime_type: owned("image/png"),
            background: clone_option(&request.background),
            background_processing: if white_keying {
                Some(owned("white_keying"))
            } else {
                None
            },
        },
        white_keying,
        provider_prompt,
        provider_size,
        partial_images,
    }
}

/// A transparent image of `gpt-image-2` is asked for as an opaque one on a white
/// ground, and any other as its request has it.
pub proof fn transparency_is_prepared_by_a_white_ground(request: ImageRequestView)
    ensures
        image_plan(request) matches Ok(plan) ==> {
            &&& plan.white_keying <==> request.background == Some("transparent"@) && is_image_2(
                plan.job.model,
            )
            &&& plan.white_keying ==> provider_background(request, plan) == Some("opaque"@)
                && plan.provider_prompt == trimmed_end(trimmed(request.prompt))
                + WHITE_KEY_REQUIREMENTS@
            &&& !plan.white_keying ==> provider_background(request, plan) == request.background
                && plan.provider_prompt == trimmed(request.prompt)
            &&& plan.job.background == request.background
        },
{
}

/// Looks over the prompt and the count of a request for images.
pub fn check_batch(request: &ImageRequest) -> (checked: Result<(), Error>)
    ensures
        match checked {
            Ok(()) => batch_fault(request.deep_view()) is None,
            Err(error) => batch_fault(request.deep_view()) == Some(error.deep_view()),
        },
{
    if is_blank(request.prompt.as_str()) {
        return Err(state_error("prompt must not be empty"));
    }
    if request.count < 1 || request.count > 10 {
        return Err(state_error("count must be between 1 and 10"));
    }
    Ok(())
}

fn chosen_image_model(request: &ImageRequest, spec: &ImageSpec) -> (model: String)
    ensures
        model@ == image_model(request.deep_view(), spec.deep_view()),
{
    match &request.model {
        Some(model) => model.clone(),
        None => owned(spec.default_model),
    }
}

/// Looks over a request for images that goes to an image endpoint.
pub fn plan_images(request: &ImageRequest) -> (plan: Result<ImagePlan, Error>)
    ensures
        outcome(plan) == image_plan(request.deep_view()),
{
    match check_batch(request) {
        Ok(()) => {},
        Err(error) => return Err(error),
    }
    let spec = match image_spec(request.context.provider) {
        Ok(spec) => spec,
        Err(error) => return Err(error),
    };
    let model = chosen_image_model(request, &spec);
    if !is_among(&spec.models, model.as_str()) {
        return Err(
            Error::UnsupportedModel { provider: owned(request.context.provider.as_str()), model },
        );
    }
    if request.background.is_some() && request.context.provider == Provider::Nanogpt {
        return Err(
            Error::UnsupportedCapability(
                owned(request.context.provider.as_str()),
                "image background selection",
            ),
        );
    }
    let size = match resolve_size(request, model.as_str(), &spec.sizes) {
        Ok(size) => size,
        Err(error) => return Err(error),
    };
    Ok(make_plan(request, model, size, None))
}

/// How an image with previews is made.
#[derive(Debug)]
pub enum StreamPlan {
    /// As a batch, without previews.
    Batch,
    /// By Codex.
    Codex,
    /// By an image endpoint.
    Endpoint(ImagePlan),
}

/// How an image with previews is made.
pub enum StreamPlanView {
    Batch,
    Codex,
    Endpoint(ImagePlanView),
}

impl DeepView for StreamPlan {
    type V = StreamPlanView;

    open spec fn deep_view(&self) -> StreamPlanView {
        match self {
            StreamPlan::Batch => StreamPlanView::Batch,
            StreamPlan::Codex => StreamPlanView::Codex,
            StreamPlan::Endpoint(plan) => StreamPlanView::Endpoint(plan.deep_view()),
        }
    }
}

/// The plan of a request for an image with previews.
pub open spec fn stream_plan(request: ImageRequestView, partial_images: u8) -> Result<
    StreamPlanView,
    ErrorView,
> {
    let name = provider_name(request.context.provider);
    if partial_images > 3 {
        Err(ErrorView::State("partial_images must be between 0 and 3"@))
    } else if !(1 <= request.count <= 10) {
        Err(ErrorView::State("count must be between 1 and 10"@))
    } else if request.count > 1 {
        Ok(StreamPlanView::Batch)
    } else if request.context.provider == Provider::Codex {
        Ok(StreamPlanView::Codex)
    } else if trimmed(request.prompt).len() == 0 {
        Err(ErrorView::State("prompt must not be empty"@))
    } else if request.context.provider == Provider::Nanogpt {
        Err(ErrorView::UnsupportedCapability(name, "streaming image generation"@))
    } else {
        match image_spec_of(request.context.provider) {
            Err(error) => Err(error),
            Ok(spec) => {
                let model = image_model(request, spec);
                if !spec.models.contains(model) {
                    Err(ErrorView::UnsupportedModel { provider: name, model })
                } else if !begins_with(model, "gpt-image-"@) {
                    Err(
                        ErrorView::UnsupportedCapability(
                            name,
                            "streaming image generation for this model"@,
                        ),
                    )
                } else {
                    match image_size(request, model, spec.sizes) {
                        Err(error) => Err(error),
                        Ok(size) => Ok(
                            StreamPlanView::Endpoint(
                                plan_with(request, model, size, Some(partial_images)),
                            ),
                        ),
                    }
                }
            },
        }
    }
}

/// Looks over a request for an image with previews.
pub fn plan_stream(request: &ImageRequest, partial_images: u8) -> (plan: Result<StreamPlan, Error>)
    ensures
        outcome(plan) == stream_plan(request.deep_view(), partial_images),
{
    if partial_images > 3 {
        return Err(state_error("partial_images must be between 0 and 3"));
    }
    if request.count < 1 || request.count > 10 {
        return Err(state_error("count must be between 1 and 10"));
    }
    if request.count > 1 {
        return Ok(StreamPlan::Batch);
    }
    if request.context.provider == Provider::Codex {
        return Ok(StreamPlan::Codex);
    }
    if is_blank(request.prompt.as_str()) {
        return Err(state_error("prompt must not be empty"));
    }
    let name = request.context.provider.as_str();
    if request.context.provider == Provider::Nanogpt {
        return Err(Error::UnsupportedCapability(owned(name), "streaming image generation"));
    }
    let spec = match image_spec(request.context.provider) {
        Ok(spec) => spec,
        Err(error) => return Err(error),
    };
    let model = chosen_image_model(request, &spec);
    if !is_among(&spec.models, model.as_str()) {
        return Err(Error::UnsupportedModel { provider: owned(name), model });
    }
    if !starts_with(model.as_str(), "gpt-image-") {
        return Err(
            Error::UnsupportedCapability(owned(name), "streaming image generation for this model"),
        );
    }
    let size = match resolve_size(request, model.as_str(), &spec.sizes) {
        Ok(size) => size,
        Err(error) => return Err(error),
    };
    let partial = Some(partial_images);
    Ok(StreamPlan::Endpoint(make_plan(request, model, size, partial)))
}

/// An image that is handed over, with its name.
#[derive(Debug)]
pub struct ImageFile {
    pub name: String,
    pub content: Vec<u8>,
}

/// An image that is handed over.
pub struct ImageFileView {
    pub name: Seq<char>,
    pub content: Seq<u8>,
}

impl DeepView for ImageFile {
    type V = ImageFileView;

    open spec fn deep_view(&self) -> ImageFileView {
        ImageFileView { name: self.name@, content: self.content@ }
    }
}

/// What a request to an image endpoint holds.
#[derive(Debug)]
pub enum ImagePayload {
    Body(Json),
    Form { fields: Vec<(String, String)>, files: Vec<ImageFile> },
}

/// What a request to an image endpoint holds.
pub enum ImagePayloadView {
    Body(JsonView),
    Form { fields: Seq<(Seq<char>, Seq<char>)>, files: Seq<ImageFileView> },
}

impl DeepView for ImagePayload {
    type V = ImagePayloadView;

    open spec fn deep_view(&self) -> ImagePayloadView {
        match self {
            ImagePayload::Body(body) => ImagePayloadView::Body(body@),
            ImagePayload::Form { fields, files } => ImagePayloadView::Form {
                fields: fields.deep_view(),
                files: files.deep_view(),
            },
        }
    }
}

/// A request to an image endpoint.
#[derive(Debug)]
pub struct ImageCall {
    pub url: String,
    pub headers: StringMap,
    pub payload: ImagePayload,
}

/// A request to an image endpoint.
pub struct ImageCallView {
    pub url: Seq<char>,
    pub headers: Seq<(Seq<char>, Seq<char>)>,
    pub payload: ImagePayloadView,
}

impl DeepView for ImageCall {
    type V = ImageCallView;

    open spec fn deep_view(&self) -> ImageCallView {
        ImageCallView {
            url: self.url@,
            headers: self.headers.deep_view(),
            payload: self.payload.deep_view(),
        }
    }
}

/// Whether an image of a request has to be read: one that is itself an address
/// with data goes to NanoGPT as it is.
pub open spec fn is_file(provider: Provider, image: Seq<char>) -> bool {
    !(provider == Provider::Nanogpt && begins_with(image, "data:"@))
}

/// Whether an image of a request has to be read.
pub fn needs_reading(provider: Provider, image: &str) -> (yes: bool)
    ensures
        yes == is_file(provider, image@),
{
    !(provider == Provider::Nanogpt && starts_with(image, "data:"))
}

/// What is said of an image that cannot be read.
pub fn input_not_found(path: &str) -> (error: Error)
    ensures
        error.deep_view() == ErrorView::State("input image not found: "@ + path@),
{
    Error::State(cat("input image not found: ", path))
}

/// The quality of a request, high where it does not say.
pub open spec fn quality_of(request: ImageRequestView) -> Seq<char> {
    match request.quality {
        Some(quality) => quality,
        None => "high"@,
    }
}

/// The background that the provider is asked for.
pub open spec fn provider_background(request: ImageRequestView, plan: ImagePlanView) -> Option<
    Seq<char>,
> {
    match request.background {
        Some(background) => Some(
            if plan.white_keying {
                "opaque"@
            } else {
                background
            },
        ),
        None => None,
    }
}

/// A number that is not an integer.
pub open spec fn decimal_json(text: Seq<char>) -> JsonView {
    JsonView::Number(NumberView::Decimal(text))
}

/// What NanoGPT's models are told beside the prompt.
pub open spec fn model_extras(model: Seq<char>) -> ObjectView {
    if model == "qwen-image"@ {
        with(
            with(
                with(
                    with(no_members(), "num_inference_steps"@, number_json(30)),
                    "guidance_scale"@,
                    decimal_json("2.5"@),
                ),
                "enable_safety_checker"@,
                JsonView::Bool(true),
            ),
            "negative_prompt"@,
            text_json(" "@),
        )
    } else if model == "hidream"@ {
        with(
            with(no_members(), "num_inference_steps"@, number_json(50)),
            "guidance_scale"@,
            number_json(5),
        )
    } else if model == "chroma"@ {
        with(
            with(
                with(no_members(), "negative_prompt"@, text_json(""@)),
                "guidance_scale"@,
                decimal_json("4.5"@),
            ),
            "num_inference_steps"@,
            number_json(25),
        )
    } else {
        no_members()
    }
}

/// An object with the members of another in it.
pub open spec fn merged(object: ObjectView, more: ObjectView) -> ObjectView
    decreases more.len(),
{
    if more.len() == 0 {
        object
    } else {
        with(merged(object, more.drop_last()), more.last().0, more.last().1)
    }
}

/// The images of a request as addresses that hold them.
pub open spec fn data_urls(images: Seq<Seq<char>>, contents: Seq<Seq<u8>>) -> Seq<Seq<char>> {
    Seq::new(
        images.len(),
        |i: int|
            if begins_with(images[i], "data:"@) {
                images[i]
            } else {
                "data:image/png;base64,"@ + base64_text(contents[i])
            },
    )
}

/// What NanoGPT is told beside the prompt.
pub open spec fn nanogpt_extras(
    request: ImageRequestView,
    plan: ImagePlanView,
    contents: Seq<Seq<u8>>,
) -> ObjectView {
    let extras = merged(model_extras(plan.job.model), request.extra_body);
    if request.input_images.len() == 0 {
        extras
    } else {
        with(
            extras,
            "imageDataUrls"@,
            JsonView::List(texts_json(data_urls(request.input_images, contents))),
        )
    }
}

/// The body of a request for images.
pub open spec fn image_body(
    request: ImageRequestView,
    plan: ImagePlanView,
    contents: Seq<Seq<u8>>,
) -> ObjectView {
    let body = with(no_members(), "model"@, text_json(plan.job.model));
    let body = with(body, "prompt"@, text_json(plan.provider_prompt));
    let body = with(body, "size"@, text_json(plan.provider_size));
    let body = with(body, "n"@, number_json(request.count as u64));
    if request.context.provider == Provider::Nanogpt {
        let body = with(body, "response_format"@, text_json("url"@));
        let extras = nanogpt_extras(request, plan, contents);
        if extras.len() == 0 {
            body
        } else {
            with(body, "extra_body"@, JsonView::Object(extras))
        }
    } else {
        let body = with(body, "quality"@, text_json(quality_of(request)));
        let body = match plan.partial_images {
            Some(partial) => with(
                with(body, "stream"@, JsonView::Bool(true)),
                "partial_images"@,
                number_json(partial as u64),
            ),
            None => body,
        };
        match provider_background(request, plan) {
            Some(background) => with(body, "background"@, text_json(background)),
            None => body,
        }
    }
}

/// The fields of a form that asks for changed images.
pub open spec fn image_fields(request: ImageRequestView, plan: ImagePlanView) -> Seq<
    (Seq<char>, Seq<char>),
> {
    let fields = seq![
        ("model"@, plan.job.model),
        ("prompt"@, plan.provider_prompt),
        ("size"@, plan.provider_size),
        ("n"@, decimal(request.count as nat)),
        ("quality"@, quality_of(request)),
    ];
    let fields = match plan.partial_images {
        Some(partial) => fields.push(("stream"@, "true"@)).push(
            ("partial_images"@, decimal(partial as nat)),
        ),
        None => fields,
    };
    let fields = match provider_background(request, plan) {
        Some(background) => fields.push(("background"@, background)),
        None => fields,
    };
    match request.input_fidelity {
        Some(fidelity) => if is_image_2(plan.job.model) {
            fields
        } else {
            fields.push(("input_fidelity"@, fidelity))
        },
        None => fields,
    }
}

/// The images of a form, each under the last part of its path.
pub open spec fn image_files(images: Seq<Seq<char>>, contents: Seq<Seq<u8>>) -> Seq<ImageFileView> {
    Seq::new(
        images.len(),
        |i: int| ImageFileView { name: last_piece(images[i], '/'), content: contents[i] },
    )
}

/// The headers of a request for images.
pub open spec fn image_headers(context: ContextView) -> Seq<(Seq<char>, Seq<char>)> {
    put_if_absent(
        put(context.headers, "Authorization"@, "Bearer "@ + context.api_key),
        "User-Agent"@,
        "lmx/"@ + VERSION@,
    )
}

/// The address of a provider's images, where a request does not say.
pub open spec fn image_base(provider: Provider) -> Seq<char> {
    match image_spec_of(provider) {
        Ok(spec) => spec.base_url,
        Err(_) => ""@,
    }
}

/// The request to an image endpoint: images that are handed over go in a form to
/// be changed, except to NanoGPT.
pub open spec fn image_call_of(
    request: ImageRequestView,
    plan: ImagePlanView,
    contents: Seq<Seq<u8>>,
) -> Result<ImageCallView, ErrorView> {
    let edits = request.input_images.len() > 0 && request.context.provider != Provider::Nanogpt;
    let route = if edits {
        "edits"@
    } else {
        "generations"@
    };
    match image_address(request.context, image_base(request.context.provider), route) {
        Err(error) => Err(error),
        Ok(url) => Ok(
            ImageCallView {
                url,
                headers: image_headers(request.context),
                payload: if edits {
                    ImagePayloadView::Form {
                        fields: image_fields(request, plan),
                        files: image_files(request.input_images, contents),
                    }
                } else {
                    ImagePayloadView::Body(
                        JsonView::Object(image_body(request, plan, contents)),
                    )
                },
            },
        ),
    }
}

fn extras_of_model(model: &str) -> (extras: JsonObject)
    ensures
        extras@ == model_extras(model@),
{
    if same(model, "qwen-image") {
        JsonObject::new().with("num_inference_steps", Json::number(30)).with(
            "guidance_scale",
            Json::Number(JsonNumber::Decimal(owned("2.5"))),
        ).with("enable_safety_checker", Json::Bool(true)).with_text("negative_prompt", " ")
    } else if same(model, "hidream") {
        JsonObject::new().with("num_inference_steps", Json::number(50)).with(
            "guidance_scale",
            Json::number(5),
        )
    } else if same(model, "chroma") {
        JsonObject::new().with_text("negative_prompt", "").with(
            "guidance_scale",
            Json::Number(JsonNumber::Decimal(owned("4.5"))),
        ).with("num_inference_steps", Json::number(25))
    } else {
        JsonObject::new()
    }
}

fn merge(object: JsonObject, more: &JsonObject) -> (out: JsonObject)
    ensures
        out@ == merged(object@, more@),
{
    let ghost all = more@;
    let ghost first = object@;
    let mut out = object;
    assert(all.take(0) =~= Seq::empty());
    for i in 0..more.entries.len()
        invariant
            all == more@,
            all.len() == more.entries@.len(),
            out@ == merged(first, all.take(i as int)),
    {
        let ghost so_far = all.take(i as int + 1);
        assert(so_far.drop_last() =~= all.take(i as int));
        assert(so_far.last() == all[i as int]);
        assert(all[i as int] == (more.entries@[i as int].0@, more.entries@[i as int].1@));
        let value = more.entries[i].1.clone();
        out.insert(more.entries[i].0.as_str(), value);
    }
    assert(all.take(all.len() as int) =~= all);
    out
}

fn urls_of(images: &Vec<String>, contents: &Vec<Vec<u8>>) -> (urls: Vec<String>)
    requires
        images@.len() == contents@.len(),
    ensures
        urls.deep_view() == data_urls(images.deep_view(), contents.deep_view()),
{
    let mut urls: Vec<String> = Vec::new();
    for i in 0..images.len()
        invariant
            images@.len() == contents@.len(),
            urls@.len() == i,
            forall|k: int|
                0 <= k < i ==> (#[trigger] urls@[k])@ == data_urls(
                    images.deep_view(),
                    contents.deep_view(),
                )[k],
    {
        assert(images.deep_view()[i as int] == images@[i as int]@);
        assert(contents.deep_view()[i as int] =~= contents@[i as int]@);
        if starts_with(images[i].as_str(), "data:") {
            urls.push(images[i].clone());
        } else {
            let text = base64_encode(contents[i].as_slice());
            urls.push(cat("data:image/png;base64,", text.as_str()));
        }
    }
    assert(urls.deep_view() =~= data_urls(images.deep_view(), contents.deep_view()));
    urls
}

fn quality_text(request: &ImageRequest) -> (quality: &str)
    ensures
        quality@ == quality_of(request.deep_view()),
{
    match &request.quality {
        Some(quality) => quality.as_str(),
        None => "high",
    }
}

fn background_for_provider(request: &ImageRequest, plan: &ImagePlan) -> (background: Option<
    String,
>)
    ensures
        background.deep_view() == provider_background(request.deep_view(), plan.deep_view()),
{
    match &request.background {
        Some(background) => Some(
            if plan.white_keying {
                owned("opaque")
            } else {
                background.clone()
            },
        ),
        None => None,
    }
}

fn build_body(request: &ImageRequest, plan: &ImagePlan, contents: &Vec<Vec<u8>>) -> (body:
    JsonObject)
    requires
        request.input_images@.len() == contents@.len(),
    ensures
        body@ == image_body(request.deep_view(), plan.deep_view(), contents.deep_view()),
{
    let mut body = JsonObject::new().with_text("model", plan.job.model.as_str()).with_text(
        "prompt",
        plan.provider_prompt.as_str(),
    ).with_text("size", plan.provider_size.as_str()).with(
        "n",
        Json::number(request.count as u64),
    );
    if request.context.provider == Provider::Nanogpt {
        body.insert("response_format", Json::text("url"));
        let mut extras = merge(extras_of_model(plan.job.model.as_str()), &request.extra_body);
        if request.input_images.len() > 0 {
            let urls = urls_of(&request.input_images, contents);
            extras.insert("imageDataUrls", texts_list(&urls));
        }
        if !extras.is_empty() {
            body.insert("extra_body", Json::object(extras));
        }
        body
    } else {
        body.insert("quality", Json::text(quality_text(request)));
        match plan.partial_images {
            Some(partial) => {
                body.insert("stream", Json::Bool(true));
                body.insert("partial_images", Json::number(partial as u64));
            },
            None => {},
        }
        match background_for_provider(request, plan) {
            Some(background) => body.insert("background", Json::text(background.as_str())),
            None => {},
        }
        body
    }
}

fn add_field(fields: &mut Vec<(String, String)>, name: &str, value: &str)
    ensures
        final(fields).deep_view() == old(fields).deep_view().push((name@, value@)),
{
    let ghost before = fields.deep_view();
    fields.push((owned(name), owned(value)));
    assert(fields.deep_view() =~= before.push((name@, value@)));
}

fn build_fields(request: &ImageRequest, plan: &ImagePlan) -> (fields: Vec<(String, String)>)
    ensures
        fields.deep_view() == image_fields(request.deep_view(), plan.deep_view()),
{
    let mut fields: Vec<(String, String)> = Vec::new();
    assert(fields.deep_view() =~= Seq::empty());
    add_field(&mut fields, "model", plan.job.model.as_str());
    add_field(&mut fields, "prompt", plan.provider_prompt.as_str());
    add_field(&mut fields, "size", plan.provider_size.as_str());
    let count = decimal_of(request.count as u64);
    add_field(&mut fields, "n", count.as_str());
    add_field(&mut fields, "quality", quality_text(request));
    assert(fields.deep_view() =~= seq![
        ("model"@, plan.job.model@),
        ("prompt"@, plan.provider_prompt@),
        ("size"@, plan.provider_size@),
        ("n"@, decimal(request.count as nat)),
        ("quality"@, quality_of(request.deep_view())),
    ]);
    match plan.partial_images {
        Some(partial) => {
            add_field(&mut fields, "stream", "true");
            let partial = decimal_of(partial as u64);
            add_field(&mut fields, "partial_images", partial.as_str());
        },
        None => {},
    }
    match background_for_provider(request, plan) {
        Some(background) => add_field(&mut fields, "background", background.as_str()),
        None => {},
    }
    match &request.input_fidelity {
        Some(fidelity) => {
            if !is_gpt_image_2(plan.job.model.as_str()) {
                add_field(&mut fields, "input_fidelity", fidelity.as_str());
            }
        },
        None => {},
    }
    fields
}

fn build_files(images: &Vec<String>, contents: &Vec<Vec<u8>>) -> (files: Vec<ImageFile>)
    requires
        images@.len() == contents@.len(),
    ensures
        files.deep_view() == image_files(images.deep_view(), contents.deep_view()),
{
    let mut files: Vec<ImageFile> = Vec::new();
    for i in 0..images.len()
        invariant
            images@.len() == contents@.len(),
            files@.len() == i,
            forall|k: int|
                0 <= k < i ==> (#[trigger] files@[k]).deep_view() == image_files(
                    images.deep_view(),
                    contents.deep_view(),
                )[k],
    {
        assert(images.deep_view()[i as int] == images@[i as int]@);
        assert(contents.deep_view()[i as int] =~= contents@[i as int]@);
        files.push(
            ImageFile {
                name: after_last(images[i].as_str(), '/'),
                content: crate::text::copy_bytes(contents[i].as_slice()),
            },
        );
    }
    assert(files.deep_view() =~= image_files(images.deep_view(), contents.deep_view()));
    files
}

/// Builds the request to an image endpoint, with the contents of the images that
/// were read for it.
pub fn image_call(request: &ImageRequest, plan: &ImagePlan, contents: &Vec<Vec<u8>>) -> (call:
    Result<ImageCall, Error>)
    requires
        request.input_images@.len() == contents@.len(),
    ensures
        outcome(call) == image_call_of(
            request.deep_view(),
            plan.deep_view(),
            contents.deep_view(),
        ),
{
    let edits = request.input_images.len() > 0 && request.context.provider != Provider::Nanogpt;
    let base = match image_spec(request.context.provider) {
        Ok(spec) => spec.base_url,
        Err(_) => "",
    };
    let route = if edits {
        "edits"
    } else {
        "generations"
    };
    let url = match request_url(&request.context, base, route) {
        Ok(url) => url,
        Err(error) => return Err(error),
    };
    let mut headers = request.context.headers.clone();
    headers.insert("Authorization", cat("Bearer ", request.context.api_key.as_str()).as_str());
    headers.insert_if_absent("User-Agent", cat("lmx/", VERSION).as_str());
    let payload = if edits {
        ImagePayload::Form {
            fields: build_fields(request, plan),
            files: build_files(&request.input_images, contents),
        }
    } else {
        ImagePayload::Body(Json::object(build_body(request, plan, contents)))
    };
    Ok(ImageCall { url, headers, payload })
}

/// The images in the answer of an image endpoint: as many as were asked for.
pub open spec fn answered_images(response: JsonView, count: u8) -> Result<
    Seq<JsonView>,
    ErrorView,
> {
    match field(response, "data"@) {
        Some(JsonView::List(images)) => if images.len() == count {
            Ok(images)
        } else {
            Err(ErrorView::Event("image response did not include any images"@))
        },
        _ => Err(ErrorView::Event("image response did not include any images"@)),
    }
}

/// The images in the answer of an image endpoint.
pub fn response_images(response: &Json, count: u8) -> (images: Result<Vec<Json>, Error>)
    ensures
        outcome(images) == answered_images(response@, count),
{
    broadcast use lemma_list_view;

    match response.get("data") {
        Some(Json::List(images)) => {
            if images.len() == count as usize {
                return Ok(crate::json::clone_list(images));
            }
        },
        _ => {},
    }
    Err(event_error("image response did not include any images"))
}

/// Where an image comes from.
#[derive(Debug)]
pub enum ImageSource {
    Content(Vec<u8>),
    Address(String),
}

/// Where an image comes from.
pub enum ImageSourceView {
    Content(Seq<u8>),
    Address(Seq<char>),
}

impl DeepView for ImageSource {
    type V = ImageSourceView;

    open spec fn deep_view(&self) -> ImageSourceView {
        match self {
            ImageSource::Content(content) => ImageSourceView::Content(content@),
            ImageSource::Address(url) => ImageSourceView::Address(url@),
        }
    }
}

/// The bytes of an image that came as base64.
pub open spec fn image_bytes(decoded: Result<Seq<u8>, Seq<char>>) -> Result<Seq<u8>, ErrorView> {
    match decoded {
        Ok(content) => Ok(content),
        Err(message) => Err(ErrorView::Event("invalid base64 image payload: "@ + message)),
    }
}

/// Where an image of an answer comes from.
pub open spec fn image_source_of(image: JsonView) -> Result<ImageSourceView, ErrorView> {
    let encoded = or_empty(text_field(image, "b64_json"@));
    let url = or_empty(text_field(image, "url"@));
    if encoded.len() > 0 {
        match image_bytes(base64_bytes(encoded)) {
            Ok(content) => Ok(ImageSourceView::Content(content)),
            Err(error) => Err(error),
        }
    } else if url.len() > 0 {
        Ok(ImageSourceView::Address(url))
    } else {
        Err(ErrorView::Event("image response did not include b64_json or url content"@))
    }
}

/// What came of reading base64.
pub open spec fn decoding_of(decoded: Result<Vec<u8>, String>) -> Result<Seq<u8>, Seq<char>> {
    match decoded {
        Ok(content) => Ok(content@),
        Err(message) => Err(message@),
    }
}

/// Takes the bytes of an image as they were read out of base64.
pub fn image_content(decoded: Result<Vec<u8>, String>) -> (content: Result<Vec<u8>, Error>)
    ensures
        match content {
            Ok(content) => image_bytes(decoding_of(decoded)) == Ok::<Seq<u8>, ErrorView>(content@),
            Err(error) => image_bytes(decoding_of(decoded)) == Err::<Seq<u8>, ErrorView>(
                error.deep_view(),
            ),
        },
{
    match decoded {
        Ok(content) => Ok(content),
        Err(message) => Err(
            Error::Event(cat("invalid base64 image payload: ", message.as_str())),
        ),
    }
}

/// Where an image of an answer comes from.
pub fn image_source(image: &Json) -> (source: Result<ImageSource, Error>)
    ensures
        outcome(source) == image_source_of(image@),
{
    let encoded = text_or_empty(image.get_text("b64_json"));
    if !encoded.as_str().is_empty() {
        return match image_content(base64_decode(encoded.as_str())) {
            Ok(content) => Ok(ImageSource::Content(content)),
            Err(error) => Err(error),
        };
    }
    let url = text_or_empty(image.get_text("url"));
    if !url.as_str().is_empty() {
        return Ok(ImageSource::Address(url));
    }
    Err(event_error("image response did not include b64_json or url content"))
}

/// The image with a content, without its white ground where it has one.
pub open spec fn finished_image(
    job: ImageJobView,
    content: Seq<u8>,
    content_type: Seq<char>,
    white_keying: bool,
    colors: Seq<u8>,
) -> Result<ImageResultView, ErrorView> {
    if white_keying {
        match keyed_file(content, colors) {
            Err(error) => Err(error),
            Ok(content) => Ok(
                ImageResultView {
                    job,
                    content_base64: base64_text(content),
                    content_type: "image/png"@,
                },
            ),
        }
    } else {
        Ok(ImageResultView { job, content_base64: base64_text(content), content_type })
    }
}

/// The job of an image that came with a type of its own.
pub open spec fn with_type(job: ImageJobView, content_type: Seq<char>) -> ImageJobView {
    ImageJobView { mime_type: content_type, ..job }
}

/// The image of an answer: its job has the type that it came with, a PNG file's
/// where its ground was taken away.
pub open spec fn answered_image(
    job: ImageJobView,
    content: Seq<u8>,
    content_type: Seq<char>,
    white_keying: bool,
    colors: Seq<u8>,
) -> Result<ImageResultView, ErrorView> {
    let kind = if white_keying {
        "image/png"@
    } else {
        content_type
    };
    finished_image(with_type(job, kind), content, kind, white_keying, colors)
}

fn finish_image(
    job: ImageJob,
    content: Vec<u8>,
    content_type: String,
    white_keying: bool,
    colors: &EdgeColors,
) -> (result: Result<ImageResult, Error>)
    requires
        has_all_colors(colors@),
    ensures
        outcome(result) == finished_image(
            job.deep_view(),
            content@,
            content_type@,
            white_keying,
            colors@,
        ),
{
    if white_keying {
        let content = match remove_white_key_background(content.as_slice(), colors) {
            Ok(content) => content,
            Err(error) => return Err(error),
        };
        return Ok(
            ImageResult {
                job,
                content_base64: base64_encode(content.as_slice()),
                content_type: owned("image/png"),
            },
        );
    }
    Ok(ImageResult { job, content_base64: base64_encode(content.as_slice()), content_type })
}

/// The image of an answer, with the content and the type that it came with.
pub fn image_result(
    job: &ImageJob,
    content: Vec<u8>,
    content_type: &str,
    white_keying: bool,
    colors: &EdgeColors,
) -> (result: Result<ImageResult, Error>)
    requires
        has_all_colors(colors@),
    ensures
        outcome(result) == answered_image(
            job.deep_view(),
            content@,
            content_type@,
            white_keying,
            colors@,
        ),
{
    let mut job = job.clone();
    let kind = if white_keying {
        "image/png"
    } else {
        content_type
    };
    job.mime_type = owned(kind);
    finish_image(job, content, owned(kind), white_keying, colors)
}

/// The image that a base64 text holds.
pub open spec fn encoded_image(
    job: ImageJobView,
    decoded: Result<Seq<u8>, Seq<char>>,
    white_keying: bool,
    colors: Seq<u8>,
) -> Result<ImageResultView, ErrorView> {
    match image_bytes(decoded) {
        Err(error) => Err(error),
        Ok(content) => finished_image(job, content, job.mime_type, white_keying, colors),
    }
}

/// The image that a base64 text holds.
pub fn image_result_from_base64(
    job: &ImageJob,
    encoded: &str,
    white_keying: bool,
    colors: &EdgeColors,
) -> (result: Result<ImageResult, Error>)
    requires
        has_all_colors(colors@),
    ensures
        outcome(result) == encoded_image(
            job.deep_view(),
            base64_bytes(encoded@),
            white_keying,
            colors@,
        ),
{
    let content = match image_content(base64_decode(encoded)) {
        Ok(content) => content,
        Err(error) => return Err(error),
    };
    let kind = job.mime_type.clone();
    finish_image(job.clone(), content, kind, white_keying, colors)
}

/// Whether a part of a stream says nothing.
pub open spec fn is_silent(data: Seq<char>) -> bool {
    data == "[DONE]"@ || trimmed(data).len() == 0
}

/// Whether an event brings a preview.
pub open spec fn is_partial(kind: Seq<char>) -> bool {
    kind == "image_generation.partial_image"@ || kind == "image_edit.partial_image"@
}

/// Whether an event brings the image.
pub open spec fn is_completed(kind: Seq<char>) -> bool {
    kind == "image_generation.completed"@ || kind == "image_edit.completed"@
}

/// What an event of an image stream tells, and whether the stream has come to its
/// end with it.
pub open spec fn payload_events(
    job: ImageJobView,
    white_keying: bool,
    name: Seq<char>,
    payload: JsonView,
    colors: Seq<u8>,
) -> Result<(Seq<ImageEventView>, bool), ErrorView> {
    let kind = match text_field(payload, "type"@) {
        Some(kind) => kind,
        None => name,
    };
    let encoded = or_empty(text_field(payload, "b64_json"@));
    if is_partial(kind) {
        match number_field(payload, "partial_image_index"@) {
            _ if encoded.len() == 0 => Err(
                ErrorView::Event("partial image event did not include b64_json"@),
            ),
            None => Err(
                ErrorView::Event("partial image event did not include partial_image_index"@),
            ),
            Some(index) => if index > 255 {
                Err(ErrorView::Event("partial image index exceeds u8"@))
            } else {
                match encoded_image(job, base64_bytes(encoded), white_keying, colors) {
                    Err(error) => Err(error),
                    Ok(result) => Ok(
                        (
                            seq![
                                ImageEventView::Partial {
                                    image_index: 0,
                                    partial_index: index as u8,
                                    result,
                                },
                            ],
                            false,
                        ),
                    ),
                }
            },
        }
    } else if is_completed(kind) {
        if encoded.len() == 0 {
            Err(ErrorView::Event("completed image event did not include b64_json"@))
        } else {
            match encoded_image(job, base64_bytes(encoded), white_keying, colors) {
                Err(error) => Err(error),
                Ok(result) => Ok(
                    (
                        seq![
                            ImageEventView::Completed { image_index: 0, result },
                            ImageEventView::BatchCompleted { usage: field(payload, "usage"@) },
                        ],
                        true,
                    ),
                ),
            }
        }
    } else {
        Ok((Seq::empty(), false))
    }
}

/// What a part of an image stream tells, and whether the stream has come to its
/// end with it.
pub open spec fn data_events(
    job: ImageJobView,
    white_keying: bool,
    name: Seq<char>,
    data: Seq<char>,
    colors: Seq<u8>,
) -> Result<(Seq<ImageEventView>, bool), ErrorView> {
    if is_silent(data) {
        Ok((Seq::empty(), false))
    } else {
        match parsed_json(data) {
            Err(message) => Err(ErrorView::Json(message)),
            Ok(payload) => payload_events(job, white_keying, name, payload, colors),
        }
    }
}

/// A stream comes to its end with a complete image and with nothing else, and then
/// its last event says so.
pub proof fn only_a_complete_image_ends_a_stream(
    job: ImageJobView,
    white_keying: bool,
    name: Seq<char>,
    data: Seq<char>,
    colors: Seq<u8>,
)
    ensures
        data_events(job, white_keying, name, data, colors) matches Ok((events, done)) ==> {
            &&& done <==> events.len() > 0 && events.last() is BatchCompleted
            &&& done ==> events.len() == 2 && events[0] is Completed
            &&& !done ==> events.len() <= 1 && forall|i: int|
                0 <= i < events.len() ==> #[trigger] events[i] is Partial
        },
{
}

/// Takes in an event of an image stream.
pub fn image_payload_events(
    job: &ImageJob,
    white_keying: bool,
    name: &str,
    payload: &Json,
    colors: &EdgeColors,
) -> (events: Result<(Vec<ImageStreamEvent>, bool), Error>)
    requires
        has_all_colors(colors@),
    ensures
        outcome(events) == payload_events(
            job.deep_view(),
            white_keying,
            name@,
            payload@,
            colors@,
        ),
{
    let kind = match payload.get_text("type") {
        Some(kind) => kind,
        None => name,
    };
    let encoded = text_or_empty(payload.get_text("b64_json"));
    let mut events: Vec<ImageStreamEvent> = Vec::new();
    if same(kind, "image_generation.partial_image") || same(kind, "image_edit.partial_image") {
        if encoded.as_str().is_empty() {
            return Err(event_error("partial image event did not include b64_json"));
        }
        let index: u64 = match payload.get_u64("partial_image_index") {
            Some(index) => index,
            None => return Err(
                event_error("partial image event did not include partial_image_index"),
            ),
        };
        if index > 255 {
            return Err(event_error("partial image index exceeds u8"));
        }
        let result = match image_result_from_base64(job, encoded.as_str(), white_keying, colors) {
            Ok(result) => result,
            Err(error) => return Err(error),
        };
        events.push(
            ImageStreamEvent::Partial { image_index: 0, partial_index: index as u8, result },
        );
        assert(events.deep_view() =~= seq![
            ImageEventView::Partial {
                image_index: 0,
                partial_index: index as u8,
                result: result.deep_view(),
            },
        ]);
        Ok((events, false))
    } else if same(kind, "image_generation.completed") || same(kind, "image_edit.completed") {
        if encoded.as_str().is_empty() {
            return Err(event_error("completed image event did not include b64_json"));
        }
        let result = match image_result_from_base64(job, encoded.as_str(), white_keying, colors) {
            Ok(result) => result,
            Err(error) => return Err(error),
        };
        let usage: Option<Json> = match payload.get("usage") {
            Some(usage) => Some(usage.clone()),
            None => None,
        };
        events.push(ImageStreamEvent::Completed { image_index: 0, result });
        events.push(ImageStreamEvent::BatchCompleted { usage });
        assert(events.deep_view() =~= seq![
            ImageEventView::Completed { image_index: 0, result: result.deep_view() },
            ImageEventView::BatchCompleted { usage: field(payload@, "usage"@) },
        ]);
        Ok((events, true))
    } else {
        assert(events.deep_view() =~= Seq::empty());
        Ok((events, false))
    }
}

/// Takes in a part of an image stream.
pub fn image_stream_events(
    job: &ImageJob,
    white_keying: bool,
    name: &str,
    data: &str,
    colors: &EdgeColors,
) -> (events: Result<(Vec<ImageStreamEvent>, bool), Error>)
    requires
        has_all_colors(colors@),
    ensures
        outcome(events) == data_events(job.deep_view(), white_keying, name@, data@, colors@),
{
    if same(data, "[DONE]") || is_blank(data) {
        let events: Vec<ImageStreamEvent> = Vec::new();
        assert(events.deep_view() =~= Seq::empty());
        return Ok((events, false));
    }
    match parse_json(data) {
        Err(message) => Err(Error::Json(message)),
        Ok(payload) => image_payload_events(job, white_keying, name, &payload, colors),
    }
}

/// What is said of a stream that ends without an image.
pub fn stream_ended_early() -> (error: Error)
    ensures
        error.deep_view() == ErrorView::Event("image stream ended before a completed event"@),
{
    event_error("image stream ended before a completed event")
}

/// The size that Codex is asked for, where it is asked for one.
pub open spec fn codex_size(request: ImageRequestView) -> Result<Option<Seq<char>>, ErrorView> {
    match (request.size, request.width, request.height) {
        (Some(size), _, _) => Ok(Some(size)),
        (None, Some(width), Some(height)) => Ok(Some(size_text(width, height))),
        (None, None, None) => Ok(None),
        _ => Err(ErrorView::State("image width and height must be provided together"@)),
    }
}

fn codex_requested_size(request: &ImageRequest) -> (size: Result<Option<String>, Error>)
    ensures
        outcome(size) == codex_size(request.deep_view()),
{
    match (&request.size, request.width, request.height) {
        (Some(size), _, _) => Ok(Some(size.clone())),
        (None, Some(width), Some(height)) => Ok(Some(write_size(width, height))),
        (None, None, None) => Ok(None),
        _ => Err(state_error("image width and height must be provided together")),
    }
}

/// The kind of an image by the end of its path.
pub open spec fn media_type_of(path: Seq<char>) -> Seq<char> {
    let extension = ascii_lower_text(last_piece(path, '.'));
    if extension == "jpg"@ || extension == "jpeg"@ {
        "image/jpeg"@
    } else if extension == "webp"@ {
        "image/webp"@
    } else if extension == "gif"@ {
        "image/gif"@
    } else {
        "image/png"@
    }
}

/// An address that holds an image.
pub open spec fn path_data_url(path: Seq<char>, content: Seq<u8>) -> Seq<char> {
    "data:"@ + media_type_of(path) + ";base64,"@ + base64_text(content)
}

/// An address that holds an image.
pub fn image_path_data_url(path: &str, content: &Vec<u8>) -> (url: String)
    ensures
        url@ == path_data_url(path@, content@),
{
    let extension = ascii_lower_of(after_last(path, '.').as_str());
    let extension = extension.as_str();
    let media_type = if same(extension, "jpg") || same(extension, "jpeg") {
        "image/jpeg"
    } else if same(extension, "webp") {
        "image/webp"
    } else if same(extension, "gif") {
        "image/gif"
    } else {
        "image/png"
    };
    let start = cat3("data:", media_type, ";base64,");
    cat(start.as_str(), base64_encode(content.as_slice()).as_str())
}

/// Why Codex cannot be asked for an image, where it cannot.
pub open spec fn codex_image_fault(request: ImageRequestView) -> Option<ErrorView> {
    if trimmed(request.prompt).len() == 0 {
        Some(ErrorView::State("prompt must not be empty"@))
    } else if request.input_fidelity is Some {
        Some(
            ErrorView::UnsupportedCapability(
                "codex"@,
                "input fidelity selection for Responses image generation"@,
            ),
        )
    } else if request.extra_body.len() > 0 {
        Some(
            ErrorView::UnsupportedCapability(
                "codex"@,
                "extra image request fields for Responses image generation"@,
            ),
        )
    } else {
        match codex_size(request) {
            Err(error) => Some(error),
            Ok(_) => None,
        }
    }
}

/// Looks over a request for an image by Codex.
pub fn check_codex_image(request: &ImageRequest) -> (checked: Result<(), Error>)
    ensures
        match checked {
            Ok(()) => codex_image_fault(request.deep_view()) is None,
            Err(error) => codex_image_fault(request.deep_view()) == Some(error.deep_view()),
        },
{
    if is_blank(request.prompt.as_str()) {
        return Err(state_error("prompt must not be empty"));
    }
    if request.input_fidelity.is_some() {
        return Err(
            Error::UnsupportedCapability(
                owned("codex"),
                "input fidelity selection for Responses image generation",
            ),
        );
    }
    if !request.extra_body.is_empty() {
        return Err(
            Error::UnsupportedCapability(
                owned("codex"),
                "extra image request fields for Responses image generation",
            ),
        );
    }
    match codex_requested_size(request) {
        Ok(_) => Ok(()),
        Err(error) => Err(error),
    }
}

/// The tool that makes the image.
pub open spec fn image_tool(request: ImageRequestView, partial_images: Option<u8>) -> ObjectView {
    let action = if request.input_images.len() == 0 {
        "generate"@
    } else {
        "edit"@
    };
    let tool = with(
        with(no_members(), "type"@, text_json("image_generation"@)),
        "action"@,
        text_json(action),
    );
    let tool = match request.quality {
        Some(quality) => with(tool, "quality"@, text_json(quality)),
        None => tool,
    };
    let tool = match codex_size(request) {
        Ok(Some(size)) => with(tool, "size"@, text_json(size)),
        _ => tool,
    };
    let tool = match request.background {
        Some(background) => with(tool, "background"@, text_json(background)),
        None => tool,
    };
    match partial_images {
        Some(partial) => with(tool, "partial_images"@, number_json(partial as u64)),
        None => tool,
    }
}

/// A part of a message that is a text.
pub open spec fn input_text_part(text: Seq<char>) -> JsonView {
    JsonView::Object(
        with(
            with(no_members(), "type"@, text_json("input_text"@)),
            "text"@,
            text_json(text),
        ),
    )
}

/// A part of a message that is an image.
pub open spec fn input_image_part(url: Seq<char>) -> JsonView {
    JsonView::Object(
        with(
            with(no_members(), "type"@, text_json("input_image"@)),
            "image_url"@,
            text_json(url),
        ),
    )
}

/// The message that asks for an image: the prompt, and the images to go by.
pub open spec fn image_message(request: ImageRequestView, contents: Seq<Seq<u8>>) -> ObjectView {
    let images = Seq::new(
        request.input_images.len(),
        |i: int| input_image_part(path_data_url(request.input_images[i], contents[i])),
    );
    with(
        with(
            with(no_members(), "type"@, text_json("message"@)),
            "role"@,
            text_json("user"@),
        ),
        "content"@,
        JsonView::List(seq![input_text_part(trimmed(request.prompt))] + images),
    )
}

/// The request for a response that makes an image.
pub open spec fn codex_image_request(
    request: ImageRequestView,
    contents: Seq<Seq<u8>>,
    partial_images: Option<u8>,
) -> Result<RequestView, ErrorView> {
    match codex_image_fault(request) {
        Some(error) => Err(error),
        None => Ok(
            RequestView {
                input: seq![image_message(request, contents)],
                context: request.context,
                model: request.model,
                instructions: ""@,
                tools: seq![JsonView::Object(image_tool(request, partial_images))],
                tool_choice: Some(text_json("required"@)),
                reasoning_effort: None,
                text_verbosity: "low"@,
                text_format: None,
                codex_protocol: Some(CodexProtocol::ResponsesStandard),
                context_management: None,
            },
        ),
    }
}

fn build_image_tool(request: &ImageRequest, partial_images: Option<u8>) -> (tool: JsonObject)
    ensures
        tool@ == image_tool(request.deep_view(), partial_images),
{
    let action = if request.input_images.len() == 0 {
        "generate"
    } else {
        "edit"
    };
    let mut tool = JsonObject::new().with_text("type", "image_generation").with_text(
        "action",
        action,
    );
    match &request.quality {
        Some(quality) => tool.insert("quality", Json::text(quality.as_str())),
        None => {},
    }
    match codex_requested_size(request) {
        Ok(Some(size)) => tool.insert("size", Json::text(size.as_str())),
        _ => {},
    }
    match &request.background {
        Some(background) => tool.insert("background", Json::text(background.as_str())),
        None => {},
    }
    match partial_images {
        Some(partial) => tool.insert("partial_images", Json::number(partial as u64)),
        None => {},
    }
    tool
}

fn build_image_message(request: &ImageRequest, contents: &Vec<Vec<u8>>) -> (message: JsonObject)
    requires
        request.input_images@.len() == contents@.len(),
    ensures
        message@ == image_message(request.deep_view(), contents.deep_view()),
{
    let prompt = trim(request.prompt.as_str());
    let mut content: Vec<Json> = Vec::new();
    content.push(
        Json::object(
            JsonObject::new().with_text("type", "input_text").with_text("text", prompt.as_str()),
        ),
    );
    let ghost first = seq![input_text_part(prompt@)];
    let ghost images = Seq::new(
        request.input_images@.len(),
        |i: int|
            input_image_part(
                path_data_url(
                    request.deep_view().input_images[i],
                    contents.deep_view()[i],
                ),
            ),
    );
    assert(content.deep_view() =~= first + images.take(0));
    for i in 0..request.input_images.len()
        invariant
            request.input_images@.len() == contents@.len(),
            images == Seq::new(
                request.input_images@.len(),
                |i: int|
                    input_image_part(
                        path_data_url(
                            request.deep_view().input_images[i],
                            contents.deep_view()[i],
                        ),
                    ),
            ),
            content.deep_view() == first + images.take(i as int),
    {
        assert(request.deep_view().input_images[i as int] == request.input_images@[i as int]@);
        assert(contents.deep_view()[i as int] =~= contents@[i as int]@);
        let url = image_path_data_url(request.input_images[i].as_str(), &contents[i]);
        let ghost before = content.deep_view();
        let part = Json::object(
            JsonObject::new().with_text("type", "input_image").with_text(
                "image_url",
                url.as_str(),
            ),
        );
        content.push(part);
        assert(content.deep_view() =~= before.push(part@));
        assert(first + images.take(i as int + 1) =~= (first + images.take(i as int)).push(
            images[i as int],
        ));
    }
    assert(images.take(images.len() as int) =~= images);
    JsonObject::new().with_text("type", "message").with_text("role", "user").with(
        "content",
        Json::list(content),
    )
}

fn build_codex_request(
    request: &ImageRequest,
    contents: &Vec<Vec<u8>>,
    partial_images: Option<u8>,
) -> (out: Result<ResponseRequest, Error>)
    requires
        request.input_images@.len() == contents@.len(),
    ensures
        outcome(out) == codex_image_request(
            request.deep_view(),
            contents.deep_view(),
            partial_images,
        ),
{
    match check_codex_image(request) {
        Ok(()) => {},
        Err(error) => return Err(error),
    }
    let mut input: Vec<ResponseItem> = Vec::new();
    input.push(build_image_message(request, contents));
    assert(input.deep_view() =~= seq![image_message(request.deep_view(), contents.deep_view())]);
    let mut tools: Vec<Json> = Vec::new();
    tools.push(Json::object(build_image_tool(request, partial_images)));
    assert(tools.deep_view() =~= seq![
        JsonView::Object(image_tool(request.deep_view(), partial_images)),
    ]);
    Ok(
        ResponseRequest {
            input,
            context: request.context.clone(),
            model: clone_option(&request.model),
            instructions: owned(""),
            tools,
            tool_choice: Some(Json::text("required")),
            reasoning_effort: None,
            text_verbosity: owned("low"),
            text_format: None,
            codex_protocol: Some(CodexProtocol::ResponsesStandard),
            context_management: None,
        },
    )
}

/// The request for a response that makes an image, with the contents of the
/// images that were read for it.
pub fn codex_image_response_request(request: &ImageRequest, contents: &Vec<Vec<u8>>) -> (out:
    Result<ResponseRequest, Error>)
    requires
        request.input_images@.len() == contents@.len(),
    ensures
        outcome(out) == codex_image_request(request.deep_view(), contents.deep_view(), None),
{
    build_codex_request(request, contents, None)
}

/// The request for a response that makes an image with previews.
pub fn codex_image_stream_request(
    request: &ImageRequest,
    contents: &Vec<Vec<u8>>,
    partial_images: u8,
) -> (out: Result<ResponseRequest, Error>)
    requires
        request.input_images@.len() == contents@.len(),
    ensures
        outcome(out) == codex_image_request(
            request.deep_view(),
            contents.deep_view(),
            Some(partial_images),
        ),
{
    build_codex_request(request, contents, Some(partial_images))
}

/// What an image by Codex was made from.
pub open spec fn codex_job(request: ImageRequestView, model: Seq<char>) -> Result<
    ImageJobView,
    ErrorView,
> {
    match codex_size(request) {
        Err(error) => Err(error),
        Ok(size) => {
            let size = match size {
                Some(size) => size,
                None => "auto"@,
            };
            let job = ImageJobView {
                provider: "codex"@,
                model,
                prompt: trimmed(request.prompt),
                size,
                width: None,
                height: None,
                mime_type: "image/png"@,
                background: request.background,
                background_processing: None,
            };
            if size == "auto"@ {
                Ok(job)
            } else {
                match dimensions(size) {
                    Err(error) => Err(error),
                    Ok((width, height)) => Ok(
                        ImageJobView { width: Some(width), height: Some(height), ..job },
                    ),
                }
            }
        },
    }
}

/// What an image by Codex was made from.
pub fn codex_image_job(request: &ImageRequest, model: &str) -> (job: Result<ImageJob, Error>)
    ensures
        outcome(job) == codex_job(request.deep_view(), model@),
{
    let size = match codex_requested_size(request) {
        Ok(Some(size)) => size,
        Ok(None) => owned("auto"),
        Err(error) => return Err(error),
    };
    let (width, height): (Option<u32>, Option<u32>) = if same(size.as_str(), "auto") {
        (None, None)
    } else {
        match parse_dimensions(size.as_str()) {
            Ok((width, height)) => (Some(width), Some(height)),
            Err(error) => return Err(error),
        }
    };
    Ok(
        ImageJob {
            provider: owned("codex"),
            model: owned(model),
            prompt: trim(request.prompt.as_str()),
            size,
            width,
            height,
            mime_type: owned("image/png"),
            background: clone_option(&request.background),
            background_processing: None,
        },
    )
}

/// The first item that is a call of the tool that makes images.
pub open spec fn image_call_item(items: Seq<ObjectView>) -> Option<ObjectView>
    decreases items.len(),
{
    if items.len() == 0 {
        None
    } else if text_member(items[0], "type"@) == Some("image_generation_call"@) {
        Some(items[0])
    } else {
        image_call_item(items.drop_first())
    }
}

/// The image in the items of a response, in base64, and no text where there is
/// none.
pub open spec fn codex_image_text(items: Seq<ObjectView>) -> Seq<char> {
    match image_call_item(items) {
        Some(item) => or_empty(text_member(item, "result"@)),
        None => Seq::empty(),
    }
}

/// The image in the items of a response.
pub open spec fn codex_image(
    request: ImageRequestView,
    model: Seq<char>,
    items: Seq<ObjectView>,
    decoded: Result<Seq<u8>, Seq<char>>,
) -> Result<ImageResultView, ErrorView> {
    if codex_image_text(items).len() == 0 {
        Err(
            ErrorView::Event("Codex response did not include an image generation result"@),
        )
    } else {
        match codex_job(request, model) {
            Err(error) => Err(error),
            Ok(job) => encoded_image(job, decoded, false, Seq::empty()),
        }
    }
}

fn text_of_image(items: &Vec<ResponseItem>) -> (text: String)
    ensures
        text@ == codex_image_text(items.deep_view()),
{
    let ghost all = items.deep_view();
    assert(all.skip(0) =~= all);
    for i in 0..items.len()
        invariant
            all == items.deep_view(),
            image_call_item(all) == image_call_item(all.skip(i as int)),
    {
        let ghost rest = all.skip(i as int);
        assert(rest[0] == items@[i as int]@);
        assert(rest.drop_first() =~= all.skip(i as int + 1));
        if items[i].has_text("type", "image_generation_call") {
            return text_or_empty(items[i].get_text("result"));
        }
    }
    text_or_empty(None)
}

fn plain_image(job: &ImageJob, encoded: &str) -> (result: Result<ImageResult, Error>)
    ensures
        outcome(result) == encoded_image(
            job.deep_view(),
            base64_bytes(encoded@),
            false,
            Seq::empty(),
        ),
{
    let content = match image_content(base64_decode(encoded)) {
        Ok(content) => content,
        Err(error) => return Err(error),
    };
    Ok(
        ImageResult {
            job: job.clone(),
            content_base64: base64_encode(content.as_slice()),
            content_type: job.mime_type.clone(),
        },
    )
}

/// The image in the items of a response.
pub fn codex_image_result(request: &ImageRequest, model: &str, items: &Vec<ResponseItem>) -> (
    result: Result<ImageResult, Error>)
    ensures
        outcome(result) == codex_image(
            request.deep_view(),
            model@,
            items.deep_view(),
            base64_bytes(codex_image_text(items.deep_view())),
        ),
{
    let encoded = text_of_image(items);
    if encoded.as_str().is_empty() {
        return Err(
            event_error("Codex response did not include an image generation result"),
        );
    }
    let job = match codex_image_job(request, model) {
        Ok(job) => job,
        Err(error) => return Err(error),
    };
    plain_image(&job, encoded.as_str())
}

/// What an event of a response tells of the image that it makes.
pub open spec fn codex_preview(job: ImageJobView, event: EventView) -> Result<
    Option<ImageEventView>,
    ErrorView,
> {
    match event {
        EventView::ImageGenerationPartial { partial_image_index, partial_image_base64 } =>
            match encoded_image(job, base64_bytes(partial_image_base64), false, Seq::empty()) {
            Err(error) => Err(error),
            Ok(result) => Ok(
                Some(
                    ImageEventView::Partial {
                        image_index: 0,
                        partial_index: partial_image_index,
                        result,
                    },
                ),
            ),
        },
        _ => Ok(None),
    }
}

/// What an event of a response tells of the image that it makes.
pub fn codex_partial_event(job: &ImageJob, event: &CoreEvent) -> (preview: Result<
    Option<ImageStreamEvent>,
    Error,
>)
    ensures
        outcome(preview) == codex_preview(job.deep_view(), event.deep_view()),
{
    match event {
        CoreEvent::ImageGenerationPartial { partial_image_index, partial_image_base64 } => {
            match plain_image(job, partial_image_base64.as_str()) {
                Ok(result) => Ok(
                    Some(
                        ImageStreamEvent::Partial {
                            image_index: 0,
                            partial_index: *partial_image_index,
                            result,
                        },
                    ),
                ),
                Err(error) => Err(error),
            }
        },
        _ => Ok(None),
    }
}

/// The image of a round that asked for one: the round has to complete its response,
/// and may not ask for tools.
pub open spec fn codex_round_image(request: ImageRequestView, next: ActionView) -> Result<
    ImageResultView,
    ErrorView,
> {
    match next {
        ActionView::Completed { result } => codex_image(
            request,
            result.model,
            result.output_items,
            base64_bytes(codex_image_text(result.output_items)),
        ),
        _ => Err(
            ErrorView::Event(
                "Codex image request unexpectedly requested a client-side tool call"@,
            ),
        ),
    }
}

/// The image of a round that asked for one.
pub fn image_of_round(request: &ImageRequest, next: &NextAction) -> (result: Result<
    ImageResult,
    Error,
>)
    ensures
        outcome(result) == codex_round_image(request.deep_view(), next.deep_view()),
{
    match next {
        NextAction::Completed { result } => codex_image_result(
            request,
            result.model.as_str(),
            &result.output_items,
        ),
        _ => Err(
            event_error("Codex image request unexpectedly requested a client-side tool call"),
        ),
    }
}

/// What is told of images that are complete: each of them, and then the end.
pub open spec fn complete_events(batch: ImageBatchView) -> Seq<ImageEventView> {
    Seq::new(
        batch.images.len(),
        |i: int| ImageEventView::Completed { image_index: i as u8, result: batch.images[i] },
    ).push(ImageEventView::BatchCompleted { usage: batch.usage })
}

/// What is told of images that are complete. The index of an image is a byte.
pub fn batch_events(batch: ImageBatchResult) -> (events: Vec<ImageStreamEvent>)
    requires
        batch.images@.len() <= 256,
    ensures
        events.deep_view() == complete_events(batch.deep_view()),
{
    let ghost view = batch.deep_view();
    let ghost all = batch.images@;
    let ghost expected = complete_events(view);
    let mut images = batch.images;
    let mut events: Vec<ImageStreamEvent> = Vec::new();
    while images.len() > 0
        invariant
            all.len() <= 256,
            view.images == all.map_values(|image: ImageResult| image.deep_view()),
            expected == complete_events(view),
            events@.len() + images@.len() == all.len(),
            images@ == all.skip(events@.len() as int),
            forall|k: int|
                0 <= k < events@.len() ==> (#[trigger] events@[k]).deep_view() == expected[k],
        decreases images@.len(),
    {
        let ghost at = events@.len();
        let image_index: u8 = events.len() as u8;
        let result = images.remove(0);
        assert(result == all[at as int]);
        events.push(ImageStreamEvent::Completed { image_index, result });
        assert(images@ =~= all.skip(events@.len() as int));
    }
    events.push(ImageStreamEvent::BatchCompleted { usage: batch.usage });
    assert(events.deep_view() =~= expected);
    events
}

/// What is told of the end of a round that asked for an image.
pub open spec fn codex_end_events(request: ImageRequestView, next: ActionView) -> Result<
    Seq<ImageEventView>,
    ErrorView,
> {
    match codex_round_image(request, next) {
        Err(error) => Err(error),
        Ok(result) => Ok(complete_events(ImageBatchView { images: seq![result], usage: None })),
    }
}

/// What is told of the end of a round that asked for an image.
pub fn codex_completed_events(request: &ImageRequest, next: &NextAction) -> (events: Result<
    Vec<ImageStreamEvent>,
    Error,
>)
    ensures
        outcome(events) == codex_end_events(request.deep_view(), next.deep_view()),
{
    match image_of_round(request, next) {
        Err(error) => Err(error),
        Ok(result) => {
            let ghost view = result.deep_view();
            let mut images: Vec<ImageResult> = Vec::new();
            images.push(result);
            assert(images.deep_view() =~= seq![view]);
            Ok(batch_events(ImageBatchResult { images, usage: None }))
        },
    }
}

/// The first image of a request.
pub fn first_image(batch: ImageBatchResult) -> (image: Result<ImageResult, Error>)
    ensures
        outcome(image) == if batch.deep_view().images.len() > 0 {
            Ok(batch.deep_view().images[0])
        } else {
            Err(ErrorView::Event("image response did not include any images"@))
        },
{
    let ghost all = batch.images@;
    let mut images = batch.images;
    if images.len() == 0 {
        return Err(event_error("image response did not include any images"));
    }
    let image = images.remove(0);
    assert(image == all[0]);
    Ok(image)
}

/// Looks over a request for one image.
pub fn check_single(request: &ImageRequest) -> (checked: Result<(), Error>)
    ensures
        match checked {
            Ok(()) => request.deep_view().count == 1,
            Err(error) => request.deep_view().count != 1 && error.deep_view() == ErrorView::State(
                "generate_image requires count=1; use generate_images for batches"@,
            ),
        },
{
    if request.count != 1 {
        return Err(
            state_error("generate_image requires count=1; use generate_images for batches"),
        );
    }
    Ok(())
}

} // verus!
