//! What requests for images hold, and what comes of the answers.
use vstd::prelude::*;

#[allow(unused_imports)]
use crate::codec::{base64_bytes, base64_text};
#[allow(unused_imports)]
use crate::endpoint::endpoint;
#[allow(unused_imports)]
use crate::error::ErrorView;
#[allow(unused_imports)]
use crate::images::{
    answered_image, answered_images, codex_end_events, codex_image_request, codex_image_text,
    codex_job, codex_preview, codex_round_image, complete_events, data_events, data_urls,
    dimensions, encoded_image, fits_gpt_image_2, image_address, image_base, image_body,
    image_call_of, image_fields, image_files, image_headers, image_plan, image_size,
    image_source_of, image_spec_of, is_file, is_image_2, media_type_of, merged, model_extras,
    nanogpt_extras, path_data_url, payload_events, size_text, stream_plan, ImageBatchView,
    ImageEventView, ImageJobView, ImagePayloadView, ImagePlanView, ImageRequestView,
    ImageResultView, ImageSourceView, StreamPlanView,
};
#[allow(unused_imports)]
use crate::json::{
    field, number_field, parsed_json, text_field, text_member, JsonView, NumberView, ObjectView,
};
#[allow(unused_imports)]
use crate::keying::keyed;
#[allow(unused_imports)]
use crate::ordered::{find, found_after_put};
#[allow(unused_imports)]
use crate::pixels::{decoded_image, png_file};
#[allow(unused_imports)]
use crate::providers::{provider_name, texts_json, ContextView, Provider};
#[allow(unused_imports)]
use crate::response::{ActionView, CodexProtocol, EventView};
#[allow(unused_imports)]
use crate::text::{ascii_lower_text, begins_with, decimal, is_digit, last_piece, trimmed};
#[allow(unused_imports)]
use crate::wording::lemma_decimal;

verus! {

/// `gpt-image-2` makes images whose edges are multiples of 16, no longer than 3840
/// and no more than three times as long as each other, with 655360 to 8294400
/// pixels. It does not matter which edge is which.
pub proof fn gpt_image_2_makes_these_sizes(width: int, height: int)
    requires
        width >= 0,
        height >= 0,
    ensures
        fits_gpt_image_2(width, height) <==> {
            &&& width % 16 == 0
            &&& height % 16 == 0
            &&& width <= 3840
            &&& height <= 3840
            &&& width <= 3 * height
            &&& height <= 3 * width
            &&& 655360 <= width * height
            &&& width * height <= 8294400
        },
        fits_gpt_image_2(width, height) == fits_gpt_image_2(height, width),
{
    assert(width * height == height * width) by (nonlinear_arith);
}

/// A size that was written out of a width and a height is read as both.
pub proof fn a_written_size_is_read_back(width: u32, height: u32)
    ensures
        dimensions(size_text(width, height)) == Ok::<(u32, u32), ErrorView>((width, height)),
{
    reveal_strlit("x");
    lemma_decimal(width as nat);
    lemma_decimal(height as nat);
    let before = decimal(width as nat);
    let after = decimal(height as nat);
    let size = size_text(width, height);
    let at = before.len() as int;
    assert(size[at] == 'x');
    assert(size.contains('x'));
    let found = size.index_of_first('x');
    size.index_of_first_ensures('x');
    let first = found->0;
    assert(first <= at);
    if first < at {
        assert(size[first] == before[first]);
        assert(is_digit(before[first]));
    }
    assert(size.take(at) =~= before);
    assert(size.skip(at + 1) =~= after);
    assert(is_digit(before[0]) && is_digit(after[0]));
}

/// A request asks for its size where it has one, else for its width and height,
/// else for the first size that is offered.
pub proof fn a_request_gets_the_size_it_asks_for(
    request: ImageRequestView,
    model: Seq<char>,
    sizes: Seq<Seq<char>>,
)
    ensures
        image_size(request, model, sizes) matches Ok(size) ==> {
            &&& request.size matches Some(asked) ==> size.value == asked
            &&& request.size is None ==> match (request.width, request.height) {
                (Some(width), Some(height)) => {
                    &&& size.value == size_text(width, height)
                    &&& size.width == Some(width) && size.height == Some(height)
                },
                _ => size.value == sizes[0],
            }
            &&& size.width is Some <==> size.height is Some
        },
        request.size is None && request.width is Some && request.height is Some && is_image_2(model)
            ==> (image_size(request, model, sizes) is Ok <==> fits_gpt_image_2(
            request.width->0 as int,
            request.height->0 as int,
        )),
{
    if request.size is None && request.width is Some && request.height is Some {
        let width = request.width->0;
        let height = request.height->0;
        a_written_size_is_read_back(width, height);
        lemma_decimal(width as nat);
        reveal_strlit("auto");
        assert(is_digit(decimal(width as nat)[0]));
        assert(size_text(width, height)[0] == decimal(width as nat)[0]);
        assert("auto"@[0] == 'a');
    }
}

/// A request that was looked over is one for a model that its provider offers,
/// with a prompt and a number of images that can be had; the images are made from
/// what it says.
pub proof fn a_plan_says_what_was_asked_for(request: ImageRequestView)
    ensures
        match image_plan(request) {
            Ok(plan) => {
                &&& trimmed(request.prompt).len() > 0
                &&& 1 <= request.count <= 10
                &&& image_spec_of(request.context.provider) matches Ok(spec)
                &&& spec.models.contains(plan.job.model)
                &&& plan.job.model == match request.model {
                    Some(model) => model,
                    None => spec.default_model,
                }
                &&& image_size(request, plan.job.model, spec.sizes) matches Ok(size)
                &&& plan.job.size == size.value
                &&& plan.job.width == size.width
                &&& plan.job.height == size.height
                &&& plan.job.provider == provider_name(request.context.provider)
                &&& plan.job.prompt == trimmed(request.prompt)
                &&& plan.job.mime_type == "image/png"@
                &&& plan.job.background == request.background
                &&& plan.job.background_processing == if plan.white_keying {
                    Some("white_keying"@)
                } else {
                    None
                }
                &&& plan.partial_images is None
                &&& plan.job.model != "qwen-image"@ && plan.job.model != "z-image-turbo"@
                    ==> plan.provider_size == plan.job.size
                &&& plan.job.model == "qwen-image"@ ==> plan.provider_size == "auto"@
                &&& plan.job.model == "z-image-turbo"@ ==> plan.provider_size == "1024*1024"@
            },
            Err(_) => {
                ||| trimmed(request.prompt).len() == 0
                ||| request.count == 0 || request.count > 10
                ||| image_spec_of(request.context.provider) is Err
                ||| request.background is Some && request.context.provider == Provider::Nanogpt
                ||| request.model is Some && !image_spec_of(
                    request.context.provider,
                )->Ok_0.models.contains(request.model->0)
                ||| image_size(
                    request,
                    match request.model {
                        Some(model) => model,
                        None => image_spec_of(request.context.provider)->Ok_0.default_model,
                    },
                    image_spec_of(request.context.provider)->Ok_0.sizes,
                ) is Err
            },
        },
{
    reveal_strlit("qwen-image");
    reveal_strlit("z-image-turbo");
    assert("qwen-image"@.len() == 10);
    assert("z-image-turbo"@.len() == 13);
    if let Ok(spec) = image_spec_of(request.context.provider) {
        lemma_default_is_offered(request.context.provider);
    }
}

proof fn lemma_default_is_offered(provider: Provider)
    ensures
        image_spec_of(provider) matches Ok(spec) ==> spec.models.contains(spec.default_model)
            && spec.sizes.len() > 0,
{
    if let Ok(spec) = image_spec_of(provider) {
        assert(spec.models[0] == spec.default_model);
    }
}

/// Every provider of images offers its default model, and Codex and Bedrock have
/// no endpoint for images.
pub proof fn a_provider_of_images_offers_its_default(provider: Provider)
    ensures
        image_spec_of(provider) is Ok <==> provider == Provider::Openai || provider
            == Provider::Azure || provider == Provider::Nanogpt,
        image_spec_of(provider) matches Ok(spec) ==> spec.models.contains(spec.default_model)
            && spec.sizes.len() > 0 && spec.sizes[0] == "1024x1024"@,
{
    lemma_default_is_offered(provider);
}

/// An image with previews is made as the plan without them, but that the previews
/// are asked for; several images are a batch, and Codex has a way of its own.
pub proof fn a_stream_is_planned_like_a_batch(request: ImageRequestView, partial_images: u8)
    ensures
        partial_images > 3 || request.count == 0 || request.count > 10 ==> stream_plan(
            request,
            partial_images,
        ) is Err,
        partial_images <= 3 && 1 < request.count <= 10 ==> stream_plan(request, partial_images)
            == Ok::<StreamPlanView, ErrorView>(StreamPlanView::Batch),
        partial_images <= 3 && request.count == 1 && request.context.provider == Provider::Codex
            ==> stream_plan(request, partial_images) == Ok::<StreamPlanView, ErrorView>(
            StreamPlanView::Codex,
        ),
        stream_plan(request, partial_images) matches Ok(StreamPlanView::Endpoint(plan)) ==> {
            &&& request.count == 1
            &&& request.context.provider == Provider::Openai || request.context.provider
                == Provider::Azure
            &&& plan.partial_images == Some(partial_images)
            &&& image_plan(request) matches Ok(batch)
            &&& plan == (ImagePlanView { partial_images: Some(partial_images), ..batch })
        },
        partial_images <= 3 && request.count == 1 && (request.context.provider == Provider::Openai
            || request.context.provider == Provider::Azure) && image_plan(request) is Ok
            ==> stream_plan(request, partial_images) is Ok,
{
    reveal_strlit("gpt-image-1");
    reveal_strlit("gpt-image-2");
    reveal_strlit("gpt-image-");
    assert("gpt-image-1"@.len() == 11 && "gpt-image-1"@[10] == '1');
    assert("gpt-image-2"@.len() == 11 && "gpt-image-2"@[10] == '2');
    assert("gpt-image-"@.len() == 10);
    assert("gpt-image-1"@.subrange(0, 11) =~= "gpt-image-1"@);
    assert("gpt-image-1"@.subrange(0, 10) =~= "gpt-image-"@);
    assert("gpt-image-2"@.subrange(0, 10) =~= "gpt-image-"@);
    if let Ok(spec) = image_spec_of(request.context.provider) {
        assert(request.context.provider != Provider::Nanogpt ==> forall|i: int|
            0 <= i < spec.models.len() ==> begins_with(#[trigger] spec.models[i], "gpt-image-"@));
    }
}

/// The body of a request for images names the model, the prompt, the size and how
/// many are wanted.
pub proof fn a_body_says_what_is_wanted(
    request: ImageRequestView,
    plan: ImagePlanView,
    contents: Seq<Seq<u8>>,
)
    ensures
        ({
            let body = image_body(request, plan, contents);
            let nano = request.context.provider == Provider::Nanogpt;
            &&& find(body, "model"@) == Some(JsonView::Text(plan.job.model))
            &&& find(body, "prompt"@) == Some(JsonView::Text(plan.provider_prompt))
            &&& find(body, "size"@) == Some(JsonView::Text(plan.provider_size))
            &&& find(body, "n"@) == Some(
                JsonView::Number(NumberView::PosInt(request.count as u64)),
            )
            &&& find(body, "response_format"@) == if nano {
                Some(JsonView::Text("url"@))
            } else {
                None
            }
            &&& find(body, "quality"@) == if nano {
                None
            } else {
                Some(
                    JsonView::Text(
                        match request.quality {
                            Some(quality) => quality,
                            None => "high"@,
                        },
                    ),
                )
            }
            &&& !nano ==> (plan.partial_images matches Some(partial) ==> find(body, "stream"@)
                == Some(JsonView::Bool(true)) && find(body, "partial_images"@) == Some(
                JsonView::Number(NumberView::PosInt(partial as u64)),
            ))
            &&& nano || plan.partial_images is None ==> find(body, "stream"@) is None && find(
                body,
                "partial_images"@,
            ) is None
            &&& find(body, "background"@) == if nano || request.background is None {
                None
            } else if plan.white_keying {
                Some(JsonView::Text("opaque"@))
            } else {
                Some(JsonView::Text(request.background->0))
            }
        }),
{
    broadcast use found_after_put;

    reveal_strlit("model");
    reveal_strlit("prompt");
    reveal_strlit("size");
    reveal_strlit("n");
    reveal_strlit("response_format");
    reveal_strlit("extra_body");
    reveal_strlit("quality");
    reveal_strlit("stream");
    reveal_strlit("partial_images");
    reveal_strlit("background");
    assert("model"@.len() == 5);
    assert("prompt"@.len() == 6 && "prompt"@[0] == 'p');
    assert("size"@.len() == 4);
    assert("n"@.len() == 1);
    assert("response_format"@.len() == 15);
    assert("extra_body"@.len() == 10 && "extra_body"@[0] == 'e');
    assert("quality"@.len() == 7);
    assert("stream"@.len() == 6 && "stream"@[0] == 's');
    assert("partial_images"@.len() == 14);
    assert("background"@.len() == 10 && "background"@[0] == 'b');
}

/// What a request to NanoGPT says beside the prompt goes before what is usual for
/// the model, and the images to go by come as addresses that hold them.
pub proof fn extras_of_a_request_go_first(
    request: ImageRequestView,
    plan: ImagePlanView,
    contents: Seq<Seq<u8>>,
    key: Seq<char>,
)
    requires
        forall|i: int, j: int|
            0 <= i < j < request.extra_body.len() ==> (#[trigger] request.extra_body[i]).0 != (
            #[trigger] request.extra_body[j]).0,
    ensures
        ({
            let extras = nanogpt_extras(request, plan, contents);
            &&& request.input_images.len() > 0 ==> find(extras, "imageDataUrls"@) == Some(
                JsonView::List(texts_json(data_urls(request.input_images, contents))),
            )
            &&& key != "imageDataUrls"@ || request.input_images.len() == 0 ==> find(extras, key)
                == match find(request.extra_body, key) {
                Some(own) => Some(own),
                None => find(model_extras(plan.job.model), key),
            }
        }),
{
    broadcast use found_after_put;

    lemma_merged(model_extras(plan.job.model), request.extra_body, key);
}

proof fn lemma_merged(object: ObjectView, more: ObjectView, key: Seq<char>)
    requires
        forall|i: int, j: int|
            0 <= i < j < more.len() ==> (#[trigger] more[i]).0 != (#[trigger] more[j]).0,
    ensures
        find(merged(object, more), key) == match find(more, key) {
            Some(own) => Some(own),
            None => find(object, key),
        },
    decreases more.len(),
{
    broadcast use found_after_put;

    if more.len() > 0 {
        let earlier = more.drop_last();
        assert forall|i: int, j: int| 0 <= i < j < earlier.len() implies (#[trigger] earlier[i]).0
            != (#[trigger] earlier[j]).0 by {
            assert(earlier[i] == more[i] && earlier[j] == more[j]);
        }
        lemma_merged(object, earlier, key);
        crate::requests::lemma_found_after_push(earlier, more.last(), key);
        assert(earlier.push(more.last()) =~= more);
        if more.last().0 == key {
            assert forall|i: int| 0 <= i < earlier.len() implies (#[trigger] earlier[i]).0 != key by {
                assert(earlier[i] == more[i]);
                assert(more[more.len() - 1].0 == key);
            }
            lemma_none(earlier, key);
        }
    }
}

proof fn lemma_none(object: ObjectView, key: Seq<char>)
    requires
        forall|i: int| 0 <= i < object.len() ==> (#[trigger] object[i]).0 != key,
    ensures
        find(object, key) is None,
    decreases object.len(),
{
    if object.len() > 0 {
        let rest = object.drop_first();
        assert forall|i: int| 0 <= i < rest.len() implies (#[trigger] rest[i]).0 != key by {
            assert(rest[i] == object[i + 1]);
        }
        assert(object[0].0 != key);
        lemma_none(rest, key);
    }
}

/// An image to go by is an address that holds it: as it is where it is one
/// already, else its bytes in base64.
pub proof fn images_to_go_by_are_held_in_addresses(
    images: Seq<Seq<char>>,
    contents: Seq<Seq<u8>>,
    i: int,
)
    requires
        0 <= i < images.len(),
    ensures
        data_urls(images, contents).len() == images.len(),
        begins_with(images[i], "data:"@) ==> data_urls(images, contents)[i] == images[i],
        !begins_with(images[i], "data:"@) ==> data_urls(images, contents)[i]
            == "data:image/png;base64,"@ + base64_text(contents[i]),
{
}

/// Whether the form has a field with that value, and no other of its name.
pub open spec fn has_field(
    fields: Seq<(Seq<char>, Seq<char>)>,
    name: Seq<char>,
    value: Seq<char>,
) -> bool {
    &&& exists|i: int| 0 <= i < fields.len() && #[trigger] fields[i] == (name, value)
    &&& forall|i: int| 0 <= i < fields.len() && (#[trigger] fields[i]).0 == name ==> fields[i].1 == value
}

/// Whether the form has no field of that name.
pub open spec fn lacks_field(fields: Seq<(Seq<char>, Seq<char>)>, name: Seq<char>) -> bool {
    forall|i: int| 0 <= i < fields.len() ==> (#[trigger] fields[i]).0 != name
}

/// A form that asks for changed images says what a body says, and how close the
/// images are to be kept to where the model can be told so.
#[verifier::rlimit(40)]
pub proof fn a_form_says_what_is_wanted(request: ImageRequestView, plan: ImagePlanView)
    ensures
        ({
            let fields = image_fields(request, plan);
            &&& has_field(fields, "model"@, plan.job.model)
            &&& has_field(fields, "prompt"@, plan.provider_prompt)
            &&& has_field(fields, "size"@, plan.provider_size)
            &&& has_field(fields, "n"@, decimal(request.count as nat))
            &&& has_field(
                fields,
                "quality"@,
                match request.quality {
                    Some(quality) => quality,
                    None => "high"@,
                },
            )
            &&& match plan.partial_images {
                Some(partial) => has_field(fields, "stream"@, "true"@) && has_field(
                    fields,
                    "partial_images"@,
                    decimal(partial as nat),
                ),
                None => lacks_field(fields, "stream"@) && lacks_field(fields, "partial_images"@),
            }
            &&& match request.background {
                Some(background) => has_field(
                    fields,
                    "background"@,
                    if plan.white_keying {
                        "opaque"@
                    } else {
                        background
                    },
                ),
                None => lacks_field(fields, "background"@),
            }
            &&& match request.input_fidelity {
                Some(fidelity) => if is_image_2(plan.job.model) {
                    lacks_field(fields, "input_fidelity"@)
                } else {
                    has_field(fields, "input_fidelity"@, fidelity)
                },
                None => lacks_field(fields, "input_fidelity"@),
            }
        }),
{
    reveal_strlit("model");
    reveal_strlit("prompt");
    reveal_strlit("size");
    reveal_strlit("n");
    reveal_strlit("quality");
    reveal_strlit("stream");
    reveal_strlit("partial_images");
    reveal_strlit("background");
    reveal_strlit("input_fidelity");
    assert("model"@.len() == 5);
    assert("prompt"@.len() == 6 && "prompt"@[0] == 'p');
    assert("size"@.len() == 4);
    assert("n"@.len() == 1);
    assert("quality"@.len() == 7);
    assert("stream"@.len() == 6 && "stream"@[0] == 's');
    assert("partial_images"@.len() == 14 && "partial_images"@[0] == 'p');
    assert("background"@.len() == 10);
    assert("input_fidelity"@.len() == 14 && "input_fidelity"@[0] == 'i');
    let fields = image_fields(request, plan);
    assert(fields[0].0 == "model"@ && fields[1].0 == "prompt"@ && fields[2].0 == "size"@
        && fields[3].0 == "n"@ && fields[4].0 == "quality"@);
    let n: int = if plan.partial_images is Some {
        7
    } else {
        5
    };
    if plan.partial_images is Some {
        assert(fields[5].0 == "stream"@ && fields[6].0 == "partial_images"@);
    }
    if request.background is Some {
        assert(fields[n].0 == "background"@);
    }
    let m: int = if request.background is Some {
        n + 1
    } else {
        n
    };
    if request.input_fidelity is Some && !is_image_2(plan.job.model) {
        assert(fields[m].0 == "input_fidelity"@);
        assert(fields.len() == m + 1);
    } else {
        assert(fields.len() == m);
    }
}

/// Images that are handed over go into the form one for one, each with its own
/// bytes and under the last part of its path.
pub proof fn a_form_holds_the_images(images: Seq<Seq<char>>, contents: Seq<Seq<u8>>, i: int)
    requires
        0 <= i < images.len(),
    ensures
        image_files(images, contents).len() == images.len(),
        image_files(images, contents)[i].content == contents[i],
        image_files(images, contents)[i].name == last_piece(images[i], '/'),
{
}

/// A request for new images goes to `generations` with a body, one for changed
/// images to `edits` with a form; NanoGPT takes both with a body. The key goes with
/// it.
pub proof fn a_request_for_images_goes_to_its_endpoint(
    request: ImageRequestView,
    plan: ImagePlanView,
    contents: Seq<Seq<u8>>,
)
    ensures
        image_call_of(request, plan, contents) matches Ok(call) ==> {
            let base = match request.context.base_url {
                Some(url) if url.len() > 0 => url,
                _ => image_base(request.context.provider),
            };
            &&& find(call.headers, "Authorization"@) == Some(
                "Bearer "@ + request.context.api_key,
            )
            &&& if request.input_images.len() > 0 && request.context.provider != Provider::Nanogpt {
                &&& endpoint(base, "images/"@ + "edits"@, request.context.query) == Ok::<
                    Seq<char>,
                    ErrorView,
                >(call.url)
                &&& call.payload == (ImagePayloadView::Form {
                    fields: image_fields(request, plan),
                    files: image_files(request.input_images, contents),
                })
            } else {
                &&& endpoint(base, "images/"@ + "generations"@, request.context.query) == Ok::<
                    Seq<char>,
                    ErrorView,
                >(call.url)
                &&& call.payload == ImagePayloadView::Body(
                    JsonView::Object(image_body(request, plan, contents)),
                )
            }
        },
{
    broadcast use found_after_put;

    reveal_strlit("Authorization");
    reveal_strlit("User-Agent");
    assert("Authorization"@.len() == 13);
    assert("User-Agent"@.len() == 10);
}

/// The headers of a context go along with a request for images.
pub proof fn headers_go_along_with_images(context: ContextView, key: Seq<char>)
    ensures
        find(image_headers(context), "Authorization"@) == Some("Bearer "@ + context.api_key),
        find(context.headers, "User-Agent"@) is None ==> find(image_headers(context), "User-Agent"@)
            == Some("lmx/"@ + crate::VERSION@),
        key != "Authorization"@ ==> (find(context.headers, key) matches Some(value) ==> find(
            image_headers(context),
            key,
        ) == Some(value)),
        key != "Authorization"@ && key != "User-Agent"@ && find(context.headers, key) is None
            ==> find(image_headers(context), key) is None,
{
    broadcast use found_after_put;

    reveal_strlit("Authorization");
    reveal_strlit("User-Agent");
    assert("Authorization"@.len() == 13);
    assert("User-Agent"@.len() == 10);
}

/// An answer holds as many images as were asked for, or it is none.
pub proof fn an_answer_holds_every_image(response: JsonView, count: u8)
    ensures
        match answered_images(response, count) {
            Ok(images) => images.len() == count && field(response, "data"@) == Some(
                JsonView::List(images),
            ),
            Err(_) => !(field(response, "data"@) matches Some(JsonView::List(images))
                && images.len() == count),
        },
{
}

/// An image of an answer is the bytes that it holds, or what stands at its address.
pub proof fn an_image_is_held_or_stands_at_an_address(image: JsonView, text: Seq<char>)
    requires
        text.len() > 0,
    ensures
        field(image, "b64_json"@) == Some(JsonView::Text(text)) ==> match base64_bytes(text) {
            Ok(bytes) => image_source_of(image) == Ok::<ImageSourceView, ErrorView>(
                ImageSourceView::Content(bytes),
            ),
            Err(_) => image_source_of(image) is Err,
        },
        field(image, "b64_json"@) is None && field(image, "url"@) == Some(JsonView::Text(text))
            ==> image_source_of(image) == Ok::<ImageSourceView, ErrorView>(
            ImageSourceView::Address(text),
        ),
        field(image, "b64_json"@) is None && field(image, "url"@) is None ==> image_source_of(
            image,
        ) is Err,
{
}

/// An image is handed on as it came, with its type; where its ground is taken
/// away, what is handed on is the PNG file of the pixels without it.
pub proof fn an_image_is_handed_on(
    job: ImageJobView,
    content: Seq<u8>,
    content_type: Seq<char>,
    colors: Seq<u8>,
)
    ensures
        answered_image(job, content, content_type, false, colors) matches Ok(result) && {
            &&& result.content_base64 == base64_text(content)
            &&& result.content_type == content_type
            &&& result.job == (ImageJobView { mime_type: content_type, ..job })
        },
        match (decoded_image(content), answered_image(job, content, content_type, true, colors)) {
            (Ok(image), Ok(result)) => {
                let clear = keyed(image, colors);
                &&& png_file(clear.0, clear.1, clear.2) matches Ok(file)
                &&& result.content_base64 == base64_text(file)
                &&& result.content_type == "image/png"@
                &&& result.job == (ImageJobView { mime_type: "image/png"@, ..job })
            },
            (Err(_), Ok(_)) => false,
            (Ok(image), Err(_)) => png_file(
                keyed(image, colors).0,
                keyed(image, colors).1,
                keyed(image, colors).2,
            ) is Err,
            (Err(_), Err(_)) => true,
        },
{
}

/// A preview is told with its number, and the image with its usage, in whatever
/// way the kind of an event is said.
pub proof fn a_stream_tells_previews_and_the_image(
    job: ImageJobView,
    name: Seq<char>,
    payload: JsonView,
    encoded: Seq<char>,
    bytes: Seq<u8>,
    colors: Seq<u8>,
)
    requires
        encoded.len() > 0,
        field(payload, "b64_json"@) == Some(JsonView::Text(encoded)),
        base64_bytes(encoded) == Ok::<Seq<u8>, Seq<char>>(bytes),
    ensures
        ({
            let kind = match text_field(payload, "type"@) {
                Some(kind) => kind,
                None => name,
            };
            let told = payload_events(job, false, name, payload, colors);
            let result = ImageResultView {
                job,
                content_base64: base64_text(bytes),
                content_type: job.mime_type,
            };
            &&& kind == "image_generation.completed"@ || kind == "image_edit.completed"@ ==> told
                == Ok::<(Seq<ImageEventView>, bool), ErrorView>(
                (
                    seq![
                        ImageEventView::Completed { image_index: 0, result },
                        ImageEventView::BatchCompleted { usage: field(payload, "usage"@) },
                    ],
                    true,
                ),
            )
            &&& kind == "image_generation.partial_image"@ || kind == "image_edit.partial_image"@
                ==> match number_field(payload, "partial_image_index"@) {
                Some(index) => if index < 256 {
                    told == Ok::<(Seq<ImageEventView>, bool), ErrorView>(
                        (
                            seq![
                                ImageEventView::Partial {
                                    image_index: 0,
                                    partial_index: index as u8,
                                    result,
                                },
                            ],
                            false,
                        ),
                    )
                } else {
                    told is Err
                },
                None => told is Err,
            }
        }),
{
    reveal_strlit("image_generation.completed");
    reveal_strlit("image_edit.completed");
    reveal_strlit("image_generation.partial_image");
    reveal_strlit("image_edit.partial_image");
    assert("image_generation.completed"@.len() == 26);
    assert("image_edit.completed"@.len() == 20);
    assert("image_generation.partial_image"@.len() == 30);
    assert("image_edit.partial_image"@.len() == 24);
}

/// Codex is asked for an image by a message with the prompt and the images to go
/// by, and by the one tool that makes it, which it has to use.
#[verifier::rlimit(40)]
pub proof fn codex_is_asked_for_an_image(
    request: ImageRequestView,
    contents: Seq<Seq<u8>>,
    partial_images: Option<u8>,
)
    ensures
        codex_image_request(request, contents, partial_images) matches Ok(asked) ==> {
            let message = JsonView::Object(asked.input[0]);
            let tool = asked.tools[0];
            &&& trimmed(request.prompt).len() > 0
            &&& asked.context == request.context
            &&& asked.model == request.model
            &&& asked.codex_protocol == Some(CodexProtocol::ResponsesStandard)
            &&& asked.tool_choice == Some(JsonView::Text("required"@))
            &&& asked.text_verbosity == "low"@
            &&& asked.instructions == ""@
            &&& asked.reasoning_effort is None && asked.text_format is None
                && asked.context_management is None
            &&& asked.input.len() == 1
            &&& asked.tools.len() == 1
            &&& text_field(tool, "type"@) == Some("image_generation"@)
            &&& text_field(tool, "action"@) == Some(
                if request.input_images.len() == 0 {
                    "generate"@
                } else {
                    "edit"@
                },
            )
            &&& text_field(tool, "quality"@) == request.quality
            &&& text_field(tool, "background"@) == request.background
            &&& text_field(tool, "size"@) == match (request.size, request.width, request.height) {
                (Some(size), _, _) => Some(size),
                (None, Some(width), Some(height)) => Some(size_text(width, height)),
                _ => None,
            }
            &&& number_field(tool, "partial_images"@) == match partial_images {
                Some(partial) => Some(partial as u64),
                None => None,
            }
            &&& text_field(message, "type"@) == Some("message"@)
            &&& text_field(message, "role"@) == Some("user"@)
            &&& field(message, "content"@) matches Some(JsonView::List(parts))
            &&& parts.len() == 1 + request.input_images.len()
            &&& text_field(parts[0], "type"@) == Some("input_text"@)
            &&& text_field(parts[0], "text"@) == Some(trimmed(request.prompt))
            &&& forall|i: int|
                0 <= i < request.input_images.len() ==> text_field(
                    #[trigger] parts[i + 1],
                    "type"@,
                ) == Some("input_image"@) && text_field(parts[i + 1], "image_url"@) == Some(
                    path_data_url(request.input_images[i], contents[i]),
                )
        },
        codex_image_request(request, contents, partial_images) is Ok <==> trimmed(
            request.prompt,
        ).len() > 0 && request.input_fidelity is None && request.extra_body.len() == 0 && (
        request.size is Some || (request.width is Some <==> request.height is Some)),
{
    broadcast use found_after_put;

    reveal_strlit("type");
    reveal_strlit("action");
    reveal_strlit("quality");
    reveal_strlit("size");
    reveal_strlit("background");
    reveal_strlit("partial_images");
    reveal_strlit("role");
    reveal_strlit("content");
    reveal_strlit("text");
    reveal_strlit("image_url");
    assert("type"@.len() == 4 && "type"@[0] == 't' && "type"@[1] == 'y');
    assert("action"@.len() == 6);
    assert("quality"@.len() == 7 && "quality"@[0] == 'q');
    assert("size"@.len() == 4 && "size"@[0] == 's');
    assert("background"@.len() == 10);
    assert("partial_images"@.len() == 14);
    assert("role"@.len() == 4 && "role"@[0] == 'r');
    assert("content"@.len() == 7 && "content"@[0] == 'c');
    assert("text"@.len() == 4 && "text"@[0] == 't' && "text"@[1] == 'e');
    assert("image_url"@.len() == 9);
    if let Ok(asked) = codex_image_request(request, contents, partial_images) {
        let parts = field(JsonView::Object(asked.input[0]), "content"@)->0->List_0;
        assert forall|i: int| 0 <= i < request.input_images.len() implies text_field(
            #[trigger] parts[i + 1],
            "type"@,
        ) == Some("input_image"@) && text_field(parts[i + 1], "image_url"@) == Some(
            path_data_url(request.input_images[i], contents[i]),
        ) by {}
    }
}

/// An address that holds an image says its kind, by the end of its path in
/// whatever case, and its bytes in base64.
pub proof fn an_address_says_the_kind_of_its_image(path: Seq<char>, content: Seq<u8>)
    ensures
        ({
            let end = ascii_lower_text(last_piece(path, '.'));
            let kind = media_type_of(path);
            &&& path_data_url(path, content) == "data:"@ + kind + ";base64,"@ + base64_text(content)
            &&& kind == "image/jpeg"@ <==> end == "jpg"@ || end == "jpeg"@
            &&& kind == "image/webp"@ <==> end == "webp"@
            &&& kind == "image/gif"@ <==> end == "gif"@
            &&& end != "jpg"@ && end != "jpeg"@ && end != "webp"@ && end != "gif"@ ==> kind
                == "image/png"@
        }),
{
    reveal_strlit("jpg");
    reveal_strlit("jpeg");
    reveal_strlit("webp");
    reveal_strlit("gif");
    reveal_strlit("image/jpeg");
    reveal_strlit("image/webp");
    reveal_strlit("image/gif");
    reveal_strlit("image/png");
    assert("jpg"@.len() == 3 && "jpg"@[0] == 'j');
    assert("jpeg"@.len() == 4 && "jpeg"@[0] == 'j');
    assert("webp"@.len() == 4 && "webp"@[0] == 'w');
    assert("gif"@.len() == 3 && "gif"@[0] == 'g');
    assert("image/jpeg"@.len() == 10 && "image/jpeg"@[6] == 'j');
    assert("image/webp"@.len() == 10 && "image/webp"@[6] == 'w');
    assert("image/gif"@.len() == 9 && "image/gif"@[6] == 'g');
    assert("image/png"@.len() == 9 && "image/png"@[6] == 'p');
}

/// What an image by Codex was made from.
pub proof fn codex_says_what_an_image_was_made_from(request: ImageRequestView, model: Seq<char>)
    ensures
        codex_job(request, model) matches Ok(job) ==> {
            &&& job.provider == "codex"@
            &&& job.model == model
            &&& job.prompt == trimmed(request.prompt)
            &&& job.background == request.background
            &&& job.mime_type == "image/png"@
            &&& request.size matches Some(size) ==> job.size == size
            &&& request.size is None ==> match (request.width, request.height) {
                (Some(width), Some(height)) => job.size == size_text(width, height) && job.width
                    == Some(width) && job.height == Some(height),
                _ => job.size == "auto"@ && job.width is None && job.height is None,
            }
        },
{
    if request.size is None && request.width is Some && request.height is Some {
        let width = request.width->0;
        let height = request.height->0;
        a_written_size_is_read_back(width, height);
        lemma_decimal(width as nat);
        reveal_strlit("auto");
        assert(is_digit(decimal(width as nat)[0]));
        assert(size_text(width, height)[0] == decimal(width as nat)[0]);
        assert("auto"@[0] == 'a');
    }
}

/// The image of a response is the result of its first call of the tool that makes
/// images, whatever stands before it.
pub proof fn the_image_is_the_result_of_the_call(
    before: Seq<ObjectView>,
    call: ObjectView,
    after: Seq<ObjectView>,
    encoded: Seq<char>,
)
    requires
        forall|i: int|
            0 <= i < before.len() ==> text_member(#[trigger] before[i], "type"@) != Some(
                "image_generation_call"@,
            ),
        find(call, "type"@) == Some(JsonView::Text("image_generation_call"@)),
        find(call, "result"@) == Some(JsonView::Text(encoded)),
    ensures
        codex_image_text(before + seq![call] + after) == encoded,
    decreases before.len(),
{
    let items = before + seq![call] + after;
    if before.len() == 0 {
        assert(items[0] == call);
    } else {
        assert(items[0] == before[0]);
        let rest = before.drop_first();
        assert forall|i: int| 0 <= i < rest.len() implies text_member(
            #[trigger] rest[i],
            "type"@,
        ) != Some("image_generation_call"@) by {
            assert(rest[i] == before[i + 1]);
        }
        assert(items.drop_first() =~= rest + seq![call] + after);
        the_image_is_the_result_of_the_call(rest, call, after, encoded);
    }
}

/// A round that completes its response with an image gives that image, and one
/// that does not is an error.
pub proof fn a_complete_round_gives_its_image(
    request: ImageRequestView,
    next: ActionView,
    bytes: Seq<u8>,
)
    ensures
        next matches ActionView::Completed { result } ==> {
            let encoded = codex_image_text(result.output_items);
            &&& encoded.len() == 0 ==> codex_round_image(request, next) is Err
            &&& encoded.len() > 0 && base64_bytes(encoded) == Ok::<Seq<u8>, Seq<char>>(bytes)
                && codex_job(request, result.model) is Ok ==> {
                &&& codex_round_image(request, next) matches Ok(image)
                &&& image.content_base64 == base64_text(bytes)
                &&& image.content_type == "image/png"@
                &&& image.job == codex_job(request, result.model)->Ok_0
                &&& codex_end_events(request, next) matches Ok(events)
                &&& events.len() == 2
                &&& events[0] == (ImageEventView::Completed { image_index: 0, result: image })
                &&& events[1] == (ImageEventView::BatchCompleted { usage: None })
            }
        },
        !(next is Completed) ==> codex_round_image(request, next) is Err,
{
}

/// Complete images are told one for one under their numbers, and then the end.
pub proof fn complete_images_are_told_under_their_numbers(batch: ImageBatchView, i: int)
    requires
        0 <= i < batch.images.len() <= 256,
    ensures
        complete_events(batch).len() == batch.images.len() + 1,
        complete_events(batch)[i] matches ImageEventView::Completed { image_index, result }
            && image_index == i && result == batch.images[i],
        complete_events(batch).last() == (ImageEventView::BatchCompleted { usage: batch.usage }),
{
}

/// A preview of Codex is told with its number and its bytes.
pub proof fn codex_tells_its_previews(
    job: ImageJobView,
    index: u8,
    encoded: Seq<char>,
    bytes: Seq<u8>,
)
    requires
        base64_bytes(encoded) == Ok::<Seq<u8>, Seq<char>>(bytes),
    ensures
        codex_preview(
            job,
            EventView::ImageGenerationPartial {
                partial_image_index: index,
                partial_image_base64: encoded,
            },
        ) matches Ok(Some(ImageEventView::Partial { image_index, partial_index, result }))
            && image_index == 0 && partial_index == index && result.content_base64 == base64_text(
            bytes,
        ) && result.job == job,
{
}

/// A request for images can go out where its context or its provider has an address.
pub proof fn a_request_for_images_needs_an_address(
    context: ContextView,
    fallback: Seq<char>,
    route: Seq<char>,
)
    ensures
        ({
            let base = match context.base_url {
                Some(url) if url.len() > 0 => url,
                _ => fallback,
            };
            image_address(context, fallback, route) == if base.len() == 0 {
                Err::<Seq<char>, ErrorView>(
                    ErrorView::MissingBaseUrl(provider_name(context.provider)),
                )
            } else {
                endpoint(base, "images/"@ + route, context.query)
            }
        }),
        image_base(Provider::Openai) == "https://api.openai.com/v1"@,
        image_base(Provider::Nanogpt) == "https://nano-gpt.com/v1"@,
        image_base(Provider::Azure) == ""@,
{
}

/// What the providers of images offer.
pub proof fn providers_of_images_offer_these_models()
    ensures
        image_spec_of(Provider::Openai) matches Ok(spec) && spec.models == seq![
            "gpt-image-1"@,
            "gpt-image-2"@,
        ] && spec.default_model == "gpt-image-1"@ && spec.sizes == seq![
            "1024x1024"@,
            "1536x1024"@,
            "1024x1536"@,
        ],
        image_spec_of(Provider::Azure) matches Ok(spec) && spec.models == seq![
            "gpt-image-2"@,
            "gpt-image-1"@,
        ] && spec.default_model == "gpt-image-2"@ && spec.sizes == seq![
            "1024x1024"@,
            "1536x1024"@,
            "1024x1536"@,
        ],
        image_spec_of(Provider::Nanogpt) matches Ok(spec) && spec.models == seq![
            "qwen-image"@,
            "z-image-turbo"@,
            "hidream"@,
            "chroma"@,
        ] && spec.default_model == "qwen-image"@ && spec.sizes == seq!["1024x1024"@],
{
}

/// What is usual for the models of NanoGPT.
pub proof fn models_of_nanogpt_have_their_extras()
    ensures
        ({
            let qwen = model_extras("qwen-image"@);
            let hidream = model_extras("hidream"@);
            let chroma = model_extras("chroma"@);
            &&& find(qwen, "num_inference_steps"@) == Some(JsonView::Number(NumberView::PosInt(30)))
            &&& find(qwen, "guidance_scale"@) == Some(JsonView::Number(NumberView::Decimal("2.5"@)))
            &&& find(qwen, "enable_safety_checker"@) == Some(JsonView::Bool(true))
            &&& find(qwen, "negative_prompt"@) == Some(JsonView::Text(" "@))
            &&& find(hidream, "num_inference_steps"@) == Some(
                JsonView::Number(NumberView::PosInt(50)),
            )
            &&& find(hidream, "guidance_scale"@) == Some(JsonView::Number(NumberView::PosInt(5)))
            &&& find(chroma, "num_inference_steps"@) == Some(
                JsonView::Number(NumberView::PosInt(25)),
            )
            &&& find(chroma, "guidance_scale"@) == Some(
                JsonView::Number(NumberView::Decimal("4.5"@)),
            )
            &&& find(chroma, "negative_prompt"@) == Some(JsonView::Text(""@))
            &&& model_extras("z-image-turbo"@) == Seq::<(Seq<char>, JsonView)>::empty()
        }),
{
    broadcast use found_after_put;

    reveal_strlit("qwen-image");
    reveal_strlit("hidream");
    reveal_strlit("chroma");
    reveal_strlit("z-image-turbo");
    reveal_strlit("num_inference_steps");
    reveal_strlit("guidance_scale");
    reveal_strlit("enable_safety_checker");
    reveal_strlit("negative_prompt");
    assert("qwen-image"@.len() == 10);
    assert("hidream"@.len() == 7);
    assert("chroma"@.len() == 6);
    assert("z-image-turbo"@.len() == 13);
    assert("num_inference_steps"@.len() == 19);
    assert("guidance_scale"@.len() == 14);
    assert("enable_safety_checker"@.len() == 21);
    assert("negative_prompt"@.len() == 15);
}

/// The models of the family `gpt-image-2` are told by their names.
pub proof fn a_model_of_gpt_image_2_is_told_by_its_name(rest: Seq<char>)
    ensures
        is_image_2("gpt-image-2"@),
        is_image_2("gpt-image-2-"@ + rest),
        !is_image_2("gpt-image-1"@),
{
    reveal_strlit("gpt-image-2");
    reveal_strlit("gpt-image-1");
    reveal_strlit("gpt-image-2-");
    assert("gpt-image-2"@.len() == 11 && "gpt-image-2"@[10] == '2');
    assert("gpt-image-1"@.len() == 11 && "gpt-image-1"@[10] == '1');
    assert("gpt-image-2-"@.len() == 12);
    crate::wording::what_was_put_to_a_text_is_taken_again(rest, "gpt-image-2-"@);
}

/// A part of an image stream is the event that it writes; the mark of the end and
/// blank parts tell nothing.
pub proof fn a_part_of_an_image_stream_is_its_event(
    job: ImageJobView,
    white_keying: bool,
    name: Seq<char>,
    data: Seq<char>,
    colors: Seq<u8>,
)
    ensures
        data == "[DONE]"@ || trimmed(data).len() == 0 ==> data_events(
            job,
            white_keying,
            name,
            data,
            colors,
        ) == Ok::<(Seq<ImageEventView>, bool), ErrorView>((Seq::empty(), false)),
        data != "[DONE]"@ && trimmed(data).len() > 0 ==> match parsed_json(data) {
            Ok(payload) => data_events(job, white_keying, name, data, colors) == payload_events(
                job,
                white_keying,
                name,
                payload,
                colors,
            ),
            Err(message) => data_events(job, white_keying, name, data, colors) == Err::<
                (Seq<ImageEventView>, bool),
                ErrorView,
            >(ErrorView::Json(message)),
        },
{
}

/// An event of an image stream that holds no image is an error where it should, and
/// any other event tells nothing.
pub proof fn an_event_without_an_image_is_an_error(
    job: ImageJobView,
    white_keying: bool,
    name: Seq<char>,
    payload: JsonView,
    colors: Seq<u8>,
)
    ensures
        ({
            let kind = match text_field(payload, "type"@) {
                Some(kind) => kind,
                None => name,
            };
            let brings = kind == "image_generation.completed"@ || kind == "image_edit.completed"@
                || kind == "image_generation.partial_image"@ || kind == "image_edit.partial_image"@;
            &&& brings && field(payload, "b64_json"@) is None ==> payload_events(
                job,
                white_keying,
                name,
                payload,
                colors,
            ) is Err
            &&& !brings ==> payload_events(job, white_keying, name, payload, colors) == Ok::<
                (Seq<ImageEventView>, bool),
                ErrorView,
            >((Seq::empty(), false))
        }),
{
}

/// An image that came as base64 is handed on as it is, or without its ground as a PNG
/// file.
pub proof fn an_encoded_image_is_handed_on(
    job: ImageJobView,
    bytes: Seq<u8>,
    colors: Seq<u8>,
    message: Seq<char>,
)
    ensures
        encoded_image(job, Ok(bytes), false, colors) == Ok::<ImageResultView, ErrorView>(
            ImageResultView {
                job,
                content_base64: base64_text(bytes),
                content_type: job.mime_type,
            },
        ),
        decoded_image(bytes) matches Ok(image) ==> {
            let clear = keyed(image, colors);
            match png_file(clear.0, clear.1, clear.2) {
                Ok(file) => encoded_image(job, Ok(bytes), true, colors) == Ok::<
                    ImageResultView,
                    ErrorView,
                >(
                    ImageResultView {
                        job,
                        content_base64: base64_text(file),
                        content_type: "image/png"@,
                    },
                ),
                Err(_) => encoded_image(job, Ok(bytes), true, colors) is Err,
            }
        },
        decoded_image(bytes) is Err ==> encoded_image(job, Ok(bytes), true, colors) is Err,
        encoded_image(job, Err(message), false, colors) is Err,
        encoded_image(job, Err(message), true, colors) is Err,
{
}

/// Only an address that holds its image goes to NanoGPT unread.
pub proof fn images_to_go_by_are_read(provider: Provider, image: Seq<char>)
    ensures
        provider != Provider::Nanogpt ==> is_file(provider, image),
        provider == Provider::Nanogpt ==> (is_file(provider, image) <==> !begins_with(
            image,
            "data:"@,
        )),
{
}

/// Of the events of a response only previews tell something of its image.
pub proof fn only_previews_tell_of_an_image(job: ImageJobView, event: EventView)
    requires
        !(event is ImageGenerationPartial),
    ensures
        codex_preview(job, event) == Ok::<Option<ImageEventView>, ErrorView>(None),
{
}

/// A request for images goes out wherever it has an address to go to.
pub proof fn a_request_for_images_goes_out(
    request: ImageRequestView,
    plan: ImagePlanView,
    contents: Seq<Seq<u8>>,
)
    ensures
        ({
            let route = if request.input_images.len() > 0 && request.context.provider
                != Provider::Nanogpt {
                "edits"@
            } else {
                "generations"@
            };
            image_call_of(request, plan, contents) is Ok <==> image_address(
                request.context,
                image_base(request.context.provider),
                route,
            ) is Ok
        }),
{
}

/// A size that is offered is had, and so is one that `gpt-image-2` chooses itself.
pub proof fn an_offered_size_is_had(
    request: ImageRequestView,
    model: Seq<char>,
    sizes: Seq<Seq<char>>,
    size: Seq<char>,
)
    requires
        request.size == Some(size),
    ensures
        is_image_2(model) && size == "auto"@ ==> image_size(request, model, sizes) is Ok,
        !is_image_2(model) ==> (image_size(request, model, sizes) is Ok <==> sizes.contains(size)
            && dimensions(size) is Ok),
        is_image_2(model) && size != "auto"@ ==> (image_size(request, model, sizes) is Ok <==> (
        dimensions(size) matches Ok((width, height)) && fits_gpt_image_2(
            width as int,
            height as int,
        ))),
{
}

/// What an image by Codex was made from is known, unless its size cannot be read or
/// only one of its edges is given.
pub proof fn codex_knows_what_an_image_was_made_from(request: ImageRequestView, model: Seq<char>)
    ensures
        codex_job(request, model) is Ok <==> match request.size {
            Some(size) => size == "auto"@ || dimensions(size) is Ok,
            None => request.width is Some <==> request.height is Some,
        },
{
    reveal_strlit("auto");
    if request.size is None && request.width is Some && request.height is Some {
        a_written_size_is_read_back(request.width->0, request.height->0);
    }
}

} // verus!
