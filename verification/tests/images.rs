//! Images and their transparency.
use base64::engine::general_purpose::STANDARD;
use base64::Engine;
use image::{DynamicImage, ImageFormat, Rgba};
use lmx::chroma::{
    chroma_distance_squared, prompt_for_chroma_key, removable_pixels, replace_chroma_ground,
};
use lmx::images::{
    batch_events, check_batch, check_single, codex_completed_events, codex_image_job,
    codex_image_response_request, codex_image_result, codex_image_stream_request,
    codex_partial_event, first_image, image_call, image_of_round, image_path_data_url,
    image_result, image_result_from_base64, image_source, image_stream_events, openai_sizes,
    plan_images, plan_stream, resolve_size, response_images, ImageBatchResult, ImagePayload,
    ImageRequest, ImageSource, ImageStreamEvent, StreamPlan,
};
use lmx::json::{Json, JsonObject};
use lmx::keying::{
    prompt_for_white_key, remove_ground, remove_white_key_background, EdgeColors, WHITE_KEY_HEX,
};
use lmx::machine::ResponseMachine;
use lmx::matting::{apply_matte, prompt_for_foreground_matte};
use lmx::ordered::StringMap;
use lmx::pixels::{border_connected, read_image, write_png, Pixels};
use lmx::providers::{Provider, ProviderRegistry, RequestContext};
use lmx::response::{CoreEvent, InferenceHistoryUpdate, NextAction, ResponseResult};
use std::io::Cursor;

fn json(text: &str) -> Json {
    Json::from_text(text).unwrap()
}

fn request(size: Option<&str>, width: Option<u32>, height: Option<u32>) -> ImageRequest {
    ImageRequest {
        prompt: "test".into(),
        context: RequestContext {
            provider: Provider::Azure,
            api_key: "test".into(),
            base_url: None,
            headers: StringMap::new(),
            query: StringMap::new(),
        },
        model: None,
        size: size.map(str::to_owned),
        width,
        height,
        quality: None,
        background: None,
        input_images: Vec::new(),
        input_fidelity: None,
        count: 1,
        extra_body: JsonObject::new(),
    }
}

fn edge_colors() -> EdgeColors {
    let mut values = Vec::new();
    for alpha in 0..=255u8 {
        let alpha = f32::from(alpha) / 255.0;
        for channel in 0..=255u8 {
            let value = (f32::from(channel) - (1.0 - alpha) * 255.0) / alpha;
            values.push(value.round().clamp(0.0, 255.0) as u8);
        }
    }
    EdgeColors { values }
}

#[test]
fn gpt_image_2_accepts_auto_and_constrained_dimensions() {
    let automatic = resolve_size(
        &request(Some("auto"), None, None),
        "gpt-image-2",
        &openai_sizes(),
    )
    .unwrap();
    assert_eq!(automatic.value, "auto");
    assert_eq!(automatic.width, None);
    assert_eq!(automatic.height, None);

    for size in ["2048x2048", "3840x2160", "2160x3840"] {
        let resolved = resolve_size(
            &request(Some(size), None, None),
            "gpt-image-2",
            &openai_sizes(),
        )
        .unwrap();
        assert_eq!(resolved.value, size);
        assert_eq!(
            resolved.width.zip(resolved.height),
            size.split_once('x')
                .map(|(w, h)| (w.parse().unwrap(), h.parse().unwrap()))
        );
    }
}

#[test]
fn gpt_image_2_keeps_the_existing_default_size() {
    let resolved =
        resolve_size(&request(None, None, None), "gpt-image-2", &openai_sizes()).unwrap();
    assert_eq!(resolved.value, "1024x1024");
    assert_eq!(resolved.width, Some(1024));
    assert_eq!(resolved.height, Some(1024));
}

#[test]
fn gpt_image_2_rejects_dimensions_outside_its_constraints() {
    for size in [
        "1025x1024",
        "4096x1024",
        "1024x4096",
        "512x512",
        "3840x2176",
    ] {
        let error = resolve_size(
            &request(Some(size), None, None),
            "gpt-image-2",
            &openai_sizes(),
        )
        .unwrap_err();
        assert!(error.message().contains("unsupported gpt-image-2 size"));
    }
}

#[test]
fn other_models_keep_their_fixed_size_allowlists() {
    let resolved =
        resolve_size(&request(None, None, None), "gpt-image-1", &openai_sizes()).unwrap();
    assert_eq!(resolved.value, "1024x1024");

    let error = resolve_size(
        &request(Some("2048x2048"), None, None),
        "gpt-image-1",
        &openai_sizes(),
    )
    .unwrap_err();
    assert!(error.message().contains("unsupported image size"));
    assert_eq!(
        error.message(),
        "invalid response state: unsupported image size 2048x2048; supported: 1024x1024, 1536x1024, 1024x1536"
    );
}

#[test]
fn codex_images_use_the_responses_image_tool_and_normalize_its_result() {
    let request = ImageRequest {
        prompt: "A cobalt-blue square".into(),
        context: RequestContext {
            provider: Provider::Codex,
            api_key: "request-token".into(),
            base_url: None,
            headers: StringMap::single("ChatGPT-Account-ID", "account-123"),
            query: StringMap::new(),
        },
        model: Some("gpt-5.6-sol".into()),
        size: Some("1024x1024".into()),
        width: None,
        height: None,
        quality: Some("high".into()),
        background: None,
        input_images: Vec::new(),
        input_fidelity: None,
        count: 1,
        extra_body: JsonObject::new(),
    };
    let response_request = codex_image_response_request(&request, &Vec::new()).unwrap();
    let wire = ResponseMachine::new(&ProviderRegistry::default(), response_request)
        .unwrap()
        .wire_request()
        .unwrap();
    assert_eq!(wire.url, "https://chatgpt.com/backend-api/codex/responses");
    assert_eq!(wire.body.get_text("tool_choice"), Some("required"));
    let tool = wire.body.member("tools").at(0);
    assert_eq!(tool.get_text("type"), Some("image_generation"));
    assert_eq!(tool.get_text("action"), Some("generate"));
    assert_eq!(tool.get_text("size"), Some("1024x1024"));
    assert_eq!(
        wire.body
            .member("input")
            .at(0)
            .member("content")
            .at(0)
            .get_text("type"),
        Some("input_text")
    );

    let output = JsonObject::new()
        .with_text("type", "image_generation_call")
        .with_text("result", &STANDARD.encode(b"generated-image"));
    let image = codex_image_result(&request, "gpt-5.6-sol", &vec![output]).unwrap();
    assert_eq!(
        STANDARD.decode(image.content_base64).unwrap(),
        b"generated-image"
    );
    assert_eq!(image.job.provider, "codex");
}

#[test]
fn white_key_prompt_requests_an_isolated_sprite() {
    let prompt = prompt_for_white_key("Nathan in green robes");
    assert!(prompt.contains(WHITE_KEY_HEX));
    assert!(prompt.contains("character or sprite"));
    assert!(prompt.contains("separated from every image edge"));
}

#[test]
fn foreground_matte_prompt_requests_an_isolated_subject() {
    let prompt = prompt_for_foreground_matte("Nathan in green robes");
    assert!(prompt.contains("#FF00FF"));
    assert!(prompt.contains("separated from every image edge"));
}

#[test]
fn chroma_key_prompt_asks_for_a_magenta_ground() {
    let prompt = prompt_for_chroma_key("A fox \n");
    assert!(prompt.starts_with("A fox\n\nTransparency"));
    assert!(prompt.contains("exact RGB #FF00FF"));
}

#[test]
fn removes_only_border_connected_white_background() {
    let mut source = image::RgbaImage::from_pixel(5, 5, Rgba([255, 255, 255, 255]));
    source.put_pixel(2, 2, Rgba([255, 255, 255, 255]));
    source.put_pixel(1, 2, Rgba([200, 0, 0, 255]));
    source.put_pixel(2, 1, Rgba([200, 0, 0, 255]));
    source.put_pixel(3, 2, Rgba([200, 0, 0, 255]));
    source.put_pixel(2, 3, Rgba([200, 0, 0, 255]));
    let mut encoded = Cursor::new(Vec::new());
    DynamicImage::ImageRgba8(source)
        .write_to(&mut encoded, ImageFormat::Png)
        .unwrap();

    let result = remove_white_key_background(&encoded.into_inner(), &edge_colors()).unwrap();
    let result = image::load_from_memory(&result).unwrap().to_rgba8();
    assert_eq!(result.get_pixel(0, 0)[3], 0);
    assert_eq!(result.get_pixel(2, 2), &Rgba([255, 255, 255, 255]));
    assert_eq!(result.get_pixel(1, 2), &Rgba([200, 0, 0, 255]));
}

#[test]
fn an_edge_beside_the_ground_becomes_half_transparent() {
    let mut data = vec![255u8; 5 * 4];
    data[8..12].copy_from_slice(&[128, 200, 255, 77]);
    let image = Pixels {
        width: 5,
        height: 1,
        data,
    };
    let out = remove_ground(&image, &edge_colors());
    assert_eq!(&out.data[..8], &[0; 8]);
    assert_eq!(out.data[8], 0);
    assert_eq!(out.data[9], 145);
    assert_eq!(out.data[10], 255);
    assert_eq!(out.data[11], 127);
    assert_eq!(&out.data[12..], &[0; 8]);
}

#[test]
fn the_alpha_of_an_edge_is_its_distance_from_white() {
    for distance in 0..=255u8 {
        let alpha = f32::from(distance) / 255.0;
        assert_eq!((alpha * 255.0).round() as u8, distance);
    }
}

#[test]
fn a_bad_image_is_reported() {
    let error = remove_white_key_background(b"no image", &edge_colors()).unwrap_err();
    assert!(error.message().starts_with("image error: "));
}

#[test]
fn only_what_the_edge_leads_to_is_connected() {
    let picture = ["#..#.", "##.#.", ".#...", "...##", "#.#.#"];
    let marked: Vec<bool> = picture
        .iter()
        .flat_map(|row| row.chars().map(|c| c == '#'))
        .collect();
    let mask = border_connected(5, 5, &marked);
    let shown: Vec<String> = mask
        .chunks(5)
        .map(|row| row.iter().map(|on| if *on { '#' } else { '.' }).collect())
        .collect();
    assert_eq!(shown, ["#..#.", "##.#.", ".#...", "...##", "#.#.#"]);
    let island = [false, false, false, false, true, false, false, false, false].to_vec();
    assert_eq!(border_connected(3, 3, &island), [false; 9].to_vec());
    assert!(border_connected(0, 7, &Vec::new()).is_empty());
}

#[test]
fn magenta_reaches_from_the_edge() {
    assert_eq!(chroma_distance_squared(255, 0, 255), 0);
    assert_eq!(chroma_distance_squared(145, 0, 255), 12_100);
    let mut data = Vec::new();
    for red in [145u8, 144, 255] {
        data.extend([red, 0, 255, 255]);
    }
    let image = Pixels {
        width: 3,
        height: 1,
        data,
    };
    assert_eq!(removable_pixels(&image), [true, false, true]);
}

#[test]
fn only_the_magenta_ground_is_replaced() {
    let image = Pixels {
        width: 3,
        height: 1,
        data: vec![255, 0, 255, 255, 0, 255, 0, 255, 250, 5, 250, 9],
    };
    let out = replace_chroma_ground(&image, &(1..=12).collect());
    assert_eq!(out.data, [1, 2, 3, 4, 0, 255, 0, 255, 9, 10, 11, 12]);
}

#[test]
fn a_matte_cuts_an_image_out() {
    let image = Pixels {
        width: 3,
        height: 1,
        data: vec![7; 12],
    };
    let out = apply_matte(&image, &vec![3, 4, 255], &(1..=12).collect());
    assert_eq!(out.data, [0, 0, 0, 0, 5, 6, 7, 4, 7, 7, 7, 255]);
}

#[test]
fn an_image_is_written_and_read_back() {
    let data: Vec<u8> = (0..24).map(|n| n * 10).collect();
    let image = Pixels {
        width: 2,
        height: 3,
        data: data.clone(),
    };
    let file = write_png(image).unwrap();
    assert_eq!(&file[1..4], b"PNG");
    let image = read_image(&file).unwrap();
    assert_eq!((image.width, image.height), (2, 3));
    assert_eq!(image.data, data);
}

#[test]
fn complete_images_are_told_one_by_one() {
    let plan = plan_images(&request(None, None, None)).unwrap();
    let image = |text: &str| image_result_from_base64(&plan.job, text, false, &edge_colors());
    let batch = ImageBatchResult {
        images: vec![image("eA==").unwrap(), image("eQ==").unwrap()],
        usage: Some(Json::number(3)),
    };
    let events = batch_events(batch);
    assert!(matches!(
        events.as_slice(),
        [
            ImageStreamEvent::Completed { image_index: 0, .. },
            ImageStreamEvent::Completed { image_index: 1, result },
            ImageStreamEvent::BatchCompleted { usage: Some(_) },
        ] if result.content_base64 == "eQ=="
    ));
    let batch = ImageBatchResult {
        images: vec![image("eA==").unwrap(), image("eQ==").unwrap()],
        usage: None,
    };
    assert_eq!(first_image(batch).unwrap().content_base64, "eA==");
    let none = ImageBatchResult {
        images: Vec::new(),
        usage: None,
    };
    assert_eq!(
        first_image(none).unwrap_err().message(),
        "invalid provider event: image response did not include any images"
    );
}

#[test]
fn a_round_of_codex_ends_with_its_image() {
    let mut asked = request(None, None, None);
    asked.context.provider = Provider::Codex;
    let calls = NextAction::ToolCalls { calls: Vec::new() };
    assert_eq!(
        codex_completed_events(&asked, &calls).unwrap_err().message(),
        "invalid provider event: Codex image request unexpectedly requested a client-side tool call"
    );
    let next = NextAction::Completed {
        result: ResponseResult {
            provider: "codex".into(),
            model: "m".into(),
            output_items: vec![JsonObject::new()
                .with_text("type", "image_generation_call")
                .with_text("result", "eA==")],
            output_text: String::new(),
            tool_roundtrips: 0,
            response_id: None,
            usage: None,
            history_update: InferenceHistoryUpdate::Append { items: Vec::new() },
        },
    };
    assert_eq!(image_of_round(&asked, &next).unwrap().content_base64, "eA==");
    assert!(matches!(
        codex_completed_events(&asked, &next).unwrap().as_slice(),
        [
            ImageStreamEvent::Completed { image_index: 0, .. },
            ImageStreamEvent::BatchCompleted { usage: None },
        ]
    ));
}

#[test]
fn plans_requests_for_images() {
    let mut openai = request(None, None, None);
    openai.context.provider = Provider::Openai;
    openai.prompt = "  A cat ".into();
    let plan = plan_images(&openai).unwrap();
    assert_eq!(plan.job.model, "gpt-image-1");
    assert_eq!(plan.job.prompt, "A cat");
    let call = image_call(&openai, &plan, &Vec::new()).unwrap();
    assert_eq!(call.url, "https://api.openai.com/v1/images/generations");
    assert_eq!(call.headers.get("Authorization"), Some("Bearer test"));
    assert_eq!(call.headers.get("User-Agent"), Some("lmx/0.4.0"));
    let ImagePayload::Body(body) = call.payload else {
        panic!("expected a body")
    };
    assert_eq!(
        body,
        json(
            r#"{"model": "gpt-image-1", "prompt": "A cat", "size": "1024x1024", "n": 1,
                "quality": "high"}"#
        )
    );
    let mut azure = request(None, None, None);
    azure.background = Some("transparent".into());
    let plan = plan_images(&azure).unwrap();
    assert!(plan.white_keying);
    assert_eq!(plan.job.background_processing.as_deref(), Some("white_keying"));
    assert!(plan.provider_prompt.contains("#FFFFFF"));
    assert_eq!(
        image_call(&azure, &plan, &Vec::new()).unwrap_err().message(),
        "provider azure has no OpenAI-compatible base URL"
    );
}

#[test]
fn images_to_change_go_in_a_form() {
    let mut edit = request(None, Some(1024), Some(1536));
    edit.context.provider = Provider::Openai;
    edit.input_images = vec!["/tmp/a/cat.png".into()];
    edit.input_fidelity = Some("high".into());
    edit.background = Some("opaque".into());
    let plan = plan_images(&edit).unwrap();
    let call = image_call(&edit, &plan, &vec![b"png".to_vec()]).unwrap();
    assert_eq!(call.url, "https://api.openai.com/v1/images/edits");
    let ImagePayload::Form { fields, files } = call.payload else {
        panic!("expected a form")
    };
    let fields: Vec<(&str, &str)> = fields
        .iter()
        .map(|(name, value)| (name.as_str(), value.as_str()))
        .collect();
    assert_eq!(
        fields,
        [
            ("model", "gpt-image-1"),
            ("prompt", "test"),
            ("size", "1024x1536"),
            ("n", "1"),
            ("quality", "high"),
            ("background", "opaque"),
            ("input_fidelity", "high"),
        ]
    );
    assert_eq!(files[0].name, "cat.png");
    assert_eq!(files[0].content, b"png");
}

#[test]
fn nanogpt_gets_extras_and_data() {
    let mut nano = request(None, None, None);
    nano.context.provider = Provider::Nanogpt;
    nano.input_images = vec!["data:image/png;base64,eA==".into(), "b.png".into()];
    nano.extra_body = JsonObject::new().with("guidance_scale", Json::number(7));
    let plan = plan_images(&nano).unwrap();
    let call = image_call(&nano, &plan, &vec![vec![], b"x".to_vec()]).unwrap();
    let ImagePayload::Body(body) = call.payload else {
        panic!("expected a body")
    };
    assert_eq!(
        body,
        json(
            r#"{"model": "qwen-image", "prompt": "test", "size": "auto", "n": 1,
                "response_format": "url",
                "extra_body": {"num_inference_steps": 30, "guidance_scale": 7,
                    "enable_safety_checker": true, "negative_prompt": " ",
                    "imageDataUrls": ["data:image/png;base64,eA==", "data:image/png;base64,eA=="]}}"#
        )
    );
    nano.background = Some("opaque".into());
    assert_eq!(
        plan_images(&nano).unwrap_err().message(),
        "provider nanogpt does not support image background selection"
    );
    let mut chroma = request(None, None, None);
    chroma.context.provider = Provider::Nanogpt;
    chroma.model = Some("chroma".into());
    let plan = plan_images(&chroma).unwrap();
    let ImagePayload::Body(body) = image_call(&chroma, &plan, &Vec::new()).unwrap().payload else {
        panic!("expected a body")
    };
    assert_eq!(
        body.member("extra_body").member("guidance_scale"),
        &json("4.5")
    );
}

#[test]
fn refuses_bad_requests_for_images() {
    let mut blank = request(None, None, None);
    blank.prompt = " ".into();
    assert!(check_batch(&blank).is_err());
    let mut many = request(None, None, None);
    many.count = 11;
    assert_eq!(
        check_batch(&many).unwrap_err().message(),
        "invalid response state: count must be between 1 and 10"
    );
    assert!(check_single(&many).is_err());
    let mut model = request(None, None, None);
    model.model = Some("dall-e".into());
    assert!(plan_images(&model).is_err());
    for (size, message) in [
        ("large", "image size must use WIDTHxHEIGHT format: large"),
        ("ax16", "image width must be an integer"),
        ("16xb", "image height must be an integer"),
    ] {
        let error = plan_images(&request(Some(size), None, None)).unwrap_err();
        assert_eq!(error.message(), format!("invalid response state: {message}"));
    }
    let mut codex = request(None, Some(1), None);
    codex.context.provider = Provider::Codex;
    assert_eq!(
        codex_image_response_request(&codex, &Vec::new())
            .unwrap_err()
            .message(),
        "invalid response state: image width and height must be provided together"
    );
}

#[test]
fn plans_streams_of_images() {
    assert!(plan_stream(&request(None, None, None), 4).is_err());
    let mut many = request(None, None, None);
    many.count = 2;
    assert!(matches!(plan_stream(&many, 2).unwrap(), StreamPlan::Batch));
    let mut codex = request(None, None, None);
    codex.context.provider = Provider::Codex;
    assert!(matches!(plan_stream(&codex, 2).unwrap(), StreamPlan::Codex));
    let mut nano = request(None, None, None);
    nano.context.provider = Provider::Nanogpt;
    assert!(plan_stream(&nano, 2).is_err());
    let mut azure = request(None, None, None);
    azure.context.base_url = Some("https://a.example/v1".into());
    let StreamPlan::Endpoint(plan) = plan_stream(&azure, 2).unwrap() else {
        panic!("expected an endpoint")
    };
    let ImagePayload::Body(body) = image_call(&azure, &plan, &Vec::new()).unwrap().payload else {
        panic!("expected a body")
    };
    assert_eq!(body.get_u64("partial_images"), Some(2));
    assert_eq!(body.member("stream"), &Json::Bool(true));
}

#[test]
fn takes_images_out_of_answers() {
    let answer = json(r#"{"data": [{"b64_json": "eHl6"}, {"url": "https://x"}]}"#);
    assert!(response_images(&answer, 1).is_err());
    let images = response_images(&answer, 2).unwrap();
    let ImageSource::Content(content) = image_source(&images[0]).unwrap() else {
        panic!("expected content")
    };
    assert_eq!(content, b"xyz");
    assert!(matches!(
        image_source(&images[1]).unwrap(),
        ImageSource::Address(url) if url == "https://x"
    ));
    assert!(image_source(&json("{}")).is_err());
    assert!(image_source(&json(r#"{"b64_json": "?"}"#))
        .unwrap_err()
        .message()
        .starts_with("invalid provider event: invalid base64 image payload: "));
    let plan = plan_images(&request(None, None, None)).unwrap();
    let result = image_result(&plan.job, content, "image/webp", false, &edge_colors()).unwrap();
    assert_eq!(result.content_base64, "eHl6");
    assert_eq!(result.job.mime_type, "image/webp");
    let result = image_result_from_base64(&plan.job, "eHl6", false, &edge_colors()).unwrap();
    assert_eq!(result.content_type, "image/png");
}

#[test]
fn follows_a_stream_of_images() {
    let plan = plan_images(&request(None, None, None)).unwrap();
    let colors = edge_colors();
    let step = |name: &str, data: &str| image_stream_events(&plan.job, false, name, data, &colors);
    assert!(step("", "[DONE]").unwrap().0.is_empty());
    assert!(step("", " \n").unwrap().0.is_empty());
    assert!(step("", "{").unwrap_err().message().starts_with("JSON error: "));
    let (events, done) = step(
        "image_edit.partial_image",
        r#"{"b64_json": "eA==", "partial_image_index": 1}"#,
    )
    .unwrap();
    assert!(!done);
    assert!(matches!(
        events.as_slice(),
        [ImageStreamEvent::Partial { partial_index: 1, result, .. }]
            if result.content_base64 == "eA=="
    ));
    let (events, done) = step(
        "",
        r#"{"type": "image_generation.completed", "b64_json": "eA==", "usage": {"n": 1}}"#,
    )
    .unwrap();
    assert!(done);
    assert!(matches!(
        events.as_slice(),
        [
            ImageStreamEvent::Completed { image_index: 0, .. },
            ImageStreamEvent::BatchCompleted { usage: Some(_) },
        ]
    ));
    assert!(step("image_generation.completed", "{}").is_err());
    assert!(step("image_edit.partial_image", r#"{"b64_json": "eA=="}"#).is_err());
}

#[test]
fn codex_gets_images_and_gives_previews() {
    let mut edit = request(None, Some(64), Some(32));
    edit.context.provider = Provider::Codex;
    edit.input_images = vec!["a.JPG".into()];
    let asked = codex_image_stream_request(&edit, &vec![b"x".to_vec()], 3).unwrap();
    assert_eq!(asked.tools[0].get_text("action"), Some("edit"));
    assert_eq!(asked.tools[0].get_u64("partial_images"), Some(3));
    assert_eq!(
        asked.input[0].get("content").unwrap().at(1).get_text("image_url"),
        Some("data:image/jpeg;base64,eA==")
    );
    assert_eq!(
        image_path_data_url("b.gif", &vec![]),
        "data:image/gif;base64,"
    );
    let job = codex_image_job(&edit, "m").unwrap();
    assert_eq!((job.width, job.height), (Some(64), Some(32)));
    let event = CoreEvent::ImageGenerationPartial {
        partial_image_index: 1,
        partial_image_base64: "eA==".into(),
    };
    assert!(matches!(
        codex_partial_event(&job, &event).unwrap(),
        Some(ImageStreamEvent::Partial { partial_index: 1, .. })
    ));
    assert!(codex_image_result(&edit, "m", &vec![]).is_err());
}
