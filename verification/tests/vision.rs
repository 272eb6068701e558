use base64::Engine;
use llamachat::computer_use::VirtualDisplay;
use llamachat::vision::{encode_base64, encode_file_bytes, encode_for_display, encode_image, downscale_needed, finish_png, is_vision_model, EncodedImage, Picture, MAX_EDGE};

#[test]
fn vision_models_are_recognised_and_text_models_are_not() {
    for t in ["llava:7b", "llama3.2-vision:11b", "qwen2.5-vl:7b", "moondream", "gemma3:12b", "minicpm-v"] {
        assert!(is_vision_model(t), "{t} should be a vision model");
    }
    for t in ["llama3.2:3b", "qwen3:30b-a3b", "deepseek-r1:8b", "mistral:7b", "phi3:14b"] {
        assert!(!is_vision_model(t), "{t} should not be a vision model");
    }
}

#[test]
fn vision_tags_match_without_regard_to_case() {
    assert!(is_vision_model("LLaVA:13B"));
    assert!(is_vision_model("Some-VL-Model"));
}

#[test]
fn summary_rounds_kilobytes_half_to_even() {
    let img = |bytes: usize, downscaled: bool| EncodedImage {
        base64: String::new(),
        width: 1024,
        height: 576,
        bytes,
        downscaled,
    };
    assert_eq!(img(2048, false).summary(), "1024×576 px · 2 KB");
    assert_eq!(img(1536, true).summary(), "1024×576 px · 2 KB · downscaled");
    assert_eq!(img(2560, false).summary(), "1024×576 px · 2 KB");
    assert_eq!(img(2561, false).summary(), "1024×576 px · 3 KB");
    assert_eq!(img(511, false).summary(), "1024×576 px · 0 KB");
}

fn solid(w: u32, h: u32) -> image::DynamicImage {
    image::DynamicImage::ImageRgb8(image::RgbImage::from_pixel(w, h, image::Rgb([90, 120, 200])))
}

fn png_of(img: &image::DynamicImage) -> Vec<u8> {
    let mut out = Vec::new();
    img.write_to(&mut std::io::Cursor::new(&mut out), image::ImageFormat::Png).unwrap();
    out
}

#[test]
fn oversized_images_are_downscaled_within_the_box() {
    let enc = encode_image(Picture::new(solid(3840, 2160))).unwrap();
    assert!(enc.downscaled);
    assert_eq!(enc.width.max(enc.height), MAX_EDGE);
    assert_eq!((enc.width, enc.height), (1120, 630));
}

#[test]
fn portrait_images_clamp_on_height() {
    let enc = encode_image(Picture::new(solid(1000, 2000))).unwrap();
    assert!(enc.downscaled);
    assert_eq!(enc.height, MAX_EDGE);
    assert_eq!(enc.width, 560);
}

#[test]
fn small_images_are_left_alone() {
    let enc = encode_image(Picture::new(solid(640, 480))).unwrap();
    assert!(!enc.downscaled);
    assert_eq!((enc.width, enc.height), (640, 480));
}

#[test]
fn encodes_to_decodable_base64_png() {
    let enc = encode_image(Picture::new(solid(64, 48))).unwrap();
    let raw = base64::engine::general_purpose::STANDARD.decode(&enc.base64).unwrap();
    assert_eq!(raw.len(), enc.bytes);
    assert_eq!(&raw[..8], &[0x89, b'P', b'N', b'G', 0x0d, 0x0a, 0x1a, 0x0a]);
}

#[test]
fn the_image_the_model_sees_matches_its_coordinate_space_exactly() {
    let bytes = png_of(&solid(3840, 2160));
    let display = VirtualDisplay::fit(3840, 2160);
    let enc = encode_for_display("screen.png", &bytes, &display).unwrap();
    assert_eq!(enc.width, display.width);
    assert_eq!(enc.height, display.height);
    assert!(enc.downscaled);
}

#[test]
fn a_screenshot_already_at_the_display_size_is_kept() {
    let display = VirtualDisplay::fit(1024, 768);
    let bytes = png_of(&solid(display.width, display.height));
    let enc = encode_for_display("screen.png", &bytes, &display).unwrap();
    assert!(!enc.downscaled);
    assert_eq!((enc.width, enc.height), (display.width, display.height));
}

#[test]
fn undecodable_bytes_name_the_file() {
    let err = encode_file_bytes("shot.png", &b"not an image".to_vec()).unwrap_err();
    assert!(err.starts_with("Couldn't read image shot.png: "), "{err}");
}

#[test]
fn file_bytes_are_decoded_then_prepared() {
    let enc = encode_file_bytes("big.png", &png_of(&solid(2240, 1120))).unwrap();
    assert!(enc.downscaled);
    assert_eq!((enc.width, enc.height), (1120, 560));
}

#[test]
fn raw_bytes_are_base64_encoded_with_padding() {
    assert_eq!(encode_base64(&b"Man".to_vec()), "TWFu");
    assert_eq!(encode_base64(&b"Ma".to_vec()), "TWE=");
    assert_eq!(encode_base64(&b"M".to_vec()), "TQ==");
    assert_eq!(encode_base64(&vec![0xfb, 0xff]), "+/8=");
    assert_eq!(encode_base64(&Vec::new()), "");
}

#[test]
fn the_longest_edge_decides_downscaling() {
    assert!(!downscale_needed(1120, 1120));
    assert!(downscale_needed(1121, 10));
    assert!(downscale_needed(10, 1121));
    assert!(!downscale_needed(0, 0));
}

#[test]
fn an_encoder_failure_is_reported_and_bytes_are_carried() {
    assert_eq!(finish_png(Err("disk full".into()), 4, 3, false).unwrap_err(), "Couldn't encode PNG: disk full");
    let e = finish_png(Ok(vec![1, 2, 3, 4]), 4, 3, true).unwrap();
    assert_eq!((e.width, e.height, e.bytes, e.downscaled), (4, 3, 4, true));
    assert_eq!(e.base64, "AQIDBA==");
}
