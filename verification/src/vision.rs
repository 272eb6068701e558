//! Vision: preparing an image for a local model (downscaled, re-encoded as
//! PNG, base64), which models can see images, and the one-line description
//! of an image prepared for one.

use vstd::prelude::*;
use crate::text::{chars_of, contains, contains_str, decimal, lower, lower_vec, push_char, push_decimal, push_str};
use crate::computer_use::VirtualDisplay;
use image::DynamicImage;
use base64::Engine;

verus! {

/// Longest edge, in pixels, of an image handed to a local vision model.
pub const MAX_EDGE: u32 = 1120;

/// An image ready to hand to the model.
#[derive(Debug, Clone)]
pub struct EncodedImage {
    /// Base64 payload, no data-URL prefix.
    pub base64: String,
    pub width: u32,
    pub height: u32,
    /// Size of the encoded PNG in bytes.
    pub bytes: usize,
    /// True when the source was larger than [`MAX_EDGE`] and got scaled down.
    pub downscaled: bool,
}

/// `x / 1024` rounded to the nearest integer, ties to even: what `{:.0}`
/// prints for the exact quotient.
pub open spec fn kib_rounded(x: nat) -> nat {
    let q = x / 1024;
    let r = x % 1024;
    if r > 512 || (r == 512 && q % 2 == 1) {
        q + 1
    } else {
        q
    }
}

impl EncodedImage {
    /// The one-line description of this image:
    /// `"{width}×{height} px · {KB} KB"`, plus `" · downscaled"` when it was.
    pub open spec fn summary_of(self) -> Seq<char> {
        decimal(self.width as nat) + seq!['×'] + decimal(self.height as nat) + " px · "@
            + decimal(kib_rounded(self.bytes as nat)) + " KB"@
            + (if self.downscaled { " · downscaled"@ } else { Seq::empty() })
    }

    /// One line for the transcript, so a developer can see what the model got.
    /// Sizes are exact below 2^53 bytes, where the kilobyte count is an exact
    /// quotient before it is rounded.
    pub fn summary(&self) -> (r: String)
        requires
            self.bytes < 0x20_0000_0000_0000,
        ensures
            r@ == self.summary_of(),
    {
        let mut s = String::new();
        push_decimal(&mut s, self.width as u128);
        push_char(&mut s, '×');
        push_decimal(&mut s, self.height as u128);
        push_str(&mut s, " px · ");
        let q = self.bytes / 1024;
        let r = self.bytes % 1024;
        let kb = if r > 512 || (r == 512 && q % 2 == 1) { q + 1 } else { q };
        push_decimal(&mut s, kb as u128);
        push_str(&mut s, " KB");
        if self.downscaled {
            push_str(&mut s, " · downscaled");
        }
        assert(s@ =~= self.summary_of());
        s
    }
}

/// Name fragments of the model families that accept images.
pub open spec fn vision_families() -> Seq<Seq<char>> {
    seq![
        "llava"@, "bakllava"@, "moondream"@, "minicpm-v"@, "llama3.2-vision"@,
        "llama-3.2-vision"@, "qwen2-vl"@, "qwen2.5-vl"@, "qwen3-vl"@, "gemma3"@,
        "pixtral"@, "granite3.2-vision"@, "internvl"@, "cogvlm"@,
    ]
}

/// A tag names a vision model when its ASCII lowercase form contains one of
/// the known family names, `-vl` or `vision`.
pub open spec fn is_vision_tag(tag: Seq<char>) -> bool {
    let t = lower(tag);
    ||| exists|i: int| 0 <= i < vision_families().len() && contains(t, #[trigger] vision_families()[i])
    ||| contains(t, "-vl"@)
    ||| contains(t, "vision"@)
}

/// Does this model actually accept images?
pub fn is_vision_model(tag: &str) -> (r: bool)
    ensures
        r == is_vision_tag(tag@),
{
    let v = chars_of(tag);
    let t = lower_vec(&v);
    let families: Vec<&str> = vec![
        "llava", "bakllava", "moondream", "minicpm-v", "llama3.2-vision",
        "llama-3.2-vision", "qwen2-vl", "qwen2.5-vl", "qwen3-vl", "gemma3",
        "pixtral", "granite3.2-vision", "internvl", "cogvlm",
    ];
    assert(families@.len() == vision_families().len());
    assert forall|k: int| 0 <= k < families@.len() implies families@[k]@ == #[trigger] vision_families()[k] by {
    }
    let mut i: usize = 0;
    while i < families.len()
        invariant
            t@ == lower(tag@),
            families@.len() == vision_families().len(),
            forall|k: int| 0 <= k < families@.len() ==> families@[k]@ == #[trigger] vision_families()[k],
            i <= families@.len(),
            forall|k: int| 0 <= k < i ==> !contains(t@, #[trigger] vision_families()[k]),
        decreases families@.len() - i,
    {
        if contains_str(&t, families[i]) {
            assert(contains(t@, vision_families()[i as int]));
            return true;
        }
        i = i + 1;
    }
    contains_str(&t, "-vl") || contains_str(&t, "vision")
}


// ── Preparing an image ─────────────────────────────────────────────────────

#[verifier::external_type_specification]
#[verifier::external_body]
pub struct ExDynamicImage(image::DynamicImage);

/// The standard base64 alphabet.
pub open spec fn b64_digit(v: nat) -> char {
    if v < 26 {
        ((65 + v) as u32) as char
    } else if v < 52 {
        ((97 + v - 26) as u32) as char
    } else if v < 62 {
        ((48 + v - 52) as u32) as char
    } else if v == 62 {
        '+'
    } else {
        '/'
    }
}

/// Standard base64 with `=` padding: each three bytes become four digits of
/// six bits each; a last group of one or two bytes is padded.
pub open spec fn base64_of(bs: Seq<u8>) -> Seq<char>
    decreases bs.len(),
{
    if bs.len() == 0 {
        Seq::empty()
    } else if bs.len() == 1 {
        seq![b64_digit((bs[0] / 4) as nat), b64_digit(((bs[0] % 4) * 16) as nat), '=', '=']
    } else if bs.len() == 2 {
        seq![
            b64_digit((bs[0] / 4) as nat),
            b64_digit(((bs[0] % 4) * 16 + bs[1] / 16) as nat),
            b64_digit(((bs[1] % 16) * 4) as nat),
            '=',
        ]
    } else {
        seq![
            b64_digit((bs[0] / 4) as nat),
            b64_digit(((bs[0] % 4) * 16 + bs[1] / 16) as nat),
            b64_digit(((bs[1] % 16) * 4 + bs[2] / 64) as nat),
            b64_digit((bs[2] % 64) as nat),
        ] + base64_of(bs.skip(3))
    }
}

/// `base64::engine::general_purpose::STANDARD.encode`: standard base64
/// with padding. It panics only when the encoded length overflows `usize`,
/// which the length bound rules out.
#[verifier::external_body]
fn base64_encode(bytes: &Vec<u8>) -> (r: String)
    requires
        bytes@.len() < usize::MAX / 2,
    ensures
        r@ == base64_of(bytes@),
{
    base64::engine::general_purpose::STANDARD.encode(bytes)
}

/// An image and its size in pixels, as the image crate reports it.
pub struct Picture {
    image: DynamicImage,
    width: u32,
    height: u32,
}

impl Picture {
    /// The image's width and height.
    pub closed spec fn size(self) -> (u32, u32) {
        (self.width, self.height)
    }

    /// Holds `image` together with its size.
    pub fn new(image: DynamicImage) -> (r: Picture) {
        picture_of(image)
    }
}

/// `DynamicImage::width` and `DynamicImage::height`: the image with the size
/// it reports. An image is opaque here, so nothing is stated of the size.
#[verifier::external_body]
fn picture_of(image: DynamicImage) -> (r: Picture) {
    Picture { width: image.width(), height: image.height(), image }
}

/// The size of the image that `image::load_from_memory` decodes from a
/// file's bytes.
pub uninterp spec fn decoded_size(data: Seq<u8>) -> (u32, u32);

/// The size that `DynamicImage::resize` gives an image of `w`×`h` pixels
/// asked to fit within `edge`×`edge`.
pub uninterp spec fn fitted_size(w: u32, h: u32, edge: u32) -> (u32, u32);

/// `image::load_from_memory`: decodes an image file's bytes (its format
/// guessed from them), with the decoded image's size. Whether it succeeds
/// depends on the bytes in ways not stated here.
#[verifier::external_body]
fn decode_image(data: &Vec<u8>) -> (r: Result<Picture, String>)
    ensures
        r matches Ok(p) ==> p.size() == decoded_size(data@),
{
    match image::load_from_memory(data) {
        Ok(image) => Ok(Picture { width: image.width(), height: image.height(), image }),
        Err(e) => Err(e.to_string()),
    }
}

/// `DynamicImage::resize` with the Lanczos3 filter: the image scaled to the
/// largest size that fits within `edge`×`edge` keeping its aspect ratio, as
/// its documentation says, and at least one pixel each way.
#[verifier::external_body]
fn fit_within(p: &Picture, edge: u32) -> (r: Picture)
    requires
        edge >= 1,
    ensures
        r.size() == fitted_size(p.size().0, p.size().1, edge),
        1 <= r.size().0 <= edge,
        1 <= r.size().1 <= edge,
{
    let image = p.image.resize(edge, edge, image::imageops::FilterType::Lanczos3);
    Picture { width: image.width(), height: image.height(), image }
}

/// `DynamicImage::resize_exact` with the Lanczos3 filter: the image at
/// exactly `width`×`height`.
#[verifier::external_body]
fn resize_exact(p: &Picture, width: u32, height: u32) -> (r: Picture)
    ensures
        r.size() == (width, height),
{
    let image = p.image.resize_exact(width, height, image::imageops::FilterType::Lanczos3);
    Picture { width: image.width(), height: image.height(), image }
}

/// `DynamicImage::write_to` in PNG format: the encoded file's bytes, or
/// the encoder's error. Nothing is stated of which: the encoder refuses
/// some sizes, and for 16-bit images it fails when a buffer cannot be
/// allocated, which depends on the machine.
#[verifier::external_body]
fn png_bytes(p: &Picture) -> (r: Result<Vec<u8>, String>) {
    let mut png: Vec<u8> = Vec::new();
    match p.image.write_to(&mut std::io::Cursor::new(&mut png), image::ImageFormat::Png) {
        Ok(()) => Ok(png),
        Err(e) => Err(e.to_string()),
    }
}

/// What an encoded image says of its PNG file: its size and its base64.
pub open spec fn carries(e: EncodedImage, png: Seq<u8>) -> bool {
    e.bytes == png.len() && e.base64@ == base64_of(png)
}

/// The size an image of `size` is handed to the model at, and whether it
/// was scaled down for that: one whose longest edge passes [`MAX_EDGE`] is
/// fitted within `MAX_EDGE`×`MAX_EDGE`; any other keeps its size.
pub open spec fn prepared_size(size: (u32, u32)) -> ((u32, u32), bool) {
    if needs_downscale(size.0, size.1) {
        (fitted_size(size.0, size.1, MAX_EDGE), true)
    } else {
        (size, false)
    }
}

/// Does an image of `w`×`h` pass [`MAX_EDGE`] on its longest edge?
pub open spec fn needs_downscale(w: u32, h: u32) -> bool {
    (if w >= h { w } else { h }) > MAX_EDGE
}

/// Whether an image of `w`×`h` must be scaled down for the model.
pub fn downscale_needed(w: u32, h: u32) -> (r: bool)
    ensures
        r == needs_downscale(w, h),
{
    let longest = if w >= h { w } else { h };
    longest > MAX_EDGE
}

/// What encoding an image of `width`×`height` comes to, given what the PNG
/// encoder gave back: its bytes carried as base64 with the size and the
/// downscaled mark, or the encoder's error. (A PNG too large to encode in
/// base64 in memory is refused too.)
pub fn finish_png(png: Result<Vec<u8>, String>, width: u32, height: u32, downscaled: bool) -> (r: Result<EncodedImage, String>)
    ensures
        match png {
            Ok(bytes) => if bytes@.len() < usize::MAX / 2 {
                r matches Ok(e) && carries(e, bytes@) && e.width == width && e.height == height
                    && e.downscaled == downscaled
            } else {
                r matches Err(m) && m@ == "Couldn't encode PNG: the image is too large"@
            },
            Err(why) => r matches Err(m) && m@ == "Couldn't encode PNG: "@ + why@,
        },
        r matches Err(m) ==> exists|why: Seq<char>| m@ == "Couldn't encode PNG: "@ + why,
{
    let png = match png {
        Ok(p) => p,
        Err(e) => {
            let mut m = String::from_str("Couldn't encode PNG: ");
            push_str(&mut m, e.as_str());
            return Err(m);
        }
    };
    if png.len() >= usize::MAX / 2 {
        let mut m = String::from_str("Couldn't encode PNG: ");
        push_str(&mut m, "the image is too large");
        proof {
            reveal_strlit("Couldn't encode PNG: ");
            reveal_strlit("the image is too large");
            reveal_strlit("Couldn't encode PNG: the image is too large");
            assert(m@ == "Couldn't encode PNG: "@ + "the image is too large"@);
        }
        return Err(m);
    }
    let e = EncodedImage { base64: base64_encode(&png), width, height, bytes: png.len(), downscaled };
    assert(carries(e, png@));
    Ok(e)
}

/// What preparing an image of `size` for the model gave: on success, the
/// PNG it carries has [`prepared_size`]; a failure is the PNG encoder's.
pub open spec fn prepared(r: Result<EncodedImage, String>, size: (u32, u32)) -> bool {
    match r {
        Ok(e) => {
            &&& exists|png: Seq<u8>| carries(e, png)
            &&& (e.width, e.height) == prepared_size(size).0
            &&& e.downscaled == prepared_size(size).1
            &&& e.width <= MAX_EDGE && e.height <= MAX_EDGE
        },
        Err(m) => exists|why: Seq<char>| m@ == "Couldn't encode PNG: "@ + why,
    }
}

/// Prepares an image for a model: an image whose longest edge passes
/// [`MAX_EDGE`] is scaled to fit within `MAX_EDGE`×`MAX_EDGE` (and marked
/// downscaled), then it is encoded as PNG and base64.
pub fn encode_image(img: Picture) -> (r: Result<EncodedImage, String>)
    ensures
        prepared(r, img.size()),
{
    let (w, h) = (img.width, img.height);
    if downscale_needed(w, h) {
        let small = fit_within(&img, MAX_EDGE);
        finish_png(png_bytes(&small), small.width, small.height, true)
    } else {
        finish_png(png_bytes(&img), w, h, false)
    }
}

/// Decodes an image file's bytes (read from `path`) and prepares it.
pub fn encode_file_bytes(path: &str, data: &Vec<u8>) -> (r: Result<EncodedImage, String>)
    ensures
        prepared(r, decoded_size(data@))
            || (r matches Err(m) && exists|why: Seq<char>| m@ == "Couldn't read image "@ + path@ + ": "@ + why),
{
    match decode_image(data) {
        Ok(img) => encode_image(img),
        Err(e) => {
            let mut m = String::from_str("Couldn't read image ");
            push_str(&mut m, path);
            push_str(&mut m, ": ");
            push_str(&mut m, e.as_str());
            Err(m)
        }
    }
}

/// Prepares a screenshot at exactly the virtual display's size, so that
/// the picture and the model's coordinate space match pixel for pixel; it
/// counts as downscaled when its size differs from the display's.
pub fn encode_for_display(path: &str, data: &Vec<u8>, display: &VirtualDisplay) -> (r: Result<EncodedImage, String>)
    ensures
        match r {
            Ok(e) => {
                &&& exists|png: Seq<u8>| carries(e, png)
                &&& e.width == display.width && e.height == display.height
                &&& e.downscaled == (decoded_size(data@) != (display.width, display.height))
            },
            Err(m) => (exists|why: Seq<char>| m@ == "Couldn't read image "@ + path@ + ": "@ + why)
                || (exists|why: Seq<char>| m@ == "Couldn't encode PNG: "@ + why),
        },
{
    let img = match decode_image(data) {
        Ok(img) => img,
        Err(e) => {
            let mut m = String::from_str("Couldn't read image ");
            push_str(&mut m, path);
            push_str(&mut m, ": ");
            push_str(&mut m, e.as_str());
            return Err(m);
        }
    };
    let downscaled = img.width != display.width || img.height != display.height;
    assert(downscaled == (decoded_size(data@) != (display.width, display.height)));
    if downscaled {
        let exact = resize_exact(&img, display.width, display.height);
        finish_png(png_bytes(&exact), exact.width, exact.height, true)
    } else {
        finish_png(png_bytes(&img), img.width, img.height, false)
    }
}


/// Standard base64 (with padding) of raw bytes, for handing a file to a
/// vision model as it is.
pub fn encode_base64(bytes: &Vec<u8>) -> (r: String)
    requires
        bytes@.len() < usize::MAX / 2,
    ensures
        r@ == base64_of(bytes@),
{
    base64_encode(bytes)
}

} // verus!
