//! The image pipeline after the fetch: decoding, protocol encoding, and
//! the placeholders that stand in for an image that cannot be shown.

use vstd::prelude::*;
use vstd::string::*;

use base64::Engine;
use image::ImageEncoder;

use crate::kitty::{frames_of, kitty_text};
use crate::protocol::GraphicsProtocol;
use crate::text::{concat_all, decimal, push_decimal};

verus! {

/// A decoded raster: row-major RGB triples, three bytes per pixel.
pub struct DecodedImage {
    pub width: u32,
    pub height: u32,
    pub pixels: Vec<u8>,
}

/// Why fetched bytes gave no image.
#[derive(Clone, Copy, Debug, PartialEq, Eq, Structural)]
pub enum ImageFailure {
    /// No known container format was recognised.
    UnknownFormat,
    /// The format was recognised but the pixels could not be decoded.
    Undecodable,
}

/// What the network fetch of an image gave.
pub enum Fetched {
    /// The response body.
    Bytes(Vec<u8>),
    /// The request could not be sent or answered.
    SendFailed,
    /// The response body could not be read.
    ReadFailed,
}

/// The decoded image as plain values.
pub open spec fn decoded_view(d: Result<DecodedImage, ImageFailure>) -> Result<
    (u32, u32, Seq<u8>),
    ImageFailure,
> {
    match d {
        Ok(img) => Ok((img.width, img.height, img.pixels@)),
        Err(e) => Err(e),
    }
}

/// What the image crate decodes from a byte buffer: size and RGB pixels,
/// or the stage that failed.
pub uninterp spec fn decoded_of(bytes: Seq<u8>) -> Result<(u32, u32, Seq<u8>), ImageFailure>;

/// The PNG file that the image crate writes for RGB pixels of a given
/// size, with alpha at full, if it writes one.
pub uninterp spec fn png_of(width: u32, height: u32, rgb: Seq<u8>) -> Option<Seq<u8>>;

/// The standard, padded base64 text of some bytes.
pub uninterp spec fn base64_of(bytes: Seq<u8>) -> Seq<char>;

/// Relies on image's `ImageReader::with_guessed_format`, `decode` and
/// `DynamicImage::to_rgb8`: the format is guessed from the bytes, the
/// image decoded and converted to 8-bit RGB; the result depends on the
/// bytes alone.
#[verifier::external_body]
fn decode_rgb8(bytes: Vec<u8>) -> (r: Result<DecodedImage, ImageFailure>)
    ensures
        decoded_view(r) == decoded_of(bytes@),
{
    let reader = image::ImageReader::new(std::io::Cursor::new(bytes))
        .with_guessed_format()
        .map_err(|_| ImageFailure::UnknownFormat)?;
    let rgb = reader.decode().map_err(|_| ImageFailure::Undecodable)?.to_rgb8();
    Ok(DecodedImage { width: rgb.width(), height: rgb.height(), pixels: rgb.into_raw() })
}

/// Relies on image's `RgbImage::from_raw`, `DynamicImage::into_rgba8` and
/// `PngEncoder::write_image`: the pixels as an RGBA PNG with every alpha
/// at full; none when the buffer does not hold the stated size or the
/// encoder fails. The result depends on the arguments alone.
#[verifier::external_body]
fn encode_png(img: &DecodedImage) -> (r: Option<Vec<u8>>)
    ensures
        match r {
            Some(b) => png_of(img.width, img.height, img.pixels@) == Some(b@),
            None => png_of(img.width, img.height, img.pixels@) is None,
        },
{
    let rgb = image::RgbImage::from_raw(img.width, img.height, img.pixels.clone())?;
    let rgba = image::DynamicImage::ImageRgb8(rgb).into_rgba8();
    let mut bytes: Vec<u8> = Vec::new();
    image::codecs::png::PngEncoder::new(&mut bytes)
        .write_image(&rgba, img.width, img.height, image::ExtendedColorType::Rgba8)
        .ok()?;
    Some(bytes)
}

/// Relies on base64's `Engine::encode` with `BASE64_STANDARD`: the
/// standard alphabet, with padding.
#[verifier::external_body]
fn base64_standard(bytes: &Vec<u8>) -> (r: String)
    ensures
        r@ == base64_of(bytes@),
{
    base64::prelude::BASE64_STANDARD.encode(bytes)
}

/// `[Image src <src><stage>]`.
pub open spec fn placeholder(src: Seq<char>, stage: Seq<char>) -> Seq<char> {
    "[Image src "@ + src + stage + "]"@
}

/// What stands for an image when images are disabled.
pub open spec fn disabled_placeholder(src: Seq<char>) -> Seq<char> {
    "[Image src "@ + src + "]\n"@
}

/// What stands for an image when no sixel encoder is built in.
pub open spec fn no_sixel_text() -> Seq<char> {
    "[No sixel support in this build.]\n"@
}

/// The inline-file escape: the size in bytes of the undecoded file, the
/// pixel size, a request not to move the cursor, and the file in base64.
pub open spec fn inline_file_text(width: u32, height: u32, size: nat, encoded: Seq<char>) -> Seq<
    char,
> {
    "\x1b]1337;File=inline=1;size="@ + decimal(size) + ";width="@ + decimal(width as nat)
        + "px;height="@ + decimal(height as nat) + "px;doNotMoveCursor=1:"@ + encoded + "\x07"@
}

/// The inline-file frame for a PNG of the given pixel size.
pub open spec fn iterm_frame(width: u32, height: u32, png: Seq<u8>) -> Seq<char> {
    inline_file_text(width, height, png.len(), base64_of(png))
}

/// The text for a decoded image under a concrete protocol.
pub open spec fn encoded_text(
    src: Seq<char>,
    protocol: GraphicsProtocol,
    decoded: Result<(u32, u32, Seq<u8>), ImageFailure>,
) -> Seq<char> {
    match decoded {
        Err(ImageFailure::UnknownFormat) => placeholder(src, " cannot guess format"@),
        Err(ImageFailure::Undecodable) => placeholder(src, " cannot be decoded"@),
        Ok((w, h, px)) => match protocol {
            GraphicsProtocol::Kitty => concat_all(frames_of(w, h, base64_of(px))),
            GraphicsProtocol::ITerm => match png_of(w, h, px) {
                Some(png) => iterm_frame(w, h, png),
                None => placeholder(src, " cannot be encoded into iTerm inline image"@),
            },
            GraphicsProtocol::Sixel => no_sixel_text(),
            _ => disabled_placeholder(src),
        },
    }
}

/// The text for the image at `src` given what its fetch gave.
pub open spec fn image_text(src: Seq<char>, protocol: GraphicsProtocol, fetched: Fetched) -> Seq<
    char,
> {
    if protocol == GraphicsProtocol::Disabled {
        disabled_placeholder(src)
    } else {
        match fetched {
            Fetched::SendFailed => placeholder(src, " fetch failed"@),
            Fetched::ReadFailed => placeholder(src, " read bytes failed"@),
            Fetched::Bytes(b) => encoded_text(src, protocol, decoded_of(b@)),
        }
    }
}

/// The inline-file escape for a file of `size` bytes whose base64 text is
/// `encoded`.
pub fn inline_file_frame(width: u32, height: u32, size: usize, encoded: &str) -> (r: String)
    ensures
        r@ == inline_file_text(width, height, size as nat, encoded@),
{
    let mut s = String::from_str("\x1b]1337;File=inline=1;size=");
    push_decimal(&mut s, size as u64);
    s.append(";width=");
    push_decimal(&mut s, width as u64);
    s.append("px;height=");
    push_decimal(&mut s, height as u64);
    s.append("px;doNotMoveCursor=1:");
    s.append(encoded);
    s.append("\x07");
    s
}

/// The inline-file escape for PNG bytes of the given pixel size.
pub fn iterm_text(width: u32, height: u32, png: &Vec<u8>) -> (r: String)
    ensures
        r@ == iterm_frame(width, height, png@),
{
    let b = base64_standard(png);
    inline_file_frame(width, height, png.len(), b.as_str())
}

fn placeholder_text(src: &str, stage: &str) -> (r: String)
    ensures
        r@ == placeholder(src@, stage@),
{
    let mut s = String::from_str("[Image src ");
    s.append(src);
    s.append(stage);
    s.append("]");
    s
}

/// The placeholder for an image when images are disabled.
pub fn disabled_text(src: &str) -> (r: String)
    ensures
        r@ == disabled_placeholder(src@),
{
    let mut s = String::from_str("[Image src ");
    s.append(src);
    s.append("]\n");
    s
}

/// The chunked truecolor escapes for an image.
pub fn encode_image_as_kitty(img: &DecodedImage) -> (r: String)
    ensures
        r@ == concat_all(frames_of(img.width, img.height, base64_of(img.pixels@))),
{
    let enc = base64_standard(&img.pixels);
    kitty_text(img.width, img.height, enc.as_str())
}

/// The inline-file escape for an image, or none when it cannot be made a
/// PNG.
pub fn encode_image_as_iterm(img: &DecodedImage) -> (r: Option<String>)
    ensures
        match png_of(img.width, img.height, img.pixels@) {
            Some(png) => r is Some && r->0@ == iterm_frame(img.width, img.height, png),
            None => r is None,
        },
{
    match encode_png(img) {
        Some(png) => Some(iterm_text(img.width, img.height, &png)),
        None => None,
    }
}

/// The text for a decoded image (or the reason it has none) under a
/// protocol; `src` names the image in placeholders.
pub fn encode_decoded(
    src: &str,
    protocol: GraphicsProtocol,
    decoded: Result<DecodedImage, ImageFailure>,
) -> (r: String)
    ensures
        r@ == encoded_text(src@, protocol, decoded_view(decoded)),
{
    match decoded {
        Err(ImageFailure::UnknownFormat) => placeholder_text(src, " cannot guess format"),
        Err(ImageFailure::Undecodable) => placeholder_text(src, " cannot be decoded"),
        Ok(img) => match protocol {
            GraphicsProtocol::Kitty => encode_image_as_kitty(&img),
            GraphicsProtocol::ITerm => match encode_image_as_iterm(&img) {
                Some(t) => t,
                None => placeholder_text(src, " cannot be encoded into iTerm inline image"),
            },
            GraphicsProtocol::Sixel => String::from_str("[No sixel support in this build.]\n"),
            _ => disabled_text(src),
        },
    }
}

/// The text for the image at `src`: the disabled placeholder when images
/// are off, else a placeholder for each failed stage, else the encoded
/// image. No failure escapes as an error. `Auto`, which callers resolve
/// first, shows the disabled placeholder once the image is decoded.
pub fn get_image(src: &str, protocol: GraphicsProtocol, fetched: Fetched) -> (r: String)
    ensures
        r@ == image_text(src@, protocol, fetched),
{
    if protocol == GraphicsProtocol::Disabled {
        return disabled_text(src);
    }
    match fetched {
        Fetched::SendFailed => placeholder_text(src, " fetch failed"),
        Fetched::ReadFailed => placeholder_text(src, " read bytes failed"),
        Fetched::Bytes(b) => {
            let decoded = decode_rgb8(b);
            encode_decoded(src, protocol, decoded)
        },
    }
}

} // verus!
