//! PNG through the `png` crate: decoding to raw samples, widening RGB to RGBA, and encoding
//! 8-bit RGBA. The crate's calls sit behind two wrappers; what the library does with their
//! results is verified here.

use crate::model::{ErrorCode, PinoraError};
use crate::text::push_text;
use vstd::prelude::*;

verus! {

/// A PNG colour type.
#[derive(Debug, Clone, Copy, PartialEq, Eq, Structural)]
pub enum PngColor {
    Grayscale,
    Rgb,
    Indexed,
    GrayscaleAlpha,
    Rgba,
}

/// What a PNG header says: its size, colour type (by its code in the format: 0, 2, 3, 4 or
/// 6), bit depth, and how many bytes its decoded pixels take.
#[derive(Debug, Clone, Copy, PartialEq, Eq, Structural)]
pub struct PngHeader {
    pub width: u32,
    pub height: u32,
    pub color_type: u8,
    pub bit_depth: u8,
    pub output_size: usize,
}

/// The colour type a format code names.
pub open spec fn color_of(code: u8) -> Option<PngColor> {
    if code == 0 {
        Some(PngColor::Grayscale)
    } else if code == 2 {
        Some(PngColor::Rgb)
    } else if code == 3 {
        Some(PngColor::Indexed)
    } else if code == 4 {
        Some(PngColor::GrayscaleAlpha)
    } else if code == 6 {
        Some(PngColor::Rgba)
    } else {
        None
    }
}

/// Reads a colour type's code.
pub fn png_color(code: u8) -> (c: Option<PngColor>)
    ensures
        c == color_of(code),
{
    if code == 0 {
        Some(PngColor::Grayscale)
    } else if code == 2 {
        Some(PngColor::Rgb)
    } else if code == 3 {
        Some(PngColor::Indexed)
    } else if code == 4 {
        Some(PngColor::GrayscaleAlpha)
    } else if code == 6 {
        Some(PngColor::Rgba)
    } else {
        None
    }
}

/// The outcome of decoding a PNG's first frame. Errors carry the decoder's message.
#[derive(Debug, Clone)]
pub enum PngDecode {
    /// The signature or header could not be read.
    HeaderInvalid(String),
    /// The header was read but the frame could not be decoded.
    FrameInvalid(PngHeader, String),
    /// The frame's size and its decoded samples, row by row.
    Decoded { header: PngHeader, width: u32, height: u32, data: Vec<u8> },
}

/// `PngDecode` as plain values.
pub enum PngDecodeView {
    HeaderInvalid(Seq<char>),
    FrameInvalid(PngHeader, Seq<char>),
    Decoded { header: PngHeader, width: u32, height: u32, data: Seq<u8> },
}

impl View for PngDecode {
    type V = PngDecodeView;

    open spec fn view(&self) -> PngDecodeView {
        match self {
            PngDecode::HeaderInvalid(m) => PngDecodeView::HeaderInvalid(m@),
            PngDecode::FrameInvalid(h, m) => PngDecodeView::FrameInvalid(*h, m@),
            PngDecode::Decoded { header, width, height, data } => PngDecodeView::Decoded {
                header: *header,
                width: *width,
                height: *height,
                data: data@,
            },
        }
    }
}

/// What the `png` crate decodes from `bytes`.
pub uninterp spec fn png_decoded(bytes: Seq<u8>) -> PngDecodeView;

/// Decodes a PNG with `png::Decoder` (no transformations): `read_info`, then `next_frame`
/// into a buffer of the decoder's output size, keeping the frame's bytes. The result is a
/// function of the bytes alone and is named, not stated: `read_info` refuses a header whose
/// output buffer would not fit, so the buffer size it reports is always computable.
#[verifier::external_body]
pub fn decode_png(bytes: &[u8]) -> (r: PngDecode)
    ensures
        r@ == png_decoded(bytes@),
{
    let mut reader = match png::Decoder::new(std::io::Cursor::new(bytes)).read_info() {
        Ok(reader) => reader,
        Err(e) => return PngDecode::HeaderInvalid(e.to_string()),
    };
    let (info, size) = (reader.info(), reader.output_buffer_size());
    let header = PngHeader { width: info.width, height: info.height, color_type: info.color_type as u8, bit_depth: info.bit_depth as u8, output_size: size };
    let mut buf = vec![0; size];
    match reader.next_frame(&mut buf) {
        Ok(f) => PngDecode::Decoded { header, width: f.width, height: f.height, data: buf[..f.buffer_size()].to_vec() },
        Err(e) => PngDecode::FrameInvalid(header, e.to_string()),
    }
}

/// RGB samples widened to RGBA with an opaque alpha; trailing bytes that make no pixel are
/// dropped.
pub open spec fn rgb_to_rgba(rgb: Seq<u8>) -> Seq<u8> {
    Seq::new(
        (rgb.len() / 3 * 4) as nat,
        |i: int|
            if i % 4 == 3 {
                255u8
            } else {
                rgb[i / 4 * 3 + i % 4]
            },
    )
}

fn widen_rgb(rgb: &Vec<u8>) -> (out: Vec<u8>)
    ensures
        out@ == rgb_to_rgba(rgb@),
{
    let len = rgb.len();
    let n = len / 3;
    let mut out: Vec<u8> = Vec::new();
    let mut k: usize = 0;
    while k < n
        invariant
            len == rgb@.len(),
            n == rgb@.len() / 3,
            k <= n,
            out@.len() == 4 * k,
            forall|i: int| 0 <= i < 4 * k ==> #[trigger] out@[i] == rgb_to_rgba(rgb@)[i],
        decreases n - k,
    {
        out.push(rgb[3 * k]);
        out.push(rgb[3 * k + 1]);
        out.push(rgb[3 * k + 2]);
        out.push(255);
        assert forall|i: int| 0 <= i < 4 * (k + 1) implies #[trigger] out@[i] == rgb_to_rgba(
            rgb@,
        )[i] by {
            if i >= 4 * k {
                assert(i / 4 == k && i % 4 == i - 4 * k);
            }
        }
        k += 1;
    }
    assert(out@ =~= rgb_to_rgba(rgb@));
    out
}

/// The message for a colour type that `rgba_from_decode` does not take.
pub open spec fn color_name(c: PngColor) -> Seq<char> {
    match c {
        PngColor::Grayscale => "Grayscale"@,
        PngColor::Rgb => "Rgb"@,
        PngColor::Indexed => "Indexed"@,
        PngColor::GrayscaleAlpha => "GrayscaleAlpha"@,
        PngColor::Rgba => "Rgba"@,
    }
}

/// What `rgba_from_decode` gives for a decode outcome: RGBA frames as they are, RGB frames widened,
/// every other colour type and every decoder failure an internal error.
pub open spec fn rgba_of(d: PngDecodeView) -> Result<(u32, u32, Seq<u8>), (ErrorCode, Seq<char>)> {
    match d {
        PngDecodeView::HeaderInvalid(m) => Err((ErrorCode::Internal, "png decode header: "@ + m)),
        PngDecodeView::FrameInvalid(_, m) => Err((ErrorCode::Internal, "png decode frame: "@ + m)),
        PngDecodeView::Decoded { header, width, height, data } => match color_of(header.color_type) {
            Some(PngColor::Rgba) => Ok((width, height, data)),
            Some(PngColor::Rgb) => Ok((width, height, rgb_to_rgba(data))),
            Some(c) => Err((ErrorCode::Internal, "unsupported png color type: "@ + color_name(c))),
            None => Err((ErrorCode::Internal, "unsupported png color type: "@)),
        },
    }
}

fn error_with(prefix: &str, detail: &str) -> (e: PinoraError)
    ensures
        e.code == ErrorCode::Internal,
        e.message@ == prefix@ + detail@,
{
    let mut message = String::new();
    push_text(&mut message, prefix);
    push_text(&mut message, detail);
    PinoraError { code: ErrorCode::Internal, message }
}

/// Turns a decode outcome into RGBA samples with its frame size: an RGBA frame as it is, an
/// RGB frame widened with an opaque alpha; any other colour type and any decoder failure is an
/// internal error that names it.
pub fn rgba_from_decode(d: PngDecode) -> (r: Result<(u32, u32, Vec<u8>), PinoraError>)
    ensures
        match rgba_of(d@) {
            Ok((w, h, data)) => (r matches Ok((rw, rh, rd)) && rw == w && rh == h && rd@ == data),
            Err((code, m)) => (r matches Err(e) && e.code == code && e.message@ == m),
        },
{
    match d {
        PngDecode::HeaderInvalid(m) => Err(error_with("png decode header: ", m.as_str())),
        PngDecode::FrameInvalid(_, m) => Err(error_with("png decode frame: ", m.as_str())),
        PngDecode::Decoded { header, width, height, data } => match png_color(header.color_type) {
            Some(PngColor::Rgba) => Ok((width, height, data)),
            Some(PngColor::Rgb) => Ok((width, height, widen_rgb(&data))),
            Some(PngColor::Grayscale) => Err(error_with("unsupported png color type: ", "Grayscale")),
            Some(PngColor::Indexed) => Err(error_with("unsupported png color type: ", "Indexed")),
            Some(PngColor::GrayscaleAlpha) => Err(error_with("unsupported png color type: ", "GrayscaleAlpha")),
            None => {
                let e = error_with("unsupported png color type: ", "");
                proof {
                    reveal_strlit("");
                }
                assert(e.message@ =~= "unsupported png color type: "@);
                Err(e)
            },
        },
    }
}

/// Decodes a PNG into RGBA samples (a captured screenshot): its frame size and pixels.
pub fn png_rgba(bytes: &[u8]) -> (r: Result<(u32, u32, Vec<u8>), PinoraError>)
    ensures
        match rgba_of(png_decoded(bytes@)) {
            Ok((w, h, d)) => (r matches Ok((rw, rh, rd)) && rw == w && rh == h && rd@ == d),
            Err((code, m)) => (r matches Err(e) && e.code == code && e.message@ == m),
        },
{
    rgba_from_decode(decode_png(bytes))
}

/// Which step of encoding failed, with the encoder's message.
#[derive(Debug, Clone)]
pub enum PngEncodeError {
    Header(String),
    Data(String),
}

/// The bytes the `png` crate writes for an 8-bit RGBA image.
pub uninterp spec fn png_rgba8_encoding(width: u32, height: u32, rgba: Seq<u8>) -> Seq<u8>;

/// Encodes 8-bit RGBA with `png::Encoder` (default options) into memory. The header step
/// fails exactly for a zero width or height (`Writer::init`), the data step exactly when the
/// samples are not `4 * width * height` bytes (`write_image_data`); writing to a `Vec` does
/// not fail. The encoder's messages are not stated.
#[verifier::external_body]
pub fn encode_png_rgba8(width: u32, height: u32, rgba: &[u8]) -> (r: Result<Vec<u8>, PngEncodeError>)
    requires
        4 * width * height <= usize::MAX,
    ensures
        width == 0 || height == 0 ==> r is Err && r->Err_0 is Header,
        width > 0 && height > 0 && rgba@.len() != 4 * width * height ==> r is Err && r->Err_0 is Data,
        width > 0 && height > 0 && rgba@.len() == 4 * width * height ==> r is Ok && r->Ok_0@
            == png_rgba8_encoding(width, height, rgba@),
{
    let mut out = Vec::new();
    let mut encoder = png::Encoder::new(&mut out, width, height);
    encoder.set_color(png::ColorType::Rgba);
    encoder.set_depth(png::BitDepth::Eight);
    let mut writer = match encoder.write_header() {
        Ok(w) => w,
        Err(e) => return Err(PngEncodeError::Header(e.to_string())),
    };
    if let Err(e) = writer.write_image_data(rgba) {
        return Err(PngEncodeError::Data(e.to_string()));
    }
    drop(writer);
    Ok(out)
}

/// Whether `r` is what encoding `width`×`height` RGBA gives, its errors prefixed with
/// `header` or `data` and classed internal.
pub open spec fn encoded_as(
    r: Result<Vec<u8>, PinoraError>,
    width: u32,
    height: u32,
    rgba: Seq<u8>,
    header: Seq<char>,
    data: Seq<char>,
) -> bool {
    if width == 0 || height == 0 {
        (r matches Err(e) && e.code == ErrorCode::Internal && header.is_prefix_of(e.message@))
    } else if rgba.len() != 4 * width * height {
        (r matches Err(e) && e.code == ErrorCode::Internal && data.is_prefix_of(e.message@))
    } else {
        (r matches Ok(bytes) && bytes@ == png_rgba8_encoding(width, height, rgba))
    }
}

/// Encodes with the given message prefixes for a header and a data failure.
pub(crate) fn encode_rgba8_with(width: u32, height: u32, rgba: &[u8], header: &str, data: &str) -> (r:
    Result<Vec<u8>, PinoraError>)
    requires
        4 * width * height <= usize::MAX,
    ensures
        encoded_as(r, width, height, rgba@, header@, data@),
{
    match encode_png_rgba8(width, height, rgba) {
        Ok(bytes) => Ok(bytes),
        Err(PngEncodeError::Header(m)) => {
            let e = error_with(header, m.as_str());
            assert(header@.is_prefix_of(e.message@)) by {
                assert(e.message@.subrange(0, header@.len() as int) =~= header@);
            }
            Err(e)
        },
        Err(PngEncodeError::Data(m)) => {
            let e = error_with(data, m.as_str());
            assert(data@.is_prefix_of(e.message@)) by {
                assert(e.message@.subrange(0, data@.len() as int) =~= data@);
            }
            Err(e)
        },
    }
}

/// The PNG of an 8-bit RGBA image, as exports save it and copy it to the clipboard.
pub fn encode_png_bytes(width: u32, height: u32, rgba: &[u8]) -> (r: Result<Vec<u8>, PinoraError>)
    requires
        4 * width * height <= usize::MAX,
    ensures
        encoded_as(r, width, height, rgba@, "png header: "@, "png data: "@),
{
    encode_rgba8_with(width, height, rgba, "png header: ", "png data: ")
}

} // verus!
