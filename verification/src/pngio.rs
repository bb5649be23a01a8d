//! Trusted boundary to the PNG codec.
//!
//! The container work — inflating a PNG byte stream into a pixel buffer and
//! deflating one back — is done by the `png` crate.  Both directions are
//! pure functions of their byte inputs, so each is named by an
//! uninterpreted spec function and performed by one wrapper whose contract
//! ties the runtime result to that name.

use vstd::prelude::*;

verus! {

/// What decoding a PNG byte stream yields: the bytes-per-pixel of its
/// header and the pixel bytes of its first frame, or nothing when the
/// stream is malformed.
pub uninterp spec fn png_decode_of(png: Seq<u8>) -> Option<(usize, Seq<u8>)>;

/// What encoding a pixel buffer as an RGBA PNG of the given size yields, or
/// nothing when the buffer does not fit the dimensions.
pub uninterp spec fn png_encode_of(pixels: Seq<u8>, width: u32, height: u32) -> Option<Seq<u8>>;

/// Relies on `png::Decoder` and `png::Reader`: reading the header and
/// decoding the first frame of an in-memory PNG byte stream is a pure
/// function of those bytes; it yields the header's bytes-per-pixel and the
/// frame's pixel bytes, and fails exactly on streams the codec rejects.
#[verifier::external_body]
pub(crate) fn decode_png(png: &[u8]) -> (r: Option<(usize, Vec<u8>)>)
    ensures
        match r {
            Some((bpp, pixels)) => png_decode_of(png@) == Some((bpp, pixels@)),
            None => png_decode_of(png@) is None,
        },
{
    let decoder = png::Decoder::new(std::io::Cursor::new(png));
    let mut reader = decoder.read_info().ok()?;
    let bpp = reader.info().bytes_per_pixel();
    let mut buf = vec![0u8; reader.output_buffer_size()?];
    let info = reader.next_frame(&mut buf).ok()?;
    buf.truncate(info.buffer_size());
    Some((bpp, buf))
}

/// Relies on `png::Encoder`: writing a pixel buffer as an 8-bit RGBA PNG
/// with fixed options into an in-memory vector is a pure function of the
/// buffer and the dimensions, and fails exactly when the codec rejects
/// them.
#[verifier::external_body]
pub(crate) fn encode_png(pixels: &[u8], width: u32, height: u32) -> (r: Option<Vec<u8>>)
    ensures
        match r {
            Some(out) => png_encode_of(pixels@, width, height) == Some(out@),
            None => png_encode_of(pixels@, width, height) is None,
        },
{
    let mut out: Vec<u8> = Vec::new();
    let mut encoder = png::Encoder::new(&mut out, width, height);
    encoder.set_color(png::ColorType::Rgba);
    encoder.set_depth(png::BitDepth::Eight);
    let mut writer = match encoder.write_header() {
        Ok(w) => w,
        Err(_) => return None,
    };
    if writer.write_image_data(pixels).is_err() {
        return None;
    }
    if writer.finish().is_err() {
        return None;
    }
    Some(out)
}

} // verus!
