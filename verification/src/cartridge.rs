//! The cartridge aggregate and its building blocks: the compression tag, the
//! graphics placeholder and the decoded program text.

use vstd::prelude::*;
use vstd::slice::slice_subrange;
use vstd::string::StringSliceAdditionalSpecFns;
use vstd::utf8::{encode_utf8, valid_utf8};

use crate::DecoError;
use crate::decode::{be16, be32, get_v0_lua, get_v1_lua, get_v2_lua, to_u32, v0_decoded, v0_text_bytes, v1_decoded, v1_run, v2_decoded};
use crate::extract::{extract_channels, extracted_bytes, pack_channels, packed_pixels};
use crate::pngio::{decode_png, encode_png, png_decode_of, png_encode_of};

verus! {

/// Big-endian magic tag of the legacy token-stream scheme: the bytes
/// `:`, `c`, `:`, 0.
pub const MAGIC_V1: u32 = 0x3a633a00;

/// Big-endian magic tag of the newest scheme: the bytes 0, `p`, `x`, `a`.
pub const MAGIC_V2: u32 = 0x00707861;

/// Total size of a cartridge byte array.
pub const CART_SIZE: usize = 0x8000;

/// First byte of the code region within the cartridge.
pub const REGION_START: usize = 0x4300;

/// One past the last byte of the code region.
pub const REGION_END: usize = 0x7fff;

/// Cartridge encoding version.
///
/// Chosen by the 4-byte magic tag of the code region; every unrecognised
/// magic selects `V0`, the oldest and simplest scheme.
#[derive(Debug, Clone, Copy, PartialEq, Eq, Structural)]
pub enum Compression {
    V0,
    V1,
    V2,
}

/// Represents spritesheet, map, flags, music and sound effects data.
///
/// The graphics region is not parsed; this placeholder keeps the cartridge
/// shape stable for a later extension.
#[derive(Default, Debug)]
pub struct Gfx {}

/// Holds the decoded program text.
#[derive(Debug)]
pub struct Lua {
    pub txt: String,
}

impl View for Lua {
    type V = Seq<char>;

    open spec fn view(&self) -> Seq<char> {
        self.txt@
    }
}

impl Lua {
    /// The program text, as an owned string.
    pub fn text(&self) -> (r: String)
        ensures
            r@ == self@,
    {
        self.txt.clone()
    }
}

impl Default for Lua {
    fn default() -> (r: Lua)
        ensures
            r@ == Seq::<char>::empty(),
    {
        Lua { txt: String::new() }
    }
}

impl PartialEq for Lua {
    fn eq(&self, other: &Lua) -> (r: bool) {
        self.txt == other.txt
    }
}

impl vstd::std_specs::cmp::PartialEqSpecImpl for Lua {
    open spec fn obeys_eq_spec() -> bool {
        true
    }

    open spec fn eq_spec(&self, other: &Lua) -> bool {
        self.txt@ == other.txt@
    }
}

/// Holds parsed gfx data and program text, with the version tag and the byte
/// length of the code region it was built from.
#[derive(Debug)]
pub struct Cartridge {
    pub gfx: Gfx,
    pub lua: Lua,
    pub version: Compression,
    pub data_len: usize,
}

impl PartialEq for Cartridge {
    fn eq(&self, other: &Cartridge) -> (r: bool) {
        self.lua.txt == other.lua.txt && self.version == other.version
            && self.data_len == other.data_len
    }
}

impl vstd::std_specs::cmp::PartialEqSpecImpl for Cartridge {
    open spec fn obeys_eq_spec() -> bool {
        true
    }

    open spec fn eq_spec(&self, other: &Cartridge) -> bool {
        self.lua@ == other.lua@ && self.version == other.version
            && self.data_len == other.data_len
    }
}

impl Cartridge {
    /// The compression scheme the cartridge was stored with.
    pub fn version(&self) -> (v: Compression)
        ensures
            v == self.version,
    {
        self.version
    }

    /// Byte length of the code region the text was decoded from.
    pub fn len(&self) -> (n: usize)
        ensures
            n == self.data_len,
    {
        self.data_len
    }

    /// Whether the code region was empty.
    #[must_use]
    pub fn is_empty(&self) -> (b: bool)
        ensures
            b == (self.data_len == 0),
    {
        self.len() == 0
    }
}

/// The code region of a cartridge byte array.
pub open spec fn code_region(data: Seq<u8>) -> Seq<u8> {
    data.subrange(REGION_START as int, REGION_END as int)
}

/// The compression scheme selected by the 4-byte magic tag at the start of
/// the code region; every unrecognised value selects the oldest scheme.
pub open spec fn spec_version(data: Seq<u8>) -> Compression {
    let m = be32(data.subrange(REGION_START as int, REGION_START + 4));
    if m == MAGIC_V1 {
        Compression::V1
    } else if m == MAGIC_V2 {
        Compression::V2
    } else {
        Compression::V0
    }
}

/// What decoding a code region under a given scheme yields.
pub open spec fn region_decoded(v: Compression, region: Seq<u8>) -> Result<Seq<char>, DecoError> {
    match v {
        Compression::V0 => v0_decoded(region),
        Compression::V1 => v1_decoded(region),
        Compression::V2 => v2_decoded(region),
    }
}

/// Everything `from_bytes` promises: an array shorter than a cartridge is
/// rejected as a format error; otherwise the result carries exactly the
/// text that the magic-selected decoder yields for the code region, or that
/// decoder's error.
pub open spec fn from_bytes_post(data: Seq<u8>, r: Result<Cartridge, DecoError>) -> bool {
    if data.len() < CART_SIZE {
        r == Err::<Cartridge, DecoError>(DecoError::Format)
    } else {
        match r {
            Ok(c) => {
                &&& region_decoded(spec_version(data), code_region(data))
                    == Ok::<Seq<char>, DecoError>(c.lua@)
                &&& c.version == spec_version(data)
                &&& c.data_len == REGION_END - REGION_START
            },
            Err(e) => region_decoded(spec_version(data), code_region(data))
                == Err::<Seq<char>, DecoError>(e),
        }
    }
}

/// Everything the image entry points promise: a stream the PNG codec
/// rejects, or one whose header is not four bytes per pixel, is a format
/// error; otherwise the result is that of `from_bytes` on the channel bytes
/// extracted from the decoded pixels.
pub open spec fn from_png_post(png: Seq<u8>, r: Result<Cartridge, DecoError>) -> bool {
    match png_decode_of(png) {
        None => r == Err::<Cartridge, DecoError>(DecoError::Format),
        Some((bpp, pixels)) => if bpp != 4 {
            r == Err::<Cartridge, DecoError>(DecoError::Format)
        } else {
            from_bytes_post(extracted_bytes(pixels), r)
        },
    }
}

/// The cartridge byte array that stores `text_bytes` literally under the
/// oldest scheme: zeros everywhere but the code region, whose front holds
/// the text.
pub open spec fn v0_cartridge_bytes(text_bytes: Seq<u8>) -> Seq<u8> {
    Seq::new(CART_SIZE as nat, |i: int|
        if REGION_START <= i && i < REGION_START + text_bytes.len() {
            text_bytes[i - REGION_START]
        } else {
            0u8
        })
}

/// An all-zero pixel buffer of one four-channel pixel per cartridge byte.
pub open spec fn blank_pixels() -> Seq<u8> {
    Seq::new((4 * CART_SIZE) as nat, |i: int| 0u8)
}

/// Everything `to_png` promises.  Only the oldest scheme is written: the
/// text must fit the code region, is laid into a fresh cartridge byte
/// array, packed into a blank pixel buffer, and encoded as a 128 x 256 RGBA
/// PNG; the other schemes are reported as unsupported.
pub open spec fn to_png_post(c: Cartridge, compression: Compression, r: Result<Vec<u8>, DecoError>) -> bool {
    match compression {
        Compression::V0 => {
            let tb = encode_utf8(c.lua@);
            if tb.len() > REGION_END - REGION_START {
                r == Err::<Vec<u8>, DecoError>(DecoError::Format)
            } else {
                let image = png_encode_of(
                    packed_pixels(blank_pixels(), v0_cartridge_bytes(tb)), 128, 256);
                match r {
                    Ok(out) => image == Some(out@),
                    Err(e) => image is None && e == DecoError::Format,
                }
            }
        },
        Compression::V1 => r == Err::<Vec<u8>, DecoError>(DecoError::Unsupported),
        Compression::V2 => r == Err::<Vec<u8>, DecoError>(DecoError::Unsupported),
    }
}

impl Cartridge {
    /// Decodes a cartridge from a raw byte array: detects the scheme from
    /// the magic tag and runs the matching decoder over the code region.
    pub fn from_bytes(data: &[u8]) -> (r: Result<Cartridge, DecoError>)
        ensures
            from_bytes_post(data@, r),
    {
        if data.len() < CART_SIZE {
            return Err(DecoError::Format);
        }
        let magic = to_u32(slice_subrange(data, REGION_START, REGION_START + 4));
        let version = if magic == MAGIC_V1 {
            Compression::V1
        } else if magic == MAGIC_V2 {
            Compression::V2
        } else {
            Compression::V0
        };
        let region = slice_subrange(data, REGION_START, REGION_END);
        let lua = match version {
            Compression::V0 => get_v0_lua(region),
            Compression::V1 => get_v1_lua(region),
            Compression::V2 => get_v2_lua(region),
        };
        match lua {
            Ok(lua) => Ok(Cartridge { gfx: Gfx {}, lua, version, data_len: region.len() }),
            Err(e) => Err(e),
        }
    }

    /// Decodes a cartridge from the bytes of a PNG file: inflates the
    /// image, checks the colour depth, extracts the channel bytes and
    /// decodes them.
    pub fn from_png(png: &[u8]) -> (r: Result<Cartridge, DecoError>)
        ensures
            from_png_post(png@, r),
    {
        match decode_png(png) {
            None => Err(DecoError::Format),
            Some((bpp, pixels)) => {
                if bpp != 4 {
                    return Err(DecoError::Format);
                }
                let bytes = extract_channels(pixels.as_slice());
                Cartridge::from_bytes(bytes.as_slice())
            },
        }
    }

    /// Encodes the cartridge as the bytes of a PNG file under the given
    /// scheme; only the oldest, literal scheme is written.
    ///
    /// A corner of the format itself: detection reads the magic tag first,
    /// so a text whose opening bytes spell one of the magic tags decodes
    /// back under that scheme, not as literal text.
    pub fn to_png(&self, compression: Compression) -> (r: Result<Vec<u8>, DecoError>)
        ensures
            to_png_post(*self, compression, r),
    {
        match compression {
            Compression::V0 => {},
            Compression::V1 => return Err(DecoError::Unsupported),
            Compression::V2 => return Err(DecoError::Unsupported),
        }
        let text = self.lua.txt.as_str().as_bytes();
        if text.len() > REGION_END - REGION_START {
            return Err(DecoError::Format);
        }
        let mut cart = zero_vec(CART_SIZE);
        let tlen = text.len();
        let mut i: usize = 0;
        while i < tlen
            invariant
                tlen == text@.len(),
                tlen <= REGION_END - REGION_START,
                i <= tlen,
                cart@.len() == CART_SIZE,
                forall|j: int| 0 <= j < REGION_START ==> cart@[j] == 0u8,
                forall|j: int| REGION_START <= j < REGION_START + i
                    ==> cart@[j] == text@[j - REGION_START],
                forall|j: int| REGION_START + i <= j < CART_SIZE ==> cart@[j] == 0u8,
            decreases tlen - i,
        {
            cart.set(REGION_START + i, text[i]);
            i = i + 1;
        }
        proof {
            assert(cart@ =~= v0_cartridge_bytes(text@));
            assert(text@ == encode_utf8(self.lua@));
        }
        let mut pixels = zero_vec(4 * CART_SIZE);
        proof {
            assert(pixels@ =~= blank_pixels());
        }
        pack_channels(&mut pixels, cart.as_slice());
        match encode_png(pixels.as_slice(), 128, 256) {
            Some(out) => Ok(out),
            None => Err(DecoError::Format),
        }
    }
}

/// Decodes a cartridge from the bytes of a PNG file.
pub fn decode_pico_txt(png: &[u8]) -> (r: Result<Cartridge, DecoError>)
    ensures
        from_png_post(png@, r),
{
    Cartridge::from_png(png)
}

/// A vector of `n` zero bytes.
fn zero_vec(n: usize) -> (v: Vec<u8>)
    ensures
        v@ == Seq::new(n as nat, (|i: int| 0u8)),
{
    let mut v: Vec<u8> = Vec::new();
    let mut i: usize = 0;
    while i < n
        invariant
            i <= n,
            v@.len() == i,
            forall|j: int| 0 <= j < i ==> v@[j] == 0u8,
        decreases n - i,
    {
        v.push(0);
        i = i + 1;
    }
    proof {
        assert(v@ =~= Seq::new(n as nat, (|i: int| 0u8)));
    }
    v
}

/// Any magic tag other than the two known constants selects the oldest
/// scheme.
pub proof fn lemma_unknown_magic_is_v0(data: Seq<u8>)
    requires
        be32(data.subrange(REGION_START as int, REGION_START + 4)) != MAGIC_V1,
        be32(data.subrange(REGION_START as int, REGION_START + 4)) != MAGIC_V2,
    ensures
        spec_version(data) == Compression::V0,
{
}

/// A byte array shorter than a cartridge is rejected with a format error.
pub proof fn lemma_short_input_rejected(data: Seq<u8>, r: Result<Cartridge, DecoError>)
    requires
        data.len() < CART_SIZE,
        from_bytes_post(data, r),
    ensures
        r == Err::<Cartridge, DecoError>(DecoError::Format),
{
}

/// Under the oldest scheme, a code region whose literal text is not valid
/// UTF-8 is rejected with a decode error.
pub proof fn lemma_invalid_utf8_rejected(data: Seq<u8>, r: Result<Cartridge, DecoError>)
    requires
        data.len() >= CART_SIZE,
        spec_version(data) == Compression::V0,
        !valid_utf8(v0_text_bytes(code_region(data))),
        from_bytes_post(data, r),
    ensures
        r == Err::<Cartridge, DecoError>(DecoError::Decode),
{
}

/// Under the legacy scheme, a token walk that assembles bytes that are not
/// valid UTF-8 is rejected with a decode error.
pub proof fn lemma_v1_invalid_utf8_rejected(data: Seq<u8>, bytes: Seq<u8>, r: Result<Cartridge, DecoError>)
    requires
        data.len() >= CART_SIZE,
        spec_version(data) == Compression::V1,
        v1_run(code_region(data), be16(code_region(data).subrange(4, 6)), 8, Seq::<u8>::empty())
            == Some(bytes),
        !valid_utf8(bytes.subrange(0, be16(code_region(data).subrange(4, 6)))),
        from_bytes_post(data, r),
    ensures
        r == Err::<Cartridge, DecoError>(DecoError::Decode),
{
}

/// Under the legacy scheme, a malformed token walk — a cursor or a
/// back-reference that would leave the data already seen — is rejected with
/// a decode error, never read out of bounds.
pub proof fn lemma_v1_malformed_stream_rejected(data: Seq<u8>, r: Result<Cartridge, DecoError>)
    requires
        data.len() >= CART_SIZE,
        spec_version(data) == Compression::V1,
        v1_run(code_region(data), be16(code_region(data).subrange(4, 6)), 8, Seq::<u8>::empty())
            is None,
        from_bytes_post(data, r),
    ensures
        r == Err::<Cartridge, DecoError>(DecoError::Decode),
{
}

/// Decoding is a function of the bytes alone: two decodes of equal byte
/// arrays agree in every observable field of the cartridge, or fail with
/// the same error.
pub proof fn lemma_decode_deterministic(
    data1: Seq<u8>,
    data2: Seq<u8>,
    r1: Result<Cartridge, DecoError>,
    r2: Result<Cartridge, DecoError>,
)
    requires
        data1 == data2,
        from_bytes_post(data1, r1),
        from_bytes_post(data2, r2),
    ensures
        r1 is Ok <==> r2 is Ok,
        (r1 is Ok && r2 is Ok) ==> {
            &&& r1->Ok_0.lua@ == r2->Ok_0.lua@
            &&& r1->Ok_0.version == r2->Ok_0.version
            &&& r1->Ok_0.data_len == r2->Ok_0.data_len
        },
        (r1 is Err && r2 is Err) ==> r1->Err_0 == r2->Err_0,
{
}

} // verus!
