//! Channel extraction: between RGBA pixel buffers and packed cartridge bytes.
//!
//! A cartridge image stores one cartridge byte per pixel, spread over the two
//! low bits of the four channel bytes.  Extraction collects those bits; the
//! inverse packs a byte array back into a pixel buffer, touching only the two
//! low bits of each channel so that the cover art in the high bits survives.

use vstd::prelude::*;

verus! {

/// The cartridge byte carried by one pixel whose channel bytes are
/// `r`, `g`, `b`, `a`.
pub open spec fn extract_byte(r: u8, g: u8, b: u8, a: u8) -> u8 {
    ((a & 3) << 6) | ((r & 3) << 4) | ((g & 3) << 2) | (b & 3)
}

/// The packed byte array of a whole pixel buffer, one byte per complete
/// four-byte pixel; a trailing partial pixel carries no data.
pub open spec fn extracted_bytes(p: Seq<u8>) -> Seq<u8> {
    Seq::new((p.len() / 4) as nat, |i: int| extract_byte(p[4 * i], p[4 * i + 1], p[4 * i + 2], p[4 * i + 3]))
}

/// The two bits of cartridge byte `b` that belong in channel `k` of its
/// pixel, in channel order R, G, B, A.
pub open spec fn channel_bits(b: u8, k: int) -> u8 {
    if k == 0 {
        (b >> 4) & 3
    } else if k == 1 {
        (b >> 2) & 3
    } else if k == 2 {
        b & 3
    } else {
        (b >> 6) & 3
    }
}

/// The pixel buffer `p` after packing `bytes` into it: for each byte, the
/// two low bits of the four channel bytes of its pixel are overwritten and
/// the six high bits kept; all other pixel bytes are untouched.
pub open spec fn packed_pixels(p: Seq<u8>, bytes: Seq<u8>) -> Seq<u8> {
    Seq::new(p.len(), |i: int|
        if i < 4 * bytes.len() {
            (p[i] & 0xfc) | channel_bits(bytes[i / 4], i % 4)
        } else {
            p[i]
        })
}

/// Collects the two low bits of each channel of each complete pixel into one
/// cartridge byte per pixel, in pixel order.
pub fn extract_channels(pixels: &[u8]) -> (out: Vec<u8>)
    ensures
        out@ == extracted_bytes(pixels@),
{
    let n: usize = pixels.len() / 4;
    let mut out: Vec<u8> = Vec::new();
    let mut i: usize = 0;
    while i < n
        invariant
            n == pixels@.len() / 4,
            pixels@.len() <= usize::MAX,
            i <= n,
            out@.len() == i,
            forall|j: int| 0 <= j < i ==> out@[j] == extract_byte(
                pixels@[4 * j], pixels@[4 * j + 1], pixels@[4 * j + 2], pixels@[4 * j + 3]),
        decreases n - i,
    {
        proof {
            assert(4 * (i as int) + 3 < pixels@.len());
        }
        let r = pixels[4 * i];
        let g = pixels[4 * i + 1];
        let b = pixels[4 * i + 2];
        let a = pixels[4 * i + 3];
        out.push(((a & 3) << 6) | ((r & 3) << 4) | ((g & 3) << 2) | (b & 3));
        i = i + 1;
    }
    proof {
        assert(out@ =~= extracted_bytes(pixels@));
    }
    out
}

/// Packs `bytes` into the front of `pixels`, overwriting only the two low
/// bits of each channel byte of the corresponding pixels.
pub fn pack_channels(pixels: &mut Vec<u8>, bytes: &[u8])
    requires
        4 * bytes@.len() <= old(pixels)@.len(),
    ensures
        final(pixels)@ == packed_pixels(old(pixels)@, bytes@),
{
    let m: usize = bytes.len();
    let total: usize = pixels.len();
    proof {
        assert(old(pixels)@.len() == total);
    }
    let mut i: usize = 0;
    while i < m
        invariant
            4 * m <= old(pixels)@.len(),
            old(pixels)@.len() <= usize::MAX,
            m == bytes@.len(),
            i <= m,
            pixels@.len() == old(pixels)@.len(),
            forall|j: int| 0 <= j < 4 * i ==> pixels@[j] ==
                ((old(pixels)@[j] & 0xfc) | channel_bits(bytes@[j / 4], j % 4)),
            forall|j: int| 4 * i <= j < pixels@.len() ==> pixels@[j] == old(pixels)@[j],
        decreases m - i,
    {
        proof {
            assert(4 * (i as int) + 3 < pixels@.len());
        }
        let b = bytes[i];
        let p0 = pixels[4 * i];
        let p1 = pixels[4 * i + 1];
        let p2 = pixels[4 * i + 2];
        let p3 = pixels[4 * i + 3];
        pixels.set(4 * i, (p0 & 0xfc) | ((b >> 4) & 3));
        pixels.set(4 * i + 1, (p1 & 0xfc) | ((b >> 2) & 3));
        pixels.set(4 * i + 2, (p2 & 0xfc) | (b & 3));
        pixels.set(4 * i + 3, (p3 & 0xfc) | ((b >> 6) & 3));
        proof {
            assert forall|j: int| 0 <= j < 4 * (i + 1) implies pixels@[j] ==
                ((old(pixels)@[j] & 0xfc) | channel_bits(bytes@[j / 4], j % 4)) by {
                if 4 * i <= j {
                    assert(j / 4 == i && (j % 4 == j - 4 * i));
                }
            }
        }
        i = i + 1;
    }
    proof {
        assert(pixels@ =~= packed_pixels(old(pixels)@, bytes@));
    }
}

/// Extraction reads back exactly the bytes that packing stored: whatever
/// the pixel buffer held before, the channel bytes of a packed image carry
/// the packed byte array.
pub proof fn lemma_extract_pack_inverse(p: Seq<u8>, bytes: Seq<u8>)
    requires
        4 * bytes.len() <= p.len(),
    ensures
        extracted_bytes(packed_pixels(p, bytes)).subrange(0, bytes.len() as int) == bytes,
{
    let q = packed_pixels(p, bytes);
    assert forall|j: int| 0 <= j < bytes.len() implies extracted_bytes(q)[j] == bytes[j] by {
        let b = bytes[j];
        let r = p[4 * j];
        let g = p[4 * j + 1];
        let bb = p[4 * j + 2];
        let a = p[4 * j + 3];
        assert(q[4 * j] == ((r & 0xfc) | ((b >> 4) & 3)));
        assert(q[4 * j + 1] == ((g & 0xfc) | ((b >> 2) & 3)));
        assert(q[4 * j + 2] == ((bb & 0xfc) | (b & 3)));
        assert(q[4 * j + 3] == ((a & 0xfc) | ((b >> 6) & 3)));
        assert(extract_byte(
            (r & 0xfc) | ((b >> 4) & 3),
            (g & 0xfc) | ((b >> 2) & 3),
            (bb & 0xfc) | (b & 3),
            (a & 0xfc) | ((b >> 6) & 3),
        ) == b) by (bit_vector);
    }
    assert(extracted_bytes(q).subrange(0, bytes.len() as int) =~= bytes);
}

/// Packing the bytes that were just extracted restores every pixel exactly:
/// the low two bits of each channel are rewritten with their own old value
/// and the high six bits are never touched.
pub proof fn lemma_pack_extract_round_trip(p: Seq<u8>)
    ensures
        packed_pixels(p, extracted_bytes(p)) == p,
{
    let e = extracted_bytes(p);
    assert forall|i: int| 0 <= i < p.len() implies packed_pixels(p, e)[i] == p[i] by {
        if i < 4 * e.len() {
            let j = i / 4;
            let k = i % 4;
            let r = p[4 * j];
            let g = p[4 * j + 1];
            let b = p[4 * j + 2];
            let a = p[4 * j + 3];
            let x = extract_byte(r, g, b, a);
            assert(e[j] == x);
            if k == 0 {
                assert(i == 4 * j);
                assert((r & 0xfc) | ((extract_byte(r, g, b, a) >> 4) & 3) == r) by (bit_vector);
            } else if k == 1 {
                assert(i == 4 * j + 1);
                assert((g & 0xfc) | ((extract_byte(r, g, b, a) >> 2) & 3) == g) by (bit_vector);
            } else if k == 2 {
                assert(i == 4 * j + 2);
                assert((b & 0xfc) | (extract_byte(r, g, b, a) & 3) == b) by (bit_vector);
            } else {
                assert(i == 4 * j + 3);
                assert((a & 0xfc) | ((extract_byte(r, g, b, a) >> 6) & 3) == a) by (bit_vector);
            }
        }
    }
    assert(packed_pixels(p, e) =~= p);
}

} // verus!
