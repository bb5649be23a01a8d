//! The compression-side match finder and its token encoding.
//!
//! `find` looks in the bytes already processed for the longest contiguous
//! run matching the start of the bytes still pending, the counterpart of the
//! legacy decoder's back-references.  `encode` writes a found match as a
//! variable-width token: the big-endian length, a `:` separator byte, and
//! the big-endian distance, each in the smallest power-of-two byte width
//! that holds its value.

use vstd::prelude::*;

verus! {

/// Length of the common prefix of two byte sequences.
pub open spec fn common_run(s: Seq<u8>, c: Seq<u8>) -> int
    decreases s.len(),
{
    if s.len() == 0 || c.len() == 0 || s[0] != c[0] {
        0
    } else {
        1 + common_run(s.subrange(1, s.len() as int), c.subrange(1, c.len() as int))
    }
}

/// `common_run` is within both lengths, matches byte for byte, and stops at
/// the first disagreement.
pub proof fn lemma_common_run(s: Seq<u8>, c: Seq<u8>)
    ensures
        0 <= common_run(s, c) <= s.len(),
        common_run(s, c) <= c.len(),
        forall|j: int| 0 <= j < common_run(s, c) ==> s[j] == c[j],
        (common_run(s, c) < s.len() && common_run(s, c) < c.len())
            ==> s[common_run(s, c)] != c[common_run(s, c)],
    decreases s.len(),
{
    if s.len() == 0 || c.len() == 0 || s[0] != c[0] {
    } else {
        let st = s.subrange(1, s.len() as int);
        let ct = c.subrange(1, c.len() as int);
        lemma_common_run(st, ct);
        assert forall|j: int| 0 <= j < common_run(s, c) implies s[j] == c[j] by {
            if j > 0 {
                assert(s[j] == st[j - 1] && c[j] == ct[j - 1]);
            }
        }
    }
}

/// The run length at position `pos` of the search buffer: how far the bytes
/// from `pos` on agree with the start of the pending bytes.
pub open spec fn run_len_at(search: Seq<u8>, cur: Seq<u8>, pos: int) -> int {
    common_run(search.subrange(pos, search.len() as int), cur)
}

/// Smallest power-of-two byte width that holds `v`: 1, 2, 4 or 8.
pub open spec fn width_of(v: int) -> int {
    if v < 0x100 {
        1
    } else if v < 0x10000 {
        2
    } else if v < 0x100000000 {
        4
    } else {
        8
    }
}

/// 256 to the power `k`.
pub open spec fn pow256(k: int) -> int
    decreases k,
{
    if k <= 0 {
        1
    } else {
        256 * pow256(k - 1)
    }
}

/// The `w`-byte big-endian representation of `v`: byte `j` is the base-256
/// digit of weight `w - 1 - j`.
pub open spec fn be_bytes(v: int, w: int) -> Seq<u8> {
    Seq::new(w as nat, |j: int| ((v / pow256(w - 1 - j)) % 256) as u8)
}

/// The token encoding of a match: variable-width big-endian length, the
/// separator byte `:`, and variable-width big-endian distance.
pub open spec fn encoded_match(length: int, distance: int) -> Seq<u8> {
    be_bytes(length, width_of(length)) + seq![58u8] + be_bytes(distance, width_of(distance))
}

/// The match finder and token encoder used on the compression side.
pub struct BackReferenceMatcher {}

impl BackReferenceMatcher {
    /// Finds the longest contiguous run in `search_buf` matching the start
    /// of `current_buf`, extending while bytes agree and ending at the first
    /// mismatch.  Returns its length and its distance back from the end of
    /// `search_buf`, preferring the earliest position among equally long
    /// runs; `None` when no byte matches at all.
    pub fn find(search_buf: &[u8], current_buf: &[u8]) -> (r: Option<(usize, usize)>)
        ensures
            match r {
                Some((length, distance)) => {
                    &&& 1 <= distance <= search_buf@.len()
                    &&& length as int == run_len_at(search_buf@, current_buf@,
                        search_buf@.len() - distance)
                    &&& length >= 1
                    &&& forall|p: int| 0 <= p < search_buf@.len()
                        ==> run_len_at(search_buf@, current_buf@, p) <= length
                    &&& forall|p: int| 0 <= p < search_buf@.len() - distance
                        ==> run_len_at(search_buf@, current_buf@, p) < length
                },
                None => forall|p: int| 0 <= p < search_buf@.len()
                    ==> run_len_at(search_buf@, current_buf@, p) == 0,
            },
    {
        let slen = search_buf.len();
        let clen = current_buf.len();
        let mut best_pos: usize = 0;
        let mut best_len: usize = 0;
        let mut pos: usize = 0;
        while pos < slen
            invariant
                slen == search_buf@.len(),
                clen == current_buf@.len(),
                pos <= slen,
                best_len == 0 ==> forall|p: int| 0 <= p < pos
                    ==> run_len_at(search_buf@, current_buf@, p) == 0,
                best_len > 0 ==> {
                    &&& best_pos < pos
                    &&& best_len as int == run_len_at(search_buf@, current_buf@, best_pos as int)
                    &&& forall|p: int| 0 <= p < pos
                        ==> run_len_at(search_buf@, current_buf@, p) <= best_len
                    &&& forall|p: int| 0 <= p < best_pos
                        ==> run_len_at(search_buf@, current_buf@, p) < best_len
                },
            decreases slen - pos,
        {
            let ghost suffix = search_buf@.subrange(pos as int, slen as int);
            let mut i: usize = 0;
            while pos + i < slen && i < clen && search_buf[pos + i] == current_buf[i]
                invariant
                    slen == search_buf@.len(),
                    clen == current_buf@.len(),
                    pos < slen,
                    i <= slen - pos,
                    i <= clen,
                    suffix == search_buf@.subrange(pos as int, slen as int),
                    forall|j: int| 0 <= j < i ==> suffix[j] == current_buf@[j],
                decreases slen - pos - i,
            {
                i = i + 1;
            }
            proof {
                lemma_common_run(suffix, current_buf@);
                assert(i as int == common_run(suffix, current_buf@));
            }
            if i > best_len {
                best_pos = pos;
                best_len = i;
            }
            pos = pos + 1;
        }
        if best_len == 0 {
            None
        } else {
            Some((best_len, slen - best_pos))
        }
    }

    /// Encodes a match as its token: big-endian length, the separator `:`,
    /// big-endian distance, each in the smallest power-of-two byte width.
    pub fn encode(length: usize, distance: usize) -> (r: Vec<u8>)
        ensures
            r@ == encoded_match(length as int, distance as int),
    {
        let mut out: Vec<u8> = Vec::new();
        push_be(&mut out, length);
        out.push(58);
        push_be(&mut out, distance);
        proof {
            assert(out@ =~= encoded_match(length as int, distance as int));
        }
        out
    }

    /// The encoding policy of the compressor: a back-reference token is only
    /// worth emitting for a run longer than three found further back than
    /// three; anything shorter or nearer stays literal.
    pub fn worth_encoding(length: usize, distance: usize) -> (r: bool)
        ensures
            r == (length > 3 && distance > 3),
    {
        length > 3 && distance > 3
    }
}

/// Appends the big-endian bytes of `v` in the smallest power-of-two width.
fn push_be(out: &mut Vec<u8>, v: usize)
    ensures
        final(out)@ == old(out)@ + be_bytes(v as int, width_of(v as int)),
{
    let x = v as u64;
    proof {
        reveal_with_fuel(pow256, 9);
    }
    if x < 0x100 {
        out.push((x % 256) as u8);
        proof {
            assert(out@ =~= old(out)@ + be_bytes(v as int, 1));
        }
    } else if x < 0x10000 {
        out.push(((x / 256) % 256) as u8);
        out.push((x % 256) as u8);
        proof {
            assert(out@ =~= old(out)@ + be_bytes(v as int, 2));
        }
    } else if x < 0x100000000 {
        out.push(((x / 0x1000000) % 256) as u8);
        out.push(((x / 0x10000) % 256) as u8);
        out.push(((x / 256) % 256) as u8);
        out.push((x % 256) as u8);
        proof {
            assert(out@ =~= old(out)@ + be_bytes(v as int, 4));
        }
    } else {
        out.push(((x / 0x100000000000000) % 256) as u8);
        out.push(((x / 0x1000000000000) % 256) as u8);
        out.push(((x / 0x10000000000) % 256) as u8);
        out.push(((x / 0x100000000) % 256) as u8);
        out.push(((x / 0x1000000) % 256) as u8);
        out.push(((x / 0x10000) % 256) as u8);
        out.push(((x / 256) % 256) as u8);
        out.push((x % 256) as u8);
        proof {
            assert(out@ =~= old(out)@ + be_bytes(v as int, 8));
        }
    }
}

} // verus!
