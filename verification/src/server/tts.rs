//! Speech synthesis support: the repair of Kokoro's streaming WAV header and
//! the checks applied to the audio that Kokoro returns.
//!
//! Kokoro (via ffmpeg/Lavf) writes a *streaming* WAV header with the RIFF
//! chunk size and the data-chunk size both set to 0xFFFFFFFF (unknown
//! length). Some WAV decoders reject this, so the server rewrites those two
//! size fields to their correct values before forwarding the audio.
use vstd::prelude::*;
use crate::text::{trim_trailing_slashes, without_trailing_slashes};
use vstd::string::StringExecFns;

verus! {

/// The four ASCII bytes `RIFF`.
pub open spec fn riff_tag() -> Seq<u8> {
    seq![82u8, 73u8, 70u8, 70u8]
}

/// The four ASCII bytes `WAVE`.
pub open spec fn wave_tag() -> Seq<u8> {
    seq![87u8, 65u8, 86u8, 69u8]
}

/// The four ASCII bytes `data`.
pub open spec fn data_tag() -> Seq<u8> {
    seq![100u8, 97u8, 116u8, 97u8]
}

/// A buffer that starts like a RIFF/WAVE file: the `RIFF` tag, four size
/// bytes, and the `WAVE` form type.
pub open spec fn is_riff_wave(b: Seq<u8>) -> bool {
    &&& b.len() >= 12
    &&& b.subrange(0, 4) == riff_tag()
    &&& b.subrange(8, 12) == wave_tag()
}

/// The little-endian unsigned 32-bit value stored at `b[i..i + 4]`.
pub open spec fn le_u32_at(b: Seq<u8>, i: int) -> int {
    b[i] as int + 256 * (b[i + 1] as int) + 65536 * (b[i + 2] as int) + 16777216 * (b[i + 3] as int)
}

/// `b` with `v` written little-endian into `b[i..i + 4]`.
pub open spec fn put_le_u32(b: Seq<u8>, i: int, v: int) -> Seq<u8> {
    b.update(i, (v % 256) as u8).update(i + 1, ((v / 256) % 256) as u8).update(
        i + 2,
        ((v / 65536) % 256) as u8,
    ).update(i + 3, ((v / 16777216) % 256) as u8)
}

/// The offset of the chunk that follows the chunk whose header starts at
/// `pos`: the 8-byte header, the payload, and a pad byte for odd payloads.
pub open spec fn next_chunk_pos(b: Seq<u8>, pos: int) -> int {
    let size = le_u32_at(b, pos + 4);
    pos + 8 + size + size % 2
}

/// How much of `b` is left to walk from `pos` (zero once no full chunk
/// header fits).
pub open spec fn walk_measure(b: Seq<u8>, pos: int) -> int {
    if pos + 8 <= b.len() {
        b.len() - pos
    } else {
        0
    }
}

/// The offset of the first `data` chunk header found by walking the chunks
/// of `b` from `pos`, or `None` when the walk runs off the end of `b`.
pub open spec fn find_data_chunk(b: Seq<u8>, pos: int) -> Option<int>
    decreases walk_measure(b, pos),
{
    if 0 <= pos && pos + 8 <= b.len() {
        if b.subrange(pos, pos + 4) == data_tag() {
            Some(pos)
        } else {
            find_data_chunk(b, next_chunk_pos(b, pos))
        }
    } else {
        None
    }
}

/// The repaired WAV: for a RIFF/WAVE buffer, the RIFF size becomes the file
/// size minus 8 and the size of the first `data` chunk becomes the number of
/// bytes after its header; any other buffer is left as it is.
pub open spec fn repaired_wav(b: Seq<u8>) -> Seq<u8> {
    if !is_riff_wave(b) {
        b
    } else {
        let with_riff_size = put_le_u32(b, 4, b.len() - 8);
        match find_data_chunk(b, 12) {
            Some(p) => put_le_u32(with_riff_size, p + 4, b.len() - (p + 8)),
            None => with_riff_size,
        }
    }
}

proof fn lemma_data_search_after(b: Seq<u8>, pos: int)
    requires
        0 <= pos,
        pos + 8 <= b.len(),
        b.subrange(pos, pos + 4) != data_tag(),
    ensures
        find_data_chunk(b, pos) == find_data_chunk(b, next_chunk_pos(b, pos)),
{
}

proof fn lemma_le_u32_round_trip(b: Seq<u8>, i: int, v: int)
    requires
        0 <= i,
        i + 4 <= b.len(),
        0 <= v <= u32::MAX,
    ensures
        le_u32_at(put_le_u32(b, i, v), i) == v,
        put_le_u32(b, i, v).len() == b.len(),
        forall|j: int| 0 <= j < b.len() && !(i <= j < i + 4) ==> #[trigger] put_le_u32(b, i, v)[j] == b[j],
{
    let r = put_le_u32(b, i, v);
    assert(r[i] == (v % 256) as u8);
    assert(r[i + 1] == ((v / 256) % 256) as u8);
    assert(r[i + 2] == ((v / 65536) % 256) as u8);
    assert(r[i + 3] == ((v / 16777216) % 256) as u8);
    assert((v % 256) + 256 * ((v / 256) % 256) + 65536 * ((v / 65536) % 256) + 16777216 * ((v
        / 16777216) % 256) == v) by (nonlinear_arith)
        requires
            0 <= v <= u32::MAX,
    ;
}

proof fn lemma_found_chunk_bounds(b: Seq<u8>, pos: int)
    ensures
        find_data_chunk(b, pos) matches Some(p) ==> pos <= p && p + 8 <= b.len()
            && b.subrange(p, p + 4) == data_tag(),
    decreases walk_measure(b, pos),
{
    if 0 <= pos && pos + 8 <= b.len() {
        if b.subrange(pos, pos + 4) != data_tag() {
            lemma_found_chunk_bounds(b, next_chunk_pos(b, pos));
        }
    }
}

/// The chunk walk only reads chunk headers before the `data` chunk and the
/// tag of the `data` chunk itself, so two buffers that agree there walk to
/// the same place.
proof fn lemma_walk_agrees(b: Seq<u8>, c: Seq<u8>, pos: int)
    requires
        0 <= pos,
        b.len() == c.len(),
        forall|i: int|
            pos <= i < b.len() && (find_data_chunk(b, pos) matches Some(p) ==> i < p + 4) ==> b[i]
                == c[i],
    ensures
        find_data_chunk(c, pos) == find_data_chunk(b, pos),
    decreases walk_measure(b, pos),
{
    lemma_found_chunk_bounds(b, pos);
    if pos + 8 <= b.len() {
        if b.subrange(pos, pos + 4) == data_tag() {
            assert(c.subrange(pos, pos + 4) =~= b.subrange(pos, pos + 4));
        } else {
            let next0 = next_chunk_pos(b, pos);
            assert(next0 >= pos + 8);
            lemma_found_chunk_bounds(b, next0);
            assert(find_data_chunk(b, pos) == find_data_chunk(b, next0));
            assert(b[pos] == c[pos] && b[pos + 1] == c[pos + 1] && b[pos + 2] == c[pos + 2] && b[pos
                + 3] == c[pos + 3]);
            assert(b[pos + 4] == c[pos + 4] && b[pos + 5] == c[pos + 5] && b[pos + 6] == c[pos + 6]
                && b[pos + 7] == c[pos + 7]);
            assert(c.subrange(pos, pos + 4) =~= b.subrange(pos, pos + 4));
            assert(next_chunk_pos(c, pos) == next_chunk_pos(b, pos));
            let next = next_chunk_pos(b, pos);
            lemma_found_chunk_bounds(b, next);
            lemma_walk_agrees(b, c, next);
        }
    }
}

/// After the repair, the RIFF size field holds the file size minus 8 and the
/// size field of the first `data` chunk holds the number of bytes that follow
/// its header; the length of the buffer and its tags are unchanged.
pub proof fn repaired_sizes_are_correct(b: Seq<u8>)
    requires
        is_riff_wave(b),
        b.len() <= u32::MAX,
    ensures
        repaired_wav(b).len() == b.len(),
        is_riff_wave(repaired_wav(b)),
        le_u32_at(repaired_wav(b), 4) == b.len() - 8,
        find_data_chunk(b, 12) matches Some(p) ==> le_u32_at(repaired_wav(b), p + 4) == b.len() - (
        p + 8),
{
    let w = put_le_u32(b, 4, b.len() - 8);
    lemma_le_u32_round_trip(b, 4, b.len() - 8);
    lemma_found_chunk_bounds(b, 12);
    assert(w.subrange(0, 4) =~= b.subrange(0, 4));
    assert(w.subrange(8, 12) =~= b.subrange(8, 12));
    match find_data_chunk(b, 12) {
        Some(p) => {
            let r = put_le_u32(w, p + 4, b.len() - (p + 8));
            lemma_le_u32_round_trip(w, p + 4, b.len() - (p + 8));
            assert(r[4] == w[4] && r[5] == w[5] && r[6] == w[6] && r[7] == w[7]);
            assert(r.subrange(0, 4) =~= b.subrange(0, 4));
            assert(r.subrange(8, 12) =~= b.subrange(8, 12));
        },
        None => {},
    }
}

/// `ps` is a walk of the chunk headers of `b` from offset 12: each offset but
/// the last holds a full chunk header that is not tagged `data`, and the next
/// offset skips its 8-byte header, its payload and the pad byte of an odd
/// payload.
pub open spec fn is_chunk_walk(b: Seq<u8>, ps: Seq<int>) -> bool {
    &&& ps.len() > 0
    &&& ps[0] == 12
    &&& forall|i: int|
        0 <= i < ps.len() - 1 ==> {
            &&& #[trigger] ps[i] + 8 <= b.len()
            &&& b.subrange(ps[i], ps[i] + 4) != data_tag()
            &&& ps[i + 1] == ps[i] + 8 + le_u32_at(b, ps[i] + 4) + le_u32_at(b, ps[i] + 4) % 2
        }
}

/// The offsets of a walk start at 12 and only grow.
proof fn lemma_walk_offsets_grow(b: Seq<u8>, ps: Seq<int>, i: int)
    requires
        is_chunk_walk(b, ps),
        0 <= i < ps.len(),
    ensures
        ps[i] >= 12,
    decreases i,
{
    if i > 0 {
        lemma_walk_offsets_grow(b, ps, i - 1);
        assert(ps[i - 1] + 8 <= b.len());
        assert(b[ps[i - 1] + 4] as int >= 0);
    }
}

/// The search for the `data` chunk from any offset of a walk ends where it
/// ends from the walk's last offset.
proof fn lemma_walk_leads_to_its_end(b: Seq<u8>, ps: Seq<int>, i: int)
    requires
        is_chunk_walk(b, ps),
        0 <= i < ps.len(),
    ensures
        find_data_chunk(b, ps[i]) == find_data_chunk(b, ps.last()),
    decreases ps.len() - i,
{
    if i < ps.len() - 1 {
        lemma_walk_offsets_grow(b, ps, i);
        assert(ps[i] + 8 <= b.len());
        lemma_data_search_after(b, ps[i]);
        assert(ps[i + 1] == next_chunk_pos(b, ps[i]));
        lemma_walk_leads_to_its_end(b, ps, i + 1);
    }
}

/// Whatever chunks come before it (`fmt `, `LIST`, ...), the `data` chunk
/// that a walk of the chunk headers from offset 12 reaches gets the number of
/// bytes after its header as its size, the RIFF size becomes the file size
/// minus 8, and no other byte changes.
pub proof fn repair_patches_the_data_chunk_the_walk_reaches(b: Seq<u8>, ps: Seq<int>)
    requires
        is_riff_wave(b),
        b.len() <= u32::MAX,
        is_chunk_walk(b, ps),
        ps.last() + 8 <= b.len(),
        b.subrange(ps.last(), ps.last() + 4) == data_tag(),
    ensures
        repaired_wav(b).len() == b.len(),
        le_u32_at(repaired_wav(b), 4) == b.len() - 8,
        le_u32_at(repaired_wav(b), ps.last() + 4) == b.len() - (ps.last() + 8),
        forall|i: int|
            0 <= i < b.len() && !(4 <= i < 8) && !(ps.last() + 4 <= i < ps.last() + 8)
                ==> #[trigger] repaired_wav(b)[i] == b[i],
{
    let p = ps.last();
    lemma_walk_offsets_grow(b, ps, ps.len() - 1);
    lemma_walk_leads_to_its_end(b, ps, 0);
    assert(find_data_chunk(b, p) == Some(p));
    assert(find_data_chunk(b, 12) == Some(p));
    repaired_sizes_are_correct(b);
    let w = put_le_u32(b, 4, b.len() - 8);
    lemma_le_u32_round_trip(b, 4, b.len() - 8);
    lemma_le_u32_round_trip(w, p + 4, b.len() - (p + 8));
}

/// Repairing an already repaired WAV changes nothing.
pub proof fn repair_is_idempotent(b: Seq<u8>)
    requires
        is_riff_wave(b) ==> b.len() <= u32::MAX,
    ensures
        repaired_wav(repaired_wav(b)) == repaired_wav(b),
{
    if is_riff_wave(b) {
        let len = b.len() as int;
        let w = put_le_u32(b, 4, len - 8);
        lemma_le_u32_round_trip(b, 4, len - 8);
        lemma_found_chunk_bounds(b, 12);
        repaired_sizes_are_correct(b);
        let r = repaired_wav(b);
        match find_data_chunk(b, 12) {
            Some(p) => {
                lemma_le_u32_round_trip(w, p + 4, len - (p + 8));
                assert(forall|i: int| 12 <= i < len && i < p + 4 ==> b[i] == r[i]);
                lemma_walk_agrees(b, r, 12);
                let w2 = put_le_u32(r, 4, len - 8);
                lemma_le_u32_round_trip(r, 4, len - 8);
                let r2 = put_le_u32(w2, p + 4, len - (p + 8));
                lemma_le_u32_round_trip(w2, p + 4, len - (p + 8));
                assert(r2 =~= r);
            },
            None => {
                assert(forall|i: int| 12 <= i < len ==> b[i] == r[i]);
                lemma_walk_agrees(b, r, 12);
                let w2 = put_le_u32(r, 4, len - 8);
                lemma_le_u32_round_trip(r, 4, len - 8);
                assert(w2 =~= r);
            },
        }
    }
}

/// Write `v` little-endian into `bytes[i..i + 4]`.
fn write_le_u32(bytes: &mut [u8], i: usize, v: u32)
    requires
        i + 4 <= old(bytes)@.len(),
    ensures
        final(bytes)@ == put_le_u32(old(bytes)@, i as int, v as int),
{
    bytes[i] = (v % 256) as u8;
    bytes[i + 1] = ((v / 256) % 256) as u8;
    bytes[i + 2] = ((v / 65536) % 256) as u8;
    bytes[i + 3] = ((v / 16777216) % 256) as u8;
}

/// Whether `bytes` starts like a RIFF/WAVE file (see [`is_riff_wave`]): only
/// such a buffer is repaired, and only its size must fit the 32-bit size
/// fields.
pub fn looks_like_riff_wave(bytes: &[u8]) -> (b: bool)
    ensures
        b == is_riff_wave(bytes@),
{
    if bytes.len() < 12 || bytes[0] != 82u8 || bytes[1] != 73u8 || bytes[2] != 70u8 || bytes[3]
        != 70u8 || bytes[8] != 87u8 || bytes[9] != 65u8 || bytes[10] != 86u8 || bytes[11] != 69u8 {
        proof {
            if is_riff_wave(bytes@) {
                assert(bytes@.subrange(0, 4)[0] == bytes@[0]);
                assert(bytes@.subrange(0, 4)[1] == bytes@[1]);
                assert(bytes@.subrange(0, 4)[2] == bytes@[2]);
                assert(bytes@.subrange(0, 4)[3] == bytes@[3]);
                assert(bytes@.subrange(8, 12)[0] == bytes@[8]);
                assert(bytes@.subrange(8, 12)[1] == bytes@[9]);
                assert(bytes@.subrange(8, 12)[2] == bytes@[10]);
                assert(bytes@.subrange(8, 12)[3] == bytes@[11]);
            }
        }
        false
    } else {
        assert(bytes@.subrange(0, 4) =~= riff_tag());
        assert(bytes@.subrange(8, 12) =~= wave_tag());
        true
    }
}

/// Rewrite the RIFF chunk size and the `data` chunk size of a streaming WAV
/// header to their correct values, so the WAV is a well-formed, seekable
/// file. Buffers that are not RIFF/WAVE are left untouched, whatever their
/// size; a RIFF/WAVE buffer must fit its 32-bit size fields.
pub fn fix_streaming_wav_header(bytes: &mut [u8])
    requires
        is_riff_wave(old(bytes)@) ==> old(bytes)@.len() <= u32::MAX,
    ensures
        final(bytes)@ == repaired_wav(old(bytes)@),
{
    let len = bytes.len();
    if !looks_like_riff_wave(bytes) {
        return;
    }
    let ghost orig = bytes@;
    let total: u32 = len as u32;

    // RIFF chunk size = total file size - 8 (the "RIFF" + size fields).
    write_le_u32(bytes, 4, total - 8);
    let ghost patched = bytes@;

    // Walk chunks to find "data", then patch its size.
    let mut pos: usize = 12;
    while pos <= len - 8
        invariant
            len == orig.len(),
            len <= u32::MAX,
            total == len,
            is_riff_wave(orig),
            patched == put_le_u32(orig, 4, orig.len() - 8),
            bytes@ == patched,
            orig == old(bytes)@,
            12 <= pos <= len,
            find_data_chunk(orig, pos as int) == find_data_chunk(orig, 12),
        decreases len - pos,
    {
        assert(bytes@[pos as int] == orig[pos as int]);
        assert(bytes@[pos + 1] == orig[pos + 1]);
        assert(bytes@[pos + 2] == orig[pos + 2]);
        assert(bytes@[pos + 3] == orig[pos + 3]);
        assert(bytes@[pos + 4] == orig[pos + 4]);
        assert(bytes@[pos + 5] == orig[pos + 5]);
        assert(bytes@[pos + 6] == orig[pos + 6]);
        assert(bytes@[pos + 7] == orig[pos + 7]);
        let size: u64 = bytes[pos + 4] as u64 + 256 * (bytes[pos + 5] as u64) + 65536 * (
        bytes[pos + 6] as u64) + 16777216 * (bytes[pos + 7] as u64);
        if bytes[pos] == 100u8 && bytes[pos + 1] == 97u8 && bytes[pos + 2] == 116u8 && bytes[pos
            + 3] == 97u8 {
            assert(orig.subrange(pos as int, pos + 4) =~= data_tag());
            assert(find_data_chunk(orig, pos as int) == Some(pos as int));
            let data_size: u32 = total - (pos as u32 + 8);
            write_le_u32(bytes, pos + 4, data_size);
            return;
        }
        proof {
            if orig.subrange(pos as int, pos + 4) == data_tag() {
                assert(orig.subrange(pos as int, pos + 4)[0] == orig[pos as int]);
                assert(orig.subrange(pos as int, pos + 4)[1] == orig[pos + 1]);
                assert(orig.subrange(pos as int, pos + 4)[2] == orig[pos + 2]);
                assert(orig.subrange(pos as int, pos + 4)[3] == orig[pos + 3]);
            }
            lemma_data_search_after(orig, pos as int);
        }
        // Advance: 8-byte chunk header + size, padded to an even boundary.
        let next: u64 = pos as u64 + 8 + size + size % 2;
        if next + 8 > len as u64 {
            // No further chunk header fits: the walk is over.
            proof {
                assert(find_data_chunk(orig, next as int) is None);
                assert(find_data_chunk(orig, len as int) is None);
            }
            pos = len;
        } else {
            pos = next as usize;
        }
    }
}

/// The audio that Kokoro returned, made ready to forward: `None` when it is
/// empty (the synthesis produced no audio), otherwise the bytes with the
/// streaming WAV header repaired.
pub fn prepare_audio(bytes: Vec<u8>) -> (r: Option<Vec<u8>>)
    requires
        is_riff_wave(bytes@) ==> bytes@.len() <= u32::MAX,
    ensures
        r is None <==> bytes@.len() == 0,
        r matches Some(w) ==> w@ == repaired_wav(bytes@),
{
    if bytes.len() == 0 {
        return None;
    }
    let mut wav = bytes;
    fix_streaming_wav_header(wav.as_mut_slice());
    Some(wav)
}

/// The speech endpoint of a Kokoro base URL (trailing slashes dropped).
pub fn speech_endpoint(base_url: &str) -> (u: String)
    ensures
        u@ == without_trailing_slashes(base_url@) + "/v1/audio/speech"@,
{
    let mut u = trim_trailing_slashes(base_url);
    u.append("/v1/audio/speech");
    u
}

} // verus!
