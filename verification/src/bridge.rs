//! The request stream of the Audio2Face-3D bridge.
//!
//! The bridge streams a PCM-16 mono WAV to the Audio2Face-3D service
//! (`ProcessAudioStream`): first a header describing the audio (and the
//! face, emotion and blendshape parameters), then the samples in chunks of
//! little-endian bytes, then an end-of-audio marker.
use vstd::prelude::*;

verus! {

/// The audio format code of linear PCM.
pub const AUDIO_FORMAT_PCM: i32 = 0;

/// The description of the streamed audio.
#[derive(Debug, Clone, Copy, PartialEq, Eq, Structural)]
pub struct AudioHeader {
    pub audio_format: i32,
    pub channel_count: u32,
    pub samples_per_second: u32,
    pub bits_per_sample: u32,
}

/// One message of the request stream.
#[derive(Debug)]
pub enum AudioStreamPart {
    /// The stream header: the audio description (the face, emotion and
    /// blendshape parameters are attached when the message is sent).
    Header(AudioHeader),
    /// A chunk of samples as little-endian 16-bit bytes.
    Audio(Vec<u8>),
    /// The end of the audio.
    EndOfAudio,
}

/// The two little-endian bytes of a 16-bit sample.
pub open spec fn sample_le_bytes(s: i16) -> Seq<u8> {
    let u: int = if s < 0 {
        s + 65536
    } else {
        s as int
    };
    seq![(u % 256) as u8, (u / 256) as u8]
}

/// The little-endian bytes of a run of samples.
pub open spec fn samples_le_bytes(samples: Seq<i16>) -> Seq<u8>
    decreases samples.len(),
{
    if samples.len() == 0 {
        Seq::empty()
    } else {
        samples_le_bytes(samples.drop_last()) + sample_le_bytes(samples.last())
    }
}

/// The end (exclusive) of chunk `k` of `n` samples in chunks of `size`.
pub open spec fn sample_chunk_end(n: int, size: int, k: int) -> int {
    if (k + 1) * size <= n {
        (k + 1) * size
    } else {
        n
    }
}

/// How many chunks of `size` samples `n` samples make.
pub open spec fn sample_chunk_count(n: int, size: int) -> int {
    (n + size - 1) / size
}

/// The header of a PCM-16 mono stream at `sample_rate`.
pub open spec fn pcm16_mono_header(sample_rate: u32) -> AudioHeader {
    AudioHeader {
        audio_format: AUDIO_FORMAT_PCM,
        channel_count: 1,
        samples_per_second: sample_rate,
        bits_per_sample: 16,
    }
}

/// The little-endian bytes of two runs of samples, one after the other.
proof fn lemma_samples_le_bytes_append(a: Seq<i16>, b: Seq<i16>)
    ensures
        samples_le_bytes(a + b) == samples_le_bytes(a) + samples_le_bytes(b),
    decreases b.len(),
{
    if b.len() == 0 {
        assert(a + b =~= a);
        assert(samples_le_bytes(a) + samples_le_bytes(b) =~= samples_le_bytes(a));
    } else {
        lemma_samples_le_bytes_append(a, b.drop_last());
        assert((a + b).drop_last() =~= a + b.drop_last());
        assert((a + b).last() == b.last());
        assert(samples_le_bytes(a) + samples_le_bytes(b) =~= samples_le_bytes(a) + samples_le_bytes(
            b.drop_last(),
        ) + sample_le_bytes(b.last()));
    }
}

/// The bytes of the first `k` audio chunks of `samples` in chunks of
/// `size`, one after the other.
pub open spec fn streamed_bytes(samples: Seq<i16>, size: int, k: int) -> Seq<u8>
    decreases k,
{
    if k <= 0 {
        Seq::empty()
    } else {
        streamed_bytes(samples, size, k - 1) + samples_le_bytes(
            samples.subrange((k - 1) * size, sample_chunk_end(samples.len() as int, size, k - 1)),
        )
    }
}

/// The audio chunks of the request stream carry every sample once, in
/// order: their bytes, one after the other, are the little-endian bytes of
/// all the samples (two per sample).
pub proof fn audio_chunks_carry_every_sample(samples: Seq<i16>, size: int)
    requires
        size > 0,
    ensures
        streamed_bytes(samples, size, sample_chunk_count(samples.len() as int, size))
            == samples_le_bytes(samples),
        samples_le_bytes(samples).len() == 2 * samples.len(),
{
    let n = samples.len() as int;
    let count = sample_chunk_count(n, size);
    if n == 0 {
        assert(count == 0) by (nonlinear_arith)
            requires
                n == 0,
                size > 0,
                count == (n + size - 1) / size,
        ;
        assert(samples.subrange(0, 0) =~= samples);
        lemma_streamed_prefix(samples, size, count);
    } else {
        assert(count >= 1 && (count - 1) * size < n && n <= count * size) by (nonlinear_arith)
            requires
                n > 0,
                size > 0,
                count == (n + size - 1) / size,
        ;
        assert(samples.subrange(0, n) =~= samples);
        lemma_streamed_prefix(samples, size, count);
        assert(sample_chunk_end(n, size, count - 1) == n);
    }
    lemma_samples_le_bytes_len(samples);
}

/// The bytes of the first `k` chunks are those of the samples they cover.
proof fn lemma_streamed_prefix(samples: Seq<i16>, size: int, k: int)
    requires
        size > 0,
        0 <= k,
        (k - 1) * size < samples.len() || k == 0,
    ensures
        streamed_bytes(samples, size, k) == samples_le_bytes(
            samples.subrange(0, if k == 0 { 0 } else { sample_chunk_end(samples.len() as int, size, k - 1) }),
        ),
    decreases k,
{
    let n = samples.len() as int;
    if k == 0 {
        assert(samples.subrange(0, 0) =~= Seq::<i16>::empty());
    } else {
        if k >= 2 {
            assert((k - 2) * size < n) by (nonlinear_arith)
                requires
                    (k - 1) * size < n,
                    size > 0,
            ;
        }
        lemma_streamed_prefix(samples, size, k - 1);
        let start = (k - 1) * size;
        let prev_end = if k - 1 == 0 { 0 } else { sample_chunk_end(n, size, k - 2) };
        assert(prev_end == start) by (nonlinear_arith)
            requires
                k >= 1,
                start == (k - 1) * size,
                prev_end == (if k - 1 == 0 { 0 } else { sample_chunk_end(n, size, k - 2) }),
                k - 1 == 0 || (k - 1) * size <= n,
        ;
        let end = sample_chunk_end(n, size, k - 1);
        assert(k * size == start + size) by (nonlinear_arith)
            requires
                start == (k - 1) * size,
        ;
        assert(start <= end && end <= n);
        lemma_samples_le_bytes_append(samples.subrange(0, start), samples.subrange(start, end));
        assert(samples.subrange(0, start) + samples.subrange(start, end) =~= samples.subrange(0, end));
    }
}

/// Two bytes per sample.
proof fn lemma_samples_le_bytes_len(samples: Seq<i16>)
    ensures
        samples_le_bytes(samples).len() == 2 * samples.len(),
    decreases samples.len(),
{
    if samples.len() > 0 {
        lemma_samples_le_bytes_len(samples.drop_last());
    }
}

/// The stream's header describes the audio that follows: linear PCM, one
/// channel, 16-bit samples, at the sample rate it was given, whatever that
/// rate is.
pub proof fn stream_header_describes_the_audio(sample_rate: u32)
    ensures
        pcm16_mono_header(sample_rate).samples_per_second == sample_rate,
        pcm16_mono_header(sample_rate).channel_count == 1,
        pcm16_mono_header(sample_rate).bits_per_sample == 16,
        pcm16_mono_header(sample_rate).audio_format == 0,
{
}

/// How many samples go in one chunk: 100 ms of audio, for low latency.
pub fn chunk_samples_for(sample_rate: u32) -> (n: usize)
    ensures
        n == sample_rate / 10,
{
    (sample_rate / 10) as usize
}

fn append_sample(buf: &mut Vec<u8>, s: i16)
    ensures
        final(buf)@ == old(buf)@ + sample_le_bytes(s),
{
    let u: u16 = if s < 0 {
        (s as i32 + 65536) as u16
    } else {
        s as u16
    };
    buf.push((u % 256) as u8);
    buf.push((u / 256) as u8);
    assert(final(buf)@ =~= old(buf)@ + sample_le_bytes(s));
}

/// The little-endian bytes of `samples[from..to]`.
fn chunk_bytes(samples: &[i16], from: usize, to: usize) -> (b: Vec<u8>)
    requires
        from <= to <= samples@.len(),
    ensures
        b@ == samples_le_bytes(samples@.subrange(from as int, to as int)),
{
    let mut buf: Vec<u8> = Vec::new();
    let mut i = from;
    assert(samples@.subrange(from as int, from as int) =~= Seq::<i16>::empty());
    while i < to
        invariant
            from <= i <= to <= samples@.len(),
            buf@ == samples_le_bytes(samples@.subrange(from as int, i as int)),
        decreases to - i,
    {
        append_sample(&mut buf, samples[i]);
        assert(samples@.subrange(from as int, i + 1).drop_last() =~= samples@.subrange(
            from as int,
            i as int,
        ));
        i = i + 1;
    }
    buf
}

/// Build the request stream: the header, the samples in chunks of
/// `chunk_samples`, then the end-of-audio marker.
pub fn build_request_stream(samples: &[i16], sample_rate: u32, chunk_samples: usize) -> (parts:
    Vec<AudioStreamPart>)
    requires
        chunk_samples > 0,
    ensures
        parts@.len() == sample_chunk_count(samples@.len() as int, chunk_samples as int) + 2,
        parts@[0] == AudioStreamPart::Header(pcm16_mono_header(sample_rate)),
        parts@[0] matches AudioStreamPart::Header(h) && h.samples_per_second == sample_rate
            && h.channel_count == 1 && h.bits_per_sample == 16 && h.audio_format == 0,
        parts@.last() is EndOfAudio,
        forall|k: int|
            0 <= k < sample_chunk_count(samples@.len() as int, chunk_samples as int) ==> (
            #[trigger] parts@[k + 1] matches AudioStreamPart::Audio(b) && b@ == samples_le_bytes(
                samples@.subrange(
                    k * chunk_samples,
                    sample_chunk_end(samples@.len() as int, chunk_samples as int, k),
                ),
            )),
{
    let n = samples.len();
    let mut parts: Vec<AudioStreamPart> = Vec::new();
    parts.push(
        AudioStreamPart::Header(
            AudioHeader {
                audio_format: AUDIO_FORMAT_PCM,
                channel_count: 1,
                samples_per_second: sample_rate,
                bits_per_sample: 16,
            },
        ),
    );
    let ghost count = sample_chunk_count(n as int, chunk_samples as int);
    let mut start: usize = 0;
    let mut k: usize = 0;
    proof {
        let c = chunk_samples as int;
        if n > 0 {
            assert(count >= 1) by (nonlinear_arith)
                requires
                    n > 0,
                    c > 0,
                    count == (n + c - 1) / c,
            ;
        } else {
            assert(count == 0) by (nonlinear_arith)
                requires
                    n == 0,
                    c > 0,
                    count == (n + c - 1) / c,
            ;
        }
    }
    while start < n
        invariant
            k <= start,
            n == samples@.len(),
            chunk_samples > 0,
            count == sample_chunk_count(n as int, chunk_samples as int),
            start <= n,
            start < n ==> start == k * chunk_samples,
            start < n ==> k < count,
            start == n ==> k == count,
            parts@.len() == k + 1,
            parts@[0] == AudioStreamPart::Header(pcm16_mono_header(sample_rate)),
            forall|j: int|
                0 <= j < k ==> (#[trigger] parts@[j + 1] matches AudioStreamPart::Audio(b)
                    && b@ == samples_le_bytes(
                    samples@.subrange(
                        j * chunk_samples,
                        sample_chunk_end(n as int, chunk_samples as int, j),
                    ),
                )),
        decreases n - start,
    {
        let end: usize = if n - start >= chunk_samples {
            start + chunk_samples
        } else {
            n
        };
        assert(end == sample_chunk_end(n as int, chunk_samples as int, k as int)) by (
        nonlinear_arith)
            requires
                start == k * chunk_samples,
                end == (if n - start >= chunk_samples {
                    start + chunk_samples
                } else {
                    n as int
                }),
        ;
        let bytes = chunk_bytes(samples, start, end);
        parts.push(AudioStreamPart::Audio(bytes));
        proof {
            let c = chunk_samples as int;
            if end < n {
                assert(count > k + 1) by (nonlinear_arith)
                    requires
                        (k + 1) * c < n,
                        count == (n + c - 1) / c,
                        c > 0,
                ;
                assert(end == (k + 1) * c) by (nonlinear_arith)
                    requires
                        end == start + c,
                        start == k * c,
                ;
            } else {
                assert(count == k + 1) by (nonlinear_arith)
                    requires
                        k * c < n,
                        n <= (k + 1) * c,
                        count == (n + c - 1) / c,
                        c > 0,
                ;
            }
        }
        start = end;
        k = k + 1;
    }
    parts.push(AudioStreamPart::EndOfAudio);
    parts
}

} // verus!
