//! PCM WAV writing, WAV sniffing and the duration guard for imported sounds.

use vstd::prelude::*;
use crate::errors::{CoreError, CoreResult};
use crate::audio::decode::{
    DecodedAudio, decode_audio, packets_view, probed_tracks, first_codec, decode_admits, ext_view,
};

verus! {

/// Longest accepted sound, in seconds.
pub const MAX_SOUND_DURATION_SECS: u64 = 30;

/// Little-endian bytes of a 16-bit value.
pub open spec fn le16(x: int) -> Seq<u8> {
    seq![(x % 256) as u8, ((x / 256) % 256) as u8]
}

/// Little-endian bytes of a 32-bit value.
pub open spec fn le32(x: int) -> Seq<u8> {
    seq![
        (x % 256) as u8,
        ((x / 256) % 256) as u8,
        ((x / 65536) % 256) as u8,
        ((x / 16777216) % 256) as u8,
    ]
}

/// Two's complement little-endian bytes of a sample.
pub open spec fn sample_bytes(s: i16) -> Seq<u8> {
    le16(if s < 0 { s + 65536 } else { s as int })
}

pub open spec fn pcm_bytes(samples: Seq<i16>) -> Seq<u8>
    decreases samples.len(),
{
    if samples.len() == 0 {
        seq![]
    } else {
        pcm_bytes(samples.drop_last()) + sample_bytes(samples.last())
    }
}

pub open spec fn riff() -> Seq<u8> {
    seq![0x52u8, 0x49, 0x46, 0x46]
}

pub open spec fn wave() -> Seq<u8> {
    seq![0x57u8, 0x41, 0x56, 0x45]
}

pub open spec fn fmt_tag() -> Seq<u8> {
    seq![0x66u8, 0x6d, 0x74, 0x20]
}

pub open spec fn data_tag() -> Seq<u8> {
    seq![0x64u8, 0x61, 0x74, 0x61]
}

/// Size of the sample data as the header records it: twice the sample count,
/// kept to 32 bits.
pub open spec fn data_len(n_samples: nat) -> int {
    ((n_samples * 2) % 0x1_0000_0000) as int
}

/// The canonical 44-byte header of a 16-bit PCM WAV file.
pub open spec fn wav_header(n_samples: nat, sample_rate: u32, channels: u16) -> Seq<u8> {
    riff() + le32(36 + data_len(n_samples)) + wave() + fmt_tag() + le32(16) + le16(1) + le16(
        channels as int,
    ) + le32(sample_rate as int) + le32(sample_rate * channels * 2) + le16(channels * 2) + le16(16)
        + data_tag() + le32(data_len(n_samples))
}

pub open spec fn spec_wav(samples: Seq<i16>, sample_rate: u32, channels: u16) -> Seq<u8> {
    wav_header(samples.len(), sample_rate, channels) + pcm_bytes(samples)
}

fn push_le16(out: &mut Vec<u8>, x: u16)
    ensures
        final(out)@ == old(out)@ + le16(x as int),
{
    out.push((x % 256) as u8);
    out.push((x / 256) as u8);
    assert(final(out)@ =~= old(out)@ + le16(x as int));
}

fn push_le32(out: &mut Vec<u8>, x: u32)
    ensures
        final(out)@ == old(out)@ + le32(x as int),
{
    out.push((x % 256) as u8);
    out.push(((x / 256) % 256) as u8);
    out.push(((x / 65536) % 256) as u8);
    out.push((x / 16777216) as u8);
    assert(final(out)@ =~= old(out)@ + le32(x as int));
}

fn push_tag(out: &mut Vec<u8>, a: u8, b: u8, c: u8, d: u8)
    ensures
        final(out)@ == old(out)@ + seq![a, b, c, d],
{
    out.push(a);
    out.push(b);
    out.push(c);
    out.push(d);
    assert(final(out)@ =~= old(out)@ + seq![a, b, c, d]);
}

/// Serializes interleaved 16-bit samples as a PCM WAV file with the canonical
/// 44-byte header. The header fields must fit their widths (byte rate and
/// RIFF size in 32 bits, block alignment in 16 bits).
pub fn write_wav_16(samples: &[i16], sample_rate: u32, channels: u16) -> (r: CoreResult<Vec<u8>>)
    requires
        sample_rate * channels * 2 <= u32::MAX,
        channels * 2 <= u16::MAX,
        samples@.len() * 2 <= usize::MAX,
        36 + data_len(samples@.len()) <= u32::MAX,
    ensures
        r matches Ok(b) && b@ == spec_wav(samples@, sample_rate, channels),
{
    let byte_rate: u32 = sample_rate * (channels as u32) * 2;
    let block_align: u16 = channels * 2;
    let n = samples.len();
    let data_len: u32 = (((n * 2) as u64) % 0x1_0000_0000u64) as u32;
    let mut out: Vec<u8> = Vec::new();
    push_tag(&mut out, 0x52, 0x49, 0x46, 0x46);
    push_le32(&mut out, 36 + data_len);
    push_tag(&mut out, 0x57, 0x41, 0x56, 0x45);
    push_tag(&mut out, 0x66, 0x6d, 0x74, 0x20);
    push_le32(&mut out, 16);
    push_le16(&mut out, 1);
    push_le16(&mut out, channels);
    push_le32(&mut out, sample_rate);
    push_le32(&mut out, byte_rate);
    push_le16(&mut out, block_align);
    push_le16(&mut out, 16);
    push_tag(&mut out, 0x64, 0x61, 0x74, 0x61);
    push_le32(&mut out, data_len);
    let ghost header = out@;
    assert(header =~= wav_header(samples@.len(), sample_rate, channels));
    let mut i: usize = 0;
    while i < n
        invariant
            n == samples@.len(),
            i <= n,
            out@ == header + pcm_bytes(samples@.take(i as int)),
        decreases n - i,
    {
        let s = samples[i];
        let u: u16 = if s < 0 {
            ((s as i32) + 65536) as u16
        } else {
            s as u16
        };
        push_le16(&mut out, u);
        assert(samples@.take(i + 1).drop_last() =~= samples@.take(i as int));
        assert(out@ =~= header + pcm_bytes(samples@.take(i + 1)));
        i = i + 1;
    }
    assert(samples@.take(n as int) =~= samples@);
    Ok(out)
}

/// `Some(is RIFF/WAVE)` for data of 12 bytes or more, `None` for shorter data.
pub open spec fn spec_probe_wav(bytes: Seq<u8>) -> Option<bool> {
    if bytes.len() < 12 {
        None
    } else {
        Some(bytes.take(4) == riff() && bytes.subrange(8, 12) == wave())
    }
}

/// Cheap RIFF/WAVE sniff of a file's bytes.
pub fn probe_wav(bytes: &[u8]) -> (r: Option<bool>)
    ensures
        r == spec_probe_wav(bytes@),
{
    if bytes.len() < 12 {
        return None;
    }
    let is_riff = bytes[0] == 0x52 && bytes[1] == 0x49 && bytes[2] == 0x46 && bytes[3] == 0x46;
    let is_wave = bytes[8] == 0x57 && bytes[9] == 0x41 && bytes[10] == 0x56 && bytes[11] == 0x45;
    proof {
        if is_riff {
            assert(bytes@.take(4) =~= riff());
        } else {
            assert(bytes@.take(4) != riff()) by {
                if bytes@.take(4) == riff() {
                    assert(bytes@.take(4)[0] == riff()[0]);
                    assert(bytes@.take(4)[1] == riff()[1]);
                    assert(bytes@.take(4)[2] == riff()[2]);
                    assert(bytes@.take(4)[3] == riff()[3]);
                }
            }
        }
        if is_wave {
            assert(bytes@.subrange(8, 12) =~= wave());
        } else {
            assert(bytes@.subrange(8, 12) != wave()) by {
                if bytes@.subrange(8, 12) == wave() {
                    assert(bytes@.subrange(8, 12)[0] == wave()[0]);
                    assert(bytes@.subrange(8, 12)[1] == wave()[1]);
                    assert(bytes@.subrange(8, 12)[2] == wave()[2]);
                    assert(bytes@.subrange(8, 12)[3] == wave()[3]);
                }
            }
        }
    }
    Some(is_riff && is_wave)
}

/// Whatever `write_wav_16` writes is recognised as a WAV file.
pub proof fn law_written_wav_is_wav(samples: Seq<i16>, sample_rate: u32, channels: u16)
    ensures
        spec_probe_wav(spec_wav(samples, sample_rate, channels)) == Some(true),
{
    let w = spec_wav(samples, sample_rate, channels);
    let h = wav_header(samples.len(), sample_rate, channels);
    assert(h.len() == 44);
    assert(w.take(4) =~= riff());
    assert(w.subrange(8, 12) =~= wave());
}

/// The sound is longer than the limit: more samples per channel than
/// 30 seconds at `sample_rate` hold.
pub open spec fn too_long(total_frames: int, sample_rate: u32) -> bool {
    total_frames > MAX_SOUND_DURATION_SECS * sample_rate
}

/// A track's sample rate, 44100 Hz when the container gives none.
pub open spec fn rate_or_default(sr: Option<u32>) -> u32 {
    match sr {
        Some(r) => r,
        None => 44100,
    }
}

/// A track's channel count, 2 when the container gives none.
pub open spec fn channels_or_default(ch: Option<u16>) -> u16 {
    match ch {
        Some(c) => c,
        None => 2,
    }
}

/// The sample rate of decoded audio: the track's, else 44100 Hz.
pub open spec fn rate_of(d: DecodedAudio) -> u32 {
    rate_or_default(d.sample_rate)
}

/// The channel count of decoded audio: the track's, else 2.
pub open spec fn channels_of(d: DecodedAudio) -> u16 {
    channels_or_default(d.channels)
}


/// The samples of all packets, one after the other.
pub open spec fn concat_packets(ps: Seq<Seq<i16>>) -> Seq<i16>
    decreases ps.len(),
{
    if ps.len() == 0 {
        seq![]
    } else {
        concat_packets(ps.drop_last()) + ps.last()
    }
}

/// The frames of the packets: each packet's sample count divided by the
/// channel count (at least 1), rounded down, summed.
pub open spec fn frame_count(ps: Seq<Seq<i16>>, channels: u16) -> int
    decreases ps.len(),
{
    if ps.len() == 0 {
        0
    } else {
        frame_count(ps.drop_last(), channels) + (ps.last().len() as int) / (if channels == 0 { 1int } else { channels as int })
    }
}

/// The WAV header's fields fit their widths for these samples: byte rate
/// and RIFF size in 32 bits, block alignment in 16 bits.
pub open spec fn wav_fits(n_samples: nat, sample_rate: u32, channels: u16) -> bool {
    &&& sample_rate * channels * 2 <= u32::MAX
    &&& channels * 2 <= u16::MAX
    &&& n_samples * 2 <= usize::MAX
    &&& 36 + data_len(n_samples) <= u32::MAX
}

proof fn lemma_frames_le_samples(ps: Seq<Seq<i16>>, channels: u16)
    ensures
        0 <= frame_count(ps, channels) <= concat_packets(ps).len(),
    decreases ps.len(),
{
    if ps.len() > 0 {
        lemma_frames_le_samples(ps.drop_last(), channels);
        let c: int = if channels == 0 { 1int } else { channels as int };
        let n: int = ps.last().len() as int;
        assert(n / c <= n) by (nonlinear_arith)
            requires c >= 1, n >= 0;
        assert(n / c >= 0) by (nonlinear_arith)
            requires c >= 1, n >= 0;
    }
}

/// Turns decoded audio into a WAV file: the track's sample rate (44100 Hz
/// when unknown) and channel count (2 when unknown), the packets' samples
/// one after the other. A sound of more than 30 seconds is refused
/// (`SoundTooLong`).
pub fn pcm_to_wav(d: &DecodedAudio) -> (r: CoreResult<Vec<u8>>)
    requires
        rate_of(*d) > 0,
        concat_packets(packets_view(*d)).len() <= usize::MAX,
        !too_long(frame_count(packets_view(*d), channels_of(*d)), rate_of(*d))
            ==> wav_fits(concat_packets(packets_view(*d)).len(), rate_of(*d), channels_of(*d)),
    ensures
        too_long(frame_count(packets_view(*d), channels_of(*d)), rate_of(*d)) ==> r matches Err(CoreError::SoundTooLong),
        !too_long(frame_count(packets_view(*d), channels_of(*d)), rate_of(*d))
            ==> (r matches Ok(b) && b@ == spec_wav(concat_packets(packets_view(*d)), rate_of(*d), channels_of(*d))),
{
    let sample_rate: u32 = match d.sample_rate {
        Some(x) => x,
        None => 44100,
    };
    let channels: u16 = match d.channels {
        Some(x) => x,
        None => 2,
    };
    let per: u64 = if channels == 0 { 1 } else { channels as u64 };
    let ghost ps = packets_view(*d);
    let mut pcm: Vec<i16> = Vec::new();
    let mut frames: u64 = 0;
    let mut i: usize = 0;
    while i < d.packets.len()
        invariant
            ps == packets_view(*d),
            i <= d.packets.len(),
            per == (if channels == 0 { 1int } else { channels as int }),
            concat_packets(ps).len() <= usize::MAX,
            pcm@ == concat_packets(ps.take(i as int)),
            frames == frame_count(ps.take(i as int), channels),
        decreases d.packets.len() - i,
    {
        let p = &d.packets[i];
        assert(ps.take(i + 1).drop_last() =~= ps.take(i as int));
        assert(ps.take(i + 1).last() == p@);
        proof {
            lemma_concat_prefix_len(ps, i + 1);
            lemma_frames_le_samples(ps.take(i + 1), channels);
        }
        let mut j: usize = 0;
        let ghost before = pcm@;
        while j < p.len()
            invariant
                j <= p.len(),
                pcm@ == before + p@.take(j as int),
                before.len() + p@.len() <= usize::MAX,
            decreases p.len() - j,
        {
            pcm.push(p[j]);
            assert(p@.take(j + 1) =~= p@.take(j as int).push(p@[j as int]));
            assert(pcm@ =~= before + p@.take(j + 1));
            j = j + 1;
        }
        assert(p@.take(p.len() as int) =~= p@);
        frames = frames + (p.len() as u64) / per;
        i = i + 1;
    }
    assert(ps.take(d.packets.len() as int) =~= ps);
    if frames > MAX_SOUND_DURATION_SECS * (sample_rate as u64) {
        return Err(CoreError::SoundTooLong);
    }
    write_wav_16(pcm.as_slice(), sample_rate, channels)
}

/// The samples of the first `k` packets are a prefix of all of them.
proof fn lemma_concat_prefix_len(ps: Seq<Seq<i16>>, k: int)
    requires
        0 <= k <= ps.len(),
    ensures
        concat_packets(ps.take(k)).len() <= concat_packets(ps).len(),
    decreases ps.len() - k,
{
    if k < ps.len() {
        lemma_concat_prefix_len(ps, k + 1);
        assert(ps.take(k + 1).drop_last() =~= ps.take(k));
    } else {
        assert(ps.take(k) =~= ps);
    }
}

/// Converts an audio file to a 16-bit PCM WAV file: decodes it
/// (`decode_audio`) and writes what came out (`pcm_to_wav`). A track that
/// claims 0 Hz, or whose samples the WAV header cannot describe, is an
/// `Audio` error. What comes out is a WAV file of at most 30 seconds of the
/// decoded samples.
pub fn to_wav(bytes: &[u8], ext: Option<&str>) -> (r: CoreResult<Vec<u8>>)
    ensures
        match probed_tracks(bytes@, ext_view(ext)) {
            Err(m) => r matches Err(CoreError::Audio(x)) && x@ == "probe: "@ + m,
            Ok(ts) => match first_codec(ts) {
                None => r matches Err(CoreError::Audio(x)) && x@ == "no audio track"@,
                Some(i) => {
                    &&& r matches Ok(b) ==> exists|ps: Seq<Seq<i16>>, sr: Option<u32>, ch: Option<u16>|
                        decode_admits(bytes@, ext_view(ext), ps, sr, ch) && rate_or_default(sr) > 0
                        && !too_long(frame_count(ps, channels_or_default(ch)), rate_or_default(sr))
                        && b@ == spec_wav(concat_packets(ps), rate_or_default(sr), channels_or_default(ch))
                    &&& r matches Err(CoreError::SoundTooLong) ==> exists|ps: Seq<Seq<i16>>, sr: Option<u32>, ch: Option<u16>|
                        decode_admits(bytes@, ext_view(ext), ps, sr, ch)
                        && too_long(frame_count(ps, channels_or_default(ch)), rate_or_default(sr))
                    &&& r matches Err(e) ==> e is Audio || e is SoundTooLong
                },
            },
        },
{
    let d = match decode_audio(bytes, ext) {
        Ok(d) => d,
        Err(e) => return Err(e),
    };
    match wav_precheck(&d) {
        Some(e) => Err(e),
        None => {
            let r = pcm_to_wav(&d);
            assert(decode_admits(bytes@, ext_view(ext), packets_view(d), d.sample_rate, d.channels));
            r
        },
    }
}

/// What `pcm_to_wav` cannot take: a sample rate of 0 Hz, or (for a sound
/// within the limit) samples whose WAV header fields overflow. `None` when it
/// can take `d`.
fn wav_precheck(d: &DecodedAudio) -> (r: Option<CoreError>)
    ensures
        r is None <==> (rate_of(*d) > 0 && concat_packets(packets_view(*d)).len() <= usize::MAX
            && (!too_long(frame_count(packets_view(*d), channels_of(*d)), rate_of(*d))
            ==> wav_fits(concat_packets(packets_view(*d)).len(), rate_of(*d), channels_of(*d)))),
        r matches Some(e) ==> e is Audio,
{
    let sample_rate: u32 = match d.sample_rate {
        Some(x) => x,
        None => 44100,
    };
    let channels: u16 = match d.channels {
        Some(x) => x,
        None => 2,
    };
    if sample_rate == 0 {
        return Some(CoreError::Audio("unsupported sample rate: 0 Hz".to_owned()));
    }
    let per: u64 = if channels == 0 { 1 } else { channels as u64 };
    let ghost ps = packets_view(*d);
    let mut total: usize = 0;
    let mut frames: u64 = 0;
    let mut i: usize = 0;
    while i < d.packets.len()
        invariant
            ps == packets_view(*d),
            i <= d.packets.len(),
            per == (if channels == 0 { 1int } else { channels as int }),
            total == concat_packets(ps.take(i as int)).len(),
            frames == frame_count(ps.take(i as int), channels),
        decreases d.packets.len() - i,
    {
        let n = d.packets[i].len();
        assert(ps.take(i + 1).drop_last() =~= ps.take(i as int));
        proof {
            lemma_frames_le_samples(ps.take(i as int), channels);
        }
        if n > usize::MAX - total {
            proof {
                lemma_concat_prefix_len(ps, i + 1);
            }
            return Some(CoreError::Audio("too many samples for a WAV file".to_owned()));
        }
        total = total + n;
        frames = frames + (n as u64) / per;
        i = i + 1;
    }
    assert(ps.take(d.packets.len() as int) =~= ps);
    if frames > MAX_SOUND_DURATION_SECS * (sample_rate as u64) {
        return None;
    }
    let sr: u64 = sample_rate as u64;
    let ch: u64 = channels as u64;
    assert(sr * ch <= 0xffff_ffff * 0xffff) by (nonlinear_arith)
        requires sr <= 0xffff_ffff, ch <= 0xffff;
    let fits = sr * ch * 2 <= 0xffff_ffff
        && (channels as u32) * 2 <= 0xffff
        && total <= usize::MAX / 2
        && 36 + ((total as u64) * 2) % 0x1_0000_0000 <= 0xffff_ffff;
    if fits {
        None
    } else {
        Some(CoreError::Audio("too many samples for a WAV file".to_owned()))
    }
}


proof fn lemma_frames_of_whole_frames(ps: Seq<Seq<i16>>, c: u16)
    requires
        c > 0,
        forall|i: int| 0 <= i < ps.len() ==> (#[trigger] ps[i]).len() as int % (c as int) == 0,
    ensures
        frame_count(ps, c) * c == concat_packets(ps).len(),
    decreases ps.len(),
{
    if ps.len() > 0 {
        let init = ps.drop_last();
        assert forall|i: int| 0 <= i < init.len() implies (#[trigger] init[i]).len() as int % (c as int) == 0 by {
            assert(init[i] == ps[i]);
        }
        lemma_frames_of_whole_frames(init, c);
        let n: int = ps.last().len() as int;
        let ci: int = c as int;
        assert(ps[ps.len() - 1].len() as int % ci == 0);
        assert((n / ci) * ci == n) by (nonlinear_arith)
            requires ci > 0, n % ci == 0;
        assert(frame_count(ps, c) == frame_count(init, c) + n / ci);
        let a: int = frame_count(init, c);
        let b: int = n / ci;
        let f: int = frame_count(ps, c);
        assert(f * ci == a * ci + b * ci) by (nonlinear_arith)
            requires f == a + b;
    }
}

/// The 30-second limit is measured in frames (samples per channel) at the
/// sample rate: for a sound of `c` channels whose packets hold whole frames,
/// `n` frames in all (`n * c` samples), the frame count is `n` and the sound
/// is too long exactly when `n > 30 * rate`, whatever the channel count.
pub proof fn law_duration_counts_frames(ps: Seq<Seq<i16>>, c: u16, sample_rate: u32, n: nat)
    requires
        c > 0,
        forall|i: int| 0 <= i < ps.len() ==> (#[trigger] ps[i]).len() as int % (c as int) == 0,
        concat_packets(ps).len() == n * c,
    ensures
        frame_count(ps, c) == n,
        too_long(frame_count(ps, c), sample_rate) <==> n > 30 * sample_rate,
{
    lemma_frames_of_whole_frames(ps, c);
    let f = frame_count(ps, c);
    let ci: int = c as int;
    assert(f * ci == n * ci);
    assert(f == n) by (nonlinear_arith)
        requires f * ci == n * ci, ci > 0;
}

} // verus!
