//! Decoding audio files with symphonia into interleaved 16-bit samples.
//!
//! symphonia's probe picks a format reader and a decoder for the bytes; the
//! library drives them: it picks the track, reads the packets one by one,
//! keeps those of its track and collects what the decoder gives.

use vstd::prelude::*;
use crate::errors::{CoreError, CoreResult, prefixed};

verus! {

broadcast use vstd::string::group_string_axioms;

/// An audio stream being decoded: symphonia's format reader, the decoder of
/// the chosen track once made, and the last packet read. Verus cannot
/// declare the readers' trait objects, so the fields are hidden from it.
#[verifier::external_body]
pub struct AudioReader {
    format: Box<dyn symphonia::core::formats::FormatReader>,
    decoder: Option<Box<dyn symphonia::core::codecs::Decoder>>,
    packet: Option<symphonia::core::formats::Packet>,
}

/// What the library reads of a track, as plain values: its id, whether its
/// codec is known, its sample rate and its channel count (see `TrackInfo`).
pub type TrackSpec = (u32, bool, Option<u32>, Option<u16>);

/// The tracks that probing `bytes` with the extension hint `ext` finds
/// (`get_probe().format`, then `tracks()`), in order, as `TrackSpec`s; or
/// the message of the probe's error. Probing reads container data only.
pub uninterp spec fn probed_tracks(bytes: Seq<u8>, ext: Option<Seq<char>>) -> Result<Seq<TrackSpec>, Seq<char>>;

/// What the `k`-th call (from 0) of `next_packet` gives on the reader probed
/// from `bytes` and `ext`: the track id of the packet, `None` at the end of
/// the stream (an unexpected end of file, or a reset request), or the
/// message of another error. Reading packets does not depend on decoding.
pub uninterp spec fn packet_read(bytes: Seq<u8>, ext: Option<Seq<char>>, k: nat) -> Result<Option<u32>, Seq<char>>;

/// The input that the reader was probed from.
pub uninterp spec fn reader_input(r: AudioReader) -> (Seq<u8>, Option<Seq<char>>);

/// How many times the reader's `next_packet` has been called.
pub uninterp spec fn reader_reads(r: AudioReader) -> nat;

/// Whether a decoder has been made for a track of the reader.
pub uninterp spec fn reader_decoding(r: AudioReader) -> bool;

/// Whether the reader holds a packet read and not decoded yet.
pub uninterp spec fn reader_has_packet(r: AudioReader) -> bool;

/// What the library reads of a track: its id, whether its codec is known
/// (not `CODEC_TYPE_NULL`), its sample rate and its channel count, where the
/// container gives them.
pub struct TrackInfo {
    pub id: u32,
    pub has_codec: bool,
    pub sample_rate: Option<u32>,
    pub channels: Option<u16>,
}

pub open spec fn tracks_view(v: Seq<TrackInfo>) -> Seq<TrackSpec> {
    v.map_values(|t: TrackInfo| (t.id, t.has_codec, t.sample_rate, t.channels))
}

pub open spec fn ext_view(ext: Option<&str>) -> Option<Seq<char>> {
    match ext {
        Some(e) => Some(e@),
        None => None,
    }
}

/// Probes `bytes` for a format symphonia reads (`get_probe().format`), with
/// the file extension `ext` as a hint; a failure gives its message.
#[verifier::external_body]
fn probe_audio(bytes: &[u8], ext: Option<&str>) -> (r: Result<AudioReader, String>)
    ensures
        match r {
            Ok(rd) => reader_input(rd) == (bytes@, ext_view(ext)) && reader_reads(rd) == 0
                && !reader_decoding(rd) && !reader_has_packet(rd) && probed_tracks(bytes@, ext_view(ext)) is Ok,
            Err(m) => probed_tracks(bytes@, ext_view(ext)) == Err::<Seq<TrackSpec>, Seq<char>>(m@),
        },
{
    let mss = symphonia::core::io::MediaSourceStream::new(Box::new(std::io::Cursor::new(bytes.to_vec())), Default::default());
    let mut hint = symphonia::core::probe::Hint::new();
    if let Some(e) = ext {
        hint.with_extension(e);
    }
    match symphonia::default::get_probe().format(&hint, mss, &Default::default(), &Default::default()) {
        Ok(p) => Ok(AudioReader { format: p.format, decoder: None, packet: None }),
        Err(e) => Err(e.to_string()),
    }
}

/// The tracks of the reader (`tracks`), in its order; before any packet is
/// read they are those that probing found.
#[verifier::external_body]
fn reader_tracks(r: &AudioReader) -> (found: Vec<TrackInfo>)
    ensures
        reader_reads(*r) == 0 ==> (probed_tracks(reader_input(*r).0, reader_input(*r).1) == Ok::<Seq<TrackSpec>, Seq<char>>(tracks_view(found@))),
{
    r.format.tracks().iter().map(|t| TrackInfo {
        id: t.id,
        has_codec: t.codec_params.codec != symphonia::core::codecs::CODEC_TYPE_NULL,
        sample_rate: t.codec_params.sample_rate,
        channels: t.codec_params.channels.map(|c| c.count() as u16),
    }).collect()
}

/// Makes the decoder of the track at `index` (`get_codecs().make` with the
/// default options); a failure gives its message. The format reader is left
/// as it is.
#[verifier::external_body]
fn start_decoder(r: &mut AudioReader, index: usize) -> (res: Result<(), String>)
    requires
        reader_reads(*old(r)) == 0,
        probed_tracks(reader_input(*old(r)).0, reader_input(*old(r)).1) matches Ok(ts) && index < ts.len(),
    ensures
        reader_input(*final(r)) == reader_input(*old(r)),
        reader_reads(*final(r)) == reader_reads(*old(r)),
        res is Ok ==> reader_decoding(*final(r)),
{
    match symphonia::default::get_codecs().make(&r.format.tracks()[index].codec_params, &Default::default()) {
        Ok(d) => {
            r.decoder = Some(d);
            Ok(())
        },
        Err(e) => Err(e.to_string()),
    }
}

/// What reading the next packet gave.
pub enum PacketRead {
    /// A packet of the track with this id, now held by the reader.
    Packet(u32),
    /// The end of the stream: an unexpected end of file, or a reset request.
    End,
    /// Any other error, with its message.
    Failed(String),
}

/// Reads the next packet (`next_packet`) and holds it; the outcome is
/// `packet_read` of the reader's input at its count of reads.
#[verifier::external_body]
fn read_packet(r: &mut AudioReader) -> (p: PacketRead)
    ensures
        reader_input(*final(r)) == reader_input(*old(r)),
        reader_reads(*final(r)) == reader_reads(*old(r)) + 1,
        reader_decoding(*final(r)) == reader_decoding(*old(r)),
        ({
            let (b, e) = reader_input(*old(r));
            match p {
                PacketRead::Packet(id) => packet_read(b, e, reader_reads(*old(r))) == Ok::<Option<u32>, Seq<char>>(Some(id))
                    && reader_has_packet(*final(r)),
                PacketRead::End => packet_read(b, e, reader_reads(*old(r))) == Ok::<Option<u32>, Seq<char>>(None),
                PacketRead::Failed(m) => packet_read(b, e, reader_reads(*old(r))) == Err::<Option<u32>, Seq<char>>(m@),
            }
        }),
{
    match r.format.next_packet() {
        Ok(pk) => {
            let id = pk.track_id();
            r.packet = Some(pk);
            PacketRead::Packet(id)
        },
        Err(symphonia::core::errors::Error::IoError(ref e)) if e.kind() == std::io::ErrorKind::UnexpectedEof => PacketRead::End,
        Err(symphonia::core::errors::Error::ResetRequired) => PacketRead::End,
        Err(e) => PacketRead::Failed(e.to_string()),
    }
}

/// Decodes the packet held (`decode`) and gives its samples interleaved as
/// `i16` (`SampleBuffer::copy_interleaved_ref`); a failure gives its message.
/// The samples are left unsaid: codecs such as Vorbis compute in floating
/// point. The format reader is left as it is.
#[verifier::external_body]
fn decode_packet(r: &mut AudioReader) -> (res: Result<Vec<i16>, String>)
    requires
        reader_decoding(*old(r)),
        reader_has_packet(*old(r)),
    ensures
        reader_input(*final(r)) == reader_input(*old(r)),
        reader_reads(*final(r)) == reader_reads(*old(r)),
        reader_decoding(*final(r)),
{
    let pk = r.packet.take().unwrap();
    match r.decoder.as_mut().unwrap().decode(&pk) {
        Ok(d) => {
            let mut buf = symphonia::core::audio::SampleBuffer::<i16>::new(d.capacity() as u64, *d.spec());
            buf.copy_interleaved_ref(d);
            Ok(buf.samples().to_vec())
        },
        Err(e) => Err(e.to_string()),
    }
}

/// The index of the first track whose codec is known, if any.
pub open spec fn first_codec(ts: Seq<TrackSpec>) -> Option<int> {
    if exists|i: int| 0 <= i < ts.len() && (#[trigger] ts[i]).1 && forall|j: int| 0 <= j < i ==> !(#[trigger] ts[j]).1 {
        Some(choose|i: int| 0 <= i < ts.len() && (#[trigger] ts[i]).1 && forall|j: int| 0 <= j < i ==> !(#[trigger] ts[j]).1)
    } else {
        None
    }
}

/// The first `n` reads of the stream all gave packets.
pub open spec fn packets_before(bytes: Seq<u8>, ext: Option<Seq<char>>, n: nat) -> bool {
    forall|j: nat| j < n ==> (#[trigger] packet_read(bytes, ext, j)) matches Ok(Some(_))
}

/// How many of the first `n` reads gave a packet of the track `id`.
pub open spec fn track_packet_count(bytes: Seq<u8>, ext: Option<Seq<char>>, n: nat, id: u32) -> nat
    decreases n,
{
    if n == 0 {
        0
    } else {
        track_packet_count(bytes, ext, (n - 1) as nat, id) + if packet_read(bytes, ext, (n - 1) as nat) == Ok::<Option<u32>, Seq<char>>(Some(id)) {
            1nat
        } else {
            0nat
        }
    }
}

/// A decoding of `bytes` that symphonia can give: the sample rate `sr` and
/// channel count `ch` of the first track with a known codec, and one block
/// of samples `ps[k]` for each packet of that track, in the order read,
/// the stream read to its end without error.
pub open spec fn decode_admits(
    bytes: Seq<u8>,
    ext: Option<Seq<char>>,
    ps: Seq<Seq<i16>>,
    sr: Option<u32>,
    ch: Option<u16>,
) -> bool {
    &&& probed_tracks(bytes, ext) matches Ok(ts)
    &&& first_codec(ts) matches Some(i)
    &&& sr == ts[i].2 && ch == ts[i].3
    &&& exists|n: nat| packets_before(bytes, ext, n) && packet_read(bytes, ext, n) == Ok::<Option<u32>, Seq<char>>(None)
        && ps.len() == track_packet_count(bytes, ext, n, ts[i].0)
}

/// The decoded audio of a file: the samples of each packet of its track,
/// interleaved, and the track's sample rate and channel count when the
/// container gives them.
pub struct DecodedAudio {
    pub packets: Vec<Vec<i16>>,
    pub sample_rate: Option<u32>,
    pub channels: Option<u16>,
}

/// The index of the first track whose codec is known.
fn first_audio_track(tracks: &Vec<TrackInfo>) -> (r: Option<usize>)
    ensures
        match r {
            Some(i) => first_codec(tracks_view(tracks@)) == Some(i as int) && i < tracks.len(),
            None => first_codec(tracks_view(tracks@)) is None,
        },
{
    let ghost ts = tracks_view(tracks@);
    let mut i: usize = 0;
    while i < tracks.len()
        invariant
            ts == tracks_view(tracks@),
            i <= tracks.len(),
            forall|j: int| 0 <= j < i ==> !(#[trigger] ts[j]).1,
        decreases tracks.len() - i,
    {
        assert(ts[i as int].1 == tracks@[i as int].has_codec);
        if tracks[i].has_codec {
            proof {
                let k = i as int;
                assert(0 <= k < ts.len() && ts[k].1 && forall|j: int| 0 <= j < k ==> !(#[trigger] ts[j]).1);
                let c = choose|c: int| 0 <= c < ts.len() && (#[trigger] ts[c]).1 && forall|j: int| 0 <= j < c ==> !(#[trigger] ts[j]).1;
                if c < k {
                    assert(!ts[c].1);
                }
                if k < c {
                    assert(!ts[k].1);
                }
            }
            return Some(i);
        }
        i = i + 1;
    }
    proof {
        if exists|c: int| 0 <= c < ts.len() && (#[trigger] ts[c]).1 && forall|j: int| 0 <= j < c ==> !(#[trigger] ts[j]).1 {
            let c = choose|c: int| 0 <= c < ts.len() && (#[trigger] ts[c]).1 && forall|j: int| 0 <= j < c ==> !(#[trigger] ts[j]).1;
            assert(!ts[c].1);
        }
    }
    None
}

/// Decodes `bytes` (a file whose extension is `ext`, if any): probes the
/// format, takes the first track with a known codec, makes its decoder and
/// reads packets until the end of the stream, keeping the samples of the
/// packets of that track (see `decode_admits`). The errors are `Audio`
/// errors: `probe: <m>`, `no audio track`, `decoder: <m>`, `packet: <m>`
/// (after reads that all gave packets) and `decode: <m>`. The loop gives up
/// after `u64::MAX` reads, which no stream here reaches.
pub fn decode_audio(bytes: &[u8], ext: Option<&str>) -> (r: CoreResult<DecodedAudio>)
    ensures
        match probed_tracks(bytes@, ext_view(ext)) {
            Err(m) => r matches Err(CoreError::Audio(x)) && x@ == "probe: "@ + m,
            Ok(ts) => match first_codec(ts) {
                None => r matches Err(CoreError::Audio(x)) && x@ == "no audio track"@,
                Some(i) => match r {
                    Ok(d) => decode_admits(bytes@, ext_view(ext), packets_view(d), d.sample_rate, d.channels),
                    Err(e) => e matches CoreError::Audio(x) && (x@ == "packet: too many packets"@
                        || exists|m: Seq<char>| x@ == "decoder: "@ + m || x@ == "decode: "@ + m
                        || (x@ == "packet: "@ + m && exists|n: nat| packets_before(bytes@, ext_view(ext), n)
                            && packet_read(bytes@, ext_view(ext), n) == Err::<Option<u32>, Seq<char>>(m))),
                },
            },
        },
{
    let ghost ev = ext_view(ext);
    let mut rd = match probe_audio(bytes, ext) {
        Ok(x) => x,
        Err(m) => return Err(CoreError::Audio(prefixed("probe: ", &m))),
    };
    let tracks = reader_tracks(&rd);
    let ghost ts = tracks_view(tracks@);
    let index = match first_audio_track(&tracks) {
        Some(i) => i,
        None => return Err(CoreError::Audio("no audio track".to_owned())),
    };
    let track_id = tracks[index].id;
    let sample_rate = tracks[index].sample_rate;
    let channels = tracks[index].channels;
    assert(ts[index as int] == (track_id, tracks@[index as int].has_codec, sample_rate, channels));
    assert(probed_tracks(bytes@, ev) == Ok::<Seq<TrackSpec>, Seq<char>>(ts));
    match start_decoder(&mut rd, index) {
        Ok(()) => {},
        Err(m) => {
            let x = prefixed("decoder: ", &m);
            assert(x@ == "decoder: "@ + m@);
            return Err(CoreError::Audio(x));
        },
    }
    let mut packets: Vec<Vec<i16>> = Vec::new();
    let mut count: u64 = 0;
    while count < u64::MAX
        invariant
            reader_decoding(rd),
            reader_input(rd) == (bytes@, ev),
            reader_reads(rd) == count as nat,
            packets_before(bytes@, ev, count as nat),
            packets_view_seq(packets@).len() == track_packet_count(bytes@, ev, count as nat, track_id),
            ev == ext_view(ext),
            probed_tracks(bytes@, ev) == Ok::<Seq<TrackSpec>, Seq<char>>(ts),
            first_codec(ts) == Some(index as int),
            0 <= index < ts.len(),
            ts[index as int] == (track_id, ts[index as int].1, sample_rate, channels),
        decreases u64::MAX - count,
    {
        let ghost k = count as nat;
        match read_packet(&mut rd) {
            PacketRead::End => {
                assert(packet_read(bytes@, ev, k) == Ok::<Option<u32>, Seq<char>>(None));
                let ghost pv = packets_view_seq(packets@);
                let d = DecodedAudio { packets, sample_rate, channels };
                assert(packets_view(d) == pv);
                assert(pv.len() == track_packet_count(bytes@, ev, k, ts[index as int].0));
                return Ok(d);
            },
            PacketRead::Failed(m) => {
                let x = prefixed("packet: ", &m);
                assert(packets_before(bytes@, ev, k) && packet_read(bytes@, ev, k) == Err::<Option<u32>, Seq<char>>(m@));
                return Err(CoreError::Audio(x));
            },
            PacketRead::Packet(id) => {
                if id == track_id {
                    match decode_packet(&mut rd) {
                        Ok(smp) => packets.push(smp),
                        Err(m) => {
                            let x = prefixed("decode: ", &m);
                            assert(x@ == "decode: "@ + m@);
                            return Err(CoreError::Audio(x));
                        },
                    }
                }
                assert forall|j: nat| j < k + 1 implies (#[trigger] packet_read(bytes@, ev, j)) matches Ok(Some(_)) by {
                    if j < k {
                        assert(packets_before(bytes@, ev, k));
                    }
                }
            },
        }
        count = count + 1;
    }
    Err(CoreError::Audio("packet: too many packets".to_owned()))
}

pub open spec fn packets_view_seq(v: Seq<Vec<i16>>) -> Seq<Seq<i16>> {
    v.map_values(|p: Vec<i16>| p@)
}

pub open spec fn packets_view(d: DecodedAudio) -> Seq<Seq<i16>> {
    packets_view_seq(d.packets@)
}

} // verus!
