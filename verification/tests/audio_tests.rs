use sound_manager_core::audio::convert::{pcm_to_wav, probe_wav, to_wav, write_wav_16};
use sound_manager_core::audio::decode::{decode_audio, DecodedAudio};
use sound_manager_core::audio::play::{play_flags, play_wav, Playback, SND_ASYNC, SND_SYNC};
use sound_manager_core::errors::CoreError;

#[test]
fn wav_header() {
    let samples = vec![0i16; 44100];
    let wav = write_wav_16(&samples, 44100, 2).unwrap();
    assert_eq!(&wav[..4], b"RIFF");
    assert_eq!(&wav[8..12], b"WAVE");
}

#[test]
fn wav_header_fields_exact() {
    let wav = write_wav_16(&[1i16, -1], 8000, 1).unwrap();
    assert_eq!(wav.len(), 48);
    // RIFF size = 36 + data bytes
    assert_eq!(&wav[4..8], &40u32.to_le_bytes());
    assert_eq!(&wav[12..16], b"fmt ");
    assert_eq!(&wav[16..20], &16u32.to_le_bytes());
    assert_eq!(&wav[20..22], &1u16.to_le_bytes());
    assert_eq!(&wav[22..24], &1u16.to_le_bytes());
    assert_eq!(&wav[24..28], &8000u32.to_le_bytes());
    assert_eq!(&wav[28..32], &16000u32.to_le_bytes());
    assert_eq!(&wav[32..34], &2u16.to_le_bytes());
    assert_eq!(&wav[34..36], &16u16.to_le_bytes());
    assert_eq!(&wav[36..40], b"data");
    assert_eq!(&wav[40..44], &4u32.to_le_bytes());
    assert_eq!(&wav[44..], &[0x01, 0x00, 0xff, 0xff]);
}

#[test]
fn written_wav_reads_back_with_hound() {
    let samples: Vec<i16> = (0..100).map(|i| (i * 37 - 1000) as i16).collect();
    let wav = write_wav_16(&samples, 22050, 2).unwrap();
    let mut r = hound::WavReader::new(std::io::Cursor::new(wav)).unwrap();
    let spec = r.spec();
    assert_eq!(spec.channels, 2);
    assert_eq!(spec.sample_rate, 22050);
    assert_eq!(spec.bits_per_sample, 16);
    let back: Vec<i16> = r.samples::<i16>().map(|s| s.unwrap()).collect();
    assert_eq!(back, samples);
}

#[test]
fn probe_wav_cases() {
    let wav = write_wav_16(&[], 8000, 1).unwrap();
    assert_eq!(probe_wav(&wav), Some(true));
    assert_eq!(probe_wav(b"RIFF1234WAVX"), Some(false));
    assert_eq!(probe_wav(b"RIFF"), None);
}

#[test]
fn pcm_to_wav_duration_limit() {
    // exactly 30 s at 1 Hz is accepted, 31 s is too long
    let ok = pcm_to_wav(&DecodedAudio { packets: vec![vec![0i16; 10], vec![0i16; 20]], sample_rate: Some(1), channels: Some(1) }).unwrap();
    assert_eq!(ok, write_wav_16(&[0i16; 30], 1, 1).unwrap());
    let long = DecodedAudio { packets: vec![vec![0i16; 31]], sample_rate: Some(1), channels: Some(1) };
    assert!(matches!(pcm_to_wav(&long), Err(CoreError::SoundTooLong)));
}

#[test]
fn pcm_to_wav_defaults_and_frames() {
    // unknown rate and channels: 44100 Hz, stereo; packets concatenated
    let d = DecodedAudio { packets: vec![vec![1, 2], vec![3]], sample_rate: None, channels: None };
    let w = pcm_to_wav(&d).unwrap();
    assert_eq!(w, write_wav_16(&[1, 2, 3], 44100, 2).unwrap());
    assert_eq!(&w[24..28], &44100u32.to_le_bytes());
    assert_eq!(&w[22..24], &2u16.to_le_bytes());
    // frames are counted per packet, rounded down: 3 packets of 3 samples in
    // stereo are 3 frames, within 30 s at 1 Hz even with 9 samples
    let d = DecodedAudio { packets: vec![vec![0; 3], vec![0; 3], vec![0; 3]], sample_rate: Some(1), channels: Some(2) };
    assert!(pcm_to_wav(&d).is_ok());
}

#[test]
fn to_wav_decodes_a_wav_file() {
    let samples: Vec<i16> = (0..800).map(|i| (i * 37 % 2000 - 1000) as i16).collect();
    let input = write_wav_16(&samples, 8000, 1).unwrap();
    let out = to_wav(&input, Some("wav")).unwrap();
    assert_eq!(out, input);
    let d = decode_audio(&input, None).unwrap();
    assert_eq!(d.sample_rate, Some(8000));
    assert_eq!(d.channels, Some(1));
    assert_eq!(d.packets.concat(), samples);
}

#[test]
fn to_wav_refuses_long_and_unreadable_input() {
    let long = write_wav_16(&vec![0i16; 31 * 1000], 1000, 1).unwrap();
    assert!(matches!(to_wav(&long, Some("wav")), Err(CoreError::SoundTooLong)));
    assert!(matches!(to_wav(b"definitely not audio", None), Err(CoreError::Audio(m)) if m.starts_with("probe: ")));
}

#[test]
fn playback_outcomes() {
    assert_eq!(play_flags(true), SND_SYNC);
    assert_eq!(play_flags(false), SND_ASYNC);
    assert!(matches!(play_wav(Playback::Unsupported, true), Err(CoreError::Audio(m)) if m == "playback unsupported on this platform"));
    assert!(matches!(play_wav(Playback::Played(false), true), Err(CoreError::Audio(m)) if m == "PlaySound failed"));
    assert!(play_wav(Playback::Played(false), false).is_ok());
    assert!(play_wav(Playback::Played(true), true).is_ok());
}
