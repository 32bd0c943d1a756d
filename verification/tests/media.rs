use textractor_bridge::activity::{activity_stats, has_min_activity, trim_to_activity};
use textractor_bridge::audio::{
    AudioChunk, AudioManager, BackendPreference, FinishedMainAudio, FinishedTrimAudio, RollingAudioBuffer,
    CAPTURE_SAMPLE_RATE,
};
use textractor_bridge::config::AudioConfig;
use textractor_bridge::types::{AudioEndReason, AudioState};
use textractor_bridge::wav::{decode_pcm16_wav, duration_ms, encode_pcm16_wav, slice_pcm16_wav, WavError};

const SAMPLE_RATE: u32 = 48_000;

#[test]
fn wav_encoder_writes_pcm16_header() {
    let wav = encode_pcm16_wav(&[0, i16::MAX, i16::MIN], 48_000);
    assert_eq!(&wav[0..4], b"RIFF");
    assert_eq!(&wav[8..12], b"WAVE");
    assert_eq!(&wav[12..16], b"fmt ");
    assert_eq!(&wav[36..40], b"data");
    assert_eq!(u32::from_le_bytes([wav[40], wav[41], wav[42], wav[43]]), 6);
    assert_eq!(wav.len(), 50);
}

#[test]
fn wav_slicer_crops_pcm16_ranges() {
    let samples = (0..48_000).map(|value| value as i16).collect::<Vec<_>>();
    let wav = encode_pcm16_wav(&samples, 48_000);

    let sliced = slice_pcm16_wav(&wav, 250, 750).unwrap();
    assert_eq!(sliced.duration_ms, 500);

    let decoded = decode_pcm16_wav(&sliced.bytes).unwrap();
    assert_eq!(decoded.samples.len(), 24_000);
    assert_eq!(decoded.samples[0], samples[12_000]);
}

#[test]
fn wav_slicer_rejects_unsupported_audio() {
    assert!(slice_pcm16_wav(b"not a wav", 0, 100).is_err());
}

#[test]
fn wav_round_trips_samples_and_rate() {
    let samples: Vec<i16> = vec![5, -7, 300, i16::MIN, i16::MAX];
    let wav = encode_pcm16_wav(&samples, 22_050);
    let decoded = decode_pcm16_wav(&wav).unwrap();
    assert_eq!(decoded.sample_rate, 22_050);
    assert_eq!(decoded.samples, samples);
}

#[test]
fn wav_decoder_reports_missing_riff() {
    assert_eq!(decode_pcm16_wav(b"not a wav").unwrap_err(), WavError::NotRiffWave);
}

#[test]
fn wav_slicer_rejects_ranges_outside_the_source() {
    let samples = vec![0i16; 4_800];
    let wav = encode_pcm16_wav(&samples, 48_000);
    assert!(slice_pcm16_wav(&wav, 50, 50).is_err());
    assert!(slice_pcm16_wav(&wav, 0, 101).is_err());
    assert!(slice_pcm16_wav(&wav, 0, 100).is_ok());
}

#[test]
fn duration_is_whole_milliseconds() {
    assert_eq!(duration_ms(48_000, 48_000), 1_000);
    assert_eq!(duration_ms(47, 48_000), 0);
    assert_eq!(duration_ms(72_000, 48_000), 1_500);
}

#[test]
fn activity_requires_minimum_active_samples() {
    let mut samples = vec![0; 4_800];
    samples[2_000] = 1_000;

    let stats = activity_stats(&samples, 300).expect("active sample");

    assert!(!has_min_activity(&stats, SAMPLE_RATE, 30));
    assert!(has_min_activity(&stats, SAMPLE_RATE, 0));
}

#[test]
fn activity_stats_find_first_and_last_active_samples() {
    let mut samples = vec![0; 100];
    samples[10] = -400;
    samples[70] = 301;
    samples[50] = 300;
    let stats = activity_stats(&samples, 300).expect("active");
    assert_eq!(stats.first_active_index, 10);
    assert_eq!(stats.last_active_index, 70);
    assert_eq!(stats.active_samples, 3);
    assert!(activity_stats(&vec![0; 10], 300).is_none());
}

#[test]
fn trim_to_activity_keeps_padding_and_rejects_silence() {
    assert!(trim_to_activity(&vec![0; 4_800], SAMPLE_RATE, 300, 30, 1_000).is_none());

    let mut samples = vec![0; 100_000];
    for sample in samples.iter_mut().take(52_000).skip(50_000) {
        *sample = 1_000;
    }
    let trimmed = trim_to_activity(&samples, SAMPLE_RATE, 300, 30, 1_000).unwrap();
    assert_eq!(trimmed.samples.len(), 98_000);
    assert_eq!(trimmed.start_ms, 41);
    assert_eq!(trimmed.end_ms, 2083);
    assert!(trimmed.samples.len() < samples.len());
}

#[test]
fn rolling_buffer_collects_overlapping_range() {
    let mut buffer = RollingAudioBuffer::new(5_000);
    buffer.push_chunk(AudioChunk { start_unix_ms: 1_000, end_unix_ms: 2_000, samples: vec![1; 1_000] });
    buffer.push_chunk(AudioChunk { start_unix_ms: 2_000, end_unix_ms: 3_000, samples: vec![2; 1_000] });

    let samples = buffer.collect_range(1_500, 2_500);
    assert_eq!(samples.len(), 1_000);
    assert!(samples[..500].iter().all(|sample| *sample == 1));
    assert!(samples[500..].iter().all(|sample| *sample == 2));
}

#[test]
fn rolling_buffer_drops_chunks_past_retention() {
    let mut buffer = RollingAudioBuffer::new(1_000);
    buffer.push_chunk(AudioChunk { start_unix_ms: 0, end_unix_ms: 1_000, samples: vec![1; 1_000] });
    buffer.push_chunk(AudioChunk { start_unix_ms: 5_000, end_unix_ms: 6_000, samples: vec![2; 1_000] });
    assert!(buffer.collect_range(0, 1_000).is_empty());
    assert_eq!(buffer.collect_range(5_000, 6_000).len(), 1_000);
}

fn samples_by_ms(duration_ms: u64) -> Vec<i16> {
    (0..duration_ms).flat_map(|ms| std::iter::repeat(ms as i16).take(48)).collect()
}

fn decode_encoded_samples(bytes: &[u8]) -> Vec<i16> {
    bytes[44..].chunks_exact(2).map(|sample| i16::from_le_bytes([sample[0], sample[1]])).collect()
}

fn manager_with_samples(process_id: u32, start_unix_ms: i64, samples: Vec<i16>) -> AudioManager {
    let mut manager = AudioManager::new(AudioConfig::default());
    manager.ensure_capture(process_id);
    manager.set_capture_ready(process_id, "test".to_owned(), None);
    let duration = duration_ms(samples.len(), CAPTURE_SAMPLE_RATE) as i64;
    manager.push_captured_chunk(
        process_id,
        AudioChunk { start_unix_ms, end_unix_ms: start_unix_ms.saturating_add(duration), samples },
    );
    manager
}

#[test]
fn main_audio_captures_preroll_through_end_without_activity_trim() {
    let mut manager = manager_with_samples(7, 0, samples_by_ms(20_000));

    manager.start_line_session(1, 7, 10_000);
    let finished = manager
        .finish_main_line_session_at(1, AudioEndReason::LineAdvanced, 12_500)
        .expect("main session should finish");

    let FinishedMainAudio::Ready(captured) = finished else {
        panic!("main audio should be ready");
    };
    assert_eq!(captured.duration_ms, 4_500);
    assert_eq!(captured.end_reason, AudioEndReason::LineAdvanced);
    assert_eq!(captured.trim_recording_started_unix_ms, 0);

    let samples = decode_encoded_samples(&captured.bytes);
    assert_eq!(samples.len(), 216_000);
    assert_eq!(samples.first(), Some(&8_000));
    assert_eq!(samples.last(), Some(&12_499));
}

#[test]
fn trim_audio_captures_preroll_through_explicit_end() {
    let mut manager = manager_with_samples(7, 0, samples_by_ms(30_000));

    manager.start_line_session(1, 7, 11_000);
    let finished = manager
        .finish_trim_line_session_at(1, AudioEndReason::Manual, 25_000)
        .expect("trim session should finish");

    let FinishedTrimAudio::Ready(captured) = finished else {
        panic!("trim audio should be ready");
    };
    assert_eq!(captured.source_duration_ms, 24_000);
    assert_eq!(captured.start_ms, 0);
    assert_eq!(captured.end_ms, 24_000);

    let samples = decode_encoded_samples(&captured.source_bytes);
    assert_eq!(samples.len(), 1_152_000);
    assert_eq!(samples.first(), Some(&1_000));
    assert_eq!(samples.last(), Some(&24_999));
}

#[test]
fn main_recording_ids_skip_sessions_waiting_for_trim_source() {
    let mut manager = manager_with_samples(7, 0, samples_by_ms(30_000));

    manager.start_line_session(1, 7, 5_000);
    manager.start_line_session(2, 7, 6_000);
    manager.finish_main_line_session_at(1, AudioEndReason::LineAdvanced, 7_000);

    assert_eq!(manager.main_recording_line_ids_for_process(7), vec![2]);
    assert!(manager.is_recording(1));
    assert!(!manager.is_main_recording(1));
}

#[test]
fn audio_off_starts_no_session() {
    let mut manager = AudioManager::new(AudioConfig { backend: "off".to_owned() });
    assert!(!manager.enabled());
    assert_eq!(manager.start_line_session(1, 7, 5_000), None);
    assert!(!manager.is_recording(1));
}

#[test]
fn unknown_audio_backend_reports_no_audio() {
    let mut manager = AudioManager::new(AudioConfig { backend: "cassette".to_owned() });
    let started = manager.start_line_session(1, 7, 5_000);
    assert_eq!(
        started,
        Some(AudioState::NoAudio { reason: Some("unsupported audio backend 'cassette'".to_owned()) })
    );
    assert!(BackendPreference::from_config("cassette").is_none());
}

#[test]
fn finishing_without_capture_reports_no_audio() {
    let mut manager = AudioManager::new(AudioConfig::default());
    manager.start_line_session(3, 9, 1_000);
    let finished = manager.finish_main_line_session_at(3, AudioEndReason::Manual, 2_000);
    assert!(matches!(finished, Some(FinishedMainAudio::NoAudio { .. })));
    assert!(manager.finish_main_line_session_at(4, AudioEndReason::Manual, 2_000).is_none());
}

#[test]
fn clearing_sessions_ends_all_recordings() {
    let mut manager = manager_with_samples(7, 0, samples_by_ms(1_000));
    manager.start_line_session(1, 7, 500);
    manager.clear_sessions();
    assert!(!manager.is_recording(1));
    manager.start_line_session(2, 7, 600);
    manager.remove_line_session(2);
    assert!(!manager.is_recording(2));
}

fn riff(chunks: &[(&[u8; 4], Vec<u8>)]) -> Vec<u8> {
    let mut out = b"RIFF\0\0\0\0WAVE".to_vec();
    for (id, body) in chunks {
        out.extend_from_slice(*id);
        out.extend_from_slice(&(body.len() as u32).to_le_bytes());
        out.extend_from_slice(body);
        if body.len() % 2 == 1 {
            out.push(0);
        }
    }
    out
}

fn fmt_body(format: u16, channels: u16, rate: u32, bits: u16) -> Vec<u8> {
    let mut b = Vec::new();
    b.extend_from_slice(&format.to_le_bytes());
    b.extend_from_slice(&channels.to_le_bytes());
    b.extend_from_slice(&rate.to_le_bytes());
    b.extend_from_slice(&(rate * 2).to_le_bytes());
    b.extend_from_slice(&2u16.to_le_bytes());
    b.extend_from_slice(&bits.to_le_bytes());
    b
}

#[test]
fn wav_decoder_reports_each_error() {
    let good_fmt = fmt_body(1, 1, 8_000, 16);
    assert_eq!(decode_pcm16_wav(&riff(&[(b"data", vec![1, 0])])).unwrap_err(), WavError::MissingFmtChunk);
    assert_eq!(decode_pcm16_wav(&riff(&[(b"fmt ", good_fmt.clone())])).unwrap_err(), WavError::MissingDataChunk);
    assert_eq!(decode_pcm16_wav(&riff(&[(b"fmt ", vec![0; 10])])).unwrap_err(), WavError::InvalidFmtChunk);
    assert_eq!(
        decode_pcm16_wav(&riff(&[(b"fmt ", fmt_body(1, 2, 8_000, 16))])).unwrap_err(),
        WavError::UnsupportedFormat
    );
    assert_eq!(
        decode_pcm16_wav(&riff(&[(b"fmt ", good_fmt.clone()), (b"data", vec![1, 2, 3])])).unwrap_err(),
        WavError::InvalidDataLength
    );
    let mut truncated = riff(&[(b"fmt ", good_fmt.clone())]);
    truncated.extend_from_slice(b"data");
    truncated.extend_from_slice(&100u32.to_le_bytes());
    assert_eq!(decode_pcm16_wav(&truncated).unwrap_err(), WavError::TruncatedChunk);
    let decoded = decode_pcm16_wav(&riff(&[(b"LIST", vec![9; 3]), (b"fmt ", good_fmt), (b"data", vec![1, 0, 255, 255])]))
        .unwrap();
    assert_eq!(decoded.sample_rate, 8_000);
    assert_eq!(decoded.samples, vec![1, -1]);
}

#[test]
fn wav_slicer_reports_decoding_errors_as_text() {
    assert_eq!(
        slice_pcm16_wav(b"not a wav", 0, 100).unwrap_err(),
        "unsupported WAV file; expected RIFF/WAVE"
    );
}
