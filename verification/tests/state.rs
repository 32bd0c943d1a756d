use textractor_bridge::assets::new_asset_info;
use textractor_bridge::audio::{AudioChunk, FinishedMainAudio, FinishedTrimAudio};
use textractor_bridge::config::{AppConfig, AudioConfig, LinesConfig};
use textractor_bridge::history::{HistoryOp, HistoryStore};
use textractor_bridge::screenshot::{
    capture_auto, copy_bgra_to_rgba, frame_is_plausible, gdi_capture_size, gdi_screenshot, wgc_frame_size,
    AutoCapture, CapturePlan, CapturedScreenshot, ScreenshotBackend, ScreenshotError, ScreenshotManager,
};
use textractor_bridge::state::{
    audio_deadlines, delay_until_ms, enrich_window_titles, processes_missing_titles, trim_postroll_deadline,
    AppState, IngestStep, StoredMainAudio, StoredTrimAudio,
};
use textractor_bridge::types::{
    AssetInfo, AssetKind, AudioEndReason, AudioState, AudioTrimRequest, AudioTrimSource, BrowserEvent,
    LineId, LineRecord, MinePrepareRequest, PipeLineEvent, PipeLineMeta, RangeScreenshotPick,
    PROTOCOL_VERSION,
};
use textractor_bridge::wav::encode_pcm16_wav;
use textractor_bridge::window::{
    resolve_process_window, resolve_process_window_title, window_candidate, FrameRect, WindowCandidate,
};

fn test_state(join_progressive_text: bool, audio_backend: &str) -> AppState {
    let mut config = AppConfig::default();
    config.screenshot.backend = "off".to_owned();
    config.audio.backend = audio_backend.to_owned();
    config.lines.join_progressive_text = join_progressive_text;
    AppState::new(config, HistoryStore::new())
}

fn event(message_id: u64, timestamp_unix_ms: i64, text: &str, process_id: u32, thread_number: i64) -> PipeLineEvent {
    PipeLineEvent {
        event_type: "line".to_owned(),
        protocol_version: PROTOCOL_VERSION,
        message_id,
        timestamp_unix_ms,
        text: text.to_owned(),
        meta: PipeLineMeta {
            process_id,
            thread_number,
            thread_name: None,
            window_title: None,
            is_current_select: true,
            arch: "x86".to_owned(),
            source: "textractor".to_owned(),
        },
    }
}

fn store_main(state: &mut AppState, finished: FinishedMainAudio) -> StoredMainAudio {
    match finished {
        FinishedMainAudio::Ready(c) => {
            let asset = new_asset_info(
                AssetKind::Audio,
                c.mime_type.clone(),
                c.bytes.len() as u64,
                None,
                None,
                Some(c.duration_ms),
                0,
            );
            state.assets.record(asset.clone());
            StoredMainAudio::Ready {
                asset,
                duration_ms: c.duration_ms,
                end_reason: c.end_reason,
                trim_recording_started_unix_ms: c.trim_recording_started_unix_ms,
            }
        }
        FinishedMainAudio::NoAudio { reason } => StoredMainAudio::NoAudio { reason },
    }
}

fn ingest(state: &mut AppState, event: PipeLineEvent) -> Option<LineRecord> {
    match state.ingest_pipe_line(&event) {
        IngestStep::Dropped => None,
        IngestStep::Joined(line) => Some(line),
        IngestStep::NewLine => {
            for line_id in state.audio.main_recording_line_ids_for_process(event.meta.process_id) {
                let finished =
                    state.audio.finish_main_line_session_at(line_id, AudioEndReason::LineAdvanced, event.timestamp_unix_ms);
                let stored = finished.map(|f| store_main(state, f));
                let _ = state.finish_audio_with_result(line_id, stored);
            }
            Some(state.add_pipe_line(event))
        }
    }
}

fn insert_test_samples(state: &mut AppState, process_id: u32, start_unix_ms: i64, samples: Vec<i16>) {
    state.audio.ensure_capture(process_id);
    state.audio.set_capture_ready(process_id, "test".to_owned(), None);
    let end = start_unix_ms + (samples.len() as i64) / 48;
    state.audio.push_captured_chunk(process_id, AudioChunk { start_unix_ms, end_unix_ms: end, samples });
}

fn main_recording_ids(state: &AppState, process_id: u32) -> Vec<LineId> {
    state.audio.main_recording_line_ids_for_process(process_id)
}

#[test]
fn progressive_text_updates_existing_line_and_preserves_first_timestamp() {
    let mut state = test_state(true, "off");

    let first = ingest(&mut state, event(1, 10_000, "俺は", 7, 2)).unwrap();
    let joined = ingest(&mut state, event(2, 11_000, "俺はすごい", 7, 2)).unwrap();

    assert_eq!(joined.line_id, first.line_id);
    assert_eq!(joined.line_seq, first.line_seq);
    assert_eq!(joined.timestamp_unix_ms, 10_000);
    assert_eq!(joined.text, "俺はすごい");

    let lines = state.history.all_lines();
    assert_eq!(lines.len(), 1);
    assert_eq!(lines[0].line_id, first.line_id);
    assert_eq!(lines[0].timestamp_unix_ms, 10_000);
    assert_eq!(lines[0].text, "俺はすごい");
}

#[test]
fn progressive_text_keeps_first_audio_session_until_non_extension() {
    let mut state = test_state(true, "auto");
    insert_test_samples(&mut state, 7, 0, vec![0; 20_000 * 48]);

    let first = ingest(&mut state, event(1, 10_000, "俺は", 7, 2)).unwrap();
    assert_eq!(main_recording_ids(&state, 7), vec![first.line_id]);

    let joined = ingest(&mut state, event(2, 11_000, "俺はすごい", 7, 2)).unwrap();
    assert_eq!(joined.line_id, first.line_id);
    assert_eq!(main_recording_ids(&state, 7), vec![first.line_id]);
    assert_eq!(state.history.all_lines().len(), 1);

    let next = ingest(&mut state, event(3, 12_000, "次の行", 7, 2)).unwrap();
    assert_ne!(next.line_id, first.line_id);

    let lines = state.history.all_lines();
    assert_eq!(lines.len(), 2);
    let Some(AudioState::Ready { duration_ms, end_reason, .. }) = lines[0].audio.as_ref() else {
        panic!("joined line audio should be finalized by the next non-extension line");
    };
    assert_eq!(*duration_ms, 4_000);
    assert_eq!(*end_reason, AudioEndReason::LineAdvanced);
    assert!(matches!(lines[1].audio, Some(AudioState::Recording { .. })));
}

#[test]
fn progressive_text_does_not_join_different_thread() {
    let mut state = test_state(true, "off");

    ingest(&mut state, event(1, 10_000, "俺は", 7, 2));
    ingest(&mut state, event(2, 11_000, "俺はすごい", 7, 3));

    assert_eq!(state.history.all_lines().len(), 2);
}

#[test]
fn progressive_text_joining_can_be_disabled() {
    let mut state = test_state(false, "off");

    ingest(&mut state, event(1, 10_000, "俺は", 7, 2));
    ingest(&mut state, event(2, 11_000, "俺はすごい", 7, 2));

    assert_eq!(state.history.all_lines().len(), 2);
}

#[test]
fn incompatible_pipe_events_are_dropped() {
    let mut state = test_state(true, "off");
    let mut old = event(1, 10_000, "x", 7, 2);
    old.protocol_version = PROTOCOL_VERSION - 1;
    assert!(ingest(&mut state, old).is_none());
    let mut other = event(1, 10_000, "x", 7, 2);
    other.event_type = "ping".to_owned();
    assert!(ingest(&mut state, other).is_none());
    assert!(state.history.all_lines().is_empty());
    assert!(state.events.is_empty());
}

#[test]
fn new_lines_are_announced_and_logged() {
    let mut state = test_state(true, "off");
    let line = ingest(&mut state, event(1, 10_000, "hello", 7, 2)).unwrap();
    assert_eq!(line.line_seq, 1);
    assert_eq!(line.line_id, 1);
    assert_eq!(line.audio, None);
    assert_eq!(state.events.len(), 1);
    assert_eq!(state.events[0].event_name, "line_added");
    assert_eq!(state.events[0].id, 1);
    assert_eq!(state.history.log.len(), 1);
    let second = ingest(&mut state, event(2, 11_000, "other", 8, 2)).unwrap();
    assert_eq!(second.line_seq, 2);
}

#[test]
fn replaying_the_log_gives_the_history() {
    let mut state = test_state(true, "auto");
    insert_test_samples(&mut state, 7, 0, vec![3; 30_000 * 48]);
    ingest(&mut state, event(1, 10_000, "a", 7, 2));
    ingest(&mut state, event(2, 11_000, "ab", 7, 2));
    ingest(&mut state, event(3, 12_000, "next", 7, 2));
    state.add_warning(2, "warned".to_owned());
    state.remove_audio(2);
    let log: Vec<HistoryOp> = state.history.log.clone();
    let replayed = HistoryStore::load(log);
    assert_eq!(replayed.all_lines(), state.history.all_lines());
    assert_eq!(replayed.next_seq, state.history.next_seq);
}

fn audio_asset(asset_id: &str, duration_ms: u64) -> AssetInfo {
    AssetInfo {
        asset_id: asset_id.to_owned(),
        kind: AssetKind::Audio,
        mime_type: "audio/wav".to_owned(),
        url: format!("/assets/{asset_id}"),
        width: None,
        height: None,
        duration_ms: Some(duration_ms),
        created_unix_ms: 0,
        byte_size: 1,
    }
}

fn record(line_seq: u64, audio: Option<AudioState>) -> LineRecord {
    LineRecord {
        line_id: line_seq,
        line_seq,
        timestamp_unix_ms: 1_000 + line_seq as i64,
        text: format!("line {line_seq}"),
        meta: PipeLineMeta {
            process_id: 123,
            thread_number: 1,
            thread_name: Some("hook".to_owned()),
            window_title: Some("Game Window".to_owned()),
            is_current_select: true,
            arch: "x86".to_owned(),
            source: "test".to_owned(),
        },
        screenshot: None,
        audio,
        warnings: Vec::new(),
    }
}

#[test]
fn apply_audio_trim_slices_source_and_updates_ready_asset() {
    let mut state = test_state(true, "off");

    let source_samples = vec![1_000i16; 48_000];
    let source_bytes = encode_pcm16_wav(&source_samples, 48_000);
    let source_asset =
        new_asset_info(AssetKind::Audio, "audio/wav".to_owned(), source_bytes.len() as u64, None, None, Some(1_000), 0);
    let ready_bytes = encode_pcm16_wav(&source_samples[9_600..33_600], 48_000);
    let ready_asset =
        new_asset_info(AssetKind::Audio, "audio/wav".to_owned(), ready_bytes.len() as u64, None, None, Some(500), 0);
    state.assets.record(source_asset.clone());
    state.assets.record(ready_asset.clone());
    state.history.upsert(record(
        1,
        Some(AudioState::Ready {
            asset: ready_asset.clone(),
            duration_ms: 500,
            end_reason: AudioEndReason::Manual,
            trim_source: Some(Box::new(AudioTrimSource {
                asset: source_asset.clone(),
                source_duration_ms: 1_000,
                start_ms: 200,
                end_ms: 700,
                can_extend: true,
            })),
            trim_recording_started_unix_ms: None,
        }),
    ));

    let request = AudioTrimRequest { start_ms: 100, end_ms: 400 };
    let info = state.prepare_audio_trim(1, &request).unwrap();
    assert_eq!(info.source.asset_id, source_asset.asset_id);
    let clip = state.trim_audio_clip(1, &request, &source_bytes).unwrap();
    assert_eq!(clip.end_reason, AudioEndReason::Manual);
    assert_eq!(clip.clip.duration_ms, 300);
    assert!(clip.clip.bytes.len() > 44);
    let stored = new_asset_info(
        AssetKind::Audio,
        "audio/wav".to_owned(),
        clip.clip.bytes.len() as u64,
        None,
        None,
        Some(clip.clip.duration_ms),
        0,
    );
    state.assets.record(stored.clone());
    let response = state.apply_audio_trim(1, clip, stored);

    let Some(AudioState::Ready { asset, duration_ms, trim_source, end_reason, trim_recording_started_unix_ms: _ }) =
        response.audio
    else {
        panic!("trim should produce ready audio");
    };
    assert_ne!(asset.asset_id, ready_asset.asset_id);
    assert_eq!(duration_ms, 300);
    assert_eq!(asset.duration_ms, Some(300));
    assert_eq!(end_reason, AudioEndReason::Manual);
    let trim_source = trim_source.expect("trim source should be preserved");
    assert_eq!(trim_source.asset.asset_id, source_asset.asset_id);
    assert_eq!(trim_source.start_ms, 100);
    assert_eq!(trim_source.end_ms, 400);

    let line = state.history.get_line(1).unwrap();
    assert!(matches!(line.audio, Some(AudioState::Ready { duration_ms: 300, .. })));
    assert_eq!(state.find_asset_info(&asset.asset_id).map(|a| a.asset_id), Some(asset.asset_id.clone()));
}

#[test]
fn audio_trim_is_refused_for_missing_or_recording_lines() {
    let mut state = test_state(true, "off");
    let request = AudioTrimRequest { start_ms: 0, end_ms: 200 };
    assert_eq!(state.prepare_audio_trim(9, &request).unwrap_err(), "line not found");
    state.history.upsert(record(1, Some(AudioState::Recording { started_unix_ms: 5 })));
    assert_eq!(state.prepare_audio_trim(1, &request).unwrap_err(), "audio is still recording");
    assert_eq!(state.trim_end_reason(1).unwrap_err(), "line does not have ready audio");
    assert_eq!(state.trim_audio_clip(1, &request, b"not a wav").unwrap_err(), "audio is still recording");
    assert!(state.audio_is_recording(1));
}

#[test]
fn finishing_audio_without_result_reports_existing_audio() {
    let mut state = test_state(true, "off");
    assert_eq!(state.finish_audio_with_result(4, None).unwrap_err(), "line not found");
    state.history.upsert(record(4, Some(AudioState::NoAudio { reason: None })));
    let response = state.finish_audio_with_result(4, None).unwrap();
    assert_eq!(response.audio, Some(AudioState::NoAudio { reason: None }));
    let response = state
        .finish_audio_with_result(4, Some(StoredMainAudio::NoAudio { reason: "quiet".to_owned() }))
        .unwrap();
    assert_eq!(response.audio, Some(AudioState::NoAudio { reason: Some("quiet".to_owned()) }));
    assert_eq!(state.events.len(), 1);
}

#[test]
fn finished_trim_source_attaches_to_ready_audio() {
    let mut state = test_state(true, "off");
    state.history.upsert(record(
        1,
        Some(AudioState::Ready {
            asset: audio_asset("asset_ready", 500),
            duration_ms: 500,
            end_reason: AudioEndReason::LineAdvanced,
            trim_source: None,
            trim_recording_started_unix_ms: Some(5),
        }),
    ));
    let response = state
        .finish_trim_audio_with_result(
            1,
            Some(StoredTrimAudio::Ready {
                source_asset: audio_asset("asset_source", 9_000),
                source_duration_ms: 9_000,
                start_ms: 2_000,
                end_ms: 2_500,
            }),
        )
        .unwrap();
    let Some(AudioState::Ready { trim_source: Some(source), trim_recording_started_unix_ms, .. }) = response.audio else {
        panic!("trim source should be attached");
    };
    assert_eq!(source.asset.asset_id, "asset_source");
    assert!(source.can_extend);
    assert_eq!(trim_recording_started_unix_ms, None);
    assert_eq!(
        state.finish_trim_audio_with_result(2, Some(StoredTrimAudio::NoAudio { reason: "x".to_owned() })).unwrap_err(),
        "line not found"
    );
}

#[test]
fn finished_trim_sessions_come_from_the_audio_manager() {
    let mut state = test_state(true, "auto");
    insert_test_samples(&mut state, 7, 0, vec![1; 30_000 * 48]);
    let line = ingest(&mut state, event(1, 11_000, "line", 7, 2)).unwrap();
    let finished = state.audio.finish_trim_line_session_at(line.line_id, AudioEndReason::Manual, 25_000);
    assert!(matches!(finished, Some(FinishedTrimAudio::Ready(_))));
    assert!(!state.audio.is_recording(line.line_id));
}

#[test]
fn warnings_are_added_once() {
    let mut state = test_state(true, "off");
    state.history.upsert(record(1, None));
    state.add_warning(1, "screenshot capture failed: x".to_owned());
    state.add_warning(1, "screenshot capture failed: x".to_owned());
    assert_eq!(state.history.get_line(1).unwrap().warnings, vec!["screenshot capture failed: x".to_owned()]);
    assert_eq!(state.events.len(), 2);
    state.add_warning(2, "nobody".to_owned());
    assert_eq!(state.events.len(), 2);
}

#[test]
fn removing_audio_leaves_no_audio() {
    let mut state = test_state(true, "off");
    state.history.upsert(record(1, Some(AudioState::Recording { started_unix_ms: 1 })));
    let response = state.remove_audio(1);
    assert_eq!(response.audio, Some(AudioState::NoAudio { reason: None }));
    assert_eq!(state.history.get_line(1).unwrap().audio, Some(AudioState::NoAudio { reason: None }));
}

#[test]
fn clearing_lines_counts_them_and_logs_once() {
    let mut state = test_state(true, "off");
    assert_eq!(state.clear_lines(), 0);
    assert!(state.history.log.is_empty());
    ingest(&mut state, event(1, 10_000, "a", 7, 2));
    ingest(&mut state, event(2, 11_000, "b", 8, 2));
    assert_eq!(state.clear_lines(), 2);
    assert!(state.history.all_lines().is_empty());
    assert!(matches!(state.history.log.last(), Some(HistoryOp::Clear)));
    assert_eq!(state.newest_seq(), None);
}

#[test]
fn expired_assets_purge_their_lines() {
    let mut state = test_state(true, "off");
    let mut shot = record(1, None);
    shot.screenshot = Some(audio_asset("asset_old", 1));
    state.history.upsert(shot);
    state.history.upsert(record(2, None));
    assert_eq!(state.cleanup_assets_and_history(&[]), 0);
    assert_eq!(state.cleanup_assets_and_history(&["asset_old".to_owned()]), 1);
    let remaining: Vec<u64> = state.history.all_lines().iter().map(|l| l.line_seq).collect();
    assert_eq!(remaining, vec![2]);
    let BrowserEvent::Error(error) = &state.events[0].payload else {
        panic!("purge should be reported");
    };
    assert_eq!(error.code, "line_purged");
    assert_eq!(error.message, "line 1 purged with expired assets");
    assert!(matches!(state.history.log.last(), Some(HistoryOp::Purge { line_id: 1 })));
}

#[test]
fn prepare_mine_uses_window_title_as_source() {
    let mut state = test_state(true, "off");
    state.history.upsert(record(1, None));

    let plan = state
        .prepare_mine(&MinePrepareRequest { line_ids: vec![1], range_sentence_separator: None, range_screenshot_pick: None })
        .unwrap();

    assert_eq!(plan.source, "Game Window");
}

#[test]
fn prepare_mine_uses_empty_source_when_window_title_is_missing() {
    let mut state = test_state(true, "off");
    let mut selected = record(1, None);
    selected.meta.window_title = None;
    state.history.upsert(selected);

    let plan = state
        .prepare_mine(&MinePrepareRequest { line_ids: vec![1], range_sentence_separator: None, range_screenshot_pick: None })
        .unwrap();

    assert_eq!(plan.source, "");
}

#[test]
fn prepare_mine_orders_lines_and_joins_text() {
    let mut state = test_state(true, "off");
    let mut first = record(1, None);
    first.screenshot = Some(audio_asset("shot1", 1));
    let mut second = record(2, Some(AudioState::Ready {
        asset: audio_asset("clip2", 100),
        duration_ms: 100,
        end_reason: AudioEndReason::Manual,
        trim_source: None,
        trim_recording_started_unix_ms: None,
    }));
    second.text = "  ".to_owned();
    let mut third = record(3, None);
    third.screenshot = Some(audio_asset("shot3", 1));
    state.history.upsert(first);
    state.history.upsert(second);
    state.history.upsert(third);

    let plan = state
        .prepare_mine(&MinePrepareRequest {
            line_ids: vec![3, 1, 2],
            range_sentence_separator: Some(" / ".to_owned()),
            range_screenshot_pick: Some(RangeScreenshotPick::First),
        })
        .unwrap();
    assert_eq!(plan.sentence, "line 1 / line 3");
    assert_eq!(plan.line_ids, vec![1, 2, 3]);
    assert_eq!(plan.screenshot.map(|a| a.asset_id), Some("shot1".to_owned()));
    assert_eq!(plan.audio_sources.len(), 1);

    let last = state
        .prepare_mine(&MinePrepareRequest { line_ids: vec![1, 3], range_sentence_separator: None, range_screenshot_pick: None })
        .unwrap();
    assert_eq!(last.sentence, "line 1 line 3");
    assert_eq!(last.screenshot.map(|a| a.asset_id), Some("shot3".to_owned()));

    let missing = state.prepare_mine(&MinePrepareRequest {
        line_ids: vec![1, 9],
        range_sentence_separator: None,
        range_screenshot_pick: None,
    });
    assert_eq!(missing.unwrap_err(), "one or more selected lines were not found");
    let empty = state.prepare_mine(&MinePrepareRequest { line_ids: vec![], range_sentence_separator: None, range_screenshot_pick: None });
    assert_eq!(empty.unwrap_err(), "line_ids must not be empty");
}

#[test]
fn assets_are_found_in_lines_when_not_stored_since_start() {
    let mut state = test_state(true, "off");
    let mut l = record(1, None);
    l.screenshot = Some(audio_asset("asset_shot", 1));
    state.history.upsert(l);
    assert_eq!(state.find_asset_info("asset_shot").map(|a| a.asset_id), Some("asset_shot".to_owned()));
    assert_eq!(state.find_asset_info("asset_none"), None);
}

#[test]
fn editable_config_updates_audio_and_lines() {
    let mut state = test_state(true, "off");
    let updated = state.update_editable_config(AudioConfig { backend: "auto".to_owned() }, LinesConfig { join_progressive_text: false });
    assert_eq!(updated.audio.backend, "auto");
    assert!(!updated.lines.join_progressive_text);
    assert!(state.audio.enabled());
    assert_eq!(updated.server.bind, "0.0.0.0:7788");
}

#[test]
fn pipe_name_follows_configuration() {
    let mut state = test_state(true, "off");
    assert_eq!(state.pipe_name(None), r"\\.\pipe\textractor_media_bridge_unknown_user_v1");
    state.config.pipe.name = r"\\.\pipe\custom".to_owned();
    assert_eq!(state.pipe_name(None), r"\\.\pipe\custom");
}

#[test]
fn deadlines_saturate() {
    assert_eq!(audio_deadlines(1_000), (121_000, 181_000));
    assert_eq!(audio_deadlines(i64::MAX - 5), (i64::MAX, i64::MAX));
    assert_eq!(trim_postroll_deadline(5_000), 15_000);
    assert_eq!(delay_until_ms(10_000, 4_000), 6_000);
    assert_eq!(delay_until_ms(4_000, 10_000), 0);
}

#[test]
fn window_titles_are_filled_per_process() {
    let mut a = record(1, None);
    a.meta.window_title = None;
    a.meta.process_id = 5;
    let mut b = record(2, None);
    b.meta.window_title = None;
    b.meta.process_id = 6;
    let c = record(3, None);
    let mut d = record(4, None);
    d.meta.window_title = None;
    d.meta.process_id = 5;
    let mut lines = vec![a, b, c, d];
    assert_eq!(processes_missing_titles(&lines), vec![5, 6]);
    enrich_window_titles(&mut lines, &vec![(5, Some("Five".to_owned())), (6, None)]);
    assert_eq!(lines[0].meta.window_title.as_deref(), Some("Five"));
    assert_eq!(lines[1].meta.window_title, None);
    assert_eq!(lines[2].meta.window_title.as_deref(), Some("Game Window"));
    assert_eq!(lines[3].meta.window_title.as_deref(), Some("Five"));
}

fn candidate(hwnd: isize, area: i64, foreground: bool, root_owner: bool) -> WindowCandidate {
    WindowCandidate { hwnd, area, foreground, root_owner }
}

#[test]
fn window_resolution_prefers_foreground_then_root_owner_then_area() {
    assert_eq!(resolve_process_window(&vec![]), None);
    let candidates = vec![
        candidate(1, 500, false, true),
        candidate(2, 100, true, false),
        candidate(3, 900, false, true),
    ];
    assert_eq!(resolve_process_window(&candidates), Some(2));
    let candidates = vec![candidate(1, 500, false, false), candidate(2, 100, false, true), candidate(3, 900, false, true)];
    assert_eq!(resolve_process_window(&candidates), Some(3));
    let tie = vec![candidate(4, 100, false, true), candidate(5, 100, false, true)];
    assert_eq!(resolve_process_window(&tie), Some(4));
}

#[test]
fn window_candidates_need_an_area() {
    let rect = FrameRect { left: 10, top: 10, right: 110, bottom: 60 };
    let c = window_candidate(7, rect, true, false).unwrap();
    assert_eq!(c.area, 5_000);
    assert!(window_candidate(7, FrameRect { left: 10, top: 10, right: 10, bottom: 60 }, true, false).is_none());
    let wide = FrameRect { left: 0, top: 0, right: i32::MAX, bottom: i32::MAX };
    assert_eq!(window_candidate(1, wide, false, false).unwrap().area, (i32::MAX as i64) * (i32::MAX as i64));
}

#[test]
fn window_titles_are_trimmed() {
    assert_eq!(resolve_process_window_title(Some("  Game  ".to_owned())), Some("Game".to_owned()));
    assert_eq!(resolve_process_window_title(Some("   ".to_owned())), None);
    assert_eq!(resolve_process_window_title(None), None);
}

fn png_of(image: image::RgbaImage) -> Vec<u8> {
    let mut bytes = std::io::Cursor::new(Vec::new());
    image::DynamicImage::ImageRgba8(image).write_to(&mut bytes, image::ImageFormat::Png).unwrap();
    bytes.into_inner()
}

#[test]
fn frame_validation_accepts_non_flat_images() {
    let mut image = image::RgbaImage::new(32, 32);
    for y in 0..32 {
        for x in 0..32 {
            image.put_pixel(x, y, image::Rgba([x as u8, y as u8, 128, 255]));
        }
    }
    assert!(frame_is_plausible(&png_of(image)));
}

#[test]
fn frame_validation_rejects_large_flat_images() {
    let image = image::RgbaImage::from_pixel(128, 128, image::Rgba([0, 0, 0, 255]));
    assert!(!frame_is_plausible(&png_of(image)));
}

#[test]
fn frame_validation_rejects_undecodable_bytes() {
    assert!(!frame_is_plausible(b"not an image"));
}

#[test]
fn screenshot_backends_follow_configuration() {
    assert_eq!(ScreenshotBackend::from_config("OFF"), ScreenshotBackend::Off);
    assert_eq!(ScreenshotBackend::from_config("Win32-GDI"), ScreenshotBackend::Gdi);
    assert_eq!(ScreenshotBackend::from_config("wgc"), ScreenshotBackend::Wgc);
    assert_eq!(ScreenshotBackend::from_config("anything"), ScreenshotBackend::Auto);
    let off = ScreenshotManager::new("off");
    assert!(!off.enabled());
    assert!(matches!(off.capture_window(), CapturePlan::Fail(ScreenshotError::Disabled)));
    assert!(matches!(ScreenshotManager::new("gdi").capture_window(), CapturePlan::Gdi));
}

fn shot(bytes: Vec<u8>, backend: &str) -> CapturedScreenshot {
    CapturedScreenshot { bytes, width: 1, height: 1, backend: backend.to_owned() }
}

#[test]
fn automatic_capture_falls_back_to_gdi() {
    let mut busy = image::RgbaImage::new(32, 32);
    for y in 0..32 {
        for x in 0..32 {
            busy.put_pixel(x, y, image::Rgba([x as u8 * 7, y as u8 * 5, 0, 255]));
        }
    }
    let good = png_of(busy);
    let flat = png_of(image::RgbaImage::from_pixel(128, 128, image::Rgba([0, 0, 0, 255])));

    let done = capture_auto(Ok(shot(good.clone(), "wgc")), None);
    assert!(matches!(done, AutoCapture::Done(Ok(ref c)) if c.backend == "wgc"));
    assert!(matches!(capture_auto(Ok(shot(flat.clone(), "wgc")), None), AutoCapture::NeedGdi));
    let gdi_wins = capture_auto(Ok(shot(flat.clone(), "wgc")), Some(Ok(shot(good.clone(), "gdi"))));
    assert!(matches!(gdi_wins, AutoCapture::Done(Ok(ref c)) if c.backend == "gdi"));
    let wgc_stays = capture_auto(Ok(shot(flat.clone(), "wgc")), Some(Err(ScreenshotError::Timeout)));
    assert!(matches!(wgc_stays, AutoCapture::Done(Ok(ref c)) if c.backend == "wgc"));
    let both = capture_auto(Err(ScreenshotError::Unsupported), Some(Err(ScreenshotError::InvalidSize)));
    assert!(matches!(both, AutoCapture::Done(Err(ScreenshotError::AllBackendsFailed { .. }))));
}

#[test]
fn bgra_frames_become_rgba() {
    let source = [1u8, 2, 3, 4, 9, 9, 5, 6, 7, 8, 9, 9];
    let rgba = copy_bgra_to_rgba(Some(&source), 6, 1, 2).unwrap();
    assert_eq!(rgba, vec![3, 2, 1, 255, 7, 6, 5, 255]);
    assert!(matches!(copy_bgra_to_rgba(Some(&source), 3, 1, 2), Err(ScreenshotError::InvalidFrame(_))));
    assert!(matches!(copy_bgra_to_rgba(None, 6, 1, 2), Err(ScreenshotError::InvalidFrame(_))));
}

#[test]
fn gdi_pixels_are_written_as_png() {
    let pixels = vec![10u8, 20, 30, 0, 40, 50, 60, 0];
    let shot = gdi_screenshot(2, 1, pixels).unwrap();
    assert_eq!(shot.backend, "win32-gdi");
    let decoded = image::load_from_memory(&shot.bytes).unwrap().to_rgba8();
    assert_eq!(decoded.get_pixel(0, 0).0, [30, 20, 10, 255]);
    assert_eq!(decoded.get_pixel(1, 0).0, [60, 50, 40, 255]);

}

#[test]
fn capture_sizes_must_be_positive() {
    assert!(matches!(gdi_capture_size(FrameRect { left: 0, top: 0, right: 0, bottom: 5 }), Err(ScreenshotError::InvalidSize)));
    assert!(matches!(gdi_capture_size(FrameRect { left: 1, top: 2, right: 11, bottom: 7 }), Ok((10, 5))));
    assert!(matches!(wgc_frame_size(-1, 5), Err(ScreenshotError::InvalidSize)));
    assert!(matches!(wgc_frame_size(3, 4), Ok((3, 4))));
}

#[test]
fn base64_payload_encodes_asset_bytes() {
    let asset = new_asset_info(AssetKind::Audio, "audio/mpeg".to_owned(), 5, None, None, Some(1), 0);
    let payload = textractor_bridge::assets::base64_response(&asset, b"hello");
    assert_eq!(payload.data, "aGVsbG8=");
    assert_eq!(payload.filename, format!("{}.mp3", asset.asset_id));
    assert_eq!(payload.mime_type, "audio/mpeg");
}

#[test]
fn screenshots_are_transcoded_to_jpeg() {
    let png = png_of(image::RgbaImage::from_pixel(4, 3, image::Rgba([200, 10, 10, 255])));
    let jpeg = textractor_bridge::assets::screenshot_to_jpeg(&png, 0).unwrap();
    assert_eq!((jpeg.width, jpeg.height), (4, 3));
    assert_eq!(&jpeg.bytes[0..2], &[0xFF, 0xD8]);
    assert!(textractor_bridge::assets::screenshot_to_jpeg(b"not an image", 85).is_err());
    let shot = new_asset_info(AssetKind::Screenshot, "image/jpeg".to_owned(), 1, None, None, None, 0);
    assert!(!textractor_bridge::assets::needs_jpeg_transcode(&shot));
}

#[test]
fn trim_clip_reports_source_and_request_errors() {
    let mut state = test_state(true, "off");
    state.history.upsert(record(
        1,
        Some(AudioState::Ready {
            asset: audio_asset("asset_ready", 1_000),
            duration_ms: 1_000,
            end_reason: AudioEndReason::LineAdvanced,
            trim_source: None,
            trim_recording_started_unix_ms: None,
        }),
    ));
    let short = AudioTrimRequest { start_ms: 0, end_ms: 50 };
    assert_eq!(state.trim_audio_clip(1, &short, b"x").unwrap_err(), "trimmed audio must be at least 100ms");
    let ok = AudioTrimRequest { start_ms: 0, end_ms: 500 };
    assert_eq!(
        state.trim_audio_clip(1, &ok, b"not a wav").unwrap_err(),
        "unsupported WAV file; expected RIFF/WAVE"
    );
    let source = encode_pcm16_wav(&vec![7i16; 48_000], 48_000);
    let clip = state.trim_audio_clip(1, &ok, &source).unwrap();
    assert_eq!(clip.end_reason, AudioEndReason::LineAdvanced);
    assert_eq!(clip.clip.duration_ms, 500);
    assert_eq!(clip.clip.bytes, encode_pcm16_wav(&vec![7i16; 24_000], 48_000));
}
