use textractor_bridge::assets::{
    accept_mp3_output, needs_mp3,
    concat_list, expired_entries, extension_for_mime, AssetEntry, StorageEviction, ffmpeg_failure_detail, ffmpeg_mp3_args, filename_for_asset,
    mp3_input_file_name, new_asset_info, total_duration_ms, AssetCatalog,
};
use textractor_bridge::cleanup::{line_assets, line_references_any_asset};
use textractor_bridge::config::AppConfig;
use textractor_bridge::history::{HistoryOp, HistoryStore};
use textractor_bridge::http::{embedded_request_path, is_api_like_path, query_param, request_has_token};
use textractor_bridge::mining::{pick_screenshot, ready_audio_assets};
use textractor_bridge::net::{
    local_browser_url, local_endpoint_matches_port, local_lan_url_with_detector, local_websocket_url,
    localhost_endpoint_label, owners_to_terminate, should_cleanup_websocket_port,
    tcp_listener_pid_from_netstat_line, tcp_listener_pids, usable_lan_ipv4, websocket_bind_candidates,
    BindAddr, BindHost, Ipv4,
};
use textractor_bridge::trim::{trim_info_for_line, validate_trim_request};
use textractor_bridge::types::{
    AssetInfo, AssetKind, AudioEndReason, AudioState, AudioTrimInfoResponse, AudioTrimRequest,
    AudioTrimSource, LineId, LineRecord, LineSeq, PipeLineMeta, RangeScreenshotPick,
};

fn line(line_seq: LineSeq, audio: Option<AudioState>) -> LineRecord {
    LineRecord {
        line_id: line_seq as LineId,
        line_seq,
        timestamp_unix_ms: 1_000 + line_seq as i64,
        text: format!("line {line_seq}"),
        meta: PipeLineMeta {
            process_id: 123,
            thread_number: 1,
            thread_name: Some("hook".to_owned()),
            window_title: Some("Game Window".to_owned()),
            is_current_select: true,
            arch: "x86".to_owned(),
            source: "test".to_owned(),
        },
        screenshot: None,
        audio,
        warnings: Vec::new(),
    }
}

fn audio_asset(asset_id: &str) -> AssetInfo {
    AssetInfo {
        asset_id: asset_id.to_owned(),
        kind: AssetKind::Audio,
        mime_type: "audio/wav".to_owned(),
        url: format!("/assets/{asset_id}"),
        width: None,
        height: None,
        duration_ms: Some(100),
        created_unix_ms: 0,
        byte_size: 1,
    }
}

#[test]
fn filename_for_mp3_asset_uses_mp3_extension() {
    let asset = AssetInfo {
        asset_id: "asset_test".to_owned(),
        kind: AssetKind::Audio,
        mime_type: "audio/mpeg".to_owned(),
        url: "/assets/asset_test".to_owned(),
        width: None,
        height: None,
        duration_ms: Some(123),
        created_unix_ms: 0,
        byte_size: 456,
    };

    assert_eq!(filename_for_asset(&asset), "asset_test.mp3");
}

#[test]
fn extensions_follow_mime_types() {
    assert_eq!(extension_for_mime("image/png"), "png");
    assert_eq!(extension_for_mime("image/jpeg"), "jpg");
    assert_eq!(extension_for_mime("audio/x-wav"), "wav");
    assert_eq!(extension_for_mime("application/pdf"), "pdf");
    assert_eq!(extension_for_mime("image/gif"), "gif");
    assert_eq!(extension_for_mime("application/x-unknown-thing"), "bin");
}

#[test]
fn new_assets_get_fresh_ids_and_urls() {
    let a = new_asset_info(AssetKind::Screenshot, "image/png".to_owned(), 10, Some(2), Some(3), None, 55);
    let b = new_asset_info(AssetKind::Screenshot, "image/png".to_owned(), 10, Some(2), Some(3), None, 55);
    assert!(a.asset_id.starts_with("asset_"));
    assert_eq!(a.asset_id.len(), 38);
    assert_eq!(a.url, format!("/assets/{}", a.asset_id));
    assert_eq!(a.byte_size, 10);
    assert_eq!(a.created_unix_ms, 55);
    assert_ne!(a.asset_id, b.asset_id);
    let mut catalog = AssetCatalog::new();
    catalog.record(a.clone());
    assert_eq!(catalog.find_asset_info(&a.asset_id), Some(a));
    assert_eq!(catalog.find_asset_info(&b.asset_id), None);
}

#[test]
fn total_duration_needs_every_duration() {
    let mut a = audio_asset("a");
    let b = audio_asset("b");
    assert_eq!(total_duration_ms(&[a.clone(), b.clone()]), Some(200));
    a.duration_ms = None;
    assert_eq!(total_duration_ms(&[a, b]), None);
}

#[test]
fn ffmpeg_inputs_are_named_and_listed() {
    assert_eq!(mp3_input_file_name(7, "audio/wav"), "input_007.wav");
    assert_eq!(mp3_input_file_name(123, "audio/mpeg"), "input_123.mp3");
    let list = concat_list(&["a.wav".to_owned(), "b.wav".to_owned()]);
    assert_eq!(list, "file 'a.wav'\nfile 'b.wav'\n");
    let single = ffmpeg_mp3_args(&["in.wav".to_owned()], "list.txt", "out.mp3", 96);
    assert!(single.contains(&"in.wav".to_owned()));
    assert!(single.contains(&"96k".to_owned()));
    assert_eq!(single.last(), Some(&"out.mp3".to_owned()));
    assert_eq!(ffmpeg_failure_detail("  \n", " boom ", "exit status: 1"), "boom");
    assert_eq!(ffmpeg_failure_detail("", "", "exit status: 1"), "ffmpeg exited with exit status: 1");
}

#[test]
fn default_config_binds_lan() {
    let config = AppConfig::default();

    assert_eq!(config.server.bind, "0.0.0.0:7788");
}

#[test]
fn default_config_path_is_under_config() {
    assert_eq!(AppConfig::default_path(), "config/bridge.toml");
}

#[test]
fn embedded_request_path_normalizes_simple_paths() {
    assert_eq!(embedded_request_path("/"), Some("index.html".to_owned()));
    assert_eq!(embedded_request_path("/ui-assets/index.js"), Some("ui-assets/index.js".to_owned()));
    assert_eq!(embedded_request_path("/nested/./path"), Some("nested/path".to_owned()));
}

#[test]
fn embedded_request_path_rejects_traversal() {
    assert_eq!(embedded_request_path("/../config.toml"), None);
    assert_eq!(embedded_request_path("/ui-assets\\index.js"), None);
}

#[test]
fn embedded_request_path_skips_empty_segments() {
    assert_eq!(embedded_request_path("//a//b/"), Some("a/b".to_owned()));
    assert_eq!(embedded_request_path("/./"), Some("index.html".to_owned()));
}

#[test]
fn api_paths_are_recognized() {
    assert!(is_api_like_path("/api"));
    assert!(is_api_like_path("/api/lines"));
    assert!(is_api_like_path("/assets/asset_x"));
    assert!(!is_api_like_path("/apix"));
    assert!(!is_api_like_path("/index.html"));
}

#[test]
fn query_param_finds_first_matching_pair() {
    assert_eq!(query_param(Some("a=1&token=abc&token=def"), "token"), Some("abc".to_owned()));
    assert_eq!(query_param(Some("flag&x=1"), "flag"), Some(String::new()));
    assert_eq!(query_param(Some("x=a=b"), "x"), Some("a=b".to_owned()));
    assert_eq!(query_param(Some("x=1"), "y"), None);
    assert_eq!(query_param(None, "x"), None);
}

#[test]
fn session_token_is_checked_in_headers_then_query() {
    assert!(request_has_token(None, None, None, None));
    assert!(request_has_token(Some("s3"), Some("s3"), None, None));
    assert!(request_has_token(Some("s3"), None, Some("Bearer s3"), None));
    assert!(!request_has_token(Some("s3"), None, Some("Basic s3"), None));
    assert!(request_has_token(Some("s3"), Some("wrong"), None, Some("token=s3")));
    assert!(!request_has_token(Some("s3"), Some("wrong"), Some("Bearer s3"), None));
    assert!(!request_has_token(Some("s3"), None, None, Some("token=s4")));
}

fn v4(a: u8, b: u8, c: u8, d: u8, port: u16) -> BindAddr {
    BindAddr { host: BindHost::V4(Ipv4(a, b, c, d)), port }
}

#[test]
fn local_browser_url_uses_loopback_for_unspecified_bind() {
    assert_eq!(local_browser_url(&v4(0, 0, 0, 0, 7788)), "http://127.0.0.1:7788");
}

#[test]
fn local_browser_url_formats_ipv6_hosts() {
    let addr = BindAddr { host: BindHost::V6("::1".to_owned()), port: 7788 };
    assert_eq!(local_browser_url(&addr), "http://[::1]:7788");
    let any = BindAddr { host: BindHost::V6Unspecified, port: 7788 };
    assert_eq!(local_browser_url(&any), "http://[::1]:7788");
}

#[test]
fn local_websocket_url_uses_localhost_for_unspecified_bind() {
    assert_eq!(local_websocket_url(&v4(0, 0, 0, 0, 6677)), "ws://localhost:6677/");
    assert_eq!(local_websocket_url(&v4(10, 0, 0, 2, 6677)), "ws://10.0.0.2:6677/");
    assert_eq!(localhost_endpoint_label(&v4(0, 0, 0, 0, 6677)), "localhost:6677");
}

#[test]
fn websocket_bind_candidates_count_up_from_requested_port() {
    let candidates = websocket_bind_candidates(&v4(0, 0, 0, 0, 6677));

    assert_eq!(
        candidates[..3].to_vec(),
        vec![v4(0, 0, 0, 0, 6677), v4(0, 0, 0, 0, 6678), v4(0, 0, 0, 0, 6679)]
    );
    assert_eq!(candidates.len(), 65536 - 6677);
    assert_eq!(websocket_bind_candidates(&v4(0, 0, 0, 0, 65535)).len(), 1);
}

#[test]
fn websocket_cleanup_is_limited_to_first_compatibility_ports() {
    assert!(should_cleanup_websocket_port(6677));
    assert!(should_cleanup_websocket_port(6678));
    assert!(!should_cleanup_websocket_port(6679));
}

#[test]
fn netstat_listener_parser_extracts_matching_port_pid() {
    let line = "  TCP    0.0.0.0:6677           0.0.0.0:0              LISTENING       1234";

    assert_eq!(tcp_listener_pid_from_netstat_line(line, 6677), Some(1234));
    assert_eq!(tcp_listener_pid_from_netstat_line(line, 6678), None);
}

#[test]
fn netstat_parser_rejects_short_and_udp_lines() {
    assert_eq!(tcp_listener_pid_from_netstat_line("  UDP    0.0.0.0:6677  *:*   1 2", 6677), None);
    assert_eq!(tcp_listener_pid_from_netstat_line("TCP 0.0.0.0:6677 x 1234", 6677), None);
    assert!(local_endpoint_matches_port("[::]:6677", 6677));
    assert!(!local_endpoint_matches_port("6677", 6677));
}

#[test]
fn netstat_output_lists_each_owner_once() {
    let output = "Active Connections\r\n\r\n  Proto  Local Address  Foreign Address  State  PID\r\n  TCP    0.0.0.0:6677   0.0.0.0:0   LISTENING   900\r\n  TCP    [::]:6677   [::]:0   LISTENING   900\r\n  TCP    0.0.0.0:6677   1.2.3.4:5   ESTABLISHED   12\r\n  TCP    0.0.0.0:80   0.0.0.0:0   LISTENING   4\r\n";
    assert_eq!(tcp_listener_pids(output, 6677), vec![12, 900]);
    assert_eq!(owners_to_terminate(&vec![12, 900], 900), vec![12]);
}

#[test]
fn local_lan_url_uses_concrete_non_loopback_ipv4() {
    let url = local_lan_url_with_detector(&v4(192, 168, 1, 23, 7788), None);

    assert_eq!(url.as_deref(), Some("http://192.168.1.23:7788/"));
}

#[test]
fn local_lan_url_rejects_loopback_ipv4() {
    let url = local_lan_url_with_detector(&v4(127, 0, 0, 1, 7788), Some(Ipv4(192, 168, 1, 23)));

    assert_eq!(url, None);
}

#[test]
fn local_lan_url_detects_ipv4_for_unspecified_bind() {
    let url = local_lan_url_with_detector(&v4(0, 0, 0, 0, 7788), Some(Ipv4(192, 168, 1, 23)));

    assert_eq!(url.as_deref(), Some("http://192.168.1.23:7788/"));
}

#[test]
fn detected_lan_address_must_be_routable() {
    assert_eq!(usable_lan_ipv4(&BindHost::V4(Ipv4(10, 1, 2, 3))), Some(Ipv4(10, 1, 2, 3)));
    assert_eq!(usable_lan_ipv4(&BindHost::V4(Ipv4(127, 0, 0, 1))), None);
    assert_eq!(usable_lan_ipv4(&BindHost::V4(Ipv4(0, 0, 0, 0))), None);
    assert_eq!(usable_lan_ipv4(&BindHost::V6Unspecified), None);
}

#[test]
fn ready_audio_without_trim_source_uses_ready_asset_as_full_source() {
    let mut asset = audio_asset("asset_ready");
    asset.duration_ms = Some(1_000);
    let line = line(
        1,
        Some(AudioState::Ready {
            asset,
            duration_ms: 1_000,
            end_reason: AudioEndReason::Manual,
            trim_source: None,
            trim_recording_started_unix_ms: None,
        }),
    );

    let info = trim_info_for_line(&line).expect("ready audio should expose trim info");
    assert_eq!(info.start_ms, 0);
    assert_eq!(info.end_ms, 1_000);
    assert!(!info.can_extend);
    validate_trim_request(&AudioTrimRequest { start_ms: 100, end_ms: 900 }, &info)
        .expect("trimming old audio should be valid");

    let shortened_info = AudioTrimInfoResponse { start_ms: 100, end_ms: 900, ..info };
    validate_trim_request(&AudioTrimRequest { start_ms: 0, end_ms: 900 }, &shortened_info)
        .expect("old audio can move anywhere within its source asset");
}

#[test]
fn trim_requests_are_refused_with_reasons() {
    let mut asset = audio_asset("asset_ready");
    asset.duration_ms = Some(1_000);
    let info = trim_info_for_line(&line(
        1,
        Some(AudioState::Ready {
            asset,
            duration_ms: 1_000,
            end_reason: AudioEndReason::Manual,
            trim_source: None,
            trim_recording_started_unix_ms: None,
        }),
    ))
    .unwrap();
    assert_eq!(
        validate_trim_request(&AudioTrimRequest { start_ms: 500, end_ms: 500 }, &info),
        Err("trim start must be before trim end".to_owned())
    );
    assert_eq!(
        validate_trim_request(&AudioTrimRequest { start_ms: 0, end_ms: 1_001 }, &info),
        Err("trim end must be within source audio duration of 1000ms".to_owned())
    );
    assert_eq!(
        validate_trim_request(&AudioTrimRequest { start_ms: 0, end_ms: 99 }, &info),
        Err("trimmed audio must be at least 100ms".to_owned())
    );
    assert_eq!(
        trim_info_for_line(&line(2, Some(AudioState::Recording { started_unix_ms: 5 }))),
        Err("audio is still recording".to_owned())
    );
    assert_eq!(trim_info_for_line(&line(3, None)), Err("line does not have ready audio".to_owned()));
}

fn ready_with_source() -> AudioState {
    AudioState::Ready {
        asset: audio_asset("asset_ready"),
        duration_ms: 500,
        end_reason: AudioEndReason::LineAdvanced,
        trim_source: Some(Box::new(AudioTrimSource {
            asset: audio_asset("asset_source"),
            source_duration_ms: 1_500,
            start_ms: 400,
            end_ms: 900,
            can_extend: true,
        })),
        trim_recording_started_unix_ms: None,
    }
}

#[test]
fn trim_source_assets_are_counted_as_line_assets() {
    let line = line(1, Some(ready_with_source()));

    assert!(line_references_any_asset(&line, &["asset_source".to_owned()]));
}

#[test]
fn line_assets_list_screenshot_then_audio() {
    let mut l = line(1, Some(ready_with_source()));
    l.screenshot = Some(audio_asset("shot"));
    let ids: Vec<String> = line_assets(&l).into_iter().map(|a| a.asset_id).collect();
    assert_eq!(ids, vec!["shot", "asset_ready", "asset_source"]);
    assert!(!line_references_any_asset(&l, &["other".to_owned()]));
}

#[test]
fn ready_audio_assets_collects_ready_audio_in_line_order() {
    let first = audio_asset("asset_first");
    let second = audio_asset("asset_second");
    let lines = vec![
        line(
            1,
            Some(AudioState::Ready {
                asset: first,
                duration_ms: 100,
                end_reason: AudioEndReason::LineAdvanced,
                trim_source: None,
                trim_recording_started_unix_ms: None,
            }),
        ),
        line(2, Some(AudioState::Recording { started_unix_ms: 1_000 })),
        line(3, Some(AudioState::NoAudio { reason: None })),
        line(
            4,
            Some(AudioState::Ready {
                asset: second,
                duration_ms: 120,
                end_reason: AudioEndReason::Manual,
                trim_source: None,
                trim_recording_started_unix_ms: None,
            }),
        ),
        line(5, None),
    ];

    let asset_ids = ready_audio_assets(&lines).into_iter().map(|asset| asset.asset_id).collect::<Vec<_>>();

    assert_eq!(asset_ids, vec!["asset_first", "asset_second"]);
}

#[test]
fn pick_screenshot_uses_requested_range_position() {
    let mut first = line(1, None);
    first.screenshot = Some(audio_asset("first"));
    let mut second = line(2, None);
    second.screenshot = Some(audio_asset("second"));
    let lines = vec![first, second];

    assert_eq!(
        pick_screenshot(&lines, RangeScreenshotPick::First).map(|asset| asset.asset_id),
        Some("first".to_owned())
    );
    assert_eq!(
        pick_screenshot(&lines, RangeScreenshotPick::Last).map(|asset| asset.asset_id),
        Some("second".to_owned())
    );
}

fn seqs(lines: &[LineRecord]) -> Vec<LineSeq> {
    lines.iter().map(|line| line.line_seq).collect()
}

#[test]
fn paginates_recent_and_older_lines() {
    let mut store = HistoryStore::new();
    for seq in 1..=5 {
        store.upsert(line(seq, None));
    }

    let recent = store.page(2, None, None);
    assert_eq!(seqs(&recent.lines), vec![4, 5]);
    assert!(recent.has_more_older);

    let older = store.page(2, Some(4), None);
    assert_eq!(seqs(&older.lines), vec![2, 3]);
    assert!(older.has_more_older);
    assert!(older.has_more_newer);
}

#[test]
fn pages_after_a_sequence_and_clamp_the_limit() {
    let mut store = HistoryStore::new();
    for seq in 1..=5 {
        store.upsert(line(seq, None));
    }
    let newer = store.page(0, None, Some(3));
    assert_eq!(seqs(&newer.lines), vec![4]);
    assert_eq!(newer.oldest_seq, Some(4));
    assert!(newer.has_more_newer);
    let empty = store.page(10, Some(1), None);
    assert!(empty.lines.is_empty());
    assert_eq!(empty.newest_seq, None);
    assert!(!empty.has_more_older);
}

#[test]
fn clear_removes_lines_and_persists_across_reload() {
    let mut store = HistoryStore::new();
    store.upsert(line(1, None));
    store.upsert(line(2, None));

    assert_eq!(store.clear(), 2);
    assert!(store.all_lines().is_empty());

    let reloaded = HistoryStore::load(store.log.clone());
    assert!(reloaded.all_lines().is_empty());
    assert_eq!(reloaded.next_seq, 1);
}

#[test]
fn store_calls_log_what_reloading_replays() {
    let mut store = HistoryStore::load(vec![HistoryOp::Upsert { line: Box::new(line(1, None)) }]);
    let persisted = vec![HistoryOp::Upsert { line: Box::new(line(1, None)) }];
    assert!(store.log.is_empty());
    store.upsert(line(2, None));
    store.upsert(line(3, None));
    store.update(2, textractor_bridge::history::LineUpdate::SetText("two".to_owned()));
    assert!(store.purge_line(1));
    assert!(!store.purge_line(9));
    let mut all = persisted;
    all.extend(store.log.iter().cloned());
    let reloaded = HistoryStore::load(all);
    assert_eq!(reloaded.all_lines(), store.all_lines());
    assert_eq!(reloaded.next_seq, 4);
}

#[test]
fn reloading_the_log_restores_lines_and_next_sequence() {
    let log = vec![
        HistoryOp::Upsert { line: Box::new(line(1, None)) },
        HistoryOp::Upsert { line: Box::new(line(2, None)) },
        HistoryOp::Upsert { line: Box::new(line(3, None)) },
        HistoryOp::Purge { line_id: 2 },
    ];
    let store = HistoryStore::load(log);
    assert_eq!(seqs(&store.all_lines()), vec![1, 3]);
    assert_eq!(store.next_seq, 4);
    assert_eq!(store.get_line(3).map(|l| l.text), Some("line 3".to_owned()));
    assert!(store.get_line(2).is_none());
}

#[test]
fn store_bytes_remembers_asset_metadata() {
    let mut catalog = AssetCatalog::new();
    let asset = new_asset_info(AssetKind::Audio, "audio/mpeg".to_owned(), 3, None, None, Some(3), 0);
    catalog.record(asset.clone());

    assert_eq!(catalog.find_asset_info(&asset.asset_id), Some(asset));
}

fn entry(id: &str, size: u64, age_s: u128, modified_s: u128) -> AssetEntry {
    AssetEntry {
        asset_id: id.to_owned(),
        size,
        age_ns: age_s * 1_000_000_000,
        modified_ns: modified_s * 1_000_000_000,
    }
}

#[test]
fn cleanup_removes_expired_assets() {
    let entries = vec![entry("fresh", 4, 10, 990), entry("stale", 4, 61, 939), entry("edge", 4, 60, 940)];
    assert_eq!(expired_entries(&entries, 1), vec![1]);
    assert!(expired_entries(&entries, 0).is_empty());
}

#[test]
fn storage_cap_evicts_oldest_first_until_it_fits() {
    let mb = 1024 * 1024;
    let entries = vec![entry("new", mb, 1, 300), entry("old", mb, 1, 100), entry("mid", mb, 1, 200)];
    let mut eviction = StorageEviction::start(&entries, 2);
    let first = eviction.next_eviction().unwrap();
    assert_eq!(entries[first].asset_id, "old");
    eviction.report(first, true);
    assert_eq!(eviction.next_eviction(), None);

    let mut failing = StorageEviction::start(&entries, 2);
    let a = failing.next_eviction().unwrap();
    failing.report(a, false);
    let b = failing.next_eviction().unwrap();
    assert_eq!(entries[b].asset_id, "mid");
    failing.report(b, true);
    assert_eq!(failing.next_eviction(), None);

    let mut uncapped = StorageEviction::start(&entries, 0);
    assert_eq!(uncapped.next_eviction(), None);
}

#[test]
fn loading_refuses_an_exhausted_numbering() {
    let mut last = line(7, None);
    last.line_seq = u64::MAX;
    assert!(HistoryStore::try_load(vec![HistoryOp::Upsert { line: Box::new(last) }]).is_none());
    let store = HistoryStore::try_load(vec![HistoryOp::Upsert { line: Box::new(line(4, None)) }]).unwrap();
    assert_eq!(store.next_seq, 5);
}

#[test]
fn line_numbers_count_up_after_a_load() {
    let mut store = HistoryStore::load(vec![HistoryOp::Upsert { line: Box::new(line(9, None)) }]);
    assert_eq!(store.next_line_seq(), 10);
    assert_eq!(store.next_line_seq(), 11);
    assert_eq!(store.next_line_seq(), 12);
}

#[test]
fn base64_follows_the_standard_alphabet() {
    let asset = audio_asset("a");
    assert_eq!(textractor_bridge::assets::base64_response(&asset, b"").data, "");
    assert_eq!(textractor_bridge::assets::base64_response(&asset, b"f").data, "Zg==");
    assert_eq!(textractor_bridge::assets::base64_response(&asset, b"fo").data, "Zm8=");
    assert_eq!(textractor_bridge::assets::base64_response(&asset, b"foo").data, "Zm9v");
    assert_eq!(textractor_bridge::assets::base64_response(&asset, &[0xfb, 0xff, 0xbf]).data, "+/+/");
}

#[test]
fn mp3_decisions_follow_the_clips() {
    assert!(!needs_mp3(&[]));
    assert!(needs_mp3(&[audio_asset("a")]));
    assert_eq!(accept_mp3_output(vec![]), Err("ffmpeg produced an empty MP3 file".to_owned()));
    assert_eq!(accept_mp3_output(vec![1, 2]), Ok(vec![1, 2]));
}
