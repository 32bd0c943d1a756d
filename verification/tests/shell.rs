use textractor_bridge::bootstrap::{server_args, server_exe, should_spawn_server, BootstrapMutex, ServerExe};
use textractor_bridge::audio::{
    capture_chunk_bytes, captured_chunk, loopback_fallback_warning, CAPTURE_CHUNK_FRAMES,
};
use textractor_bridge::net::{BindAddr, BindHost, Ipv4};
use textractor_bridge::screenshot::ScreenshotError;
use textractor_bridge::split::split_chars;
use textractor_bridge::state::{capture_failure_warning, no_window_error};
use textractor_bridge::tray::{tray_tooltip, TrayAction, TrayCommand, TrayEvent, TrayLoop};

fn addr(port: u16) -> BindAddr {
    BindAddr { host: BindHost::V4(Ipv4(0, 0, 0, 0)), port }
}

#[test]
fn tray_tooltip_names_both_endpoints() {
    assert_eq!(tray_tooltip(&addr(7788), Some(&addr(6677))), "UI localhost:7788\nWS localhost:6677");
    assert_eq!(tray_tooltip(&addr(7788), None), "UI localhost:7788\nWebSocket unavailable");
}

#[test]
fn tray_loop_opens_copies_and_quits() {
    let mut tray = TrayLoop::new();
    assert_eq!(tray.step(TrayEvent::Command { command: TrayCommand::OpenUi, now_ms: 0 }), TrayAction::OpenUi);
    assert_eq!(tray.step(TrayEvent::Command { command: TrayCommand::CopyLanUrl, now_ms: 1 }), TrayAction::CopyLanUrl);
    assert_eq!(tray.step(TrayEvent::Poll { server_finished: false, now_ms: 2 }), TrayAction::Sleep);
    assert_eq!(tray.step(TrayEvent::Command { command: TrayCommand::Quit, now_ms: 100 }), TrayAction::BeginShutdown);
    assert!(tray.quit_requested);
    assert_eq!(tray.step(TrayEvent::Command { command: TrayCommand::OpenUi, now_ms: 101 }), TrayAction::Nothing);
    assert_eq!(tray.step(TrayEvent::WindowQuit { now_ms: 102 }), TrayAction::Nothing);
    assert_eq!(tray.step(TrayEvent::Poll { server_finished: false, now_ms: 5_099 }), TrayAction::Sleep);
    assert_eq!(tray.step(TrayEvent::Poll { server_finished: false, now_ms: 5_100 }), TrayAction::GiveUp);
    assert_eq!(tray.step(TrayEvent::Poll { server_finished: true, now_ms: 5_200 }), TrayAction::Finish);
    assert_eq!(tray.outcome(Ok(())), Ok(()));
}

#[test]
fn server_stopping_on_its_own_is_an_error() {
    let tray = TrayLoop::new();
    assert_eq!(tray.outcome(Ok(())), Err("server stopped while tray mode was active".to_owned()));
    assert_eq!(
        tray.outcome(Err("boom".to_owned())),
        Err("server stopped while tray mode was active: boom".to_owned())
    );
}

#[test]
fn window_quit_begins_shutdown() {
    let mut tray = TrayLoop::new();
    assert_eq!(tray.step(TrayEvent::WindowQuit { now_ms: 7 }), TrayAction::BeginShutdown);
    assert_eq!(tray.shutdown_started_ms, Some(7));
}

#[test]
fn captured_chunks_end_when_read() {
    let chunk = captured_chunk(vec![0; 480], 10_000);
    assert_eq!(chunk.end_unix_ms, 10_000);
    assert_eq!(chunk.start_unix_ms, 9_990);
    assert_eq!(chunk.samples.len(), 480);
    let early = captured_chunk(vec![0; 480], i64::MIN);
    assert_eq!(early.start_unix_ms, i64::MIN);
    assert_eq!(capture_chunk_bytes(8), 8 * CAPTURE_CHUNK_FRAMES);
    assert_eq!(capture_chunk_bytes(usize::MAX), usize::MAX);
}

#[test]
fn loopback_fallback_is_explained() {
    assert_eq!(
        loopback_fallback_warning("denied"),
        "process loopback unavailable (denied); using system loopback"
    );
}

#[test]
fn screenshot_errors_describe_themselves() {
    assert_eq!(ScreenshotError::Disabled.message(), "screenshot capture is disabled");
    let both = ScreenshotError::AllBackendsFailed {
        wgc: Box::new(ScreenshotError::Timeout),
        gdi: Box::new(ScreenshotError::CaptureFailed("BitBlt".to_owned())),
    };
    assert_eq!(
        both.message(),
        "all screenshot backends failed; WGC: screenshot capture timed out; GDI: screenshot capture call failed: BitBlt"
    );
    assert_eq!(no_window_error(42), "no visible window found for process 42");
    assert_eq!(capture_failure_warning("x"), "screenshot capture failed: x");
}

fn chars(s: &str) -> Vec<char> {
    s.chars().collect()
}

fn pieces(v: Vec<Vec<char>>) -> Vec<String> {
    v.into_iter().map(|p| p.into_iter().collect()).collect()
}

#[test]
fn splitting_keeps_or_drops_empty_pieces() {
    assert_eq!(pieces(split_chars(&chars("a//b/"), Some('/'), false)), vec!["a", "", "b", ""]);
    assert_eq!(pieces(split_chars(&chars(""), Some('/'), false)), vec![""]);
    assert_eq!(pieces(split_chars(&chars("  one \t two\n"), None, true)), vec!["one", "two"]);
}

#[test]
fn bootstrap_runs_the_server_beside_textractor() {
    assert_eq!(
        server_exe(None, false, true, true),
        ServerExe::InTextractorDir("textractor_bridge_server.exe".to_owned())
    );
    assert_eq!(server_exe(None, false, true, false), ServerExe::AsGiven("textractor_bridge_server.exe".to_owned()));
    assert_eq!(server_exe(None, false, false, false), ServerExe::AsGiven("textractor_bridge_server.exe".to_owned()));
    assert_eq!(server_exe(Some("C:/x.exe".to_owned()), true, true, false), ServerExe::AsGiven("C:/x.exe".to_owned()));
    assert_eq!(
        server_exe(Some("bin/x.exe".to_owned()), false, true, false),
        ServerExe::InTextractorDir("bin/x.exe".to_owned())
    );
    assert_eq!(server_args(Some("cfg.toml".to_owned())), vec!["--config".to_owned(), "cfg.toml".to_owned()]);
    assert!(server_args(None).is_empty());
    assert!(should_spawn_server(BootstrapMutex::Created));
    assert!(!should_spawn_server(BootstrapMutex::AlreadyExists));
    assert!(!should_spawn_server(BootstrapMutex::Failed));
}
