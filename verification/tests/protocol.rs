use textractor_bridge::framing::{
    decode_frame, encode_frame, payload_len, read_payload, read_payload_counted, FrameError, MAX_FRAME_LEN,
};
use textractor_bridge::pipe_name::{default_pipe_name, pipe_name_from_sid};
use textractor_bridge::sentence::{
    parse_sentence_info, sentence_line_event, sentence_text_len, should_attempt_bootstrap, should_forward,
    target_arch, unix_ms_now, InfoEntry, ParsedSentenceInfo,
};
use textractor_bridge::types::{thread_label, PipeLineEvent, PipeLineMeta, PROTOCOL_VERSION};

fn sample_payload() -> Vec<u8> {
    br#"{"type":"line","protocolVersion":3,"messageId":7,"timestampUnixMs":1700000000000,"text":"hello","meta":{"processId":1234,"threadNumber":17,"threadName":null,"windowTitle":"Game Window","isCurrentSelect":true,"arch":"x64","source":"textractor"}}"#
        .to_vec()
}

#[test]
fn round_trips_length_prefixed_json() {
    let event = sample_payload();
    let frame = encode_frame(&event).expect("frame");
    let decoded = decode_frame(&frame).expect("decoded");
    assert_eq!(decoded, event);
}

#[test]
fn rejects_truncated_frames() {
    let event = sample_payload();
    let mut frame = encode_frame(&event).expect("frame");
    frame.pop();
    assert!(matches!(decode_frame(&frame), Err(FrameError::Truncated)));
}

#[test]
fn rejects_oversized_frames() {
    let mut frame = ((MAX_FRAME_LEN + 1) as u32).to_le_bytes().to_vec();
    frame.push(b'{');
    assert!(matches!(decode_frame(&frame), Err(FrameError::TooLarge(_))));
}

#[test]
fn frame_starts_with_little_endian_length() {
    let frame = encode_frame(b"abc").expect("frame");
    assert_eq!(frame, vec![3, 0, 0, 0, b'a', b'b', b'c']);
}

#[test]
fn encode_refuses_oversized_payload() {
    let payload = vec![0u8; MAX_FRAME_LEN + 1];
    assert_eq!(encode_frame(&payload), Err(FrameError::TooLarge(MAX_FRAME_LEN + 1)));
}

#[test]
fn read_payload_ignores_trailing_bytes_and_reports_eof() {
    let mut frame = encode_frame(b"xy").expect("frame");
    frame.extend_from_slice(b"rest");
    assert_eq!(read_payload(&frame), Ok(b"xy".to_vec()));
    assert_eq!(read_payload(&[1, 0]), Err(FrameError::UnexpectedEof));
    assert_eq!(read_payload(&[5, 0, 0, 0, 1]), Err(FrameError::UnexpectedEof));
}

#[test]
fn pipe_name_sanitizes_sid() {
    assert_eq!(
        pipe_name_from_sid("S-1-5-21 bad/user"),
        r"\\.\pipe\textractor_media_bridge_S-1-5-21baduser_v1"
    );
}

#[test]
fn default_pipe_name_falls_back_to_unknown_user() {
    assert_eq!(default_pipe_name(None), r"\\.\pipe\textractor_media_bridge_unknown_user_v1");
    assert_eq!(
        default_pipe_name(Some("S-1-5".to_owned())),
        r"\\.\pipe\textractor_media_bridge_S-1-5_v1"
    );
}

fn meta(thread_name: Option<&str>) -> PipeLineMeta {
    PipeLineMeta {
        process_id: 1234,
        thread_number: 17,
        thread_name: thread_name.map(str::to_owned),
        window_title: Some("Game Window".to_owned()),
        is_current_select: true,
        arch: "x86".to_owned(),
        source: "textractor".to_owned(),
    }
}

#[test]
fn thread_label_falls_back_to_thread_number() {
    assert_eq!(thread_label(&meta(None)), "thread 17");
}

#[test]
fn thread_label_prefers_thread_name() {
    assert_eq!(thread_label(&meta(Some("Dialogue"))), "Dialogue");
}

#[test]
fn pipe_line_event_new_is_a_line_event() {
    let event = PipeLineEvent::new(9, 1000, "text".to_owned(), meta(None));
    assert_eq!(event.event_type, "line");
    assert_eq!(event.protocol_version, PROTOCOL_VERSION);
    assert_eq!(event.message_id, 9);
    assert_eq!(event.timestamp_unix_ms, 1000);
    assert_eq!(event.text, "text");
}

#[test]
fn filter_accepts_selected_real_text_threads() {
    let info = ParsedSentenceInfo { current_select: 1, process_id: 12, text_number: 2 };
    assert!(should_forward(&info));
}

#[test]
fn filter_rejects_unselected_console_and_clipboard() {
    let mut info = ParsedSentenceInfo { current_select: 0, process_id: 12, text_number: 2 };
    assert!(!should_forward(&info));
    info.current_select = 1;
    info.text_number = 0;
    assert!(!should_forward(&info));
    info.text_number = 1;
    assert!(!should_forward(&info));
}

fn entry(name: Option<&str>, value: i64) -> InfoEntry {
    InfoEntry { name: name.map(str::to_owned), value }
}

#[test]
fn parses_known_sentence_info_fields() {
    let entries = vec![
        entry(Some("current select"), 1),
        entry(Some("process id"), 1234),
        entry(Some("text number"), 17),
    ];
    let parsed = parse_sentence_info(Some(entries)).expect("parsed");
    assert_eq!(parsed.current_select, 1);
    assert_eq!(parsed.process_id, 1234);
    assert_eq!(parsed.text_number, 17);
}

#[test]
fn sentence_info_without_entries_is_none() {
    assert!(parse_sentence_info(None).is_none());
}

#[test]
fn sentence_becomes_line_event_for_selected_thread() {
    let info = ParsedSentenceInfo { current_select: 1, process_id: 12, text_number: 3 };
    let event = sentence_line_event(&info, "こんにちは".to_owned(), 5, 777, target_arch()).expect("event");
    assert_eq!(event.text, "こんにちは");
    assert_eq!(event.meta.process_id, 12);
    assert_eq!(event.meta.thread_number, 3);
    assert!(event.meta.is_current_select);
    assert_eq!(event.meta.source, "textractor");
    assert_eq!(event.meta.arch, target_arch());
    assert_eq!(event.message_id, 5);
    assert_eq!(event.timestamp_unix_ms, 777);
}

#[test]
fn blank_sentence_is_not_forwarded() {
    let info = ParsedSentenceInfo { current_select: 1, process_id: 12, text_number: 3 };
    assert!(sentence_line_event(&info, "  \n".to_owned(), 5, 777, target_arch()).is_none());
}

#[test]
fn bootstrap_waits_for_backoff() {
    assert!(!should_attempt_bootstrap(10_000, 6_000));
    assert!(should_attempt_bootstrap(11_000, 6_000));
    assert!(should_attempt_bootstrap(i64::MAX, i64::MIN));
}

#[test]
fn unix_ms_now_saturates() {
    assert_eq!(unix_ms_now(Some(1234)), 1234);
    assert_eq!(unix_ms_now(Some(u128::MAX)), i64::MAX);
    assert_eq!(unix_ms_now(None), 0);
}

#[test]
fn sentence_text_stops_at_nul() {
    assert_eq!(sentence_text_len(&[104, 105, 0, 33]), 2);
    assert_eq!(sentence_text_len(&[104, 105]), 2);
    assert_eq!(sentence_text_len(&[]), 0);
}

#[test]
fn header_decides_how_much_is_read() {
    assert_eq!(payload_len(&[2, 0, 0, 0]), Ok(2));
    assert_eq!(payload_len(&[1, 0, 0x10, 0]), Err(FrameError::TooLarge(MAX_FRAME_LEN + 1)));
    let mut input = encode_frame(b"xy").unwrap();
    input.extend_from_slice(b"rest");
    assert_eq!(read_payload_counted(&input), (Ok(b"xy".to_vec()), 6));
    assert_eq!(read_payload_counted(&[1, 0, 0x10, 0, 9, 9]), (Err(FrameError::TooLarge(MAX_FRAME_LEN + 1)), 4));
    assert_eq!(read_payload_counted(&[5, 0, 0, 0, 1]), (Err(FrameError::UnexpectedEof), 5));
    assert_eq!(read_payload_counted(&[5, 0]), (Err(FrameError::UnexpectedEof), 2));
}
