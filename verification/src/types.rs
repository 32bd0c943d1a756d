//! The protocol's values: pipe line events, history records, assets, audio states and
//! the browser API's requests and responses.
use vstd::prelude::*;
use crate::text::{chars_to_string, extend_str, owned, signed_decimal, signed_decimal_chars, extend_chars};

verus! {

/// The protocol version that pipe events carry.
pub const PROTOCOL_VERSION: u32 = 3;

pub type LineId = u64;

pub type LineSeq = u64;

/// A line of text that the Textractor extension forwards to the server.
#[derive(Debug, Clone, PartialEq, Eq)]
pub struct PipeLineEvent {
    pub event_type: String,
    pub protocol_version: u32,
    pub message_id: u64,
    pub timestamp_unix_ms: i64,
    pub text: String,
    pub meta: PipeLineMeta,
}

/// Where a line of text came from.
#[derive(Debug, Clone, PartialEq, Eq)]
pub struct PipeLineMeta {
    pub process_id: u32,
    pub thread_number: i64,
    pub thread_name: Option<String>,
    pub window_title: Option<String>,
    pub is_current_select: bool,
    pub arch: String,
    pub source: String,
}

impl PipeLineEvent {
    /// A `line` event of the current protocol version.
    pub fn new(message_id: u64, timestamp_unix_ms: i64, text: String, meta: PipeLineMeta) -> (e: Self)
        ensures
            e.event_type@ == "line"@,
            e.protocol_version == PROTOCOL_VERSION,
            e.message_id == message_id,
            e.timestamp_unix_ms == timestamp_unix_ms,
            e.text == text,
            e.meta == meta,
    {
        PipeLineEvent {
            event_type: owned("line"),
            protocol_version: PROTOCOL_VERSION,
            message_id,
            timestamp_unix_ms,
            text,
            meta,
        }
    }
}

/// The first event a browser receives.
#[derive(Debug, Clone, PartialEq, Eq)]
pub struct BrowserHello {
    pub protocol_version: u32,
    pub server_version: String,
    pub newest_seq: Option<LineSeq>,
}

/// A line of the history.
#[derive(Debug, Clone, PartialEq)]
pub struct LineRecord {
    pub line_id: LineId,
    pub line_seq: LineSeq,
    pub timestamp_unix_ms: i64,
    pub text: String,
    pub meta: PipeLineMeta,
    pub screenshot: Option<AssetInfo>,
    pub audio: Option<AudioState>,
    pub warnings: Vec<String>,
}

/// The label that names a thread: its name, or `thread <number>` where it has none.
pub open spec fn thread_label_text(meta: PipeLineMeta) -> Seq<char> {
    match meta.thread_name {
        Some(name) if name@.len() > 0 => name@,
        _ => "thread "@ + signed_decimal(meta.thread_number as int),
    }
}

/// The label that names the thread a line came from.
pub fn thread_label(meta: &PipeLineMeta) -> (label: String)
    ensures
        label@ == thread_label_text(*meta),
{
    match &meta.thread_name {
        Some(name) => {
            if name.as_str().unicode_len() > 0 {
                return name.clone();
            }
        },
        None => {},
    }
    let mut v: Vec<char> = Vec::new();
    extend_str(&mut v, "thread ");
    let digits = signed_decimal_chars(meta.thread_number);
    extend_chars(&mut v, &digits);
    chars_to_string(&v)
}

#[derive(Debug, Clone, PartialEq)]
pub struct BrowserLineAddedEvent {
    pub line: LineRecord,
}

#[derive(Debug, Clone, PartialEq)]
pub struct LineUpdatedEvent {
    pub line_id: LineId,
    pub line_seq: LineSeq,
    pub patch: LinePatch,
}

#[derive(Debug, Clone, PartialEq, Eq)]
pub struct LinesClearedEvent {
    pub cleared_lines: usize,
}

/// The fields of a line that changed; `None` leaves a field as it was.
#[derive(Debug, Clone, PartialEq)]
pub struct LinePatch {
    pub text: Option<String>,
    pub screenshot: Option<Option<AssetInfo>>,
    pub audio: Option<Option<AudioState>>,
    pub warnings: Option<Vec<String>>,
}

impl LinePatch {
    /// A patch that changes nothing.
    pub fn empty() -> (p: Self)
        ensures
            p.text is None,
            p.screenshot is None,
            p.audio is None,
            p.warnings is None,
    {
        LinePatch { text: None, screenshot: None, audio: None, warnings: None }
    }
}

/// An event of the browser's live stream.
#[derive(Debug, Clone, PartialEq)]
pub enum BrowserEvent {
    Hello(BrowserHello),
    LineAdded(BrowserLineAddedEvent),
    LineUpdated(LineUpdatedEvent),
    LinesCleared(LinesClearedEvent),
    Error(ErrorEvent),
}

/// A page of the history.
#[derive(Debug, Clone, PartialEq)]
pub struct LineHistoryPage {
    pub lines: Vec<LineRecord>,
    pub oldest_seq: Option<LineSeq>,
    pub newest_seq: Option<LineSeq>,
    pub has_more_older: bool,
    pub has_more_newer: bool,
}

#[derive(Debug, Clone, Copy, PartialEq, Eq, Structural)]
pub enum AssetKind {
    Screenshot,
    Audio,
}

/// A stored screenshot or audio clip.
#[derive(Debug, Clone, PartialEq)]
pub struct AssetInfo {
    pub asset_id: String,
    pub kind: AssetKind,
    pub mime_type: String,
    pub url: String,
    pub width: Option<u32>,
    pub height: Option<u32>,
    pub duration_ms: Option<u64>,
    pub created_unix_ms: i64,
    pub byte_size: u64,
}

/// The audio of a line.
#[derive(Debug, Clone, PartialEq)]
pub enum AudioState {
    Recording { started_unix_ms: i64 },
    Ready {
        asset: AssetInfo,
        duration_ms: u64,
        end_reason: AudioEndReason,
        trim_source: Option<Box<AudioTrimSource>>,
        trim_recording_started_unix_ms: Option<i64>,
    },
    NoAudio { reason: Option<String> },
}

/// The longer recording that a ready clip was cut from.
#[derive(Debug, Clone, PartialEq)]
pub struct AudioTrimSource {
    pub asset: AssetInfo,
    pub source_duration_ms: u64,
    pub start_ms: u64,
    pub end_ms: u64,
    pub can_extend: bool,
}

#[derive(Debug, Clone, Copy, PartialEq, Eq, Structural)]
pub enum AudioEndReason {
    Manual,
    LineAdvanced,
    MaxDuration,
    BackendUnavailable,
}

#[derive(Debug, Clone, PartialEq)]
pub struct AudioFinishResponse {
    pub line_id: LineId,
    pub audio: Option<AudioState>,
}

#[derive(Debug, Clone, Copy, PartialEq, Eq, Structural)]
pub struct AudioTrimRequest {
    pub start_ms: u64,
    pub end_ms: u64,
}

#[derive(Debug, Clone, PartialEq)]
pub struct AudioTrimInfoResponse {
    pub line_id: LineId,
    pub source: AssetInfo,
    pub source_duration_ms: u64,
    pub start_ms: u64,
    pub end_ms: u64,
    pub can_extend: bool,
}

#[derive(Debug, Clone, PartialEq, Eq)]
pub struct ErrorEvent {
    pub code: String,
    pub message: String,
}

#[derive(Debug, Clone, PartialEq, Eq)]
pub struct MinePrepareRequest {
    pub line_ids: Vec<LineId>,
    pub range_sentence_separator: Option<String>,
    pub range_screenshot_pick: Option<RangeScreenshotPick>,
}

#[derive(Debug, Clone, Copy, PartialEq, Eq, Structural)]
pub enum RangeScreenshotPick {
    First,
    Last,
}

#[derive(Debug, Clone, PartialEq)]
pub struct MinePrepareResponse {
    pub sentence: String,
    pub screenshot: Option<AssetInfo>,
    pub audio: Option<AssetInfo>,
    pub source: String,
    pub line_ids: Vec<LineId>,
}

#[derive(Debug, Clone, PartialEq, Eq)]
pub struct AssetBase64Response {
    pub asset_id: String,
    pub filename: String,
    pub mime_type: String,
    pub data: String,
}

// ---------------------------------------------------------------------------
// Copies whose equality to their source is proved
// ---------------------------------------------------------------------------

pub fn copy_opt_string(o: &Option<String>) -> (r: Option<String>)
    ensures
        r == *o,
{
    match o {
        Some(s) => Some(s.clone()),
        None => None,
    }
}

pub fn copy_strings(v: &Vec<String>) -> (r: Vec<String>)
    ensures
        r@ == v@,
{
    let mut r: Vec<String> = Vec::new();
    let mut i: usize = 0;
    while i < v.len()
        invariant
            i <= v@.len(),
            r@ == v@.take(i as int),
        decreases v@.len() - i,
    {
        r.push(v[i].clone());
        assert(v@.take(i as int + 1) =~= v@.take(i as int).push(v@[i as int]));
        i = i + 1;
    }
    assert(v@.take(v@.len() as int) =~= v@);
    r
}

impl PipeLineMeta {
    pub fn duplicate(&self) -> (r: Self)
        ensures
            r == *self,
    {
        PipeLineMeta {
            process_id: self.process_id,
            thread_number: self.thread_number,
            thread_name: copy_opt_string(&self.thread_name),
            window_title: copy_opt_string(&self.window_title),
            is_current_select: self.is_current_select,
            arch: self.arch.clone(),
            source: self.source.clone(),
        }
    }
}

impl AssetInfo {
    pub fn duplicate(&self) -> (r: Self)
        ensures
            r == *self,
    {
        AssetInfo {
            asset_id: self.asset_id.clone(),
            kind: self.kind,
            mime_type: self.mime_type.clone(),
            url: self.url.clone(),
            width: self.width,
            height: self.height,
            duration_ms: self.duration_ms,
            created_unix_ms: self.created_unix_ms,
            byte_size: self.byte_size,
        }
    }
}

pub fn copy_opt_asset(o: &Option<AssetInfo>) -> (r: Option<AssetInfo>)
    ensures
        r == *o,
{
    match o {
        Some(a) => Some(a.duplicate()),
        None => None,
    }
}

impl AudioTrimSource {
    pub fn duplicate(&self) -> (r: Self)
        ensures
            r == *self,
    {
        AudioTrimSource {
            asset: self.asset.duplicate(),
            source_duration_ms: self.source_duration_ms,
            start_ms: self.start_ms,
            end_ms: self.end_ms,
            can_extend: self.can_extend,
        }
    }
}

impl AudioState {
    pub fn duplicate(&self) -> (r: Self)
        ensures
            r == *self,
    {
        match self {
            AudioState::Recording { started_unix_ms } => AudioState::Recording {
                started_unix_ms: *started_unix_ms,
            },
            AudioState::Ready {
                asset,
                duration_ms,
                end_reason,
                trim_source,
                trim_recording_started_unix_ms,
            } => AudioState::Ready {
                asset: asset.duplicate(),
                duration_ms: *duration_ms,
                end_reason: *end_reason,
                trim_source: match trim_source {
                    Some(t) => Some(Box::new(t.duplicate())),
                    None => None,
                },
                trim_recording_started_unix_ms: *trim_recording_started_unix_ms,
            },
            AudioState::NoAudio { reason } => AudioState::NoAudio { reason: copy_opt_string(reason) },
        }
    }
}

pub fn copy_opt_audio(o: &Option<AudioState>) -> (r: Option<AudioState>)
    ensures
        r == *o,
{
    match o {
        Some(a) => Some(a.duplicate()),
        None => None,
    }
}

/// A line of the history as a mathematical value.
pub struct LineView {
    pub line_id: LineId,
    pub line_seq: LineSeq,
    pub timestamp_unix_ms: i64,
    pub text: String,
    pub meta: PipeLineMeta,
    pub screenshot: Option<AssetInfo>,
    pub audio: Option<AudioState>,
    pub warnings: Seq<String>,
}

impl View for LineRecord {
    type V = LineView;

    open spec fn view(&self) -> LineView {
        LineView {
            line_id: self.line_id,
            line_seq: self.line_seq,
            timestamp_unix_ms: self.timestamp_unix_ms,
            text: self.text,
            meta: self.meta,
            screenshot: self.screenshot,
            audio: self.audio,
            warnings: self.warnings@,
        }
    }
}

/// The views of a run of lines.
pub open spec fn line_views(s: Seq<LineRecord>) -> Seq<LineView> {
    s.map_values(|l: LineRecord| l@)
}

impl LineRecord {
    pub fn duplicate(&self) -> (r: Self)
        ensures
            r@ == self@,
    {
        LineRecord {
            line_id: self.line_id,
            line_seq: self.line_seq,
            timestamp_unix_ms: self.timestamp_unix_ms,
            text: self.text.clone(),
            meta: self.meta.duplicate(),
            screenshot: copy_opt_asset(&self.screenshot),
            audio: copy_opt_audio(&self.audio),
            warnings: copy_strings(&self.warnings),
        }
    }
}

} // verus!
