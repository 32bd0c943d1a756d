//! The server's state and what each event does to it: the history, the audio
//! sessions, the stored assets, the live events for browsers and the history log
//! still to be written.
use vstd::prelude::*;
use crate::assets::AssetCatalog;
use crate::audio::AudioManager;
use crate::config::{AppConfig, AudioConfig, LinesConfig};
use crate::history::{
    apply_op_spec, apply_update, index_of_id, lemma_index_of_id_found, line_with_id, replay, HistoryOp, HistoryStore, LineUpdate,
};
use crate::screenshot::{backend_of, ScreenshotManager};
use crate::cleanup::{line_purged_event, purge_lines_with_assets, purge_ops, purge_referencing, purged_message};
use crate::history::{lemma_log_none, lemma_log_one, lemma_replay_concat, log_extends, upsert_spec};
use crate::assets::catalog_find;
use crate::arith::{clip_i64, min_int, saturating_add_i64, saturating_sub_i64, ms_to_i64};
use crate::audio::{MAIN_AUDIO_MAX_DURATION_MS, TRIM_AUDIO_MAX_DURATION_MS, TRIM_AUDIO_POSTROLL_MS};
use crate::cleanup::{line_assets, line_assets_spec};
use crate::mining::{
    first_screenshot, last_screenshot, mine_sentence, mining_source, mining_source_spec, pick_screenshot,
    ready_audio_assets, ready_audio_spec, select_mine_lines, sentence_spec, seq_nondecreasing,
};
use crate::types::{MinePrepareRequest, MinePrepareResponse, RangeScreenshotPick};
use crate::audio::{backend_preference_of, unsupported_backend_text, AudioSession};
use crate::lines::{can_join_progressive_line, can_join_spec, is_compatible_pipe_event};
use crate::types::{BrowserLineAddedEvent, PipeLineEvent, PROTOCOL_VERSION};
use crate::text::{chars_to_string, decimal, decimal_chars, extend_chars, extend_str, owned, str_eq};
use crate::wav::{decode_spec, slice_pcm16_wav, slice_spec, SlicedWav};
use crate::trim::{trim_info_for_line, trim_info_for_line_spec, validate_trim_request, validate_trim_spec};
use crate::types::{
    copy_opt_asset, copy_opt_audio, copy_strings, AssetInfo, AudioEndReason, AudioFinishResponse,
    AudioState, AudioTrimInfoResponse, AudioTrimRequest, AudioTrimSource, BrowserEvent, LineId, LinePatch, LineRecord, LineSeq, LineUpdatedEvent,
    LineView, line_views,
};

verus! {

/// An event for the browsers' live stream.
#[derive(Debug, Clone)]
pub struct SseMessage {
    pub id: LineSeq,
    pub event_name: String,
    pub payload: BrowserEvent,
}

/// The directories the server stores its data in, as file system paths.
#[derive(Debug, Clone)]
pub struct AppDirs {
    pub root: String,
    pub history_path: String,
    pub assets_dir: String,
}

/// Which fields of a line an update event carries.
#[derive(Debug, Clone, Copy, PartialEq, Eq, Structural)]
pub struct PatchFields {
    pub text: bool,
    pub screenshot: bool,
    pub audio: bool,
    pub warnings: bool,
}

/// The server's state.
#[derive(Debug)]
pub struct AppState {
    pub config: AppConfig,
    pub history: HistoryStore,
    pub assets: AssetCatalog,
    pub screenshots: ScreenshotManager,
    pub audio: AudioManager,
    /// Events for the browsers, oldest first, not yet sent.
    pub events: Vec<SseMessage>,
}

// ---------------------------------------------------------------------------
// Model
// ---------------------------------------------------------------------------

/// `m` announces the fields `fields` of line `l`.
pub open spec fn is_line_update(m: SseMessage, l: LineView, fields: PatchFields) -> bool {
    &&& m.id == l.line_seq
    &&& m.event_name@ == "line_updated"@
    &&& match m.payload {
        BrowserEvent::LineUpdated(e) => {
            &&& e.line_id == l.line_id
            &&& e.line_seq == l.line_seq
            &&& if fields.text {
                e.patch.text == Some(l.text)
            } else {
                e.patch.text is None
            }
            &&& if fields.screenshot {
                e.patch.screenshot == Some(l.screenshot)
            } else {
                e.patch.screenshot is None
            }
            &&& if fields.audio {
                e.patch.audio == Some(l.audio)
            } else {
                e.patch.audio is None
            }
            &&& if fields.warnings {
                e.patch.warnings matches Some(w) && w@ == l.warnings
            } else {
                e.patch.warnings is None
            }
        },
        _ => false,
    }
}

/// `new` is `old` with one more element at the end.
pub open spec fn appended_one<T>(old: Seq<T>, new: Seq<T>) -> bool {
    new.len() == old.len() + 1 && new.drop_last() == old
}

/// A step that changed at most the line with id `line_id`, by `change`, and announced
/// the fields `fields` of it; with no such line nothing changed.
pub open spec fn updated_line(
    old: AppState,
    new: AppState,
    line_id: LineId,
    change: LineUpdate,
    fields: PatchFields,
) -> bool {
    &&& log_extends(old.lines(), old.history.log@, new.lines(), new.history.log@)
    &&& match index_of_id(old.lines(), line_id) {
        None => {
            &&& new.lines() == old.lines()
            &&& new.events@ == old.events@
        },
        Some(i) => {
            let changed = apply_update(old.lines()[i], change);
            &&& new.lines() == old.lines().update(i, changed)
            &&& appended_one(old.events@, new.events@)
            &&& is_line_update(new.events@.last(), changed, fields)
        },
    }
}

/// A step that changed nothing.
pub open spec fn unchanged(old: AppState, new: AppState) -> bool {
    &&& new.same_media(&old)
    &&& new.lines() == old.lines()
    &&& new.events@ == old.events@
    &&& new.history.log@ == old.history.log@
}

/// The response for a line that was not changed: its audio, or `line not found`.
pub open spec fn existing_audio_response(
    lines: Seq<LineView>,
    line_id: LineId,
    r: Result<AudioFinishResponse, String>,
) -> bool {
    match line_with_id(lines, line_id) {
        None => r matches Err(m) && m@ == "line not found"@,
        Some(l) => r == Ok::<AudioFinishResponse, String>(AudioFinishResponse { line_id, audio: l.audio }),
    }
}

/// The audio fields of a line update event.
pub open spec fn audio_only() -> PatchFields {
    PatchFields { text: false, screenshot: false, audio: true, warnings: false }
}

fn patch_fields(text: bool, screenshot: bool, audio: bool, warnings: bool) -> (f: PatchFields)
    ensures
        f == (PatchFields { text, screenshot, audio, warnings }),
{
    PatchFields { text, screenshot, audio, warnings }
}

/// The ready audio that a trim produces: the new clip, cut from the trim window's
/// source between the requested bounds, keeping the line's end reason.
pub open spec fn trimmed_audio_state(
    asset: AssetInfo,
    duration_ms: u64,
    end_reason: AudioEndReason,
    info: AudioTrimInfoResponse,
    request: AudioTrimRequest,
) -> AudioState {
    AudioState::Ready {
        asset,
        duration_ms,
        end_reason,
        trim_source: Some(
            Box::new(
                AudioTrimSource {
                    asset: info.source,
                    source_duration_ms: info.source_duration_ms,
                    start_ms: request.start_ms,
                    end_ms: request.end_ms,
                    can_extend: info.can_extend,
                },
            ),
        ),
        trim_recording_started_unix_ms: None,
    }
}

/// The trim window of the line with id `line_id`, or why there is none.
pub open spec fn trim_info_of(lines: Seq<LineView>, line_id: LineId) -> Result<AudioTrimInfoResponse, Seq<char>> {
    match line_with_id(lines, line_id) {
        None => Err("line not found"@),
        Some(l) => trim_info_for_line_spec(l),
    }
}

/// The end reason of the line's ready audio, or why there is none.
pub open spec fn ready_end_reason(lines: Seq<LineView>, line_id: LineId) -> Result<AudioEndReason, Seq<char>> {
    match line_with_id(lines, line_id) {
        None => Err("line not found"@),
        Some(l) => match l.audio {
            Some(AudioState::Ready { end_reason, .. }) => Ok(end_reason),
            _ => Err("line does not have ready audio"@),
        },
    }
}

/// `m` tells browsers that the line `line_id` (sequence `line_seq`) was purged with
/// its expired assets.
pub open spec fn is_purge_message(m: SseMessage, line_seq: LineSeq, line_id: LineId) -> bool {
    &&& m.id == line_seq
    &&& m.event_name@ == "line_updated"@
    &&& m.payload matches BrowserEvent::Error(err)
    &&& err.code@ == "line_purged"@
    &&& err.message@ == purged_message(line_id)
}


/// The audio a new line starts with, given the audio backend setting: none where
/// audio is off, no audio for an unknown backend, else a recording from `started`.
pub open spec fn audio_started(a: Option<AudioState>, backend: Seq<char>, started: i64) -> bool {
    if backend == "off"@ {
        a is None
    } else if backend_preference_of(backend) is None {
        a matches Some(AudioState::NoAudio { reason: Some(t) }) && t@ == unsupported_backend_text(backend)
    } else {
        a == Some(AudioState::Recording { started_unix_ms: started })
    }
}

/// `m` announces the new line `l`.
pub open spec fn is_line_added(m: SseMessage, l: LineView) -> bool {
    &&& m.id == l.line_seq
    &&& m.event_name@ == "line_added"@
    &&& m.payload matches BrowserEvent::LineAdded(e)
    &&& e.line@ == l
}

/// Whether the pipe event extends the newest line, with joining switched on.
pub open spec fn joins_newest(s: AppState, event: PipeLineEvent) -> bool {
    &&& s.config.lines.join_progressive_text
    &&& s.lines().len() > 0
    &&& can_join_spec(s.lines().last(), event)
}

/// A trim replaces the line's ready clip and keeps the end reason that ready audio had;
/// the new audio's trim source is the trim window's source, cut between the request's
/// bounds.
pub proof fn lemma_trim_keeps_end_reason(
    lines: Seq<LineView>,
    line_id: LineId,
    clip: TrimmedClip,
    asset: AssetInfo,
)
    requires
        ready_end_reason(lines, line_id) == Ok::<AudioEndReason, Seq<char>>(clip.end_reason),
    ensures
        line_with_id(lines, line_id) matches Some(l) && (l.audio matches Some(AudioState::Ready { end_reason, .. })
            && end_reason == clip.end_reason),
        ({
            let audio = trimmed_audio_state(asset, clip.clip.duration_ms, clip.end_reason, clip.info, clip.request);
            audio matches AudioState::Ready { asset: a, end_reason, trim_source: Some(t), .. } && a == asset
                && end_reason == clip.end_reason && t.asset == clip.info.source && t.start_ms
                == clip.request.start_ms && t.end_ms == clip.request.end_ms
        }),
{
}

/// An event that repeats the newest line's text never joins it: ingesting such an
/// event asks for a new line.
pub proof fn lemma_repeated_text_is_new_line(s: AppState, event: PipeLineEvent)
    requires
        s.lines().len() > 0,
        event.text@ == s.lines().last().text@,
    ensures
        !joins_newest(s, event),
{
    crate::lines::lemma_join_extends(s.lines().last(), event);
}

/// After a trim, the line's trim window is the one the trim asked for: asking for the
/// trim info again gives the requested bounds within the same source.
pub proof fn lemma_trim_then_info(old: AppState, new: AppState, line_id: LineId, clip: TrimmedClip, asset: AssetInfo)
    requires
        index_of_id(old.lines(), line_id) is Some,
        updated_line(
            old,
            new,
            line_id,
            LineUpdate::SetAudio(
                trimmed_audio_state(asset, clip.clip.duration_ms, clip.end_reason, clip.info, clip.request),
            ),
            audio_only(),
        ),
    ensures
        trim_info_of(new.lines(), line_id) matches Ok(info) && info.line_id == line_id && info.start_ms
            == clip.request.start_ms && info.end_ms == clip.request.end_ms && info.source == clip.info.source
            && info.source_duration_ms == clip.info.source_duration_ms && info.can_extend
            == clip.info.can_extend,
{
    let s = old.lines();
    lemma_index_of_id_found(s, line_id);
    let i = index_of_id(s, line_id)->Some_0;
    let audio = trimmed_audio_state(asset, clip.clip.duration_ms, clip.end_reason, clip.info, clip.request);
    let changed = apply_update(s[i], LineUpdate::SetAudio(audio));
    let t = new.lines();
    assert(t == s.update(i, changed));
    assert(crate::history::is_first_with_id(t, line_id, i)) by {
        assert forall|j: int| 0 <= j < i implies #[trigger] t[j].line_id != line_id by {
            assert(t[j] == s[j]);
        }
    }
    crate::history::lemma_index_of_id(t, line_id, i);
    assert(line_with_id(t, line_id) == Some(changed));
    crate::trim::lemma_trim_window(changed);
}

fn audio_fields() -> (f: PatchFields)
    ensures
        f == audio_only(),
{
    PatchFields { text: false, screenshot: false, audio: true, warnings: false }
}


/// A finished main recording, with its clip already stored as an asset.
#[derive(Debug, Clone)]
pub enum StoredMainAudio {
    Ready {
        asset: AssetInfo,
        duration_ms: u64,
        end_reason: AudioEndReason,
        trim_recording_started_unix_ms: i64,
    },
    NoAudio { reason: String },
}

/// A finished trim recording, with its source already stored as an asset.
#[derive(Debug, Clone)]
pub enum StoredTrimAudio {
    Ready { source_asset: AssetInfo, source_duration_ms: u64, start_ms: u64, end_ms: u64 },
    NoAudio { reason: String },
}

/// A clip cut for a trim request, with what the line's new audio takes from the line.
#[derive(Debug)]
pub struct TrimmedClip {
    /// The trim window the clip was cut from.
    pub info: AudioTrimInfoResponse,
    /// The end reason of the line's ready audio.
    pub end_reason: AudioEndReason,
    pub request: AudioTrimRequest,
    /// The clip as a WAV file, and how long it plays.
    pub clip: SlicedWav,
}

/// The audio a line gets when its main recording finishes.
pub open spec fn main_audio_state(f: StoredMainAudio) -> AudioState {
    match f {
        StoredMainAudio::Ready { asset, duration_ms, end_reason, trim_recording_started_unix_ms } =>
            AudioState::Ready {
            asset,
            duration_ms,
            end_reason,
            trim_source: None,
            trim_recording_started_unix_ms: Some(trim_recording_started_unix_ms),
        },
        StoredMainAudio::NoAudio { reason } => AudioState::NoAudio { reason: Some(reason) },
    }
}

/// What a finished trim recording does to a line's ready audio.
pub open spec fn trim_change(f: StoredTrimAudio) -> LineUpdate {
    match f {
        StoredTrimAudio::Ready { source_asset, source_duration_ms, start_ms, end_ms } =>
            LineUpdate::AttachTrimSource(
            AudioTrimSource {
                asset: source_asset,
                source_duration_ms,
                start_ms,
                end_ms,
                can_extend: true,
            },
        ),
        StoredTrimAudio::NoAudio { .. } => LineUpdate::ClearTrimRecording,
    }
}

impl AppState {
    /// The history and the audio manager are well formed.
    pub open spec fn wf(&self) -> bool {
        self.history.wf() && self.audio.wf()
    }

    /// The history as values.
    pub open spec fn lines(&self) -> Seq<LineView> {
        self.history.view_lines()
    }

    /// What a step leaves as it was besides the history, the events and the log.
    pub open spec fn same_media(&self, other: &AppState) -> bool {
        &&& self.config == other.config
        &&& self.assets == other.assets
        &&& self.screenshots == other.screenshots
        &&& self.audio == other.audio
        &&& self.history.next_seq == other.history.next_seq
    }

    /// The state of a server that starts with `config` and the history `history`.
    pub fn new(config: AppConfig, history: HistoryStore) -> (s: Self)
        requires
            history.wf(),
        ensures
            s.wf(),
            s.config == config,
            s.history == history,
            s.assets.assets@.len() == 0,
            s.screenshots.backend == backend_of(config.screenshot.backend@),
            s.audio.config == config.audio,
            s.audio.session_map().is_empty(),
            s.audio.capture_map().is_empty(),
            s.events@.len() == 0,
    {
        let screenshots = ScreenshotManager::new(config.screenshot.backend.as_str());
        let audio = AudioManager::new(config.audio.duplicate());
        AppState {
            config,
            history,
            assets: AssetCatalog::new(),
            screenshots,
            audio,
            events: Vec::new(),
        }
    }

    /// Takes the settings that the browser edited: the configuration's audio and line
    /// settings, and the audio manager's configuration.
    pub fn update_editable_config(&mut self, audio: AudioConfig, lines: LinesConfig) -> (r: AppConfig)
        requires
            old(self).wf(),
        ensures
            final(self).wf(),
            r == (AppConfig { audio, lines, ..old(self).config }),
            final(self).config == r,
            final(self).audio.config == audio,
            final(self).audio.sessions == old(self).audio.sessions,
            final(self).audio.captures == old(self).audio.captures,
            final(self).history == old(self).history,
            final(self).events == old(self).events,
    {
        let updated = self.config.with_editable(audio, lines);
        self.audio.update_config(updated.audio.duplicate());
        self.config = updated.duplicate();
        updated
    }

    /// The name of the pipe to listen on: the configured one, or where it is `auto`
    /// the current user's default (`sid` is the user's SID where it could be read).
    pub fn pipe_name(&self, sid: Option<String>) -> (r: String)
        ensures
            self.config.pipe.name@ == "auto"@ ==> r@ == crate::pipe_name::pipe_name_spec(
                match sid {
                    Some(s) => s@,
                    None => "unknown_user"@,
                },
            ),
            self.config.pipe.name@ != "auto"@ ==> r == self.config.pipe.name,
    {
        if str_eq(self.config.pipe.name.as_str(), "auto") {
            crate::pipe_name::default_pipe_name(sid)
        } else {
            self.config.pipe.name.clone()
        }
    }

    /// The newest line's sequence number.
    pub fn newest_seq(&self) -> (r: Option<LineSeq>)
        ensures
            self.lines().len() == 0 ==> r is None,
            self.lines().len() > 0 ==> r == Some(self.lines().last().line_seq),
    {
        self.history.newest_seq()
    }

    // -----------------------------------------------------------------------
    // Changing one line
    // -----------------------------------------------------------------------

    /// Changes the line with id `line_id`, logs the changed line and announces the
    /// fields `fields` of it; the changed line, or `None` where there is no such line.
    fn update_line(&mut self, line_id: LineId, change: LineUpdate, fields: PatchFields) -> (r: Option<
        LineRecord,
    >)
        requires
            old(self).wf(),
        ensures
            final(self).wf(),
            final(self).same_media(&*old(self)),
            log_extends(old(self).lines(), old(self).history.log@, final(self).lines(), final(self).history.log@),
            match index_of_id(old(self).lines(), line_id) {
                None => {
                    &&& r is None
                    &&& final(self).lines() == old(self).lines()
                    &&& final(self).events@ == old(self).events@
                },
                Some(i) => {
                    let changed = apply_update(old(self).lines()[i], change);
                    &&& r matches Some(l) && l@ == changed
                    &&& final(self).lines() == old(self).lines().update(i, changed)
                    &&& appended_one(old(self).events@, final(self).events@)
                    &&& is_line_update(final(self).events@.last(), changed, fields)
                },
            },
    {
        let ghost s0 = self.lines();
        proof {
            lemma_index_of_id_found(s0, line_id);
        }
        let updated = self.history.update(line_id, change);
        match updated {
            None => None,
            Some(line) => {
                let patch = LinePatch {
                    text: if fields.text {
                        Some(line.text.clone())
                    } else {
                        None
                    },
                    screenshot: if fields.screenshot {
                        Some(copy_opt_asset(&line.screenshot))
                    } else {
                        None
                    },
                    audio: if fields.audio {
                        Some(copy_opt_audio(&line.audio))
                    } else {
                        None
                    },
                    warnings: if fields.warnings {
                        Some(copy_strings(&line.warnings))
                    } else {
                        None
                    },
                };
                let message = SseMessage {
                    id: line.line_seq,
                    event_name: owned("line_updated"),
                    payload: BrowserEvent::LineUpdated(
                        LineUpdatedEvent { line_id, line_seq: line.line_seq, patch },
                    ),
                };
                let ghost e0 = self.events@;
                self.events.push(message);
                assert(self.events@.drop_last() =~= e0);
                Some(line)
            },
        }
    }
}

impl AppState {
    /// The line's audio as a response, or `line not found`.
    fn existing_audio(&self, line_id: LineId) -> (r: Result<AudioFinishResponse, String>)
        ensures
            existing_audio_response(self.lines(), line_id, r),
    {
        match self.history.get_line(line_id) {
            None => Err(owned("line not found")),
            Some(line) => Ok(AudioFinishResponse { line_id, audio: line.audio }),
        }
    }

    /// Records a finished main recording on its line: the stored clip as ready audio,
    /// or why there is none. Where nothing finished, the line's audio as it is.
    pub fn finish_audio_with_result(&mut self, line_id: LineId, finished: Option<StoredMainAudio>) -> (r:
        Result<AudioFinishResponse, String>)
        requires
            old(self).wf(),
        ensures
            final(self).wf(),
            final(self).same_media(&*old(self)),
            match finished {
                Some(f) => {
                    let audio = main_audio_state(f);
                    &&& updated_line(*old(self), *final(self), line_id, LineUpdate::SetAudio(audio), audio_only())
                    &&& r == Ok::<AudioFinishResponse, String>(AudioFinishResponse { line_id, audio: Some(audio) })
                },
                None => {
                    &&& unchanged(*old(self), *final(self))
                    &&& existing_audio_response(old(self).lines(), line_id, r)
                },
            },
    {
        match finished {
            Some(f) => {
                let audio = match f {
                    StoredMainAudio::Ready { asset, duration_ms, end_reason, trim_recording_started_unix_ms } =>
                        AudioState::Ready {
                        asset,
                        duration_ms,
                        end_reason,
                        trim_source: None,
                        trim_recording_started_unix_ms: Some(trim_recording_started_unix_ms),
                    },
                    StoredMainAudio::NoAudio { reason } => AudioState::NoAudio { reason: Some(reason) },
                };
                let copy = audio.duplicate();
                let _ = self.update_line(line_id, LineUpdate::SetAudio(copy), audio_fields());
                Ok(AudioFinishResponse { line_id, audio: Some(audio) })
            },
            None => self.existing_audio(line_id),
        }
    }

    /// Records a finished trim recording on its line's ready audio: the stored source
    /// as its trim source, and in any case the end of its trim recording. Answers the
    /// line's audio, or `line not found`.
    pub fn finish_trim_audio_with_result(&mut self, line_id: LineId, finished: Option<StoredTrimAudio>) -> (r:
        Result<AudioFinishResponse, String>)
        requires
            old(self).wf(),
        ensures
            final(self).wf(),
            final(self).same_media(&*old(self)),
            match finished {
                Some(f) => {
                    &&& updated_line(*old(self), *final(self), line_id, trim_change(f), audio_only())
                    &&& match index_of_id(old(self).lines(), line_id) {
                        Some(i) => r == Ok::<AudioFinishResponse, String>(
                            AudioFinishResponse {
                                line_id,
                                audio: apply_update(old(self).lines()[i], trim_change(f)).audio,
                            },
                        ),
                        None => r matches Err(m) && m@ == "line not found"@,
                    }
                },
                None => {
                    &&& unchanged(*old(self), *final(self))
                    &&& existing_audio_response(old(self).lines(), line_id, r)
                },
            },
    {
        match finished {
            Some(f) => {
                let change = match f {
                    StoredTrimAudio::Ready { source_asset, source_duration_ms, start_ms, end_ms } =>
                        LineUpdate::AttachTrimSource(
                        AudioTrimSource {
                            asset: source_asset,
                            source_duration_ms,
                            start_ms,
                            end_ms,
                            can_extend: true,
                        },
                    ),
                    StoredTrimAudio::NoAudio { .. } => LineUpdate::ClearTrimRecording,
                };
                match self.update_line(line_id, change, audio_fields()) {
                    Some(line) => Ok(AudioFinishResponse { line_id, audio: line.audio }),
                    None => Err(owned("line not found")),
                }
            },
            None => self.existing_audio(line_id),
        }
    }

    /// Whether the line's audio is still recording.
    pub fn audio_is_recording(&self, line_id: LineId) -> (r: bool)
        ensures
            r == (line_with_id(self.lines(), line_id) matches Some(l) && l.audio matches Some(
                AudioState::Recording { .. },
            )),
    {
        match self.history.get_line(line_id) {
            Some(line) => match line.audio {
                Some(AudioState::Recording { .. }) => true,
                _ => false,
            },
            None => false,
        }
    }

    /// Drops the line's audio: its session ends and it has no audio, for no reason.
    pub fn remove_audio(&mut self, line_id: LineId) -> (r: AudioFinishResponse)
        requires
            old(self).wf(),
        ensures
            final(self).wf(),
            final(self).config == old(self).config,
            final(self).assets == old(self).assets,
            final(self).screenshots == old(self).screenshots,
            final(self).history.next_seq == old(self).history.next_seq,
            final(self).audio.session_map() == old(self).audio.session_map().remove(line_id),
            final(self).audio.captures == old(self).audio.captures,
            final(self).audio.config == old(self).audio.config,
            updated_line(
                *old(self),
                *final(self),
                line_id,
                LineUpdate::SetAudio(AudioState::NoAudio { reason: None }),
                audio_only(),
            ),
            r == (AudioFinishResponse { line_id, audio: Some(AudioState::NoAudio { reason: None }) }),
    {
        self.audio.remove_line_session(line_id);
        let _ = self.update_line(
            line_id,
            LineUpdate::SetAudio(AudioState::NoAudio { reason: None }),
            audio_fields(),
        );
        AudioFinishResponse { line_id, audio: Some(AudioState::NoAudio { reason: None }) }
    }
}

impl AppState {
    /// The trim window of the line's ready audio.
    pub fn audio_trim_info(&self, line_id: LineId) -> (r: Result<AudioTrimInfoResponse, String>)
        ensures
            match (r, trim_info_of(self.lines(), line_id)) {
                (Ok(a), Ok(b)) => a == b,
                (Err(m), Err(t)) => m@ == t,
                _ => false,
            },
    {
        match self.history.get_line(line_id) {
            None => Err(owned("line not found")),
            Some(line) => trim_info_for_line(&line),
        }
    }

    /// The trim window a trim request applies to, once the request is accepted: it
    /// must lie within the source and last at least 100 ms.
    pub fn prepare_audio_trim(&self, line_id: LineId, request: &AudioTrimRequest) -> (r: Result<
        AudioTrimInfoResponse,
        String,
    >)
        ensures
            match trim_info_of(self.lines(), line_id) {
                Err(t) => r matches Err(m) && m@ == t,
                Ok(info) => match validate_trim_spec(*request, info) {
                    Some(t) => r matches Err(m) && m@ == t,
                    None => r == Ok::<AudioTrimInfoResponse, String>(info),
                },
            },
    {
        let info = match self.audio_trim_info(line_id) {
            Err(e) => {
                return Err(e);
            },
            Ok(info) => info,
        };
        match validate_trim_request(request, &info) {
            Err(e) => Err(e),
            Ok(()) => Ok(info),
        }
    }

    /// The end reason of the line's ready audio, which a trimmed clip keeps.
    pub fn trim_end_reason(&self, line_id: LineId) -> (r: Result<AudioEndReason, String>)
        ensures
            match (r, ready_end_reason(self.lines(), line_id)) {
                (Ok(a), Ok(b)) => a == b,
                (Err(m), Err(t)) => m@ == t,
                _ => false,
            },
    {
        match self.history.get_line(line_id) {
            None => Err(owned("line not found")),
            Some(line) => match line.audio {
                Some(AudioState::Ready { end_reason, .. }) => Ok(end_reason),
                _ => Err(owned("line does not have ready audio")),
            },
        }
    }

    /// Cuts the clip for a trim request from the trim window's source audio, whose bytes
    /// are `source_bytes` (the file of the window's source asset, as
    /// `prepare_audio_trim` names it): the request must be accepted, the source must
    /// be a mono PCM16 WAV file, and the line must have ready audio, whose end reason
    /// the clip keeps.
    pub fn trim_audio_clip(&self, line_id: LineId, request: &AudioTrimRequest, source_bytes: &[u8]) -> (r:
        Result<TrimmedClip, String>)
        requires
            source_bytes@.len() < usize::MAX,
            decode_spec(source_bytes@) matches Ok((rate, _)) ==> rate > 0,
        ensures
            match trim_info_of(self.lines(), line_id) {
                Err(t) => r matches Err(m) && m@ == t,
                Ok(info) => match validate_trim_spec(*request, info) {
                    Some(t) => r matches Err(m) && m@ == t,
                    None => match slice_spec(source_bytes@, request.start_ms, request.end_ms) {
                        Err(t) => r matches Err(m) && m@ == t,
                        Ok((bytes, duration)) => match ready_end_reason(self.lines(), line_id) {
                            Err(t) => r matches Err(m) && m@ == t,
                            Ok(end_reason) => r matches Ok(c) && c.info == info && c.end_reason == end_reason
                                && c.request == *request && c.clip.bytes@ == bytes && c.clip.duration_ms
                                == duration,
                        },
                    },
                },
            },
    {
        let info = match self.prepare_audio_trim(line_id, request) {
            Err(e) => {
                return Err(e);
            },
            Ok(info) => info,
        };
        let clip = match slice_pcm16_wav(source_bytes, request.start_ms, request.end_ms) {
            Err(e) => {
                return Err(e);
            },
            Ok(c) => c,
        };
        let end_reason = match self.trim_end_reason(line_id) {
            Err(e) => {
                return Err(e);
            },
            Ok(e) => e,
        };
        Ok(TrimmedClip { info, end_reason, request: *request, clip })
    }

    /// Gives the line the trimmed clip, stored as `asset`: ready audio that keeps the
    /// line's end reason, with the trim window's source cut between the request's
    /// bounds as its trim source. The clip was cut from this line as it stands.
    pub fn apply_audio_trim(&mut self, line_id: LineId, clip: TrimmedClip, asset: AssetInfo) -> (r:
        AudioFinishResponse)
        requires
            old(self).wf(),
            trim_info_of(old(self).lines(), line_id) == Ok::<AudioTrimInfoResponse, Seq<char>>(clip.info),
            validate_trim_spec(clip.request, clip.info) is None,
            ready_end_reason(old(self).lines(), line_id) == Ok::<AudioEndReason, Seq<char>>(clip.end_reason),
            asset.duration_ms == Some(clip.clip.duration_ms),
            asset.byte_size == clip.clip.bytes@.len(),
        ensures
            final(self).wf(),
            final(self).same_media(&*old(self)),
            ({
                let audio = trimmed_audio_state(asset, clip.clip.duration_ms, clip.end_reason, clip.info, clip.request);
                &&& updated_line(*old(self), *final(self), line_id, LineUpdate::SetAudio(audio), audio_only())
                &&& r == (AudioFinishResponse { line_id, audio: Some(audio) })
            }),
    {
        let TrimmedClip { info, end_reason, request, clip: sliced } = clip;
        let audio = AudioState::Ready {
            asset,
            duration_ms: sliced.duration_ms,
            end_reason,
            trim_source: Some(
                Box::new(
                    AudioTrimSource {
                        asset: info.source,
                        source_duration_ms: info.source_duration_ms,
                        start_ms: request.start_ms,
                        end_ms: request.end_ms,
                        can_extend: info.can_extend,
                    },
                ),
            ),
            trim_recording_started_unix_ms: None,
        };
        let copy = audio.duplicate();
        let _ = self.update_line(line_id, LineUpdate::SetAudio(copy), audio_fields());
        AudioFinishResponse { line_id, audio: Some(audio) }
    }

    /// Adds a warning to the line, where it does not have it yet, and announces the
    /// line's warnings.
    pub fn add_warning(&mut self, line_id: LineId, warning: String)
        requires
            old(self).wf(),
        ensures
            final(self).wf(),
            final(self).same_media(&*old(self)),
            updated_line(
                *old(self),
                *final(self),
                line_id,
                LineUpdate::AddWarning(warning),
                PatchFields { text: false, screenshot: false, audio: false, warnings: true },
            ),
    {
        let fields = patch_fields(false, false, false, true);
        let _ = self.update_line(line_id, LineUpdate::AddWarning(warning), fields);
    }

    /// Gives the line its screenshot, stored as `asset`, and announces the line's
    /// screenshot and warnings.
    pub fn set_screenshot(&mut self, line_id: LineId, asset: AssetInfo)
        requires
            old(self).wf(),
        ensures
            final(self).wf(),
            final(self).same_media(&*old(self)),
            updated_line(
                *old(self),
                *final(self),
                line_id,
                LineUpdate::SetScreenshot(asset),
                PatchFields { text: false, screenshot: true, audio: false, warnings: true },
            ),
    {
        let fields = patch_fields(false, true, false, true);
        let _ = self.update_line(line_id, LineUpdate::SetScreenshot(asset), fields);
    }

    /// Forgets every line and every audio session; how many lines there were. The log
    /// records the clearing only where there was a line.
    pub fn clear_lines(&mut self) -> (r: usize)
        requires
            old(self).wf(),
        ensures
            final(self).wf(),
            r == old(self).lines().len(),
            final(self).lines() == Seq::<LineView>::empty(),
            final(self).audio.session_map().is_empty(),
            final(self).audio.captures == old(self).audio.captures,
            final(self).audio.config == old(self).audio.config,
            final(self).config == old(self).config,
            final(self).assets == old(self).assets,
            final(self).screenshots == old(self).screenshots,
            final(self).history.next_seq == old(self).history.next_seq,
            final(self).events@ == old(self).events@,
            log_extends(old(self).lines(), old(self).history.log@, final(self).lines(), final(self).history.log@),
            r == 0 ==> final(self).history.log@ == old(self).history.log@,
    {
        self.audio.clear_sessions();
        let removed = self.history.clear();
        removed
    }
}

impl AppState {
    /// Purges the lines that refer to an asset of `removed` (the assets that expired),
    /// logs each purge and tells browsers of it; how many lines were purged.
    pub fn cleanup_assets_and_history(&mut self, removed: &[String]) -> (r: usize)
        requires
            old(self).wf(),
        ensures
            final(self).wf(),
            final(self).same_media(&*old(self)),
            log_extends(old(self).lines(), old(self).history.log@, final(self).lines(), final(self).history.log@),
            removed@.len() == 0 ==> r == 0 && unchanged(*old(self), *final(self)),
            removed@.len() > 0 ==> {
                let (lines, purged) = purge_referencing(old(self).lines(), old(self).lines(), removed@);
                let n = old(self).events@.len();
                &&& final(self).lines() == lines
                &&& r == purged.len()
                &&& final(self).history.log@ == old(self).history.log@ + purge_ops(purged)
                &&& final(self).events@.len() == n + purged.len()
                &&& final(self).events@.take(n as int) == old(self).events@
                &&& forall|k: int|
                    0 <= k < purged.len() ==> is_purge_message(
                        #[trigger] final(self).events@[n + k],
                        purged[k].0,
                        purged[k].1,
                    )
            },
    {
        let ghost events0 = self.events@;
        if removed.len() == 0 {
            proof {
                lemma_log_none(self.lines(), self.history.log@);
            }
            return 0;
        }
        let purged = purge_lines_with_assets(&mut self.history, removed);
        let ghost lines_after = self.lines();
        let ghost log_after = self.history.log@;
        let n = self.events.len();
        let mut k: usize = 0;
        while k < purged.len()
            invariant
                k <= purged@.len(),
                self.wf(),
                self.same_media(&*old(self)),
                self.lines() == lines_after,
                self.history.log@ == log_after,
                n == events0.len(),
                self.events@.len() == n + k,
                self.events@.take(n as int) == events0,
                forall|j: int|
                    0 <= j < k ==> is_purge_message(#[trigger] self.events@[n + j], purged@[j].0, purged@[j].1),
            decreases purged@.len() - k,
        {
            let (line_seq, line_id) = purged[k];
            let ghost events_before = self.events@;
            self.events.push(
                SseMessage { id: line_seq, event_name: owned("line_updated"), payload: line_purged_event(line_id) },
            );
            assert(self.events@.take(n as int) =~= events_before.take(n as int));
            assert forall|j: int| 0 <= j < k + 1 implies is_purge_message(
                #[trigger] self.events@[n + j],
                purged@[j].0,
                purged@[j].1,
            ) by {
                if j < k {
                    assert(self.events@[n + j] == events_before[n + j]);
                }
            }
            k = k + 1;
        }
        purged.len()
    }
}

/// What an incoming pipe event came to before any new line is made.
#[derive(Debug)]
pub enum IngestStep {
    /// Not a line event of this protocol version.
    Dropped,
    /// The text extended the newest line, which now holds it.
    Joined(LineRecord),
    /// The text starts a new line.
    NewLine,
}

impl AppState {
    /// Where joining is on and the event's text extends the newest line, gives that
    /// line the new text and announces it; the changed line.
    pub fn try_join_progressive_line(&mut self, event: &PipeLineEvent) -> (r: Option<LineRecord>)
        requires
            old(self).wf(),
        ensures
            final(self).wf(),
            final(self).same_media(&*old(self)),
            !joins_newest(*old(self), *event) ==> r is None && unchanged(*old(self), *final(self)),
            joins_newest(*old(self), *event) ==> {
                let id = old(self).lines().last().line_id;
                let change = LineUpdate::SetText(event.text);
                &&& updated_line(
                    *old(self),
                    *final(self),
                    id,
                    change,
                    PatchFields { text: true, screenshot: false, audio: false, warnings: false },
                )
                &&& index_of_id(old(self).lines(), id) matches Some(i)
                &&& r matches Some(l) && l@ == apply_update(old(self).lines()[i], change)
            },
    {
        let ghost s0 = self.lines();
        proof {
            lemma_log_none(s0, self.history.log@);
        }
        if !self.config.lines.join_progressive_text {
            return None;
        }
        let previous = match self.history.newest_line() {
            None => {
                return None;
            },
            Some(p) => p,
        };
        if !can_join_progressive_line(&previous, event) {
            return None;
        }
        proof {
            assert(s0[s0.len() - 1].line_id == previous.line_id);
            lemma_index_of_id_found(s0, previous.line_id);
        }
        let fields = patch_fields(true, false, false, false);
        self.update_line(previous.line_id, LineUpdate::SetText(event.text.clone()), fields)
    }

    /// The first step with an incoming pipe event: drops one of another kind or
    /// version, joins one that extends the newest line, and otherwise asks for a new
    /// line (made by `add_pipe_line` once the process's running recordings are
    /// finished and its window title is known).
    pub fn ingest_pipe_line(&mut self, event: &PipeLineEvent) -> (r: IngestStep)
        requires
            old(self).wf(),
        ensures
            final(self).wf(),
            final(self).same_media(&*old(self)),
            !(event.protocol_version == PROTOCOL_VERSION && event.event_type@ == "line"@) ==> (r matches IngestStep::Dropped) && unchanged(*old(self), *final(self)),
            (event.protocol_version == PROTOCOL_VERSION && event.event_type@ == "line"@) ==> {
                &&& !joins_newest(*old(self), *event) ==> (r matches IngestStep::NewLine) && unchanged(*old(self), *final(self))
                &&& joins_newest(*old(self), *event) ==> {
                    let id = old(self).lines().last().line_id;
                    let change = LineUpdate::SetText(event.text);
                    &&& updated_line(
                        *old(self),
                        *final(self),
                        id,
                        change,
                        PatchFields { text: true, screenshot: false, audio: false, warnings: false },
                    )
                    &&& index_of_id(old(self).lines(), id) matches Some(i)
                    &&& r matches IngestStep::Joined(l) && l@ == apply_update(old(self).lines()[i], change)
                }
            },
    {
        if !is_compatible_pipe_event(event) {
            proof {
                lemma_log_none(self.lines(), self.history.log@);
            }
            return IngestStep::Dropped;
        }
        match self.try_join_progressive_line(event) {
            Some(line) => IngestStep::Joined(line),
            None => IngestStep::NewLine,
        }
    }

    /// Makes a new line of the event under the next sequence number (also its id),
    /// starts its audio, stores and logs it, and announces it.
    pub fn add_pipe_line(&mut self, event: PipeLineEvent) -> (r: LineRecord)
        requires
            old(self).wf(),
        ensures
            final(self).wf(),
            r.line_seq == old(self).history.next_seq,
            r.line_id == r.line_seq,
            r.timestamp_unix_ms == event.timestamp_unix_ms,
            r.text == event.text,
            r.meta == event.meta,
            r.screenshot is None,
            r.warnings@.len() == 0,
            audio_started(r.audio, old(self).audio.config.backend@, event.timestamp_unix_ms),
            final(self).lines() == upsert_spec(old(self).lines(), r@),
            final(self).history.next_seq == (if old(self).history.next_seq == u64::MAX {
                0
            } else {
                old(self).history.next_seq + 1
            }),
            log_extends(old(self).lines(), old(self).history.log@, final(self).lines(), final(self).history.log@),
            appended_one(old(self).events@, final(self).events@),
            is_line_added(final(self).events@.last(), r@),
            final(self).config == old(self).config,
            final(self).assets == old(self).assets,
            final(self).screenshots == old(self).screenshots,
            final(self).audio.config == old(self).audio.config,
            r.audio matches Some(AudioState::Recording { .. }) ==> final(self).audio.session_map()
                == old(self).audio.session_map().insert(
                r.line_id,
                AudioSession {
                    process_id: event.meta.process_id,
                    started_unix_ms: event.timestamp_unix_ms,
                    main_finished: false,
                },
            ),
            !(r.audio matches Some(AudioState::Recording { .. })) ==> final(self).audio.session_map()
                == old(self).audio.session_map(),
            !(r.audio matches Some(AudioState::Recording { .. })) ==> final(self).audio.capture_map()
                == old(self).audio.capture_map(),
            r.audio matches Some(AudioState::Recording { .. }) ==> {
                let pid = event.meta.process_id;
                &&& final(self).audio.capture_map().contains_key(pid)
                &&& old(self).audio.capture_map().contains_key(pid) ==> final(self).audio.capture_map()
                    == old(self).audio.capture_map()
                &&& !old(self).audio.capture_map().contains_key(pid) ==> final(self).audio.capture_map().remove(pid)
                    == old(self).audio.capture_map()
                &&& !old(self).audio.capture_map().contains_key(pid) ==> {
                    let c = final(self).audio.capture_map()[pid];
                    &&& c.buffer.chunks@.len() == 0
                    &&& c.buffer.retention_ms == crate::audio::retention_spec()
                    &&& !c.status.ready
                }
            },
    {
        let ghost s0 = self.lines();
        let ghost e0 = self.events@;
        let line_seq = self.history.next_line_seq();
        let audio = self.audio.start_line_session(line_seq, event.meta.process_id, event.timestamp_unix_ms);
        let line = LineRecord {
            line_id: line_seq,
            line_seq,
            timestamp_unix_ms: event.timestamp_unix_ms,
            text: event.text,
            meta: event.meta,
            screenshot: None,
            audio,
            warnings: Vec::new(),
        };
        assert(line_views(self.history.lines@) == s0);
        self.history.upsert(line.duplicate());
        self.events.push(
            SseMessage {
                id: line_seq,
                event_name: owned("line_added"),
                payload: BrowserEvent::LineAdded(BrowserLineAddedEvent { line: line.duplicate() }),
            },
        );
        assert(self.events@.drop_last() =~= e0);
        line
    }
}

// ---------------------------------------------------------------------------
// Deadlines
// ---------------------------------------------------------------------------

/// When a line's main and trim recordings end at the latest: two and three minutes
/// after they started (saturating).
pub fn audio_deadlines(started_unix_ms: i64) -> (r: (i64, i64))
    ensures
        r.0 == clip_i64(started_unix_ms + MAIN_AUDIO_MAX_DURATION_MS),
        r.1 == clip_i64(started_unix_ms + TRIM_AUDIO_MAX_DURATION_MS),
{
    (
        saturating_add_i64(started_unix_ms, ms_to_i64(MAIN_AUDIO_MAX_DURATION_MS)),
        saturating_add_i64(started_unix_ms, ms_to_i64(TRIM_AUDIO_MAX_DURATION_MS)),
    )
}

/// When a line's trim recording ends once the next line arrived at `end_unix_ms`:
/// ten seconds later (saturating).
pub fn trim_postroll_deadline(end_unix_ms: i64) -> (r: i64)
    ensures
        r == clip_i64(end_unix_ms + TRIM_AUDIO_POSTROLL_MS),
{
    saturating_add_i64(end_unix_ms, ms_to_i64(TRIM_AUDIO_POSTROLL_MS))
}

/// How long to wait at `now_unix_ms` for `deadline_unix_ms`: none once it passed.
pub fn delay_until_ms(deadline_unix_ms: i64, now_unix_ms: i64) -> (r: u64)
    ensures
        r == (if deadline_unix_ms <= now_unix_ms {
            0
        } else {
            clip_i64(deadline_unix_ms - now_unix_ms)
        }),
{
    let d = saturating_sub_i64(deadline_unix_ms, now_unix_ms);
    if d <= 0 {
        0
    } else {
        d as u64
    }
}

// ---------------------------------------------------------------------------
// Assets and cards
// ---------------------------------------------------------------------------

/// The first asset with id `id` among the assets of the lines, in history order.
pub open spec fn history_asset(lines: Seq<LineView>, id: Seq<char>) -> Option<AssetInfo>
    decreases lines.len(),
{
    if lines.len() == 0 {
        None
    } else {
        match catalog_find(line_assets_spec(lines[0].screenshot, lines[0].audio), id) {
            Some(a) => Some(a),
            None => history_asset(lines.drop_first(), id),
        }
    }
}

/// What a card is made of before its media is converted.
#[derive(Debug)]
pub struct MinePlan {
    pub sentence: String,
    /// The screenshot to convert to JPEG, if a line has one.
    pub screenshot: Option<AssetInfo>,
    /// The ready clips to join into one MP3, in line order.
    pub audio_sources: Vec<AssetInfo>,
    pub source: String,
    pub line_ids: Vec<LineId>,
}

/// The plan `p` is made of the lines `v`, in this order.
pub open spec fn plan_describes(p: MinePlan, v: Seq<LineView>, sep: Seq<char>, pick: RangeScreenshotPick) -> bool {
    &&& v.len() > 0
    &&& p.sentence@ == sentence_spec(v, sep)
    &&& p.screenshot == (match pick {
        RangeScreenshotPick::First => first_screenshot(v),
        RangeScreenshotPick::Last => last_screenshot(v),
    })
    &&& p.audio_sources@ == ready_audio_spec(v)
    &&& p.source@ == mining_source_spec(v[0])
    &&& p.line_ids@ == v.map_values(|l: LineView| l.line_id)
}

impl MinePlan {
    /// The card, with the converted screenshot and audio.
    pub fn into_response(self, screenshot: Option<AssetInfo>, audio: Option<AssetInfo>) -> (r:
        MinePrepareResponse)
        ensures
            r.sentence == self.sentence,
            r.screenshot == screenshot,
            r.audio == audio,
            r.source == self.source,
            r.line_ids@ == self.line_ids@,
    {
        MinePrepareResponse {
            sentence: self.sentence,
            screenshot,
            audio,
            source: self.source,
            line_ids: self.line_ids,
        }
    }
}

fn line_ids_of(lines: &Vec<LineRecord>) -> (r: Vec<LineId>)
    ensures
        r@ == line_views(lines@).map_values(|l: LineView| l.line_id),
{
    let mut r: Vec<LineId> = Vec::new();
    let mut i: usize = 0;
    while i < lines.len()
        invariant
            i <= lines@.len(),
            r@ == line_views(lines@).take(i as int).map_values(|l: LineView| l.line_id),
        decreases lines@.len() - i,
    {
        r.push(lines[i].line_id);
        assert(line_views(lines@).take(i as int + 1).map_values(|l: LineView| l.line_id) =~= line_views(
            lines@,
        ).take(i as int).map_values(|l: LineView| l.line_id).push(lines@[i as int].line_id));
        i = i + 1;
    }
    assert(line_views(lines@).take(lines@.len() as int) =~= line_views(lines@));
    r
}

impl AppState {
    /// The metadata of an asset: of the ones stored since start-up, else the first that
    /// a line refers to.
    pub fn find_asset_info(&self, asset_id: &str) -> (r: Option<AssetInfo>)
        ensures
            r == (match catalog_find(self.assets.assets@, asset_id@) {
                Some(a) => Some(a),
                None => history_asset(self.lines(), asset_id@),
            }),
    {
        match self.assets.find_asset_info(asset_id) {
            Some(a) => {
                return Some(a);
            },
            None => {},
        }
        let lines = self.history.all_lines();
        let ghost s = line_views(lines@);
        let mut i: usize = 0;
        assert(s.skip(0) =~= s);
        while i < lines.len()
            invariant
                i <= lines@.len(),
                s == line_views(lines@),
                s == self.lines(),
                catalog_find(self.assets.assets@, asset_id@) is None,
                history_asset(s, asset_id@) == history_asset(s.skip(i as int), asset_id@),
            decreases lines@.len() - i,
        {
            assert(s.skip(i as int).drop_first() =~= s.skip(i as int + 1));
            assert(s.skip(i as int)[0] == lines@[i as int]@);
            let found = AssetCatalog { assets: line_assets(&lines[i]) };
            match found.find_asset_info(asset_id) {
                Some(a) => {
                    return Some(a);
                },
                None => {},
            }
            i = i + 1;
        }
        None
    }

    /// What a card of the requested lines is made of: the lines in sequence order,
    /// their trimmed texts joined by the requested separator (else the configured
    /// one), the screenshot of the first or last line that has one (as requested, else
    /// configured), the ready clips, and the first line's window title.
    pub fn prepare_mine(&self, request: &MinePrepareRequest) -> (r: Result<MinePlan, String>)
        ensures
            ({
                let found = crate::history::lines_by_ids(self.lines(), request.line_ids@);
                let sep = match request.range_sentence_separator {
                    Some(t) => t@,
                    None => self.config.anki.range_sentence_separator@,
                };
                let pick = match request.range_screenshot_pick {
                    Some(p) => p,
                    None => self.config.anki.range_screenshot_pick,
                };
                &&& request.line_ids@.len() == 0 ==> (r matches Err(m) && m@ == "line_ids must not be empty"@)
                &&& request.line_ids@.len() > 0 && found.len() != request.line_ids@.len() ==> (r matches Err(m)
                    && m@ == "one or more selected lines were not found"@)
                &&& request.line_ids@.len() > 0 && found.len() == request.line_ids@.len() ==> (r matches Ok(p)
                    && exists|v: Seq<LineView>|
                    v.to_multiset() == found.to_multiset() && seq_nondecreasing(v) && plan_describes(
                        p,
                        v,
                        sep,
                        pick,
                    ))
            }),
    {
        let lines = match select_mine_lines(&self.history, request.line_ids.as_slice()) {
            Err(e) => {
                return Err(e);
            },
            Ok(lines) => lines,
        };
        let ghost v = line_views(lines@);
        let sentence = match &request.range_sentence_separator {
            Some(t) => mine_sentence(lines.as_slice(), t.as_str()),
            None => mine_sentence(lines.as_slice(), self.config.anki.range_sentence_separator.as_str()),
        };
        let pick = match request.range_screenshot_pick {
            Some(p) => p,
            None => self.config.anki.range_screenshot_pick,
        };
        let screenshot = pick_screenshot(lines.as_slice(), pick);
        let audio_sources = ready_audio_assets(lines.as_slice());
        if lines.len() == 0 {
            proof {
                let found = crate::history::lines_by_ids(self.lines(), request.line_ids@);
                v.to_multiset_ensures();
                found.to_multiset_ensures();
            }
            return Err(owned("one or more selected lines were not found"));
        }
        let source = mining_source(&lines[0]);
        let line_ids = line_ids_of(&lines);
        let plan = MinePlan { sentence, screenshot, audio_sources, source, line_ids };
        assert(plan_describes(plan, v, match request.range_sentence_separator {
            Some(t) => t@,
            None => self.config.anki.range_sentence_separator@,
        }, pick));
        Ok(plan)
    }
}

// ---------------------------------------------------------------------------
// Window titles of listed lines
// ---------------------------------------------------------------------------

/// The title found for a process: that of its first entry, or none.
pub open spec fn title_for(titles: Seq<(u32, Option<String>)>, process_id: u32) -> Option<String>
    decreases titles.len(),
{
    if titles.len() == 0 {
        None
    } else if titles[0].0 == process_id {
        titles[0].1
    } else {
        title_for(titles.drop_first(), process_id)
    }
}

/// A listed line with its window title filled in where it had none.
pub open spec fn enriched(l: LineView, titles: Seq<(u32, Option<String>)>) -> LineView {
    match l.meta.window_title {
        Some(_) => l,
        None => LineView {
            meta: crate::types::PipeLineMeta {
                window_title: title_for(titles, l.meta.process_id),
                ..l.meta
            },
            ..l
        },
    }
}

fn find_title(titles: &Vec<(u32, Option<String>)>, process_id: u32) -> (r: Option<String>)
    ensures
        r == title_for(titles@, process_id),
{
    let mut i: usize = 0;
    assert(titles@.skip(0) =~= titles@);
    while i < titles.len()
        invariant
            i <= titles@.len(),
            title_for(titles@, process_id) == title_for(titles@.skip(i as int), process_id),
        decreases titles@.len() - i,
    {
        assert(titles@.skip(i as int).drop_first() =~= titles@.skip(i as int + 1));
        assert(titles@.skip(i as int)[0] == titles@[i as int]);
        if titles[i].0 == process_id {
            return crate::types::copy_opt_string(&titles[i].1);
        }
        i = i + 1;
    }
    None
}

/// The processes, each once in order of first appearance, of the lines that have no
/// window title.
pub fn processes_missing_titles(lines: &Vec<LineRecord>) -> (r: Vec<u32>)
    ensures
        forall|p: u32|
            r@.contains(p) <==> exists|i: int|
                0 <= i < lines@.len() && lines@[i].meta.window_title is None && #[trigger] lines@[i].meta.process_id
                    == p,
        forall|a: int, b: int| 0 <= a < b < r@.len() ==> r@[a] != r@[b],
{
    let mut r: Vec<u32> = Vec::new();
    let mut i: usize = 0;
    while i < lines.len()
        invariant
            i <= lines@.len(),
            forall|p: u32|
                r@.contains(p) <==> exists|k: int|
                    0 <= k < i && lines@[k].meta.window_title is None && #[trigger] lines@[k].meta.process_id == p,
            forall|a: int, b: int| 0 <= a < b < r@.len() ==> r@[a] != r@[b],
        decreases lines@.len() - i,
    {
        let ghost before = r@;
        if lines[i].meta.window_title.is_none() {
            let p = lines[i].meta.process_id;
            let mut seen = false;
            let mut j: usize = 0;
            while j < r.len()
                invariant
                    j <= r@.len(),
                    r@ == before,
                    seen == exists|k: int| 0 <= k < j && r@[k] == p,
                decreases r@.len() - j,
            {
                if r[j] == p {
                    seen = true;
                }
                j = j + 1;
            }
            if !seen {
                r.push(p);
                assert forall|a: int, b: int| 0 <= a < b < r@.len() implies r@[a] != r@[b] by {
                    if b == r@.len() - 1 {
                        assert(r@[a] == before[a]);
                    }
                }
            }
        }
        assert forall|p: u32|
            r@.contains(p) <==> exists|k: int|
                0 <= k < i + 1 && lines@[k].meta.window_title is None && #[trigger] lines@[k].meta.process_id
                    == p by {
            if r@.contains(p) && !before.contains(p) {
                assert(lines@[i as int].meta.process_id == p);
            }
            if exists|k: int|
                0 <= k < i + 1 && lines@[k].meta.window_title is None && #[trigger] lines@[k].meta.process_id
                    == p {
                let k = choose|k: int|
                    0 <= k < i + 1 && lines@[k].meta.window_title is None && #[trigger] lines@[k].meta.process_id
                        == p;
                if k == i && !before.contains(p) {
                    assert(r@.last() == p);
                    assert(r@.contains(p));
                }
                if k < i {
                    assert(before.contains(p));
                    let w = choose|w: int| 0 <= w < before.len() && before[w] == p;
                    assert(r@[w] == p);
                }
            }
        }
        i = i + 1;
    }
    r
}

/// Fills in the window title of each line that has none, from `titles` (the title
/// found for each process).
pub fn enrich_window_titles(lines: &mut Vec<LineRecord>, titles: &Vec<(u32, Option<String>)>)
    ensures
        final(lines)@.len() == old(lines)@.len(),
        forall|i: int| 0 <= i < old(lines)@.len() ==> (#[trigger] final(lines)@[i])@ == enriched(old(lines)@[i]@, titles@),
{
    let mut i: usize = 0;
    while i < lines.len()
        invariant
            i <= lines@.len(),
            lines@.len() == old(lines)@.len(),
            forall|k: int| 0 <= k < i ==> (#[trigger] lines@[k])@ == enriched(old(lines)@[k]@, titles@),
            forall|k: int| i <= k < lines@.len() ==> #[trigger] lines@[k] == old(lines)@[k],
        decreases lines@.len() - i,
    {
        if lines[i].meta.window_title.is_none() {
            let title = find_title(titles, lines[i].meta.process_id);
            let mut line = lines[i].duplicate();
            line.meta.window_title = title;
            let ghost before = lines@;
            lines.set(i, line);
            assert forall|k: int| i < k < lines@.len() implies #[trigger] lines@[k] == old(lines)@[k] by {
                assert(lines@[k] == before[k]);
            }
        }
        i = i + 1;
    }
}

// ---------------------------------------------------------------------------
// Screenshot failures
// ---------------------------------------------------------------------------

/// Why no screenshot was taken for a process that shows no window.
pub fn no_window_error(process_id: u32) -> (r: String)
    ensures
        r@ == "no visible window found for process "@ + decimal(process_id as nat),
{
    let mut v: Vec<char> = Vec::new();
    extend_str(&mut v, "no visible window found for process ");
    let d = decimal_chars(process_id as u64);
    extend_chars(&mut v, &d);
    chars_to_string(&v)
}

/// The warning a line gets when its screenshot could not be taken.
pub fn capture_failure_warning(detail: &str) -> (r: String)
    ensures
        r@ == "screenshot capture failed: "@ + detail@,
{
    let mut v: Vec<char> = Vec::new();
    extend_str(&mut v, "screenshot capture failed: ");
    extend_str(&mut v, detail);
    chars_to_string(&v)
}

} // verus!
