//! Per-line audio sessions over rolling per-process capture buffers.
use vstd::prelude::*;
use std::collections::VecDeque;
use crate::arith::{clip_i64, min_int, ms_to_i64, saturating_sub_i64};
use crate::config::AudioConfig;
use crate::keyed::{as_map, find_u32, find_u64, has_key, key_index, keys_distinct, lemma_at, lemma_push, lemma_remove, lemma_update};
use crate::text::{chars_to_string, decimal, decimal_chars, extend_chars, extend_str, owned, str_eq};
use crate::types::{copy_opt_string, AudioEndReason, AudioState, LineId};
use crate::wav::{duration_ms, duration_of, encode_pcm16_wav, ms_to_sample_index, sample_index_of, wav_bytes};

verus! {

pub const CAPTURE_SAMPLE_RATE: u32 = 48_000;

/// Channels of the captured stream (stereo, mixed down to mono).
pub const CAPTURE_CHANNELS: u16 = 2;

/// Frames per captured chunk.
pub const CAPTURE_CHUNK_FRAMES: usize = 480;

pub const MAIN_AUDIO_PREROLL_MS: u64 = 2_000;

pub const TRIM_AUDIO_PREROLL_MS: u64 = 10_000;

pub const TRIM_AUDIO_POSTROLL_MS: u64 = 10_000;

pub const MAIN_AUDIO_MAX_DURATION_MS: u64 = 120_000;

pub const TRIM_AUDIO_MAX_DURATION_MS: u64 = 180_000;

// ---------------------------------------------------------------------------
// Rolling buffer
// ---------------------------------------------------------------------------

/// Captured mono samples that span `start_unix_ms..end_unix_ms`.
#[derive(Debug, Clone)]
pub struct AudioChunk {
    pub start_unix_ms: i64,
    pub end_unix_ms: i64,
    pub samples: Vec<i16>,
}

/// The most recent captured chunks, oldest first.
#[derive(Debug)]
pub struct RollingAudioBuffer {
    pub chunks: VecDeque<AudioChunk>,
    pub retention_ms: i64,
}

pub open spec fn clamp_int(x: int, lo: int, hi: int) -> int {
    if x < lo {
        lo
    } else if x > hi {
        hi
    } else {
        x
    }
}

/// The samples of `c` that fall within `start..end`.
pub open spec fn chunk_part(c: AudioChunk, start: i64, end: i64) -> Seq<i16> {
    if c.end_unix_ms <= start || c.start_unix_ms >= end {
        Seq::empty()
    } else {
        let dur = clip_i64(c.end_unix_ms - c.start_unix_ms);
        let n = c.samples@.len() as int;
        if dur <= 0 || n == 0 {
            Seq::empty()
        } else {
            let so = clamp_int(clip_i64(start - c.start_unix_ms), 0, dur);
            let eo = clamp_int(clip_i64(end - c.start_unix_ms), 0, dur);
            if eo <= so {
                Seq::empty()
            } else {
                let si = sample_index_of(so, dur, n);
                let ei = min_int(sample_index_of(eo, dur, n), n);
                if ei > si {
                    c.samples@.subrange(si, ei)
                } else {
                    Seq::empty()
                }
            }
        }
    }
}

/// The samples of all chunks that fall within `start..end`, in chunk order.
pub open spec fn collect_spec(chunks: Seq<AudioChunk>, start: i64, end: i64) -> Seq<i16>
    decreases chunks.len(),
{
    if chunks.len() == 0 {
        Seq::empty()
    } else {
        collect_spec(chunks.drop_last(), start, end) + chunk_part(chunks.last(), start, end)
    }
}

/// The chunks left after dropping, from the front, those that ended before `cutoff`.
pub open spec fn drop_stale(s: Seq<AudioChunk>, cutoff: int) -> Seq<AudioChunk>
    decreases s.len(),
{
    if s.len() > 0 && s[0].end_unix_ms < cutoff {
        drop_stale(s.drop_first(), cutoff)
    } else {
        s
    }
}

impl RollingAudioBuffer {
    pub fn new(retention_ms: i64) -> (b: Self)
        ensures
            b.chunks@.len() == 0,
            b.retention_ms == retention_ms,
    {
        RollingAudioBuffer { chunks: VecDeque::new(), retention_ms }
    }

    /// Appends a chunk, then drops from the front the chunks that ended more than
    /// `retention_ms` before it.
    pub fn push_chunk(&mut self, chunk: AudioChunk)
        ensures
            final(self).retention_ms == old(self).retention_ms,
            final(self).chunks@ == drop_stale(
                old(self).chunks@.push(chunk),
                clip_i64(chunk.end_unix_ms - old(self).retention_ms),
            ),
    {
        let cutoff = saturating_sub_i64(chunk.end_unix_ms, self.retention_ms);
        self.chunks.push_back(chunk);
        while self.chunks.len() > 0 && self.chunks[0].end_unix_ms < cutoff
            invariant
                drop_stale(self.chunks@, cutoff as int) == drop_stale(
                    old(self).chunks@.push(chunk),
                    cutoff as int,
                ),
                self.retention_ms == old(self).retention_ms,
            decreases self.chunks@.len(),
        {
            let ghost before = self.chunks@;
            let _ = self.chunks.pop_front();
            assert(self.chunks@ =~= before.drop_first());
        }
    }

    /// The samples that fall within `start_unix_ms..end_unix_ms`, each chunk's share
    /// found by linear interpolation over its time span.
    pub fn collect_range(&self, start_unix_ms: i64, end_unix_ms: i64) -> (out: Vec<i16>)
        ensures
            out@ == collect_spec(self.chunks@, start_unix_ms, end_unix_ms),
    {
        let mut out: Vec<i16> = Vec::new();
        let mut i: usize = 0;
        while i < self.chunks.len()
            invariant
                i <= self.chunks@.len(),
                out@ == collect_spec(self.chunks@.take(i as int), start_unix_ms, end_unix_ms),
            decreases self.chunks@.len() - i,
        {
            let chunk = &self.chunks[i];
            let part = chunk_samples(chunk, start_unix_ms, end_unix_ms);
            crate::wav::extend_vec(&mut out, &part);
            assert(self.chunks@.take(i as int + 1).drop_last() =~= self.chunks@.take(i as int));
            i = i + 1;
        }
        assert(self.chunks@.take(self.chunks@.len() as int) =~= self.chunks@);
        out
    }
}

fn chunk_samples(chunk: &AudioChunk, start_unix_ms: i64, end_unix_ms: i64) -> (part: Vec<i16>)
    ensures
        part@ == chunk_part(*chunk, start_unix_ms, end_unix_ms),
{
    if chunk.end_unix_ms <= start_unix_ms || chunk.start_unix_ms >= end_unix_ms {
        return Vec::new();
    }
    let chunk_duration_ms = saturating_sub_i64(chunk.end_unix_ms, chunk.start_unix_ms);
    if chunk_duration_ms <= 0 || chunk.samples.len() == 0 {
        return Vec::new();
    }
    let start_offset_ms = clamp_i64(
        saturating_sub_i64(start_unix_ms, chunk.start_unix_ms),
        0,
        chunk_duration_ms,
    );
    let end_offset_ms = clamp_i64(
        saturating_sub_i64(end_unix_ms, chunk.start_unix_ms),
        0,
        chunk_duration_ms,
    );
    if end_offset_ms <= start_offset_ms {
        return Vec::new();
    }
    let n = chunk.samples.len();
    let start_index = ms_to_sample_index(start_offset_ms as u64, chunk_duration_ms as u64, n);
    let end_index = ms_to_sample_index(end_offset_ms as u64, chunk_duration_ms as u64, n);
    if end_index > start_index {
        crate::wav::copy_range(&chunk.samples, start_index, end_index)
    } else {
        Vec::new()
    }
}

fn clamp_i64(x: i64, lo: i64, hi: i64) -> (r: i64)
    requires
        lo <= hi,
    ensures
        r == clamp_int(x as int, lo as int, hi as int),
{
    if x < lo {
        lo
    } else if x > hi {
        hi
    } else {
        x
    }
}

// ---------------------------------------------------------------------------
// Capture state and sessions
// ---------------------------------------------------------------------------

/// How a capture backend is chosen.
#[derive(Debug, Clone, Copy, PartialEq, Eq, Structural)]
pub enum BackendPreference {
    Auto,
    ProcessLoopback,
    SystemLoopback,
}

/// The backend preference that a configuration value names.
pub open spec fn backend_preference_of(value: Seq<char>) -> Option<BackendPreference> {
    if value == "auto"@ {
        Some(BackendPreference::Auto)
    } else if value == "process-loopback"@ || value == "process_loopback"@ || value
        == "wasapi-process"@ {
        Some(BackendPreference::ProcessLoopback)
    } else if value == "system-loopback"@ || value == "system_loopback"@ || value
        == "wasapi-loopback"@ {
        Some(BackendPreference::SystemLoopback)
    } else {
        None
    }
}

/// Bytes per captured chunk for frames of `blockalign` bytes (saturating).
pub fn capture_chunk_bytes(blockalign: usize) -> (r: usize)
    ensures
        r == min_int(blockalign * CAPTURE_CHUNK_FRAMES, usize::MAX as int),
{
    match blockalign.checked_mul(CAPTURE_CHUNK_FRAMES) {
        Some(b) => b,
        None => usize::MAX,
    }
}

/// A chunk of converted samples that was read at `end_unix_ms`: it began as long before
/// as it lasts (saturating).
pub fn captured_chunk(samples: Vec<i16>, end_unix_ms: i64) -> (c: AudioChunk)
    ensures
        c.samples@ == samples@,
        c.end_unix_ms == end_unix_ms,
        c.start_unix_ms == clip_i64(end_unix_ms - duration_of(samples@.len() as int, CAPTURE_SAMPLE_RATE as int)),
{
    let d = duration_ms(samples.len(), CAPTURE_SAMPLE_RATE);
    assert(d <= i64::MAX);
    let start = saturating_sub_i64(end_unix_ms, d as i64);
    AudioChunk { start_unix_ms: start, end_unix_ms, samples }
}

/// The warning of an automatic capture that fell back to system loopback because
/// process loopback failed with `process_error`.
pub fn loopback_fallback_warning(process_error: &str) -> (r: String)
    ensures
        r@ == "process loopback unavailable ("@ + process_error@ + "); using system loopback"@,
{
    let mut v: Vec<char> = Vec::new();
    extend_str(&mut v, "process loopback unavailable (");
    extend_str(&mut v, process_error);
    extend_str(&mut v, "); using system loopback");
    chars_to_string(&v)
}

impl BackendPreference {
    pub fn from_config(value: &str) -> (r: Option<Self>)
        ensures
            r == backend_preference_of(value@),
    {
        if str_eq(value, "auto") {
            Some(BackendPreference::Auto)
        } else if str_eq(value, "process-loopback") || str_eq(value, "process_loopback") || str_eq(
            value,
            "wasapi-process",
        ) {
            Some(BackendPreference::ProcessLoopback)
        } else if str_eq(value, "system-loopback") || str_eq(value, "system_loopback") || str_eq(
            value,
            "wasapi-loopback",
        ) {
            Some(BackendPreference::SystemLoopback)
        } else {
            None
        }
    }
}

/// What a capture worker reported last.
#[derive(Debug, Clone)]
pub struct CaptureStatus {
    pub ready: bool,
    pub backend: Option<String>,
    pub last_error: Option<String>,
}

/// The shared state of one process's capture worker.
#[derive(Debug)]
pub struct CaptureState {
    pub buffer: RollingAudioBuffer,
    pub status: CaptureStatus,
}

/// A line whose audio is being recorded.
#[derive(Debug, Clone, Copy, PartialEq, Eq, Structural)]
pub struct AudioSession {
    pub process_id: u32,
    pub started_unix_ms: i64,
    pub main_finished: bool,
}

#[derive(Debug, Clone)]
pub enum FinishedMainAudio {
    Ready(CapturedMainAudio),
    NoAudio { reason: String },
}

#[derive(Debug, Clone)]
pub enum FinishedTrimAudio {
    Ready(CapturedTrimAudio),
    NoAudio { reason: String },
}

/// A line's main clip as a WAV file.
#[derive(Debug, Clone)]
pub struct CapturedMainAudio {
    pub bytes: Vec<u8>,
    pub duration_ms: u64,
    pub end_reason: AudioEndReason,
    pub mime_type: String,
    pub trim_recording_started_unix_ms: i64,
}

/// A line's trim source as a WAV file.
#[derive(Debug, Clone)]
pub struct CapturedTrimAudio {
    pub source_bytes: Vec<u8>,
    pub source_duration_ms: u64,
    pub start_ms: u64,
    pub end_ms: u64,
    pub mime_type: String,
}

/// Audio sessions per line and capture state per process.
#[derive(Debug)]
pub struct AudioManager {
    pub sessions: Vec<(LineId, AudioSession)>,
    pub captures: Vec<(u32, CaptureState)>,
    pub config: AudioConfig,
}

/// The text for a capture worker that does not exist.
pub open spec fn worker_unavailable_text(process_id: u32) -> Seq<char> {
    "audio capture worker for process "@ + decimal(process_id as nat) + " was unavailable"@
}

/// The text for a trim recording that captured nothing.
pub open spec fn no_trim_samples_text(process_id: u32) -> Seq<char> {
    "no trim audio samples captured for process "@ + decimal(process_id as nat)
}

/// The text for an unknown backend name.
pub open spec fn unsupported_backend_text(backend: Seq<char>) -> Seq<char> {
    "unsupported audio backend '"@ + backend + "'"@
}

/// Why a recording captured nothing, given the worker's status.
pub open spec fn no_audio_reason_text(process_id: u32, sample_count: int, status: CaptureStatus) -> Seq<char> {
    match status.last_error {
        Some(e) => e@,
        None => if !status.ready {
            "audio capture for process "@ + decimal(process_id as nat) + " is still starting"@
        } else if sample_count == 0 {
            "no audio samples captured for process "@ + decimal(process_id as nat)
        } else {
            "no audio samples captured"@
        },
    }
}

fn copy_status(s: &CaptureStatus) -> (r: CaptureStatus)
    ensures
        r == *s,
{
    CaptureStatus {
        ready: s.ready,
        backend: copy_opt_string(&s.backend),
        last_error: copy_opt_string(&s.last_error),
    }
}

fn head_number(head: &str, n: u64) -> (s: String)
    ensures
        s@ == head@ + decimal(n as nat),
{
    let mut v: Vec<char> = Vec::new();
    extend_str(&mut v, head);
    let d = decimal_chars(n);
    extend_chars(&mut v, &d);
    chars_to_string(&v)
}

fn text_with_number(head: &str, n: u64, tail: &str) -> (s: String)
    ensures
        s@ == head@ + decimal(n as nat) + tail@,
{
    let mut v: Vec<char> = Vec::new();
    extend_str(&mut v, head);
    let d = decimal_chars(n);
    extend_chars(&mut v, &d);
    extend_str(&mut v, tail);
    chars_to_string(&v)
}

/// Why a recording captured nothing.
pub fn no_audio_reason(process_id: u32, sample_count: usize, status: CaptureStatus) -> (r: String)
    ensures
        r@ == no_audio_reason_text(process_id, sample_count as int, status),
{
    match status.last_error {
        Some(e) => e,
        None => {
            if !status.ready {
                text_with_number("audio capture for process ", process_id as u64, " is still starting")
            } else if sample_count == 0 {
                head_number("no audio samples captured for process ", process_id as u64)
            } else {
                owned("no audio samples captured")
            }
        },
    }
}

/// How long each capture buffer keeps samples.
pub open spec fn retention_spec() -> i64 {
    210_000
}

/// The outcome of finishing a line's main recording, and the sessions afterwards.
pub open spec fn finish_main_spec(
    sessions: Map<LineId, AudioSession>,
    captures: Map<u32, CaptureState>,
    line_id: LineId,
    reason: AudioEndReason,
    end_unix_ms: i64,
    result: Option<FinishedMainAudio>,
    after: Map<LineId, AudioSession>,
) -> bool {
    if !sessions.contains_key(line_id) || sessions[line_id].main_finished {
        result is None && after == sessions
    } else {
        let s = sessions[line_id];
        let start = clip_i64(s.started_unix_ms - MAIN_AUDIO_PREROLL_MS as int) as i64;
        if !captures.contains_key(s.process_id) {
            &&& after == sessions.remove(line_id)
            &&& result matches Some(FinishedMainAudio::NoAudio { reason: r })
            &&& r@ == worker_unavailable_text(s.process_id)
        } else {
            let c = captures[s.process_id];
            let samples = collect_spec(c.buffer.chunks@, start, end_unix_ms);
            if samples.len() == 0 {
                &&& after == sessions.remove(line_id)
                &&& result matches Some(FinishedMainAudio::NoAudio { reason: r })
                &&& r@ == no_audio_reason_text(s.process_id, 0, c.status)
            } else {
                &&& after == sessions.insert(line_id, AudioSession { main_finished: true, ..s })
                &&& result matches Some(FinishedMainAudio::Ready(a))
                &&& a.bytes@ == wav_bytes(samples, CAPTURE_SAMPLE_RATE)
                &&& a.duration_ms == duration_of(samples.len() as int, CAPTURE_SAMPLE_RATE as int)
                &&& a.end_reason == reason
                &&& a.mime_type@ == "audio/wav"@
                &&& a.trim_recording_started_unix_ms == clip_i64(
                    s.started_unix_ms - TRIM_AUDIO_PREROLL_MS as int,
                )
            }
        }
    }
}

/// A line's main recording finishes at most once: after a finish, whatever it gave,
/// finishing it again gives nothing and leaves the sessions as they are. A finish
/// with a clip keeps the session (main part done) for the trim source; a finish
/// without audio ends the session; a line without a session gives nothing.
pub proof fn lemma_main_finishes_once(
    sessions: Map<LineId, AudioSession>,
    captures: Map<u32, CaptureState>,
    line_id: LineId,
    reason: AudioEndReason,
    end_unix_ms: i64,
    first: Option<FinishedMainAudio>,
    after: Map<LineId, AudioSession>,
    captures2: Map<u32, CaptureState>,
    reason2: AudioEndReason,
    end2_unix_ms: i64,
    second: Option<FinishedMainAudio>,
    after2: Map<LineId, AudioSession>,
)
    requires
        finish_main_spec(sessions, captures, line_id, reason, end_unix_ms, first, after),
        finish_main_spec(after, captures2, line_id, reason2, end2_unix_ms, second, after2),
    ensures
        !sessions.contains_key(line_id) ==> first is None,
        sessions.contains_key(line_id) && !sessions[line_id].main_finished ==> first is Some,
        first matches Some(FinishedMainAudio::Ready(_)) ==> after.contains_key(line_id)
            && after[line_id].main_finished,
        first matches Some(FinishedMainAudio::NoAudio { .. }) ==> !after.contains_key(line_id),
        second is None,
        after2 == after,
{
}

/// The outcome of finishing a line's trim recording, and the sessions afterwards.
pub open spec fn finish_trim_spec(
    sessions: Map<LineId, AudioSession>,
    captures: Map<u32, CaptureState>,
    line_id: LineId,
    end_unix_ms: i64,
    result: Option<FinishedTrimAudio>,
    after: Map<LineId, AudioSession>,
) -> bool {
    if !sessions.contains_key(line_id) {
        result is None && after == sessions
    } else {
        let s = sessions[line_id];
        let start = clip_i64(s.started_unix_ms - TRIM_AUDIO_PREROLL_MS as int) as i64;
        &&& after == sessions.remove(line_id)
        &&& if !captures.contains_key(s.process_id) {
            result matches Some(FinishedTrimAudio::NoAudio { reason: r }) && r@
                == worker_unavailable_text(s.process_id)
        } else {
            let samples = collect_spec(captures[s.process_id].buffer.chunks@, start, end_unix_ms);
            if samples.len() == 0 {
                result matches Some(FinishedTrimAudio::NoAudio { reason: r }) && r@
                    == no_trim_samples_text(s.process_id)
            } else {
                let d = duration_of(samples.len() as int, CAPTURE_SAMPLE_RATE as int);
                result matches Some(FinishedTrimAudio::Ready(a)) && a.source_bytes@ == wav_bytes(
                    samples,
                    CAPTURE_SAMPLE_RATE,
                ) && a.source_duration_ms == d && a.start_ms == 0 && a.end_ms == d
                    && a.mime_type@ == "audio/wav"@
            }
        }
    }
}

impl AudioManager {
    /// The sessions keyed by line.
    pub open spec fn session_map(&self) -> Map<LineId, AudioSession> {
        as_map(self.sessions@)
    }

    /// The capture state keyed by process.
    pub open spec fn capture_map(&self) -> Map<u32, CaptureState> {
        as_map(self.captures@)
    }

    /// No line and no process occurs twice.
    pub open spec fn wf(&self) -> bool {
        keys_distinct(self.sessions@) && keys_distinct(self.captures@)
    }

    pub fn new(config: AudioConfig) -> (m: Self)
        ensures
            m.wf(),
            m.session_map() == Map::<LineId, AudioSession>::empty(),
            m.capture_map() == Map::<u32, CaptureState>::empty(),
            m.config == config,
    {
        let m = AudioManager { sessions: Vec::new(), captures: Vec::new(), config };
        assert(m.session_map() =~= Map::<LineId, AudioSession>::empty());
        assert(m.capture_map() =~= Map::<u32, CaptureState>::empty());
        m
    }

    pub fn update_config(&mut self, config: AudioConfig)
        ensures
            final(self).config == config,
            final(self).sessions == old(self).sessions,
            final(self).captures == old(self).captures,
    {
        self.config = config;
    }

    /// Whether audio capture is switched on.
    pub fn enabled(&self) -> (r: bool)
        ensures
            r == (self.config.backend@ != "off"@),
    {
        !str_eq(self.config.backend.as_str(), "off")
    }

    /// How long each capture buffer keeps samples.
    pub fn retention_ms(&self) -> (r: i64)
        ensures
            r == retention_spec(),
    {
        let total: u64 = TRIM_AUDIO_PREROLL_MS + TRIM_AUDIO_MAX_DURATION_MS + TRIM_AUDIO_POSTROLL_MS
            + 10_000;
        let kept: u64 = if total > 30_000 { total } else { 30_000 };
        ms_to_i64(kept)
    }

    /// Whether a capture buffer exists for the process.
    pub fn has_capture(&self, process_id: u32) -> (r: bool)
        requires
            self.wf(),
        ensures
            r == self.capture_map().contains_key(process_id),
    {
        find_u32(&self.captures, process_id).is_some()
    }

    /// Creates an empty capture buffer for the process where it has none.
    pub fn ensure_capture(&mut self, process_id: u32)
        requires
            old(self).wf(),
        ensures
            final(self).wf(),
            final(self).session_map() == old(self).session_map(),
            final(self).config == old(self).config,
            old(self).capture_map().contains_key(process_id) ==> final(self).capture_map() == old(self).capture_map(),
            !old(self).capture_map().contains_key(process_id) ==> final(self).capture_map()
                == old(self).capture_map().insert(process_id, final(self).capture_map()[process_id]),
            final(self).capture_map().contains_key(process_id),
            !old(self).capture_map().contains_key(process_id) ==> final(self).capture_map()[process_id].buffer.chunks@.len() == 0 && final(self).capture_map()[process_id].buffer.retention_ms == retention_spec() && !final(self).capture_map()[process_id].status.ready,
    {
        match find_u32(&self.captures, process_id) {
            Some(i) => {
                proof {
                    lemma_at(self.captures@, i as int);
                }
            },
            None => {
                let state = CaptureState {
                    buffer: RollingAudioBuffer::new(self.retention_ms()),
                    status: CaptureStatus { ready: false, backend: None, last_error: None },
                };
                proof {
                    lemma_push(self.captures@, process_id, state);
                }
                self.captures.push((process_id, state));
                proof {
                    lemma_at(self.captures@, self.captures@.len() - 1);
                }
            },
        }
    }

    /// Appends captured samples to the process's buffer, where it has one.
    pub fn push_captured_chunk(&mut self, process_id: u32, chunk: AudioChunk)
        requires
            old(self).wf(),
        ensures
            final(self).wf(),
            final(self).session_map() == old(self).session_map(),
            final(self).capture_map().dom() == old(self).capture_map().dom(),
            forall|p: u32|
                #![trigger final(self).capture_map()[p]]
                final(self).capture_map().contains_key(p) && p != process_id ==> final(self).capture_map()[p] == old(self).capture_map()[p],
            old(self).capture_map().contains_key(process_id) ==> {
                let before = old(self).capture_map()[process_id];
                let after = final(self).capture_map()[process_id];
                &&& after.status == before.status
                &&& after.buffer.retention_ms == before.buffer.retention_ms
                &&& after.buffer.chunks@ == drop_stale(
                    before.buffer.chunks@.push(chunk),
                    clip_i64(chunk.end_unix_ms - before.buffer.retention_ms),
                )
            },
    {
        match find_u32(&self.captures, process_id) {
            None => {},
            Some(i) => {
                let ghost before = self.captures@;
                let (pid, mut state) = self.captures.remove(i);
                state.buffer.push_chunk(chunk);
                self.captures.insert(i, (pid, state));
                proof {
                    assert(self.captures@ =~= before.update(i as int, (process_id, state)));
                    lemma_update(before, i as int, state);
                    lemma_at(before, i as int);
                }
            },
        }
    }

    /// Records that the process's worker is capturing through `backend`.
    pub fn set_capture_ready(&mut self, process_id: u32, backend: String, warning: Option<String>)
        requires
            old(self).wf(),
        ensures
            final(self).wf(),
            final(self).session_map() == old(self).session_map(),
            final(self).capture_map().dom() == old(self).capture_map().dom(),
            forall|p: u32|
                #![trigger final(self).capture_map()[p]]
                final(self).capture_map().contains_key(p) && p != process_id ==> final(self).capture_map()[p] == old(self).capture_map()[p],
            old(self).capture_map().contains_key(process_id) ==> {
                let before = old(self).capture_map()[process_id];
                let after = final(self).capture_map()[process_id];
                &&& after.buffer == before.buffer
                &&& after.status == CaptureStatus {
                    ready: true,
                    backend: Some(backend),
                    last_error: warning,
                }
            },
    {
        match find_u32(&self.captures, process_id) {
            None => {},
            Some(i) => {
                let ghost before = self.captures@;
                let (pid, mut state) = self.captures.remove(i);
                state.status = CaptureStatus { ready: true, backend: Some(backend), last_error: warning };
                self.captures.insert(i, (pid, state));
                proof {
                    assert(self.captures@ =~= before.update(i as int, (process_id, state)));
                    lemma_update(before, i as int, state);
                    lemma_at(before, i as int);
                }
            },
        }
    }

    /// Records that the process's worker failed.
    pub fn set_capture_error(&mut self, process_id: u32, message: String)
        requires
            old(self).wf(),
        ensures
            final(self).wf(),
            final(self).session_map() == old(self).session_map(),
            final(self).capture_map().dom() == old(self).capture_map().dom(),
            forall|p: u32|
                #![trigger final(self).capture_map()[p]]
                final(self).capture_map().contains_key(p) && p != process_id ==> final(self).capture_map()[p] == old(self).capture_map()[p],
            old(self).capture_map().contains_key(process_id) ==> {
                let before = old(self).capture_map()[process_id];
                let after = final(self).capture_map()[process_id];
                &&& after.buffer == before.buffer
                &&& after.status == CaptureStatus {
                    ready: false,
                    backend: before.status.backend,
                    last_error: Some(message),
                }
            },
    {
        match find_u32(&self.captures, process_id) {
            None => {},
            Some(i) => {
                let ghost before = self.captures@;
                let (pid, mut state) = self.captures.remove(i);
                state.status.ready = false;
                state.status.last_error = Some(message);
                self.captures.insert(i, (pid, state));
                proof {
                    assert(self.captures@ =~= before.update(i as int, (process_id, state)));
                    lemma_update(before, i as int, state);
                    lemma_at(before, i as int);
                }
            },
        }
    }

    /// Starts recording a line: `None` where audio is off, `NoAudio` where the backend
    /// name is unknown, else `Recording`, with the line's session recorded (replacing
    /// one it had) and a capture buffer for the process.
    pub fn start_line_session(&mut self, line_id: LineId, process_id: u32, started_unix_ms: i64) -> (r:
        Option<AudioState>)
        requires
            old(self).wf(),
        ensures
            final(self).wf(),
            final(self).config == old(self).config,
            old(self).config.backend@ == "off"@ ==> r is None && final(self).session_map() == old(self).session_map() && final(self).capture_map() == old(self).capture_map(),
            old(self).config.backend@ != "off"@ && backend_preference_of(old(self).config.backend@)
                is None ==> {
                &&& final(self).session_map() == old(self).session_map()
                &&& final(self).capture_map() == old(self).capture_map()
                &&& r matches Some(AudioState::NoAudio { reason: Some(t) })
                &&& t@ == unsupported_backend_text(old(self).config.backend@)
            },
            old(self).config.backend@ != "off"@ && backend_preference_of(
                old(self).config.backend@,
            ) is Some ==> {
                &&& r == Some(AudioState::Recording { started_unix_ms })
                &&& final(self).session_map() == old(self).session_map().insert(
                    line_id,
                    AudioSession { process_id, started_unix_ms, main_finished: false },
                )
                &&& final(self).capture_map().contains_key(process_id)
                &&& old(self).capture_map().contains_key(process_id) ==> final(self).capture_map()
                    == old(self).capture_map()
                &&& !old(self).capture_map().contains_key(process_id) ==> final(self).capture_map().remove(process_id) == old(self).capture_map()
                &&& !old(self).capture_map().contains_key(process_id) ==> {
                    let c = final(self).capture_map()[process_id];
                    &&& c.buffer.chunks@.len() == 0
                    &&& c.buffer.retention_ms == retention_spec()
                    &&& !c.status.ready
                }
            },
    {
        if !self.enabled() {
            return None;
        }
        if BackendPreference::from_config(self.config.backend.as_str()).is_none() {
            let mut v: Vec<char> = Vec::new();
            extend_str(&mut v, "unsupported audio backend '");
            extend_str(&mut v, self.config.backend.as_str());
            extend_str(&mut v, "'");
            return Some(AudioState::NoAudio { reason: Some(chars_to_string(&v)) });
        }
        let ghost captures_before = self.capture_map();
        self.ensure_capture(process_id);
        proof {
            if !captures_before.contains_key(process_id) {
                assert(self.capture_map().remove(process_id) =~= captures_before);
            }
        }
        let session = AudioSession { process_id, started_unix_ms, main_finished: false };
        self.insert_session(line_id, session);
        Some(AudioState::Recording { started_unix_ms })
    }

    fn insert_session(&mut self, line_id: LineId, session: AudioSession)
        requires
            old(self).wf(),
        ensures
            final(self).wf(),
            final(self).session_map() == old(self).session_map().insert(line_id, session),
            final(self).captures == old(self).captures,
            final(self).config == old(self).config,
    {
        match find_u64(&self.sessions, line_id) {
            Some(i) => {
                proof {
                    lemma_update(self.sessions@, i as int, session);
                }
                self.sessions.set(i, (line_id, session));
            },
            None => {
                proof {
                    lemma_push(self.sessions@, line_id, session);
                }
                self.sessions.push((line_id, session));
            },
        }
    }

    /// Forgets the line's session, where it has one.
    pub fn remove_line_session(&mut self, line_id: LineId)
        requires
            old(self).wf(),
        ensures
            final(self).wf(),
            final(self).session_map() == old(self).session_map().remove(line_id),
            final(self).captures == old(self).captures,
            final(self).config == old(self).config,
    {
        match find_u64(&self.sessions, line_id) {
            Some(i) => {
                proof {
                    lemma_remove(self.sessions@, i as int);
                }
                let _ = self.sessions.remove(i);
            },
            None => {
                assert(self.session_map().remove(line_id) =~= self.session_map());
            },
        }
    }

    /// Forgets every session.
    pub fn clear_sessions(&mut self)
        requires
            old(self).wf(),
        ensures
            final(self).wf(),
            final(self).session_map() == Map::<LineId, AudioSession>::empty(),
            final(self).captures == old(self).captures,
            final(self).config == old(self).config,
    {
        self.sessions = Vec::new();
        assert(self.session_map() =~= Map::<LineId, AudioSession>::empty());
    }

    /// Whether the line has a session (main or trim recording still open).
    pub fn is_recording(&self, line_id: LineId) -> (r: bool)
        requires
            self.wf(),
        ensures
            r == self.session_map().contains_key(line_id),
    {
        find_u64(&self.sessions, line_id).is_some()
    }

    /// Whether the line's main recording is still open.
    pub fn is_main_recording(&self, line_id: LineId) -> (r: bool)
        requires
            self.wf(),
        ensures
            r == (self.session_map().contains_key(line_id) && !self.session_map()[line_id].main_finished),
    {
        match find_u64(&self.sessions, line_id) {
            Some(i) => {
                proof {
                    lemma_at(self.sessions@, i as int);
                }
                !self.sessions[i].1.main_finished
            },
            None => false,
        }
    }

    /// The lines of the process whose main recording is still open.
    pub fn main_recording_line_ids_for_process(&self, process_id: u32) -> (ids: Vec<LineId>)
        requires
            self.wf(),
        ensures
            forall|id: LineId|
                ids@.contains(id) <==> (self.session_map().contains_key(id) && self.session_map()[id].process_id
                    == process_id && !self.session_map()[id].main_finished),
            forall|a: int, b: int| 0 <= a < b < ids@.len() ==> ids@[a] != ids@[b],
    {
        let mut ids: Vec<LineId> = Vec::new();
        let mut i: usize = 0;
        while i < self.sessions.len()
            invariant
                i <= self.sessions@.len(),
                keys_distinct(self.sessions@),
                forall|id: LineId|
                    ids@.contains(id) <==> (exists|j: int|
                        0 <= j < i && #[trigger] self.sessions@[j].0 == id
                            && self.sessions@[j].1.process_id == process_id
                            && !self.sessions@[j].1.main_finished),
                forall|a: int, b: int| 0 <= a < b < ids@.len() ==> ids@[a] != ids@[b],
                forall|a: int|
                    #![trigger ids@[a]]
                    0 <= a < ids@.len() ==> exists|j: int|
                        0 <= j < i && #[trigger] self.sessions@[j].0 == ids@[a],
            decreases self.sessions@.len() - i,
        {
            let (id, session) = self.sessions[i];
            if session.process_id == process_id && !session.main_finished {
                proof {
                    assert forall|a: int| 0 <= a < ids@.len() implies #[trigger] ids@[a] != id by {
                        let j = choose|j: int| 0 <= j < i && #[trigger] self.sessions@[j].0 == ids@[a];
                        assert(j != i);
                    }
                }
                let ghost old_ids = ids@;
                ids.push(id);
                proof {
                    assert(self.sessions@[i as int].0 == id);
                    assert forall|x: LineId| #[trigger] ids@.contains(x) <==> (old_ids.contains(x) || x == id) by {
                        if ids@.contains(x) {
                            let k = choose|k: int| 0 <= k < ids@.len() && ids@[k] == x;
                            if k < old_ids.len() {
                                assert(old_ids[k] == x);
                            }
                        }
                        if old_ids.contains(x) {
                            let k = choose|k: int| 0 <= k < old_ids.len() && old_ids[k] == x;
                            assert(ids@[k] == x);
                        }
                        if x == id {
                            assert(ids@[old_ids.len() as int] == x);
                        }
                    }
                    assert forall|x: LineId|
                        ids@.contains(x) <==> (exists|j: int|
                            0 <= j < i + 1 && #[trigger] self.sessions@[j].0 == x
                                && self.sessions@[j].1.process_id == process_id
                                && !self.sessions@[j].1.main_finished) by {
                        if x == id {
                            assert(self.sessions@[i as int].0 == x);
                        }
                    }
                    assert forall|a: int|
                        #![trigger ids@[a]]
                        0 <= a < ids@.len() implies exists|j: int|
                            0 <= j < i + 1 && #[trigger] self.sessions@[j].0 == ids@[a] by {
                        if a == ids@.len() - 1 {
                            assert(self.sessions@[i as int].0 == ids@[a]);
                        } else {
                            assert(ids@[a] == old_ids[a]);
                        }
                    }
                }
            } else {
                proof {
                    assert forall|x: LineId|
                        ids@.contains(x) <==> (exists|j: int|
                            0 <= j < i + 1 && #[trigger] self.sessions@[j].0 == x
                                && self.sessions@[j].1.process_id == process_id
                                && !self.sessions@[j].1.main_finished) by {
                        if exists|j: int|
                            0 <= j < i + 1 && #[trigger] self.sessions@[j].0 == x
                                && self.sessions@[j].1.process_id == process_id
                                && !self.sessions@[j].1.main_finished {
                            let j = choose|j: int|
                                0 <= j < i + 1 && #[trigger] self.sessions@[j].0 == x
                                    && self.sessions@[j].1.process_id == process_id
                                    && !self.sessions@[j].1.main_finished;
                            assert(j != i);
                        }
                    }
                }
            }
            i = i + 1;
        }
        proof {
            assert forall|id: LineId|
                ids@.contains(id) <==> (self.session_map().contains_key(id)
                    && self.session_map()[id].process_id == process_id
                    && !self.session_map()[id].main_finished) by {
                if ids@.contains(id) {
                    let j = choose|j: int|
                        0 <= j < self.sessions@.len() && #[trigger] self.sessions@[j].0 == id
                            && self.sessions@[j].1.process_id == process_id
                            && !self.sessions@[j].1.main_finished;
                    lemma_at(self.sessions@, j);
                }
                if self.session_map().contains_key(id) {
                    let j = key_index(self.sessions@, id);
                    lemma_at(self.sessions@, j);
                }
            }
        }
        ids
    }

    fn collect_process_range(&self, process_id: u32, start_unix_ms: i64, end_unix_ms: i64) -> (r:
        Option<(Vec<i16>, CaptureStatus)>)
        requires
            self.wf(),
        ensures
            !self.capture_map().contains_key(process_id) ==> r is None,
            self.capture_map().contains_key(process_id) ==> {
                &&& r matches Some((samples, status))
                &&& samples@ == collect_spec(
                    self.capture_map()[process_id].buffer.chunks@,
                    start_unix_ms,
                    end_unix_ms,
                )
                &&& status == self.capture_map()[process_id].status
            },
    {
        match find_u32(&self.captures, process_id) {
            None => None,
            Some(i) => {
                proof {
                    lemma_at(self.captures@, i as int);
                }
                let state = &self.captures[i].1;
                Some((state.buffer.collect_range(start_unix_ms, end_unix_ms), copy_status(&state.status)))
            },
        }
    }

    /// Ends a line's main recording at `end_unix_ms`: its clip runs from two seconds
    /// before the line to the end. The session stays open for the trim source.
    pub fn finish_main_line_session_at(
        &mut self,
        line_id: LineId,
        reason: AudioEndReason,
        end_unix_ms: i64,
    ) -> (r: Option<FinishedMainAudio>)
        requires
            old(self).wf(),
        ensures
            final(self).wf(),
            final(self).captures == old(self).captures,
            final(self).config == old(self).config,
            finish_main_spec(
                old(self).session_map(),
                old(self).capture_map(),
                line_id,
                reason,
                end_unix_ms,
                r,
                final(self).session_map(),
            ),
    {
        let i = match find_u64(&self.sessions, line_id) {
            None => {
                return None;
            },
            Some(i) => i,
        };
        proof {
            lemma_at(self.sessions@, i as int);
        }
        let session = self.sessions[i].1;
        if session.main_finished {
            return None;
        }
        let finished = AudioSession { main_finished: true, ..session };
        let ghost sessions_before = self.sessions@;
        proof {
            lemma_update(self.sessions@, i as int, finished);
        }
        self.sessions.set(i, (line_id, finished));
        let main_start_unix_ms = saturating_sub_i64(
            session.started_unix_ms,
            ms_to_i64(MAIN_AUDIO_PREROLL_MS),
        );
        let captured = match self.collect_process_range(
            session.process_id,
            main_start_unix_ms,
            end_unix_ms,
        ) {
            None => {
                self.remove_line_session(line_id);
                proof {
                    assert(as_map(sessions_before).insert(line_id, finished).remove(line_id)
                        =~= as_map(sessions_before).remove(line_id));
                }
                return Some(
                    FinishedMainAudio::NoAudio {
                        reason: text_with_number(
                            "audio capture worker for process ",
                            session.process_id as u64,
                            " was unavailable",
                        ),
                    },
                );
            },
            Some(c) => c,
        };
        let (samples, status) = captured;
        if samples.len() == 0 {
            let reason_text = no_audio_reason(session.process_id, samples.len(), status);
            self.remove_line_session(line_id);
            proof {
                assert(as_map(sessions_before).insert(line_id, finished).remove(line_id)
                    =~= as_map(sessions_before).remove(line_id));
            }
            return Some(FinishedMainAudio::NoAudio { reason: reason_text });
        }
        let duration = duration_ms(samples.len(), CAPTURE_SAMPLE_RATE);
        Some(
            FinishedMainAudio::Ready(
                CapturedMainAudio {
                    bytes: encode_pcm16_wav(&samples, CAPTURE_SAMPLE_RATE),
                    duration_ms: duration,
                    end_reason: reason,
                    mime_type: owned("audio/wav"),
                    trim_recording_started_unix_ms: saturating_sub_i64(
                        session.started_unix_ms,
                        ms_to_i64(TRIM_AUDIO_PREROLL_MS),
                    ),
                },
            ),
        )
    }

    /// Ends a line's trim recording at `end_unix_ms` and closes its session: the
    /// source runs from ten seconds before the line to the end.
    pub fn finish_trim_line_session_at(
        &mut self,
        line_id: LineId,
        reason: AudioEndReason,
        end_unix_ms: i64,
    ) -> (r: Option<FinishedTrimAudio>)
        requires
            old(self).wf(),
        ensures
            final(self).wf(),
            final(self).captures == old(self).captures,
            final(self).config == old(self).config,
            finish_trim_spec(
                old(self).session_map(),
                old(self).capture_map(),
                line_id,
                end_unix_ms,
                r,
                final(self).session_map(),
            ),
    {
        let i = match find_u64(&self.sessions, line_id) {
            None => {
                return None;
            },
            Some(i) => i,
        };
        proof {
            lemma_at(self.sessions@, i as int);
            lemma_remove(self.sessions@, i as int);
        }
        let (_, session) = self.sessions.remove(i);
        let source_start_unix_ms = saturating_sub_i64(
            session.started_unix_ms,
            ms_to_i64(TRIM_AUDIO_PREROLL_MS),
        );
        let captured = match self.collect_process_range(
            session.process_id,
            source_start_unix_ms,
            end_unix_ms,
        ) {
            None => {
                return Some(
                    FinishedTrimAudio::NoAudio {
                        reason: text_with_number(
                            "audio capture worker for process ",
                            session.process_id as u64,
                            " was unavailable",
                        ),
                    },
                );
            },
            Some(c) => c,
        };
        let (samples, _status) = captured;
        if samples.len() == 0 {
            return Some(
                FinishedTrimAudio::NoAudio {
                    reason: head_number(
                        "no trim audio samples captured for process ",
                        session.process_id as u64,
                    ),
                },
            );
        }
        let source_duration_ms = duration_ms(samples.len(), CAPTURE_SAMPLE_RATE);
        Some(
            FinishedTrimAudio::Ready(
                CapturedTrimAudio {
                    source_bytes: encode_pcm16_wav(&samples, CAPTURE_SAMPLE_RATE),
                    source_duration_ms,
                    start_ms: 0,
                    end_ms: source_duration_ms,
                    mime_type: owned("audio/wav"),
                },
            ),
        )
    }
}

} // verus!
