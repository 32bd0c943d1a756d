//! The Textractor extension's decisions: which sentences to forward and how.
use vstd::prelude::*;
use crate::arith::{clip_i64, saturating_sub_i64};
use crate::text::{owned, str_eq, trim_str, trimmed};
use crate::types::{PipeLineEvent, PipeLineMeta, PROTOCOL_VERSION};

verus! {

/// How long the extension waits between attempts to start the server.
pub const BOOTSTRAP_BACKOFF_MS: i64 = 5_000;

/// The most sentence-info entries the extension reads.
pub const MAX_INFO_ENTRIES: usize = 128;

/// One `name = value` entry of Textractor's sentence info; `name` is `None` where it
/// is not valid UTF-8.
#[derive(Debug, Clone)]
pub struct InfoEntry {
    pub name: Option<String>,
    pub value: i64,
}

/// The sentence-info fields the extension uses.
#[derive(Debug, Clone, Copy, PartialEq, Eq, Structural)]
pub struct ParsedSentenceInfo {
    pub current_select: i64,
    pub process_id: u32,
    pub text_number: i64,
}

/// The fields after reading one entry.
pub open spec fn apply_info_entry(p: ParsedSentenceInfo, e: InfoEntry) -> ParsedSentenceInfo {
    match e.name {
        None => p,
        Some(n) => if n@ == "current select"@ {
            ParsedSentenceInfo { current_select: e.value, ..p }
        } else if n@ == "process id"@ {
            ParsedSentenceInfo {
                process_id: if 0 <= e.value <= u32::MAX {
                    e.value as u32
                } else {
                    0
                },
                ..p
            }
        } else if n@ == "text number"@ {
            ParsedSentenceInfo { text_number: e.value, ..p }
        } else {
            p
        },
    }
}

/// The fields after reading the entries in order.
pub open spec fn read_info_entries(entries: Seq<InfoEntry>) -> ParsedSentenceInfo
    decreases entries.len(),
{
    if entries.len() == 0 {
        ParsedSentenceInfo { current_select: 0, process_id: 0, text_number: 0 }
    } else {
        apply_info_entry(read_info_entries(entries.drop_last()), entries.last())
    }
}

/// Reads the sentence info: `None` where Textractor passed none, else the fields of the
/// first 128 entries (the entries end at the first one without a name).
pub fn parse_sentence_info(entries: Option<Vec<InfoEntry>>) -> (r: Option<ParsedSentenceInfo>)
    ensures
        match entries {
            None => r is None,
            Some(v) => r == Some(
                read_info_entries(
                    if v@.len() > MAX_INFO_ENTRIES {
                        v@.take(MAX_INFO_ENTRIES as int)
                    } else {
                        v@
                    },
                ),
            ),
        },
{
    let entries = match entries {
        None => {
            return None;
        },
        Some(v) => v,
    };
    let n = if entries.len() > MAX_INFO_ENTRIES { MAX_INFO_ENTRIES } else { entries.len() };
    let ghost read = entries@.take(n as int);
    let mut parsed = ParsedSentenceInfo { current_select: 0, process_id: 0, text_number: 0 };
    let mut i: usize = 0;
    while i < n
        invariant
            i <= n <= entries@.len(),
            read == entries@.take(n as int),
            parsed == read_info_entries(read.take(i as int)),
        decreases n - i,
    {
        assert(read.take(i as int + 1).drop_last() =~= read.take(i as int));
        assert(read.take(i as int + 1).last() == entries@[i as int]);
        match &entries[i].name {
            None => {},
            Some(name) => {
                let value = entries[i].value;
                if str_eq(name.as_str(), "current select") {
                    parsed.current_select = value;
                } else if str_eq(name.as_str(), "process id") {
                    parsed.process_id = if 0 <= value && value <= u32::MAX as i64 {
                        value as u32
                    } else {
                        0
                    };
                } else if str_eq(name.as_str(), "text number") {
                    parsed.text_number = value;
                }
            },
        }
        i = i + 1;
    }
    assert(read.take(n as int) =~= read);
    assert(read =~= (if entries@.len() > MAX_INFO_ENTRIES {
        entries@.take(MAX_INFO_ENTRIES as int)
    } else {
        entries@
    }));
    Some(parsed)
}

/// Whether a sentence comes from the selected thread and is real text (thread 0 is
/// the console, thread 1 the clipboard).
pub fn should_forward(info: &ParsedSentenceInfo) -> (r: bool)
    ensures
        r == (info.current_select != 0 && info.text_number != 0 && info.text_number != 1),
{
    info.current_select != 0 && info.text_number != 0 && info.text_number != 1
}

/// The event that forwards a sentence, or `None` where it is not forwarded (another
/// thread, or only white space).
pub fn sentence_line_event(
    info: &ParsedSentenceInfo,
    text: String,
    message_id: u64,
    timestamp_unix_ms: i64,
    arch: String,
) -> (r: Option<PipeLineEvent>)
    ensures
        !(info.current_select != 0 && info.text_number != 0 && info.text_number != 1) ==> r is None,
        (info.current_select != 0 && info.text_number != 0 && info.text_number != 1) ==> if trimmed(
            text@,
        ).len() == 0 {
            r is None
        } else {
            r matches Some(e) && e.event_type@ == "line"@ && e.protocol_version == PROTOCOL_VERSION
                && e.message_id == message_id && e.timestamp_unix_ms == timestamp_unix_ms && e.text
                == text && e.meta == (PipeLineMeta {
                process_id: info.process_id,
                thread_number: info.text_number,
                thread_name: None,
                window_title: None,
                is_current_select: info.current_select != 0,
                arch: arch,
                source: e.meta.source,
            }) && e.meta.source@ == "textractor"@
        },
{
    if !should_forward(info) {
        return None;
    }
    let trimmed_text = trim_str(text.as_str());
    if trimmed_text.len() == 0 {
        return None;
    }
    let meta = PipeLineMeta {
        process_id: info.process_id,
        thread_number: info.text_number,
        thread_name: None,
        window_title: None,
        is_current_select: info.current_select != 0,
        arch,
        source: owned("textractor"),
    };
    Some(PipeLineEvent::new(message_id, timestamp_unix_ms, text, meta))
}

/// Whether enough time has passed since the last attempt to start the server.
pub fn should_attempt_bootstrap(now_unix_ms: i64, last_attempt_unix_ms: i64) -> (r: bool)
    ensures
        r == (clip_i64(now_unix_ms - last_attempt_unix_ms) >= BOOTSTRAP_BACKOFF_MS),
{
    saturating_sub_i64(now_unix_ms, last_attempt_unix_ms) >= BOOTSTRAP_BACKOFF_MS
}

/// The architecture label of this build.
pub fn target_arch() -> (arch: String)
    ensures
        arch@ == (if usize::BITS == 64 {
            "x64"@
        } else {
            "x86"@
        }),
{
    if usize::BITS == 64 {
        owned("x64")
    } else {
        owned("x86")
    }
}

/// Milliseconds since the Unix epoch as `i64`: `since_epoch_ms` where the clock is past
/// the epoch (capped at `i64::MAX`), else 0.
pub fn unix_ms_now(since_epoch_ms: Option<u128>) -> (ms: i64)
    ensures
        ms == match since_epoch_ms {
            Some(m) => if m > i64::MAX {
                i64::MAX as int
            } else {
                m as int
            },
            None => 0,
        },
{
    match since_epoch_ms {
        Some(m) => if m > i64::MAX as u128 {
            i64::MAX
        } else {
            m as i64
        },
        None => 0,
    }
}

/// The most UTF-16 units of one sentence that the extension reads.
pub const MAX_SENTENCE_UNITS: usize = 1_000_000;

/// How many UTF-16 units of a sentence to read: those before the first NUL, at most
/// `MAX_SENTENCE_UNITS`. `units` holds what can be read of the sentence.
pub fn sentence_text_len(units: &[u16]) -> (n: usize)
    ensures
        n <= units@.len(),
        n <= MAX_SENTENCE_UNITS,
        forall|i: int| 0 <= i < n ==> #[trigger] units@[i] != 0,
        n < units@.len() && n < MAX_SENTENCE_UNITS ==> units@[n as int] == 0,
{
    let mut n: usize = 0;
    while n < units.len() && n < MAX_SENTENCE_UNITS && units[n] != 0
        invariant
            n <= units@.len(),
            n <= MAX_SENTENCE_UNITS,
            forall|i: int| 0 <= i < n ==> #[trigger] units@[i] != 0,
        decreases units@.len() - n,
    {
        n = n + 1;
    }
    n
}

} // verus!
