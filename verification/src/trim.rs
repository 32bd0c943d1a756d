//! Trimming a line's ready audio within its source recording.
use vstd::prelude::*;
use crate::text::{chars_to_string, decimal, decimal_chars, extend_chars, extend_str, owned};
use crate::types::{AssetInfo, AudioState, AudioTrimInfoResponse, AudioTrimRequest, AudioTrimSource, LineId, LineRecord, LineView};

verus! {

/// The shortest clip a trim may produce.
pub const MIN_TRIM_DURATION_MS: u64 = 100;

/// The trim window of ready audio: the trim source where it has one, else the ready
/// clip itself as the whole source.
pub open spec fn trim_info_spec(
    line_id: LineId,
    asset: AssetInfo,
    duration_ms: u64,
    trim_source: Option<AudioTrimSource>,
) -> AudioTrimInfoResponse {
    match trim_source {
        Some(t) => AudioTrimInfoResponse {
            line_id,
            source: t.asset,
            source_duration_ms: t.source_duration_ms,
            start_ms: t.start_ms,
            end_ms: t.end_ms,
            can_extend: t.can_extend,
        },
        None => {
            let d = match asset.duration_ms {
                Some(d) => d,
                None => duration_ms,
            };
            AudioTrimInfoResponse {
                line_id,
                source: asset,
                source_duration_ms: d,
                start_ms: 0,
                end_ms: d,
                can_extend: false,
            }
        },
    }
}

/// The trim window of ready audio.
pub fn trim_info_from_ready(
    line_id: LineId,
    asset: &AssetInfo,
    duration_ms: u64,
    trim_source: Option<&AudioTrimSource>,
) -> (r: AudioTrimInfoResponse)
    ensures
        r == trim_info_spec(
            line_id,
            *asset,
            duration_ms,
            match trim_source {
                Some(t) => Some(*t),
                None => None,
            },
        ),
{
    match trim_source {
        Some(t) => AudioTrimInfoResponse {
            line_id,
            source: t.asset.duplicate(),
            source_duration_ms: t.source_duration_ms,
            start_ms: t.start_ms,
            end_ms: t.end_ms,
            can_extend: t.can_extend,
        },
        None => {
            let d = match asset.duration_ms {
                Some(d) => d,
                None => duration_ms,
            };
            AudioTrimInfoResponse {
                line_id,
                source: asset.duplicate(),
                source_duration_ms: d,
                start_ms: 0,
                end_ms: d,
                can_extend: false,
            }
        },
    }
}

/// The trim window of a line, or why it has none.
pub open spec fn trim_info_for_line_spec(line: LineView) -> Result<AudioTrimInfoResponse, Seq<char>> {
    match line.audio {
        Some(AudioState::Ready { asset, duration_ms, trim_source, .. }) => Ok(
            trim_info_spec(
                line.line_id,
                asset,
                duration_ms,
                match trim_source {
                    Some(t) => Some(*t),
                    None => None,
                },
            ),
        ),
        Some(AudioState::Recording { .. }) => Err("audio is still recording"@),
        _ => Err("line does not have ready audio"@),
    }
}

/// The trim window of a line's ready audio.
pub fn trim_info_for_line(line: &LineRecord) -> (r: Result<AudioTrimInfoResponse, String>)
    ensures
        match (r, trim_info_for_line_spec(line@)) {
            (Ok(a), Ok(b)) => a == b,
            (Err(m), Err(t)) => m@ == t,
            _ => false,
        },
{
    match &line.audio {
        Some(AudioState::Ready { asset, duration_ms, trim_source, .. }) => {
            let source = match trim_source {
                Some(t) => Some(&**t),
                None => None,
            };
            Ok(trim_info_from_ready(line.line_id, asset, *duration_ms, source))
        },
        Some(AudioState::Recording { .. }) => Err(owned("audio is still recording")),
        _ => Err(owned("line does not have ready audio")),
    }
}

/// Why a trim request is refused, if it is.
pub open spec fn validate_trim_spec(request: AudioTrimRequest, info: AudioTrimInfoResponse) -> Option<
    Seq<char>,
> {
    if request.start_ms >= request.end_ms {
        Some("trim start must be before trim end"@)
    } else if request.end_ms > info.source_duration_ms {
        Some(
            "trim end must be within source audio duration of "@ + decimal(
                info.source_duration_ms as nat,
            ) + "ms"@,
        )
    } else if request.end_ms - request.start_ms < MIN_TRIM_DURATION_MS {
        Some("trimmed audio must be at least 100ms"@)
    } else {
        None
    }
}

/// Accepts a trim that lies within the source and lasts at least 100 ms.
pub fn validate_trim_request(request: &AudioTrimRequest, info: &AudioTrimInfoResponse) -> (r: Result<
    (),
    String,
>)
    ensures
        match validate_trim_spec(*request, *info) {
            None => r is Ok,
            Some(t) => r matches Err(m) && m@ == t,
        },
{
    if request.start_ms >= request.end_ms {
        return Err(owned("trim start must be before trim end"));
    }
    if request.end_ms > info.source_duration_ms {
        let mut v: Vec<char> = Vec::new();
        extend_str(&mut v, "trim end must be within source audio duration of ");
        let d = decimal_chars(info.source_duration_ms);
        extend_chars(&mut v, &d);
        extend_str(&mut v, "ms");
        return Err(chars_to_string(&v));
    }
    if request.end_ms - request.start_ms < MIN_TRIM_DURATION_MS {
        return Err(owned("trimmed audio must be at least 100ms"));
    }
    Ok(())
}

/// The trim window of a line's ready audio: where it was trimmed before, the window
/// its trim source records (that source, its duration, the kept bounds and whether it
/// can extend); where it never was, the whole ready clip, from 0 to the clip's
/// duration (the asset's where it knows one), which cannot extend. Other audio has no
/// window.
pub proof fn lemma_trim_window(l: LineView)
    ensures
        match l.audio {
            Some(AudioState::Ready { asset, duration_ms, trim_source, .. }) => match trim_source {
                Some(t) => trim_info_for_line_spec(l) matches Ok(info) && info.line_id == l.line_id
                    && info.source == t.asset && info.source_duration_ms == t.source_duration_ms
                    && info.start_ms == t.start_ms && info.end_ms == t.end_ms && info.can_extend
                    == t.can_extend,
                None => trim_info_for_line_spec(l) matches Ok(info) && info.line_id == l.line_id
                    && info.source == asset && info.start_ms == 0 && info.end_ms == info.source_duration_ms
                    && !info.can_extend && info.source_duration_ms == (match asset.duration_ms {
                    Some(d) => d,
                    None => duration_ms,
                }),
            },
            _ => trim_info_for_line_spec(l) is Err,
        },
{
}

/// A trim request is accepted exactly when it starts before it ends, ends within the
/// source, and keeps at least 100 ms.
pub proof fn lemma_trim_request_accepted(request: AudioTrimRequest, info: AudioTrimInfoResponse)
    ensures
        validate_trim_spec(request, info) is None <==> (request.start_ms < request.end_ms && request.end_ms
            <= info.source_duration_ms && request.end_ms - request.start_ms >= 100),
{
}

} // verus!
