//! Finding the audible part of a run of samples.
use vstd::prelude::*;
use crate::wav::{copy_range, duration_ms, duration_of};

verus! {

/// The magnitude of a sample (`i16::unsigned_abs`).
pub open spec fn magnitude(s: i16) -> int {
    if s < 0 {
        -(s as int)
    } else {
        s as int
    }
}

/// Whether a sample counts as activity.
pub open spec fn is_active(s: i16, threshold: u16) -> bool {
    magnitude(s) >= threshold
}

/// How many samples count as activity.
pub open spec fn active_count(s: Seq<i16>, threshold: u16) -> nat
    decreases s.len(),
{
    if s.len() == 0 {
        0
    } else {
        active_count(s.drop_last(), threshold) + if is_active(s.last(), threshold) {
            1nat
        } else {
            0nat
        }
    }
}

/// Whether any sample counts as activity.
pub open spec fn has_activity(s: Seq<i16>, threshold: u16) -> bool {
    exists|i: int| 0 <= i < s.len() && is_active(#[trigger] s[i], threshold)
}

/// Where the activity in a run of samples begins and ends, and how much of it there is.
#[derive(Debug, Clone, Copy, PartialEq, Eq)]
pub struct ActivityStats {
    pub first_active_index: usize,
    pub last_active_index: usize,
    pub active_samples: usize,
}

/// A run of samples cropped to its activity, with the crop's bounds in milliseconds.
#[derive(Debug, Clone, PartialEq, Eq)]
pub struct TrimmedSamples {
    pub samples: Vec<i16>,
    pub start_ms: u64,
    pub end_ms: u64,
}

/// The statistics that describe the activity in `s`.
pub open spec fn stats_describe(st: ActivityStats, s: Seq<i16>, threshold: u16) -> bool {
    &&& st.first_active_index < s.len()
    &&& st.last_active_index < s.len()
    &&& is_active(s[st.first_active_index as int], threshold)
    &&& is_active(s[st.last_active_index as int], threshold)
    &&& forall|i: int| 0 <= i < st.first_active_index ==> !is_active(#[trigger] s[i], threshold)
    &&& forall|i: int|
        st.last_active_index < i < s.len() ==> !is_active(#[trigger] s[i], threshold)
    &&& st.active_samples == active_count(s, threshold)
}

proof fn lemma_active_count_bound(s: Seq<i16>, threshold: u16)
    ensures
        active_count(s, threshold) <= s.len(),
    decreases s.len(),
{
    if s.len() > 0 {
        lemma_active_count_bound(s.drop_last(), threshold);
    }
}

fn sample_is_active(s: i16, threshold: u16) -> (r: bool)
    ensures
        r == is_active(s, threshold),
{
    let m: u16 = if s < 0 { (0i32 - s as i32) as u16 } else { s as u16 };
    m >= threshold
}

/// The first and last active samples and the number of active samples, or `None`
/// where no sample reaches `activity_threshold`.
pub fn activity_stats(samples: &[i16], activity_threshold: u16) -> (res: Option<ActivityStats>)
    ensures
        res is None <==> !has_activity(samples@, activity_threshold),
        res matches Some(st) ==> stats_describe(st, samples@, activity_threshold),
{
    let n = samples.len();
    let mut first: Option<usize> = None;
    let mut last: usize = 0;
    let mut count: usize = 0;
    let mut i: usize = 0;
    while i < n
        invariant
            i <= n == samples@.len(),
            count == active_count(samples@.take(i as int), activity_threshold),
            count <= i,
            match first {
                None => forall|k: int|
                    0 <= k < i ==> !is_active(#[trigger] samples@[k], activity_threshold),
                Some(f) => {
                    &&& f <= last < i
                    &&& is_active(samples@[f as int], activity_threshold)
                    &&& is_active(samples@[last as int], activity_threshold)
                    &&& forall|k: int|
                        0 <= k < f ==> !is_active(#[trigger] samples@[k], activity_threshold)
                    &&& forall|k: int|
                        last < k < i ==> !is_active(#[trigger] samples@[k], activity_threshold)
                },
            },
        decreases n - i,
    {
        assert(samples@.take(i as int + 1).drop_last() =~= samples@.take(i as int));
        if sample_is_active(samples[i], activity_threshold) {
            if first.is_none() {
                first = Some(i);
            }
            last = i;
            count = count + 1;
        }
        i = i + 1;
    }
    assert(samples@.take(n as int) =~= samples@);
    match first {
        None => None,
        Some(f) => Some(ActivityStats { first_active_index: f, last_active_index: last, active_samples: count }),
    }
}

/// The number of active samples that `min_activity_ms` of audio requires (at least one).
pub open spec fn min_active_samples_of(sample_rate: u32, min_activity_ms: u64) -> int {
    let n = ((sample_rate * min_activity_ms) / 1000) as usize;
    if n >= 1 {
        n as int
    } else {
        1
    }
}

/// The number of active samples that `min_activity_ms` of audio requires.
pub fn min_active_samples(sample_rate: u32, min_activity_ms: u64) -> (n: usize)
    requires
        sample_rate * min_activity_ms <= u64::MAX,
    ensures
        n == min_active_samples_of(sample_rate, min_activity_ms),
{
    let n = (sample_rate as u64 * min_activity_ms / 1000) as usize;
    if n >= 1 {
        n
    } else {
        1
    }
}

/// Whether the activity lasts at least `min_activity_ms`.
pub fn has_min_activity(stats: &ActivityStats, sample_rate: u32, min_activity_ms: u64) -> (r: bool)
    requires
        sample_rate * min_activity_ms <= u64::MAX,
    ensures
        r == (stats.active_samples >= min_active_samples_of(sample_rate, min_activity_ms)),
{
    stats.active_samples >= min_active_samples(sample_rate, min_activity_ms)
}

/// Where `trim_to_activity` crops: `(start, end)` sample indices.
pub open spec fn activity_crop(
    st: ActivityStats,
    n: int,
    sample_rate: u32,
    padding_ms: u64,
) -> (int, int) {
    let padding = ((sample_rate * padding_ms) / 1000) as usize as int;
    let start = if st.first_active_index >= padding {
        st.first_active_index - padding
    } else {
        0
    };
    let raw_end = st.last_active_index + padding + 1;
    let end = if raw_end > usize::MAX {
        usize::MAX as int
    } else {
        raw_end
    };
    (start, if end < n {
        end
    } else {
        n
    })
}

/// The samples cropped to their activity plus `padding_ms` on each side, or `None`
/// where the activity is shorter than `min_activity_ms` (or absent).
pub fn trim_to_activity(
    samples: &[i16],
    sample_rate: u32,
    activity_threshold: u16,
    min_activity_ms: u64,
    padding_ms: u64,
) -> (res: Option<TrimmedSamples>)
    requires
        sample_rate > 0 || !has_activity(samples@, activity_threshold),
        sample_rate * min_activity_ms <= u64::MAX,
        sample_rate * padding_ms <= u64::MAX,
    ensures
        match activity_stats_spec(samples@, activity_threshold) {
            None => res is None,
            Some(st) => if st.active_samples < min_active_samples_of(sample_rate, min_activity_ms) {
                res is None
            } else {
                let (start, end) = activity_crop(st, samples@.len() as int, sample_rate, padding_ms);
                res matches Some(t) && t.samples@ == samples@.subrange(start, end) && t.start_ms
                    == duration_of(start, sample_rate as int) && t.end_ms == duration_of(
                    end,
                    sample_rate as int,
                )
            },
        },
{
    let stats = match activity_stats(samples, activity_threshold) {
        Some(st) => st,
        None => {
            return None;
        },
    };
    proof {
        lemma_stats_unique(stats, samples@, activity_threshold);
    }
    if !has_min_activity(&stats, sample_rate, min_activity_ms) {
        return None;
    }
    let padding = (sample_rate as u64 * padding_ms / 1000) as usize;
    let start = stats.first_active_index.saturating_sub(padding);
    let raw_end = stats.last_active_index.saturating_add(padding).saturating_add(1);
    let end = if raw_end < samples.len() { raw_end } else { samples.len() };
    Some(
        TrimmedSamples {
            samples: copy_range(samples, start, end),
            start_ms: duration_ms(start, sample_rate),
            end_ms: duration_ms(end, sample_rate),
        },
    )
}

/// The activity statistics of a run of samples, as a function of the samples.
pub open spec fn activity_stats_spec(s: Seq<i16>, threshold: u16) -> Option<ActivityStats> {
    if has_activity(s, threshold) {
        Some(choose|st: ActivityStats| stats_describe(st, s, threshold))
    } else {
        None
    }
}

/// Statistics that describe a run of samples are the only ones that do.
proof fn lemma_stats_unique(st: ActivityStats, s: Seq<i16>, threshold: u16)
    requires
        stats_describe(st, s, threshold),
    ensures
        activity_stats_spec(s, threshold) == Some(st),
{
    assert(has_activity(s, threshold)) by {
        assert(is_active(s[st.first_active_index as int], threshold));
    }
    let other = choose|o: ActivityStats| stats_describe(o, s, threshold);
    assert(stats_describe(other, s, threshold));
    if other.first_active_index < st.first_active_index {
        assert(!is_active(s[other.first_active_index as int], threshold));
    }
    if other.first_active_index > st.first_active_index {
        assert(!is_active(s[st.first_active_index as int], threshold));
    }
    if other.last_active_index < st.last_active_index {
        assert(!is_active(s[st.last_active_index as int], threshold));
    }
    if other.last_active_index > st.last_active_index {
        assert(!is_active(s[other.last_active_index as int], threshold));
    }
}

} // verus!
