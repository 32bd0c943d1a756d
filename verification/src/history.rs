//! The line history: records ordered by sequence number, changed by upserts, purges
//! and clears, each of which is also an operation of the append-only log.
use vstd::prelude::*;
use crate::types::{
    line_views, AssetInfo, AudioState, AudioTrimSource, LineHistoryPage, LineId, LineRecord,
    LineSeq, LineView,
};

verus! {

/// An entry of the history log.
#[derive(Debug, Clone)]
pub enum HistoryOp {
    Upsert { line: Box<LineRecord> },
    Purge { line_id: LineId },
    Clear,
}

/// A change to one line.
#[derive(Debug, Clone)]
pub enum LineUpdate {
    SetText(String),
    SetScreenshot(AssetInfo),
    SetAudio(AudioState),
    /// Attaches a trim source to ready audio and ends its trim recording.
    AttachTrimSource(AudioTrimSource),
    /// Ends the trim recording of ready audio.
    ClearTrimRecording,
    /// Adds a warning the line does not have yet.
    AddWarning(String),
}

/// The lines of the history, in increasing sequence order, the next sequence number
/// to hand out, and the log operations that its calls made and that are not yet
/// written to the log file, oldest first.
#[derive(Debug)]
pub struct HistoryStore {
    pub lines: Vec<LineRecord>,
    pub next_seq: u64,
    pub log: Vec<HistoryOp>,
}

// ---------------------------------------------------------------------------
// Model
// ---------------------------------------------------------------------------

/// Sequence numbers strictly increase along the run.
pub open spec fn sorted_by_seq(s: Seq<LineView>) -> bool {
    forall|i: int, j: int| 0 <= i < j < s.len() ==> s[i].line_seq < s[j].line_seq
}

/// How many lines have a sequence number below `b`.
pub open spec fn count_below(s: Seq<LineView>, b: int) -> nat
    decreases s.len(),
{
    if s.len() == 0 {
        0
    } else {
        count_below(s.drop_last(), b) + if s.last().line_seq < b {
            1nat
        } else {
            0nat
        }
    }
}

/// How many lines have a sequence number at most `a`.
pub open spec fn count_at_most(s: Seq<LineView>, a: int) -> nat {
    count_below(s, a + 1)
}

/// The history after storing `l` under its sequence number (replacing the line that
/// had it).
pub open spec fn upsert_spec(s: Seq<LineView>, l: LineView) -> Seq<LineView> {
    let c = count_below(s, l.line_seq as int) as int;
    if c < s.len() && s[c].line_seq == l.line_seq {
        s.update(c, l)
    } else {
        s.insert(c, l)
    }
}

/// The history without the lines whose id is `id`.
pub open spec fn purge_spec(s: Seq<LineView>, id: LineId) -> Seq<LineView>
    decreases s.len(),
{
    if s.len() == 0 {
        s
    } else if s.last().line_id == id {
        purge_spec(s.drop_last(), id)
    } else {
        purge_spec(s.drop_last(), id).push(s.last())
    }
}

/// The history after one log operation.
pub open spec fn apply_op_spec(s: Seq<LineView>, op: HistoryOp) -> Seq<LineView> {
    match op {
        HistoryOp::Upsert { line } => upsert_spec(s, line@),
        HistoryOp::Purge { line_id } => purge_spec(s, line_id),
        HistoryOp::Clear => Seq::empty(),
    }
}

/// The history after replaying a log from `s`.
pub open spec fn replay(s: Seq<LineView>, ops: Seq<HistoryOp>) -> Seq<LineView>
    decreases ops.len(),
{
    if ops.len() == 0 {
        s
    } else {
        apply_op_spec(replay(s, ops.drop_last()), ops.last())
    }
}

/// The log operations written after `old` replay the history `from` into `to`.
pub open spec fn log_extends(
    from: Seq<LineView>,
    old: Seq<HistoryOp>,
    to: Seq<LineView>,
    new: Seq<HistoryOp>,
) -> bool {
    &&& old.len() <= new.len()
    &&& new.take(old.len() as int) == old
    &&& replay(from, new.skip(old.len() as int)) == to
}

/// Replaying two logs one after the other is replaying them joined.
pub proof fn lemma_replay_concat(s: Seq<LineView>, a: Seq<HistoryOp>, b: Seq<HistoryOp>)
    ensures
        replay(s, a + b) == replay(replay(s, a), b),
    decreases b.len(),
{
    if b.len() == 0 {
        assert(a + b =~= a);
    } else {
        assert((a + b).drop_last() =~= a + b.drop_last());
        lemma_replay_concat(s, a, b.drop_last());
    }
}

/// Whatever a sequence of steps wrote to the log, replayed from the history before
/// the first step, gives the history after the last.
pub proof fn lemma_log_composes(
    s1: Seq<LineView>,
    l1: Seq<HistoryOp>,
    s2: Seq<LineView>,
    l2: Seq<HistoryOp>,
    s3: Seq<LineView>,
    l3: Seq<HistoryOp>,
)
    requires
        log_extends(s1, l1, s2, l2),
        log_extends(s2, l2, s3, l3),
    ensures
        log_extends(s1, l1, s3, l3),
{
    let a = l2.skip(l1.len() as int);
    let b = l3.skip(l2.len() as int);
    assert(l3.take(l1.len() as int) =~= l2.take(l1.len() as int));
    assert(l3.skip(l1.len() as int) =~= a + b);
    lemma_replay_concat(s1, a, b);
}

/// Reloading: a history loaded from the log `persisted` (a loaded store starts with an
/// empty log), then changed by calls that each extend the log (`upsert`, `update`,
/// `purge_line`, `clear` state `log_extends`, and `lemma_log_composes` joins them)
/// until it holds `written`, is the history that replaying `persisted` followed by
/// `written` gives, which is what loading the grown log file yields.
pub proof fn lemma_reload(persisted: Seq<HistoryOp>, now: Seq<LineView>, written: Seq<HistoryOp>)
    requires
        log_extends(replay(Seq::empty(), persisted), Seq::empty(), now, written),
    ensures
        replay(Seq::empty(), persisted + written) == now,
{
    assert(written.skip(0) =~= written);
    lemma_replay_concat(Seq::empty(), persisted, written);
}

pub proof fn lemma_log_one(s: Seq<LineView>, log: Seq<HistoryOp>, op: HistoryOp)
    ensures
        log_extends(s, log, apply_op_spec(s, op), log.push(op)),
{
    let n = log.push(op);
    assert(n.take(log.len() as int) =~= log);
    let tail = n.skip(log.len() as int);
    assert(tail =~= seq![op]);
    assert(tail.drop_last() =~= Seq::<HistoryOp>::empty());
    assert(replay(s, tail.drop_last()) == s);
    assert(tail.last() == op);
    assert(replay(s, tail) == apply_op_spec(s, op));
}

pub proof fn lemma_log_none(s: Seq<LineView>, log: Seq<HistoryOp>)
    ensures
        log_extends(s, log, s, log),
{
    assert(log.take(log.len() as int) =~= log);
    assert(log.skip(log.len() as int) =~= Seq::<HistoryOp>::empty());
}

/// `i` is the first position of a line with id `id`.
pub open spec fn is_first_with_id(s: Seq<LineView>, id: LineId, i: int) -> bool {
    &&& 0 <= i < s.len()
    &&& s[i].line_id == id
    &&& forall|j: int| 0 <= j < i ==> #[trigger] s[j].line_id != id
}

pub open spec fn has_id(s: Seq<LineView>, id: LineId) -> bool {
    exists|i: int| 0 <= i < s.len() && #[trigger] s[i].line_id == id
}

/// The position of the first line with id `id`, if any.
pub open spec fn index_of_id(s: Seq<LineView>, id: LineId) -> Option<int> {
    if has_id(s, id) {
        Some(choose|i: int| is_first_with_id(s, id, i))
    } else {
        None
    }
}

/// The first line with id `id`, if any.
pub open spec fn line_with_id(s: Seq<LineView>, id: LineId) -> Option<LineView> {
    match index_of_id(s, id) {
        Some(i) => Some(s[i]),
        None => None,
    }
}

/// The lines found for each requested id, in request order (missing ids skipped).
pub open spec fn lines_by_ids(s: Seq<LineView>, ids: Seq<LineId>) -> Seq<LineView>
    decreases ids.len(),
{
    if ids.len() == 0 {
        Seq::empty()
    } else {
        match line_with_id(s, ids.last()) {
            Some(l) => lines_by_ids(s, ids.drop_last()).push(l),
            None => lines_by_ids(s, ids.drop_last()),
        }
    }
}

/// A line after a change.
pub open spec fn apply_update(l: LineView, u: LineUpdate) -> LineView {
    match u {
        LineUpdate::SetText(t) => LineView { text: t, ..l },
        LineUpdate::SetScreenshot(a) => LineView { screenshot: Some(a), ..l },
        LineUpdate::SetAudio(a) => LineView { audio: Some(a), ..l },
        LineUpdate::AttachTrimSource(src) => match l.audio {
            Some(AudioState::Ready { asset, duration_ms, end_reason, .. }) => LineView {
                audio: Some(
                    AudioState::Ready {
                        asset,
                        duration_ms,
                        end_reason,
                        trim_source: Some(Box::new(src)),
                        trim_recording_started_unix_ms: None,
                    },
                ),
                ..l
            },
            _ => l,
        },
        LineUpdate::ClearTrimRecording => match l.audio {
            Some(AudioState::Ready { asset, duration_ms, end_reason, trim_source, .. }) => LineView {
                audio: Some(
                    AudioState::Ready {
                        asset,
                        duration_ms,
                        end_reason,
                        trim_source,
                        trim_recording_started_unix_ms: None,
                    },
                ),
                ..l
            },
            _ => l,
        },
        LineUpdate::AddWarning(w) => if exists|k: int|
            0 <= k < l.warnings.len() && #[trigger] l.warnings[k]@ == w@ {
            l
        } else {
            LineView { warnings: l.warnings.push(w), ..l }
        },
    }
}

// ---------------------------------------------------------------------------
// Lemmas
// ---------------------------------------------------------------------------

/// In a sorted history the lines below `b` form a prefix.
pub proof fn lemma_count_below(s: Seq<LineView>, b: int)
    requires
        sorted_by_seq(s),
    ensures
        count_below(s, b) <= s.len(),
        forall|j: int| 0 <= j < count_below(s, b) ==> #[trigger] s[j].line_seq < b,
        forall|j: int| count_below(s, b) <= j < s.len() ==> #[trigger] s[j].line_seq >= b,
    decreases s.len(),
{
    if s.len() > 0 {
        let t = s.drop_last();
        lemma_count_below(t, b);
        let ct = count_below(t, b) as int;
        assert forall|j: int| 0 <= j < t.len() implies #[trigger] s[j] == t[j] by {}
        if s.last().line_seq < b {
            assert forall|j: int| 0 <= j < t.len() implies t[j].line_seq < b by {
                assert(s[j].line_seq < s[s.len() - 1].line_seq);
            }
            if ct < t.len() {
                assert(t[ct].line_seq < b);
            }
            assert forall|j: int| 0 <= j < count_below(s, b) implies #[trigger] s[j].line_seq < b by {
                if j < t.len() {
                    assert(s[j] == t[j]);
                }
            }
        } else {
            assert forall|j: int| 0 <= j < count_below(s, b) implies #[trigger] s[j].line_seq < b by {
                assert(s[j] == t[j]);
            }
            assert forall|j: int| count_below(s, b) <= j < s.len() implies #[trigger] s[j].line_seq
                >= b by {
                if j < t.len() {
                    assert(s[j] == t[j]);
                }
            }
        }
    }
}

/// The first line at or above `b` sits where the scan stops.
proof fn lemma_count_below_at(s: Seq<LineView>, b: int, i: int)
    requires
        sorted_by_seq(s),
        0 <= i <= s.len(),
        forall|j: int| 0 <= j < i ==> #[trigger] s[j].line_seq < b,
        i == s.len() || s[i].line_seq >= b,
    ensures
        count_below(s, b) == i,
{
    lemma_count_below(s, b);
    let c = count_below(s, b) as int;
    if c < i {
        assert(s[c].line_seq < b);
    }
    if c > i {
        assert(s[i].line_seq < b);
    }
}

proof fn lemma_upsert_sorted(s: Seq<LineView>, l: LineView)
    requires
        sorted_by_seq(s),
    ensures
        sorted_by_seq(upsert_spec(s, l)),
{
    lemma_count_below(s, l.line_seq as int);
    let c = count_below(s, l.line_seq as int) as int;
    let t = upsert_spec(s, l);
    if c < s.len() && s[c].line_seq == l.line_seq {
        assert forall|i: int, j: int| 0 <= i < j < t.len() implies t[i].line_seq < t[j].line_seq by {
            if i != c && j != c {
                assert(t[i] == s[i] && t[j] == s[j]);
            }
        }
    } else {
        assert forall|i: int, j: int| 0 <= i < j < t.len() implies t[i].line_seq < t[j].line_seq by {
            if j < c {
                assert(t[i] == s[i] && t[j] == s[j]);
            } else if i > c {
                assert(t[i] == s[i - 1] && t[j] == s[j - 1]);
            } else if i == c {
                assert(t[j] == s[j - 1]);
                assert(s[j - 1].line_seq >= l.line_seq);
            } else {
                assert(t[i] == s[i]);
                if j > c {
                    assert(t[j] == s[j - 1]);
                    assert(s[i].line_seq < l.line_seq);
                }
            }
        }
    }
}

pub proof fn lemma_purge_members(s: Seq<LineView>, id: LineId)
    ensures
        forall|k: int|
            0 <= k < purge_spec(s, id).len() ==> exists|j: int|
                0 <= j < s.len() && #[trigger] purge_spec(s, id)[k] == s[j],
        purge_spec(s, id).len() <= s.len(),
    decreases s.len(),
{
    if s.len() > 0 {
        let t = s.drop_last();
        lemma_purge_members(t, id);
        let p = purge_spec(s, id);
        assert forall|k: int| 0 <= k < p.len() implies exists|j: int|
            0 <= j < s.len() && #[trigger] p[k] == s[j] by {
            if k < purge_spec(t, id).len() {
                let j = choose|j: int| 0 <= j < t.len() && #[trigger] purge_spec(t, id)[k] == t[j];
                assert(p[k] == s[j]);
            } else {
                assert(p[k] == s[s.len() - 1]);
            }
        }
    }
}

proof fn lemma_purge_sorted(s: Seq<LineView>, id: LineId)
    requires
        sorted_by_seq(s),
    ensures
        sorted_by_seq(purge_spec(s, id)),
    decreases s.len(),
{
    if s.len() > 0 {
        let t = s.drop_last();
        lemma_purge_sorted(t, id);
        lemma_purge_members(t, id);
        let p = purge_spec(s, id);
        let q = purge_spec(t, id);
        if s.last().line_id != id {
            assert forall|i: int, j: int| 0 <= i < j < p.len() implies p[i].line_seq < p[j].line_seq by {
                if j == q.len() {
                    let a = choose|a: int| 0 <= a < t.len() && #[trigger] q[i] == t[a];
                    assert(s[a].line_seq < s[s.len() - 1].line_seq);
                } else {
                    assert(p[i] == q[i] && p[j] == q[j]);
                }
            }
        }
    }
}

/// Purging an id that no line has changes nothing.
pub proof fn lemma_purge_absent(s: Seq<LineView>, id: LineId)
    requires
        !has_id(s, id),
    ensures
        purge_spec(s, id) == s,
    decreases s.len(),
{
    if s.len() > 0 {
        let t = s.drop_last();
        assert(!has_id(t, id)) by {
            if has_id(t, id) {
                let k = choose|k: int| 0 <= k < t.len() && #[trigger] t[k].line_id == id;
                assert(s[k].line_id == id);
            }
        }
        lemma_purge_absent(t, id);
        assert(s.last().line_id != id) by {
            if s.last().line_id == id {
                assert(s[s.len() - 1].line_id == id);
            }
        }
        assert(t.push(s.last()) =~= s);
    }
}

proof fn lemma_first_exists(s: Seq<LineView>, id: LineId, i: int)
    requires
        0 <= i < s.len(),
        s[i].line_id == id,
    ensures
        exists|k: int| is_first_with_id(s, id, k),
    decreases i,
{
    if exists|j: int| 0 <= j < i && #[trigger] s[j].line_id == id {
        let j = choose|j: int| 0 <= j < i && #[trigger] s[j].line_id == id;
        lemma_first_exists(s, id, j);
    } else {
        assert(is_first_with_id(s, id, i));
    }
}

/// A position found for an id holds a line with that id, and no line before it does.
pub proof fn lemma_index_of_id_found(s: Seq<LineView>, id: LineId)
    ensures
        index_of_id(s, id) matches Some(i) ==> is_first_with_id(s, id, i),
        index_of_id(s, id) is None ==> !has_id(s, id),
{
    if has_id(s, id) {
        let j = choose|j: int| 0 <= j < s.len() && #[trigger] s[j].line_id == id;
        lemma_first_exists(s, id, j);
    }
}

/// The first position of an id is the one a scan from the front finds.
pub proof fn lemma_index_of_id(s: Seq<LineView>, id: LineId, i: int)
    requires
        is_first_with_id(s, id, i),
    ensures
        index_of_id(s, id) == Some(i),
{
    assert(has_id(s, id));
    let k = choose|k: int| is_first_with_id(s, id, k);
    lemma_first_exists(s, id, i);
    assert(is_first_with_id(s, id, k));
    if k < i {
        assert(s[k].line_id != id);
    }
    if k > i {
        assert(s[i].line_id != id);
    }
}

/// The sequence number after `n` (wrapping at the largest).
pub open spec fn seq_step(n: u64) -> u64 {
    if n == u64::MAX {
        0
    } else {
        (n + 1) as u64
    }
}

/// The sequence number that call number `k` (counting from 0) of `next_line_seq`
/// hands out, where the store's next number was `start`.
pub open spec fn nth_seq(start: u64, k: nat) -> u64
    decreases k,
{
    if k == 0 {
        start
    } else {
        seq_step(nth_seq(start, (k - 1) as nat))
    }
}

/// Line numbering after a load: where the loaded lines' newest number is `m` (0 for
/// none), the store's next number is `m + 1`, and call number `k` (counting from 0) of
/// `next_line_seq` hands out `m + 1 + k`. So the numbers strictly increase, none is
/// handed out twice, and each is above every loaded line (for the first `n` calls,
/// while the numbers last).
pub proof fn lemma_line_numbering(lines: Seq<LineView>, start: u64, n: nat)
    requires
        sorted_by_seq(lines),
        start == (if lines.len() == 0 {
            1
        } else {
            lines.last().line_seq + 1
        }),
        start + n <= u64::MAX,
    ensures
        forall|k: nat| k < n ==> #[trigger] nth_seq(start, k) == start + k,
        forall|j: nat, k: nat| j < k < n ==> #[trigger] nth_seq(start, j) < #[trigger] nth_seq(start, k),
        forall|j: nat, k: nat| j < n && k < n && j != k ==> nth_seq(start, j) != nth_seq(start, k),
        forall|k: nat, i: int|
            k < n && 0 <= i < lines.len() ==> #[trigger] lines[i].line_seq < #[trigger] nth_seq(start, k),
{
    assert forall|k: nat| k < n implies #[trigger] nth_seq(start, k) == start + k by {
        lemma_nth_seq(start, k);
    }
    assert forall|k: nat, i: int| k < n && 0 <= i < lines.len() implies #[trigger] lines[i].line_seq
        < #[trigger] nth_seq(start, k) by {
        lemma_nth_seq(start, k);
        if i < lines.len() - 1 {
            assert(lines[i].line_seq < lines[lines.len() - 1].line_seq);
        }
    }
    assert forall|j: nat, k: nat| j < n && k < n && j != k implies nth_seq(start, j) != nth_seq(start, k) by {
        lemma_nth_seq(start, j);
        lemma_nth_seq(start, k);
    }
}

proof fn lemma_nth_seq(start: u64, k: nat)
    requires
        start + k <= u64::MAX,
    ensures
        nth_seq(start, k) == start + k,
    decreases k,
{
    if k > 0 {
        lemma_nth_seq(start, (k - 1) as nat);
    }
}

/// Every line's id is its sequence number (as the server assigns them).
pub open spec fn ids_are_seqs(s: Seq<LineView>) -> bool {
    forall|i: int| 0 <= i < s.len() ==> #[trigger] s[i].line_id == s[i].line_seq
}

/// A line whose sequence number is above every stored one goes to the end.
pub proof fn lemma_upsert_newest(s: Seq<LineView>, l: LineView)
    requires
        sorted_by_seq(s),
        s.len() == 0 || s.last().line_seq < l.line_seq,
    ensures
        upsert_spec(s, l) == s.push(l),
{
    lemma_count_below_at(s, l.line_seq as int, s.len() as int);
    assert(s.insert(s.len() as int, l) =~= s.push(l));
}

/// Where ids are sequence numbers, a line read back by its id after it was stored is
/// the line stored.
pub proof fn lemma_upsert_then_get(s: Seq<LineView>, l: LineView)
    requires
        sorted_by_seq(s),
        ids_are_seqs(s),
        l.line_id == l.line_seq,
    ensures
        line_with_id(upsert_spec(s, l), l.line_id) == Some(l),
        ids_are_seqs(upsert_spec(s, l)),
{
    let c = count_below(s, l.line_seq as int) as int;
    lemma_count_below(s, l.line_seq as int);
    let u = upsert_spec(s, l);
    assert(u[c] == l);
    assert forall|j: int| 0 <= j < c implies #[trigger] u[j].line_id != l.line_id by {
        assert(u[j] == s[j]);
    }
    assert(is_first_with_id(u, l.line_id, c));
    lemma_index_of_id(u, l.line_id, c);
    assert forall|i: int| 0 <= i < u.len() implies #[trigger] u[i].line_id == u[i].line_seq by {
        if i < c {
            assert(u[i] == s[i]);
        } else if i > c {
            if c < s.len() && s[c].line_seq == l.line_seq {
                assert(u[i] == s[i]);
            } else {
                assert(u[i] == s[i - 1]);
            }
        }
    }
}

/// Changing a line's text keeps its id, its sequence number and its first timestamp.
pub proof fn lemma_text_change_keeps_identity(l: LineView, text: String)
    ensures
        apply_update(l, LineUpdate::SetText(text)).line_id == l.line_id,
        apply_update(l, LineUpdate::SetText(text)).line_seq == l.line_seq,
        apply_update(l, LineUpdate::SetText(text)).timestamp_unix_ms == l.timestamp_unix_ms,
        apply_update(l, LineUpdate::SetText(text)).text == text,
        apply_update(l, LineUpdate::SetText(text)).audio == l.audio,
{
}

/// After purging an id, no line has it.
pub proof fn lemma_purge_removes(s: Seq<LineView>, id: LineId)
    ensures
        !has_id(purge_spec(s, id), id),
        line_with_id(purge_spec(s, id), id) is None,
    decreases s.len(),
{
    if s.len() > 0 {
        lemma_purge_removes(s.drop_last(), id);
        let t = purge_spec(s.drop_last(), id);
        if s.last().line_id != id {
            let p = t.push(s.last());
            if has_id(p, id) {
                let k = choose|k: int| 0 <= k < p.len() && #[trigger] p[k].line_id == id;
                if k < t.len() {
                    assert(t[k].line_id == id);
                }
            }
        }
    }
    lemma_index_of_id_found(purge_spec(s, id), id);
}

// ---------------------------------------------------------------------------
// Executable code
// ---------------------------------------------------------------------------

impl HistoryStore {
    /// The lines as values.
    pub open spec fn view_lines(&self) -> Seq<LineView> {
        line_views(self.lines@)
    }

    /// Sequence numbers strictly increase along the lines.
    pub open spec fn wf(&self) -> bool {
        sorted_by_seq(self.view_lines())
    }

    /// An empty history whose first sequence number is 1.
    pub fn new() -> (h: Self)
        ensures
            h.wf(),
            h.view_lines() == Seq::<LineView>::empty(),
            h.next_seq == 1,
            h.log@.len() == 0,
    {
        let h = HistoryStore { lines: Vec::new(), next_seq: 1, log: Vec::new() };
        assert(h.view_lines() =~= Seq::<LineView>::empty());
        h
    }

    /// Hands out the next sequence number.
    pub fn next_line_seq(&mut self) -> (seq: LineSeq)
        ensures
            seq == old(self).next_seq,
            final(self).next_seq == seq_step(old(self).next_seq),
            final(self).next_seq == (if old(self).next_seq == u64::MAX {
                0
            } else {
                old(self).next_seq + 1
            }),
            final(self).lines == old(self).lines,
            final(self).log == old(self).log,
    {
        let seq = self.next_seq;
        self.next_seq = if seq == u64::MAX { 0 } else { seq + 1 };
        seq
    }

    /// Stores a line under its sequence number, replacing the line that had it, and
    /// logs it.
    pub fn upsert(&mut self, line: LineRecord)
        requires
            old(self).wf(),
        ensures
            final(self).wf(),
            final(self).next_seq == old(self).next_seq,
            final(self).view_lines() == upsert_spec(old(self).view_lines(), line@),
            final(self).log@.len() == old(self).log@.len() + 1,
            final(self).log@.drop_last() == old(self).log@,
            final(self).log@.last() matches HistoryOp::Upsert { line: l } && l@ == line@,
            log_extends(old(self).view_lines(), old(self).log@, final(self).view_lines(), final(self).log@),
    {
        let ghost s = self.view_lines();
        let ghost log0 = self.log@;
        let op = HistoryOp::Upsert { line: Box::new(line.duplicate()) };
        self.upsert_line(line);
        proof {
            lemma_log_one(s, log0, op);
        }
        self.log.push(op);
        assert(self.log@.drop_last() =~= log0);
    }

    fn upsert_line(&mut self, line: LineRecord)
        requires
            old(self).wf(),
        ensures
            final(self).wf(),
            final(self).next_seq == old(self).next_seq,
            final(self).log == old(self).log,
            final(self).view_lines() == upsert_spec(old(self).view_lines(), line@),
    {
        let ghost s = self.view_lines();
        let seq = line.line_seq;
        let mut i: usize = 0;
        while i < self.lines.len() && self.lines[i].line_seq < seq
            invariant
                i <= self.lines@.len(),
                s == line_views(self.lines@),
                forall|j: int| 0 <= j < i ==> #[trigger] s[j].line_seq < seq,
            decreases self.lines@.len() - i,
        {
            i = i + 1;
        }
        proof {
            lemma_count_below_at(s, seq as int, i as int);
            lemma_upsert_sorted(s, line@);
        }
        if i < self.lines.len() && self.lines[i].line_seq == seq {
            self.lines.set(i, line);
        } else {
            self.lines.insert(i, line);
        }
        assert(self.view_lines() =~= upsert_spec(s, line@));
    }

    /// Removes every line with id `line_id`; whether any was removed. A removal is
    /// logged.
    pub fn purge_line(&mut self, line_id: LineId) -> (removed: bool)
        requires
            old(self).wf(),
        ensures
            final(self).wf(),
            final(self).next_seq == old(self).next_seq,
            final(self).view_lines() == purge_spec(old(self).view_lines(), line_id),
            removed == has_id(old(self).view_lines(), line_id),
            removed ==> final(self).log@ == old(self).log@.push(HistoryOp::Purge { line_id }),
            !removed ==> final(self).log@ == old(self).log@,
            log_extends(old(self).view_lines(), old(self).log@, final(self).view_lines(), final(self).log@),
    {
        let ghost s = self.view_lines();
        let ghost log0 = self.log@;
        let removed = self.remove_id(line_id);
        if removed {
            proof {
                lemma_log_one(s, log0, HistoryOp::Purge { line_id });
            }
            self.log.push(HistoryOp::Purge { line_id });
        } else {
            proof {
                lemma_purge_absent(s, line_id);
                lemma_log_none(s, log0);
            }
        }
        removed
    }

    fn remove_id(&mut self, line_id: LineId) -> (removed: bool)
        requires
            old(self).wf(),
        ensures
            final(self).wf(),
            final(self).next_seq == old(self).next_seq,
            final(self).log == old(self).log,
            final(self).view_lines() == purge_spec(old(self).view_lines(), line_id),
            removed == has_id(old(self).view_lines(), line_id),
    {
        let ghost s = self.view_lines();
        let mut kept: Vec<LineRecord> = Vec::new();
        let mut removed = false;
        let mut old_lines: Vec<LineRecord> = Vec::new();
        std::mem::swap(&mut old_lines, &mut self.lines);
        assert(line_views(old_lines@) == s);
        let mut i: usize = 0;
        while i < old_lines.len()
            invariant
                i <= old_lines@.len(),
                s == line_views(old_lines@),
                line_views(kept@) == purge_spec(s.take(i as int), line_id),
                removed == has_id(s.take(i as int), line_id),
            decreases old_lines@.len() - i,
        {
            let ghost before = kept@;
            assert(s.take(i as int + 1).drop_last() =~= s.take(i as int));
            if old_lines[i].line_id == line_id {
                removed = true;
                assert(s.take(i as int + 1)[i as int].line_id == line_id);
            } else {
                kept.push(old_lines[i].duplicate());
                assert(line_views(kept@) =~= line_views(before).push(old_lines@[i as int]@));
            }
            proof {
                let t = s.take(i as int + 1);
                if has_id(t, line_id) {
                    let k = choose|k: int| 0 <= k < t.len() && #[trigger] t[k].line_id == line_id;
                    if k < i {
                        assert(s.take(i as int)[k].line_id == line_id);
                    }
                }
                if has_id(s.take(i as int), line_id) {
                    let k = choose|k: int|
                        0 <= k < i && #[trigger] s.take(i as int)[k].line_id == line_id;
                    assert(t[k].line_id == line_id);
                }
            }
            i = i + 1;
        }
        assert(s.take(old_lines@.len() as int) =~= s);
        self.lines = kept;
        proof {
            lemma_purge_sorted(s, line_id);
        }
        removed
    }

    /// Removes every line; how many there were. Where there was a line, the clearing
    /// is logged.
    pub fn clear(&mut self) -> (removed: usize)
        requires
            old(self).wf(),
        ensures
            final(self).wf(),
            final(self).next_seq == old(self).next_seq,
            final(self).view_lines() == Seq::<LineView>::empty(),
            removed == old(self).view_lines().len(),
            removed > 0 ==> final(self).log@ == old(self).log@.push(HistoryOp::Clear),
            removed == 0 ==> final(self).log@ == old(self).log@,
            log_extends(old(self).view_lines(), old(self).log@, final(self).view_lines(), final(self).log@),
    {
        let ghost s = self.view_lines();
        let ghost log0 = self.log@;
        let removed = self.clear_lines();
        if removed > 0 {
            proof {
                lemma_log_one(s, log0, HistoryOp::Clear);
            }
            self.log.push(HistoryOp::Clear);
        } else {
            proof {
                assert(s =~= Seq::<LineView>::empty());
                lemma_log_none(s, log0);
            }
        }
        removed
    }

    fn clear_lines(&mut self) -> (removed: usize)
        requires
            old(self).wf(),
        ensures
            final(self).wf(),
            final(self).next_seq == old(self).next_seq,
            final(self).log == old(self).log,
            final(self).view_lines() == Seq::<LineView>::empty(),
            removed == old(self).view_lines().len(),
    {
        let removed = self.lines.len();
        self.lines = Vec::new();
        assert(self.view_lines() =~= Seq::<LineView>::empty());
        removed
    }

    /// Applies one log operation read back from the log (which logs nothing anew).
    pub fn apply_op(&mut self, op: HistoryOp)
        requires
            old(self).wf(),
        ensures
            final(self).wf(),
            final(self).next_seq == old(self).next_seq,
            final(self).log == old(self).log,
            final(self).view_lines() == apply_op_spec(old(self).view_lines(), op),
    {
        match op {
            HistoryOp::Upsert { line } => self.upsert_line(*line),
            HistoryOp::Purge { line_id } => {
                let _ = self.remove_id(line_id);
            },
            HistoryOp::Clear => {
                let _ = self.clear_lines();
            },
        }
    }

    /// The lines a log describes, with the next sequence number still 1.
    fn replay_ops(ops: &Vec<HistoryOp>) -> (h: Self)
        ensures
            h.wf(),
            h.view_lines() == replay(Seq::empty(), ops@),
            h.next_seq == 1,
            h.log@.len() == 0,
    {
        let mut h = HistoryStore::new();
        let mut i: usize = 0;
        while i < ops.len()
            invariant
                i <= ops@.len(),
                h.wf(),
                h.next_seq == 1,
                h.log@.len() == 0,
                h.view_lines() == replay(Seq::empty(), ops@.take(i as int)),
            decreases ops@.len() - i,
        {
            assert(ops@.take(i as int + 1).drop_last() =~= ops@.take(i as int));
            h.apply_op(ops[i].clone_op());
            i = i + 1;
        }
        assert(ops@.take(ops@.len() as int) =~= ops@);
        h
    }

    /// The history that a log describes: its operations replayed in order on an empty
    /// history, with the next sequence number one past the newest line (at least 1).
    pub fn load(ops: Vec<HistoryOp>) -> (h: Self)
        requires
            replay(Seq::empty(), ops@).len() > 0 ==> replay(Seq::empty(), ops@).last().line_seq
                < u64::MAX,
        ensures
            h.wf(),
            h.view_lines() == replay(Seq::empty(), ops@),
            h.next_seq == (if h.view_lines().len() == 0 {
                1
            } else {
                h.view_lines().last().line_seq + 1
            }),
            h.log@.len() == 0,
    {
        let mut h = HistoryStore::replay_ops(&ops);
        let n = h.lines.len();
        if n > 0 {
            assert(h.view_lines()[n - 1] == h.lines@[n - 1]@);
            h.next_seq = h.lines[n - 1].line_seq + 1;
        }
        h
    }

    /// The history that a log describes, as `load` gives it, or `None` where its newest
    /// line has the largest sequence number, past which no number is left.
    pub fn try_load(ops: Vec<HistoryOp>) -> (r: Option<Self>)
        ensures
            ({
                let s = replay(Seq::empty(), ops@);
                if s.len() > 0 && s.last().line_seq == u64::MAX {
                    r is None
                } else {
                    r matches Some(h) && h.wf() && h.view_lines() == s && h.log@.len() == 0 && h.next_seq == (if s.len() == 0 {
                        1
                    } else {
                        s.last().line_seq + 1
                    })
                }
            }),
    {
        let mut h = HistoryStore::replay_ops(&ops);
        let n = h.lines.len();
        if n > 0 {
            assert(h.view_lines()[n - 1] == h.lines@[n - 1]@);
            if h.lines[n - 1].line_seq == u64::MAX {
                return None;
            }
            h.next_seq = h.lines[n - 1].line_seq + 1;
        }
        Some(h)
    }
}

impl HistoryOp {
    /// A copy of the operation.
    pub fn clone_op(&self) -> (r: Self)
        ensures
            match (r, *self) {
                (HistoryOp::Upsert { line: a }, HistoryOp::Upsert { line: b }) => a@ == b@,
                (HistoryOp::Purge { line_id: a }, HistoryOp::Purge { line_id: b }) => a == b,
                (HistoryOp::Clear, HistoryOp::Clear) => true,
                _ => false,
            },
            apply_op_spec_eq(r, *self),
    {
        match self {
            HistoryOp::Upsert { line } => HistoryOp::Upsert { line: Box::new(line.duplicate()) },
            HistoryOp::Purge { line_id } => HistoryOp::Purge { line_id: *line_id },
            HistoryOp::Clear => HistoryOp::Clear,
        }
    }
}

/// Two operations change every history alike.
pub open spec fn apply_op_spec_eq(a: HistoryOp, b: HistoryOp) -> bool {
    forall|s: Seq<LineView>| #[trigger] apply_op_spec(s, a) == apply_op_spec(s, b)
}

impl HistoryStore {
    fn find_line_index(&self, line_id: LineId) -> (r: Option<usize>)
        ensures
            r is None ==> index_of_id(self.view_lines(), line_id) is None,
            r matches Some(i) ==> index_of_id(self.view_lines(), line_id) == Some(i as int) && i
                < self.lines@.len(),
    {
        let ghost s = self.view_lines();
        let mut i: usize = 0;
        while i < self.lines.len()
            invariant
                i <= self.lines@.len(),
                s == line_views(self.lines@),
                forall|j: int| 0 <= j < i ==> #[trigger] s[j].line_id != line_id,
            decreases self.lines@.len() - i,
        {
            if self.lines[i].line_id == line_id {
                proof {
                    lemma_index_of_id(s, line_id, i as int);
                }
                return Some(i);
            }
            i = i + 1;
        }
        None
    }

    /// The first line with id `line_id`.
    pub fn get_line(&self, line_id: LineId) -> (r: Option<LineRecord>)
        ensures
            match (r, line_with_id(self.view_lines(), line_id)) {
                (Some(l), Some(v)) => l@ == v,
                (None, None) => true,
                _ => false,
            },
    {
        match self.find_line_index(line_id) {
            Some(i) => Some(self.lines[i].duplicate()),
            None => None,
        }
    }

    /// The lines with the requested ids, in request order; unknown ids are skipped.
    pub fn get_lines_by_ids(&self, line_ids: &[LineId]) -> (r: Vec<LineRecord>)
        ensures
            line_views(r@) == lines_by_ids(self.view_lines(), line_ids@),
    {
        let mut r: Vec<LineRecord> = Vec::new();
        let mut k: usize = 0;
        while k < line_ids.len()
            invariant
                k <= line_ids@.len(),
                line_views(r@) == lines_by_ids(self.view_lines(), line_ids@.take(k as int)),
            decreases line_ids@.len() - k,
        {
            let ghost before = r@;
            assert(line_ids@.take(k as int + 1).drop_last() =~= line_ids@.take(k as int));
            match self.find_line_index(line_ids[k]) {
                Some(i) => {
                    r.push(self.lines[i].duplicate());
                    assert(line_views(r@) =~= line_views(before).push(self.lines@[i as int]@));
                },
                None => {},
            }
            k = k + 1;
        }
        assert(line_ids@.take(line_ids@.len() as int) =~= line_ids@);
        r
    }

    fn copy_range(&self, from: usize, to: usize) -> (r: Vec<LineRecord>)
        requires
            from <= to <= self.lines@.len(),
        ensures
            line_views(r@) == self.view_lines().subrange(from as int, to as int),
    {
        let mut r: Vec<LineRecord> = Vec::new();
        let mut k: usize = from;
        while k < to
            invariant
                from <= k <= to <= self.lines@.len(),
                line_views(r@) == self.view_lines().subrange(from as int, k as int),
            decreases to - k,
        {
            let ghost before = r@;
            r.push(self.lines[k].duplicate());
            assert(line_views(r@) =~= line_views(before).push(self.lines@[k as int]@));
            assert(self.view_lines().subrange(from as int, k as int + 1) =~= self.view_lines().subrange(
                from as int,
                k as int,
            ).push(self.view_lines()[k as int]));
            k = k + 1;
        }
        r
    }

    /// Every line, in sequence order.
    pub fn all_lines(&self) -> (r: Vec<LineRecord>)
        ensures
            line_views(r@) == self.view_lines(),
    {
        let r = self.copy_range(0, self.lines.len());
        assert(self.view_lines().subrange(0, self.lines@.len() as int) =~= self.view_lines());
        r
    }

    /// The newest sequence number, if any line exists.
    pub fn newest_seq(&self) -> (r: Option<LineSeq>)
        ensures
            self.view_lines().len() == 0 ==> r is None,
            self.view_lines().len() > 0 ==> r == Some(self.view_lines().last().line_seq),
    {
        let n = self.lines.len();
        if n == 0 {
            None
        } else {
            Some(self.lines[n - 1].line_seq)
        }
    }

    /// The newest line, if any.
    pub fn newest_line(&self) -> (r: Option<LineRecord>)
        ensures
            self.view_lines().len() == 0 ==> r is None,
            self.view_lines().len() > 0 ==> (r matches Some(l) && l@ == self.view_lines().last()),
    {
        let n = self.lines.len();
        if n == 0 {
            None
        } else {
            Some(self.lines[n - 1].duplicate())
        }
    }

    /// Changes the first line with id `line_id`; the changed line, or `None` where no
    /// line has that id. The change is the log operation `Upsert` of the changed line.
    pub fn update(&mut self, line_id: LineId, change: LineUpdate) -> (r: Option<LineRecord>)
        requires
            old(self).wf(),
        ensures
            final(self).wf(),
            final(self).next_seq == old(self).next_seq,
            log_extends(old(self).view_lines(), old(self).log@, final(self).view_lines(), final(self).log@),
            match index_of_id(old(self).view_lines(), line_id) {
                None => r is None && final(self).view_lines() == old(self).view_lines() && final(self).log
                    == old(self).log,
                Some(i) => {
                    let changed = apply_update(old(self).view_lines()[i], change);
                    &&& r matches Some(l)
                    &&& l@ == changed
                    &&& final(self).view_lines() == old(self).view_lines().update(i, changed)
                    &&& final(self).view_lines() == upsert_spec(old(self).view_lines(), changed)
                    &&& final(self).log@.len() == old(self).log@.len() + 1
                    &&& final(self).log@.drop_last() == old(self).log@
                    &&& final(self).log@.last() matches HistoryOp::Upsert { line: u } && u@ == changed
                },
            },
    {
        let ghost s = self.view_lines();
        let ghost log0 = self.log@;
        let i = match self.find_line_index(line_id) {
            None => {
                proof {
                    lemma_log_none(s, log0);
                }
                return None;
            },
            Some(i) => i,
        };
        let mut line = self.lines[i].duplicate();
        apply_change(&mut line, change);
        let result = line.duplicate();
        self.lines.set(i, line);
        proof {
            let changed = result@;
            assert(self.view_lines() =~= s.update(i as int, changed));
            assert forall|a: int, b: int| 0 <= a < b < s.len() implies self.view_lines()[a].line_seq
                < self.view_lines()[b].line_seq by {
                assert(s[a].line_seq < s[b].line_seq);
            }
            lemma_count_below_at(s, changed.line_seq as int, i as int);
        }
        let op = HistoryOp::Upsert { line: Box::new(result.duplicate()) };
        proof {
            lemma_log_one(s, log0, op);
        }
        self.log.push(op);
        assert(self.log@.drop_last() =~= log0);
        Some(result)
    }
}

fn contains_text(v: &Vec<String>, w: &String) -> (r: bool)
    ensures
        r == exists|k: int| 0 <= k < v@.len() && #[trigger] v@[k]@ == w@,
{
    let mut k: usize = 0;
    while k < v.len()
        invariant
            k <= v@.len(),
            forall|j: int| 0 <= j < k ==> #[trigger] v@[j]@ != w@,
        decreases v@.len() - k,
    {
        if v[k] == *w {
            return true;
        }
        k = k + 1;
    }
    false
}

fn apply_change(line: &mut LineRecord, change: LineUpdate)
    ensures
        final(line)@ == apply_update(old(line)@, change),
{
    match change {
        LineUpdate::SetText(t) => {
            line.text = t;
        },
        LineUpdate::SetScreenshot(a) => {
            line.screenshot = Some(a);
        },
        LineUpdate::SetAudio(a) => {
            line.audio = Some(a);
        },
        LineUpdate::AttachTrimSource(src) => {
            let current = crate::types::copy_opt_audio(&line.audio);
            match current {
                Some(AudioState::Ready { asset, duration_ms, end_reason, .. }) => {
                    line.audio = Some(
                        AudioState::Ready {
                            asset,
                            duration_ms,
                            end_reason,
                            trim_source: Some(Box::new(src)),
                            trim_recording_started_unix_ms: None,
                        },
                    );
                },
                _ => {},
            }
        },
        LineUpdate::ClearTrimRecording => {
            let current = crate::types::copy_opt_audio(&line.audio);
            match current {
                Some(AudioState::Ready { asset, duration_ms, end_reason, trim_source, .. }) => {
                    line.audio = Some(
                        AudioState::Ready {
                            asset,
                            duration_ms,
                            end_reason,
                            trim_source,
                            trim_recording_started_unix_ms: None,
                        },
                    );
                },
                _ => {},
            }
        },
        LineUpdate::AddWarning(w) => {
            if !contains_text(&line.warnings, &w) {
                line.warnings.push(w);
            }
        },
    }
}

/// The page size that a requested limit gives (1 to 500).
pub open spec fn page_limit(limit: usize) -> int {
    if limit < 1 {
        1
    } else if limit > 500 {
        500
    } else {
        limit as int
    }
}

/// The positions `start..end` of the lines on a page: the first lines after
/// `after_seq`, else the last lines before `before_seq`, else the newest lines.
pub open spec fn page_bounds(
    s: Seq<LineView>,
    limit: usize,
    before_seq: Option<LineSeq>,
    after_seq: Option<LineSeq>,
) -> (int, int) {
    let l = page_limit(limit);
    match after_seq {
        Some(a) => {
            let c = count_at_most(s, a as int) as int;
            (c, if c + l < s.len() {
                c + l
            } else {
                s.len() as int
            })
        },
        None => match before_seq {
            Some(b) => {
                let c = count_below(s, b as int) as int;
                (if c - l > 0 {
                    c - l
                } else {
                    0
                }, c)
            },
            None => (if s.len() - l > 0 {
                s.len() - l
            } else {
                0
            }, s.len() as int),
        },
    }
}

/// What a page holds for the history `s`.
pub open spec fn page_describes(
    p: LineHistoryPage,
    s: Seq<LineView>,
    limit: usize,
    before_seq: Option<LineSeq>,
    after_seq: Option<LineSeq>,
) -> bool {
    let (start, end) = page_bounds(s, limit, before_seq, after_seq);
    &&& line_views(p.lines@) == s.subrange(start, end)
    &&& p.oldest_seq == (if start < end {
        Some(s[start].line_seq)
    } else {
        None
    })
    &&& p.newest_seq == (if start < end {
        Some(s[end - 1].line_seq)
    } else {
        None
    })
    &&& p.has_more_older == (start < end && exists|i: int|
        0 <= i < s.len() && #[trigger] s[i].line_seq < s[start].line_seq)
    &&& p.has_more_newer == (start < end && exists|i: int|
        0 <= i < s.len() && #[trigger] s[i].line_seq > s[end - 1].line_seq)
}

proof fn lemma_after_page_newer(
    p: LineHistoryPage,
    s: Seq<LineView>,
    limit: usize,
    before_seq: Option<LineSeq>,
    a: LineSeq,
)
    requires
        sorted_by_seq(s),
        page_describes(p, s, limit, before_seq, Some(a)),
    ensures
        p.has_more_newer <==> exists|i: int|
            0 <= i < s.len() && s[i].line_seq > a && !line_views(p.lines@).contains(#[trigger] s[i]),
{
    let got = line_views(p.lines@);
    lemma_count_below(s, a as int + 1);
    let c = count_at_most(s, a as int) as int;
    let (start, end) = page_bounds(s, limit, before_seq, Some(a));
    assert(got == s.subrange(start, end));
    if p.has_more_newer {
        let i = choose|i: int| 0 <= i < s.len() && #[trigger] s[i].line_seq > s[end - 1].line_seq;
        assert(i >= end) by {
            if i < end {
                assert(s[i].line_seq <= s[end - 1].line_seq);
            }
        }
        assert(s[i].line_seq > a) by {
            assert(s[end - 1].line_seq > a);
        }
        assert(!got.contains(s[i])) by {
            if got.contains(s[i]) {
                let k = choose|k: int| 0 <= k < got.len() && got[k] == s[i];
                assert(got[k] == s[c + k]);
                assert(s[c + k].line_seq < s[i].line_seq);
            }
        }
    }
    if exists|i: int| 0 <= i < s.len() && s[i].line_seq > a && !got.contains(#[trigger] s[i]) {
        let i = choose|i: int| 0 <= i < s.len() && s[i].line_seq > a && !got.contains(#[trigger] s[i]);
        assert(i >= c);
        assert(i >= end) by {
            if i < end {
                assert(got[i - c] == s[i]);
            }
        }
        assert(start < end) by {
            if start >= end {
                assert(page_limit(limit) >= 1);
            }
        }
        assert(s[i].line_seq > s[end - 1].line_seq);
    }
}

/// What a page of the last lines below `bound` holds, in terms of the lines.
pub open spec fn holds_last_lines_below(p: LineHistoryPage, s: Seq<LineView>, limit: usize, bound: int) -> bool {
    let got = line_views(p.lines@);
    let cap: int = if limit < 1 {
        1
    } else if limit > 500 {
        500
    } else {
        limit as int
    };
    &&& got.len() <= cap
    &&& forall|k: int| 0 <= k < got.len() ==> #[trigger] got[k].line_seq < bound
    &&& forall|j: int, k: int| 0 <= j < k < got.len() ==> got[j].line_seq < got[k].line_seq
    &&& got.len() == cap || forall|i: int| 0 <= i < s.len() && s[i].line_seq < bound ==> got.contains(#[trigger] s[i])
    &&& forall|i: int|
        0 <= i < s.len() && s[i].line_seq < bound && !got.contains(#[trigger] s[i]) ==> forall|k: int|
            0 <= k < got.len() ==> s[i].line_seq < got[k].line_seq
    &&& p.has_more_older <==> exists|i: int|
        0 <= i < s.len() && s[i].line_seq < bound && !got.contains(#[trigger] s[i])
}

proof fn lemma_last_lines_below(p: LineHistoryPage, s: Seq<LineView>, limit: usize, bound: int)
    requires
        sorted_by_seq(s),
        ({
            let e = count_below(s, bound) as int;
            let st = if e - page_limit(limit) > 0 {
                e - page_limit(limit)
            } else {
                0
            };
            &&& line_views(p.lines@) == s.subrange(st, e)
            &&& p.has_more_older == (st < e && exists|i: int|
                0 <= i < s.len() && #[trigger] s[i].line_seq < s[st].line_seq)
        }),
    ensures
        holds_last_lines_below(p, s, limit, bound),
{
    let got = line_views(p.lines@);
    lemma_count_below(s, bound);
    let e = count_below(s, bound) as int;
    let st = if e - page_limit(limit) > 0 {
        e - page_limit(limit)
    } else {
        0
    };
    assert forall|k: int| 0 <= k < got.len() implies #[trigger] got[k].line_seq < bound by {
        assert(got[k] == s[st + k]);
    }
    assert forall|j: int, k: int| 0 <= j < k < got.len() implies got[j].line_seq < got[k].line_seq by {
        assert(got[j] == s[st + j]);
        assert(got[k] == s[st + k]);
    }
    assert forall|i: int| 0 <= i < s.len() && s[i].line_seq < bound && got.len() != page_limit(limit) implies got.contains(
        #[trigger] s[i],
    ) by {
        assert(i < e);
        assert(st == 0);
        assert(got[i] == s[i]);
    }
    assert forall|i: int|
        0 <= i < s.len() && s[i].line_seq < bound && !got.contains(#[trigger] s[i]) implies forall|k: int|
        0 <= k < got.len() ==> s[i].line_seq < got[k].line_seq by {
        assert(i < e);
        if i >= st {
            assert(got[i - st] == s[i]);
        }
        assert forall|k: int| 0 <= k < got.len() implies s[i].line_seq < got[k].line_seq by {
            assert(got[k] == s[st + k]);
        }
    }
    if p.has_more_older {
        let i = choose|i: int| 0 <= i < s.len() && #[trigger] s[i].line_seq < s[st].line_seq;
        assert(i < st) by {
            if i >= st {
                assert(s[st].line_seq <= s[i].line_seq);
            }
        }
        assert(!got.contains(s[i])) by {
            if got.contains(s[i]) {
                let k = choose|k: int| 0 <= k < got.len() && got[k] == s[i];
                assert(got[k] == s[st + k]);
            }
        }
    }
    if exists|i: int| 0 <= i < s.len() && s[i].line_seq < bound && !got.contains(#[trigger] s[i]) {
        let i = choose|i: int| 0 <= i < s.len() && s[i].line_seq < bound && !got.contains(#[trigger] s[i]);
        assert(i < e);
        assert(i < st) by {
            if i >= st {
                assert(got[i - st] == s[i]);
            }
        }
        assert(s[i].line_seq < s[st].line_seq);
    }
}

/// A page before sequence number `b` (with no later bound) holds the last lines before
/// `b`, in order: each is before `b`, there are at most as many as the clamped limit,
/// it is full unless it holds every line before `b`, every line before `b` that it
/// leaves out comes before all of its lines, and it says there are older lines exactly
/// where it left some out.
pub proof fn lemma_before_page(p: LineHistoryPage, s: Seq<LineView>, limit: usize, b: LineSeq)
    requires
        sorted_by_seq(s),
        page_describes(p, s, limit, Some(b), None),
    ensures
        holds_last_lines_below(p, s, limit, b as int),
{
    lemma_last_lines_below(p, s, limit, b as int);
}

/// The newest page holds the newest lines, in order, as many as the clamped limit
/// allows, and says there are older lines exactly where it left some out.
pub proof fn lemma_newest_page(p: LineHistoryPage, s: Seq<LineView>, limit: usize)
    requires
        sorted_by_seq(s),
        page_describes(p, s, limit, None, None),
    ensures
        holds_last_lines_below(p, s, limit, u64::MAX as int + 1),
{
    lemma_count_below(s, u64::MAX as int + 1);
    assert(count_below(s, u64::MAX as int + 1) == s.len()) by {
        if count_below(s, u64::MAX as int + 1) < s.len() {
            let j = count_below(s, u64::MAX as int + 1) as int;
            assert(s[j].line_seq >= u64::MAX as int + 1);
        }
    }
    lemma_last_lines_below(p, s, limit, u64::MAX as int + 1);
}

/// A page after sequence number `a` holds the first lines after `a`, in order: every
/// line on it is after `a`, there are at most as many as the clamped limit (1 to 500),
/// it is full unless it holds every line after `a`, and every line after `a` that it
/// leaves out comes after all of its lines.
pub proof fn lemma_after_page(
    p: LineHistoryPage,
    s: Seq<LineView>,
    limit: usize,
    before_seq: Option<LineSeq>,
    a: LineSeq,
)
    requires
        sorted_by_seq(s),
        page_describes(p, s, limit, before_seq, Some(a)),
    ensures
        ({
            let got = line_views(p.lines@);
            let cap: int = if limit < 1 {
                1
            } else if limit > 500 {
                500
            } else {
                limit as int
            };
            &&& got.len() <= cap
            &&& forall|k: int| 0 <= k < got.len() ==> #[trigger] got[k].line_seq > a
            &&& forall|j: int, k: int| 0 <= j < k < got.len() ==> got[j].line_seq < got[k].line_seq
            &&& got.len() == cap || forall|i: int| 0 <= i < s.len() && s[i].line_seq > a ==> got.contains(
                #[trigger] s[i],
            )
            &&& forall|i: int|
                0 <= i < s.len() && s[i].line_seq > a && !got.contains(#[trigger] s[i]) ==> forall|k: int|
                    0 <= k < got.len() ==> got[k].line_seq < s[i].line_seq
            &&& p.has_more_newer <==> exists|i: int|
                0 <= i < s.len() && s[i].line_seq > a && !got.contains(#[trigger] s[i])
        }),
{
    let got = line_views(p.lines@);
    lemma_after_page_newer(p, s, limit, before_seq, a);
    lemma_count_below(s, a as int + 1);
    let c = count_at_most(s, a as int) as int;
    let (start, end) = page_bounds(s, limit, before_seq, Some(a));
    assert(start == c);
    assert(got == s.subrange(start, end));
    assert forall|i: int| 0 <= i < s.len() && s[i].line_seq > a implies (got.len() == end - start && (
    end - start == page_limit(limit) || got.contains(#[trigger] s[i]))) by {
        if end - start != page_limit(limit) {
            assert(end == s.len());
            assert(i >= c);
            assert(got[i - c] == s[i]);
        }
    }
    assert forall|i: int|
        0 <= i < s.len() && s[i].line_seq > a && !got.contains(#[trigger] s[i]) implies forall|k: int|
        0 <= k < got.len() ==> got[k].line_seq < s[i].line_seq by {
        assert(i >= c);
        if i < end {
            assert(got[i - c] == s[i]);
        }
        assert forall|k: int| 0 <= k < got.len() implies got[k].line_seq < s[i].line_seq by {
            assert(got[k] == s[c + k]);
        }
    }
    assert forall|k: int| 0 <= k < got.len() implies #[trigger] got[k].line_seq > a by {
        assert(got[k] == s[c + k]);
    }
    assert forall|j: int, k: int| 0 <= j < k < got.len() implies got[j].line_seq < got[k].line_seq by {
        assert(got[j] == s[c + j]);
        assert(got[k] == s[c + k]);
    }
}

impl HistoryStore {
    fn count_seq_below(&self, bound: LineSeq, inclusive: bool) -> (c: usize)
        requires
            self.wf(),
        ensures
            c <= self.lines@.len(),
            c == count_below(self.view_lines(), if inclusive {
                bound + 1
            } else {
                bound as int
            }),
    {
        let ghost b: int = if inclusive { bound + 1 } else { bound as int };
        let ghost s = self.view_lines();
        let mut i: usize = 0;
        while i < self.lines.len() && (self.lines[i].line_seq < bound || (inclusive
            && self.lines[i].line_seq == bound))
            invariant
                i <= self.lines@.len(),
                s == line_views(self.lines@),
                b == (if inclusive {
                    bound + 1
                } else {
                    bound as int
                }),
                forall|j: int| 0 <= j < i ==> #[trigger] s[j].line_seq < b,
            decreases self.lines@.len() - i,
        {
            i = i + 1;
        }
        proof {
            lemma_count_below_at(s, b, i as int);
        }
        i
    }

    /// A page of at most `limit` lines (clamped to 1..=500) in sequence order.
    pub fn page(&self, limit: usize, before_seq: Option<LineSeq>, after_seq: Option<LineSeq>) -> (p:
        LineHistoryPage)
        requires
            self.wf(),
            after_seq != Some(u64::MAX),
            self.view_lines().len() > 0 ==> self.view_lines().last().line_seq < u64::MAX,
        ensures
            page_describes(p, self.view_lines(), limit, before_seq, after_seq),
    {
        let ghost s = self.view_lines();
        let n = self.lines.len();
        let l: usize = if limit < 1 { 1 } else if limit > 500 { 500 } else { limit };
        let (start, end) = match after_seq {
            Some(a) => {
                let c = self.count_seq_below(a, true);
                (c, if l < n && c < n - l { c + l } else { n })
            },
            None => match before_seq {
                Some(b) => {
                    let c = self.count_seq_below(b, false);
                    (if c > l { c - l } else { 0 }, c)
                },
                None => (if n > l { n - l } else { 0 }, n),
            },
        };
        assert((start as int, end as int) == page_bounds(s, limit, before_seq, after_seq));
        let lines = self.copy_range(start, end);
        let oldest_seq = if start < end { Some(self.lines[start].line_seq) } else { None };
        let newest_seq = if start < end { Some(self.lines[end - 1].line_seq) } else { None };
        let has_more_older = start < end && start > 0;
        let has_more_newer = start < end && end < n;
        proof {
            if start < end {
                assert(s[start as int] == self.lines@[start as int]@);
                assert(s[end - 1] == self.lines@[end - 1]@);
                if start > 0 {
                    assert(s[0].line_seq < s[start as int].line_seq);
                } else {
                    assert forall|i: int| 0 <= i < s.len() implies !(#[trigger] s[i].line_seq
                        < s[start as int].line_seq) by {
                        if i > 0 {
                            assert(s[0].line_seq < s[i].line_seq);
                        }
                    }
                }
                if end < n {
                    assert(s[end as int].line_seq > s[end - 1].line_seq);
                } else {
                    assert forall|i: int| 0 <= i < s.len() implies !(#[trigger] s[i].line_seq > s[end
                        - 1].line_seq) by {
                        if i < end - 1 {
                            assert(s[i].line_seq < s[end - 1].line_seq);
                        }
                    }
                }
            }
        }
        LineHistoryPage { lines, oldest_seq, newest_seq, has_more_older, has_more_newer }
    }
}

} // verus!
