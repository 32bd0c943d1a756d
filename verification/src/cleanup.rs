//! Which lines refer to which assets, and purging the lines whose assets expired.
use vstd::prelude::*;
use crate::history::{
    has_id, lemma_purge_members, lemma_purge_removes, log_extends, purge_spec, replay, HistoryOp, HistoryStore,
};
use crate::text::{chars_to_string, decimal, decimal_chars, extend_chars, extend_str, owned};
use crate::types::{
    line_views, AssetInfo, AudioState, BrowserEvent, ErrorEvent, LineId, LineRecord, LineSeq,
    LineView,
};

verus! {

/// The assets that audio refers to: the ready clip and its trim source.
pub open spec fn audio_assets_spec(audio: AudioState) -> Seq<AssetInfo> {
    match audio {
        AudioState::Ready { asset, trim_source, .. } => match trim_source {
            Some(t) => seq![asset, t.asset],
            None => seq![asset],
        },
        _ => Seq::empty(),
    }
}

/// The assets a line refers to: its screenshot, then its audio's assets.
pub open spec fn line_assets_spec(screenshot: Option<AssetInfo>, audio: Option<AudioState>) -> Seq<
    AssetInfo,
> {
    (match screenshot {
        Some(a) => seq![a],
        None => Seq::empty(),
    }) + (match audio {
        Some(a) => audio_assets_spec(a),
        None => Seq::empty(),
    })
}

/// The assets that audio refers to.
pub fn audio_assets(audio: &AudioState) -> (r: Vec<AssetInfo>)
    ensures
        r@ == audio_assets_spec(*audio),
{
    let mut r: Vec<AssetInfo> = Vec::new();
    match audio {
        AudioState::Ready { asset, trim_source, .. } => {
            r.push(asset.duplicate());
            match trim_source {
                Some(t) => r.push(t.asset.duplicate()),
                None => {},
            }
        },
        _ => {},
    }
    assert(r@ =~= audio_assets_spec(*audio));
    r
}

/// The assets a line refers to.
pub fn line_assets(line: &LineRecord) -> (r: Vec<AssetInfo>)
    ensures
        r@ == line_assets_spec(line.screenshot, line.audio),
{
    let mut r: Vec<AssetInfo> = Vec::new();
    match &line.screenshot {
        Some(a) => r.push(a.duplicate()),
        None => {},
    }
    let ghost first = r@;
    match &line.audio {
        Some(a) => {
            let more = audio_assets(a);
            let mut i: usize = 0;
            while i < more.len()
                invariant
                    i <= more@.len(),
                    r@ == first + more@.take(i as int),
                decreases more@.len() - i,
            {
                r.push(more[i].duplicate());
                assert(more@.take(i as int + 1) =~= more@.take(i as int).push(more@[i as int]));
                i = i + 1;
            }
            assert(more@.take(more@.len() as int) =~= more@);
        },
        None => {},
    }
    assert(r@ =~= line_assets_spec(line.screenshot, line.audio));
    r
}

/// Whether a line refers to any of the removed assets.
pub open spec fn references_any(screenshot: Option<AssetInfo>, audio: Option<AudioState>, removed: Seq<String>) -> bool {
    let assets = line_assets_spec(screenshot, audio);
    exists|a: int, k: int|
        0 <= a < assets.len() && 0 <= k < removed.len() && #[trigger] removed[k]@
            == #[trigger] assets[a].asset_id@
}

/// Whether a line refers to any of the removed assets.
pub fn line_references_any_asset(line: &LineRecord, removed: &[String]) -> (r: bool)
    ensures
        r == references_any(line.screenshot, line.audio, removed@),
{
    let assets = line_assets(line);
    let mut a: usize = 0;
    while a < assets.len()
        invariant
            a <= assets@.len(),
            assets@ == line_assets_spec(line.screenshot, line.audio),
            forall|x: int, k: int|
                0 <= x < a && 0 <= k < removed@.len() ==> #[trigger] removed@[k]@
                    != #[trigger] assets@[x].asset_id@,
        decreases assets@.len() - a,
    {
        let mut k: usize = 0;
        while k < removed.len()
            invariant
                a < assets@.len(),
                assets@ == line_assets_spec(line.screenshot, line.audio),
                k <= removed@.len(),
                forall|j: int| 0 <= j < k ==> #[trigger] removed@[j]@ != assets@[a as int].asset_id@,
            decreases removed@.len() - k,
        {
            if removed[k] == assets[a].asset_id {
                assert(removed@[k as int]@ == assets@[a as int].asset_id@);
                return true;
            }
            k = k + 1;
        }
        a = a + 1;
    }
    false
}

/// The history and the purged `(seq, id)` pairs after going through `snapshot` in order,
/// purging each line that refers to a removed asset and whose id is still present.
pub open spec fn purge_referencing(
    start: Seq<LineView>,
    snapshot: Seq<LineView>,
    removed: Seq<String>,
) -> (Seq<LineView>, Seq<(LineSeq, LineId)>)
    decreases snapshot.len(),
{
    if snapshot.len() == 0 {
        (start, Seq::empty())
    } else {
        let (s, purged) = purge_referencing(start, snapshot.drop_last(), removed);
        let l = snapshot.last();
        if references_any(l.screenshot, l.audio, removed) && has_id(s, l.line_id) {
            (purge_spec(s, l.line_id), purged.push((l.line_seq, l.line_id)))
        } else {
            (s, purged)
        }
    }
}

proof fn lemma_purge_prefix(start: Seq<LineView>, snapshot: Seq<LineView>, removed: Seq<String>)
    ensures
        forall|i: int|
            0 <= i < purge_referencing(start, snapshot, removed).0.len() ==> start.contains(
                #[trigger] purge_referencing(start, snapshot, removed).0[i],
            ),
        forall|k: int|
            0 <= k < snapshot.len() && references_any(
                #[trigger] snapshot[k].screenshot,
                snapshot[k].audio,
                removed,
            ) ==> !has_id(purge_referencing(start, snapshot, removed).0, snapshot[k].line_id),
    decreases snapshot.len(),
{
    if snapshot.len() > 0 {
        let d = snapshot.drop_last();
        lemma_purge_prefix(start, d, removed);
        let (s, p) = purge_referencing(start, d, removed);
        let l = snapshot.last();
        let r = purge_referencing(start, snapshot, removed).0;
        if references_any(l.screenshot, l.audio, removed) && has_id(s, l.line_id) {
            lemma_purge_members(s, l.line_id);
            lemma_purge_removes(s, l.line_id);
            assert forall|i: int| 0 <= i < r.len() implies start.contains(#[trigger] r[i]) by {
                let j = choose|j: int| 0 <= j < s.len() && #[trigger] r[i] == s[j];
                assert(start.contains(s[j]));
            }
            assert forall|k: int|
                0 <= k < snapshot.len() && references_any(
                    #[trigger] snapshot[k].screenshot,
                    snapshot[k].audio,
                    removed,
                ) implies !has_id(r, snapshot[k].line_id) by {
                if k < d.len() {
                    assert(snapshot[k] == d[k]);
                    assert(!has_id(s, d[k].line_id));
                    if has_id(r, snapshot[k].line_id) {
                        let x = choose|x: int| 0 <= x < r.len() && #[trigger] r[x].line_id == snapshot[k].line_id;
                        let j = choose|j: int| 0 <= j < s.len() && #[trigger] r[x] == s[j];
                        assert(s[j].line_id == d[k].line_id);
                    }
                }
            }
        } else {
            assert forall|k: int|
                0 <= k < snapshot.len() && references_any(
                    #[trigger] snapshot[k].screenshot,
                    snapshot[k].audio,
                    removed,
                ) implies !has_id(r, snapshot[k].line_id) by {
                if k < d.len() {
                    assert(snapshot[k] == d[k]);
                }
            }
        }
    }
}

/// Lines that refer to removed assets are purged with them: once the history has been
/// gone through, no remaining line refers to a removed asset, and every remaining line
/// was there before.
pub proof fn lemma_purge_leaves_no_reference(start: Seq<LineView>, removed: Seq<String>)
    ensures
        ({
            let r = purge_referencing(start, start, removed).0;
            &&& forall|i: int| 0 <= i < r.len() ==> start.contains(#[trigger] r[i])
            &&& forall|i: int| 0 <= i < r.len() ==> !references_any(#[trigger] r[i].screenshot, r[i].audio, removed)
        }),
{
    lemma_purge_prefix(start, start, removed);
    let r = purge_referencing(start, start, removed).0;
    assert forall|i: int| 0 <= i < r.len() implies !references_any(#[trigger] r[i].screenshot, r[i].audio, removed) by {
        assert(start.contains(r[i]));
        let j = choose|j: int| 0 <= j < start.len() && start[j] == r[i];
        if references_any(r[i].screenshot, r[i].audio, removed) {
            assert(references_any(start[j].screenshot, start[j].audio, removed));
            assert(!has_id(r, start[j].line_id));
            assert(r[i].line_id == start[j].line_id);
        }
    }
}

/// The log operations that record purging the lines `purged`, in order.
pub open spec fn purge_ops(purged: Seq<(LineSeq, LineId)>) -> Seq<HistoryOp> {
    purged.map_values(|x: (LineSeq, LineId)| HistoryOp::Purge { line_id: x.1 })
}

/// Purging the lines that refer to removed assets is what its log operations replay.
proof fn lemma_purge_replay(start: Seq<LineView>, snapshot: Seq<LineView>, removed: Seq<String>)
    ensures
        replay(start, purge_ops(purge_referencing(start, snapshot, removed).1)) == purge_referencing(
            start,
            snapshot,
            removed,
        ).0,
    decreases snapshot.len(),
{
    if snapshot.len() == 0 {
        assert(purge_ops(Seq::<(LineSeq, LineId)>::empty()) =~= Seq::<HistoryOp>::empty());
    } else {
        lemma_purge_replay(start, snapshot.drop_last(), removed);
        let (s, p) = purge_referencing(start, snapshot.drop_last(), removed);
        let l = snapshot.last();
        if references_any(l.screenshot, l.audio, removed) && has_id(s, l.line_id) {
            let p2 = p.push((l.line_seq, l.line_id));
            assert(purge_ops(p2) =~= purge_ops(p).push(HistoryOp::Purge { line_id: l.line_id }));
            assert(purge_ops(p2).drop_last() =~= purge_ops(p));
        }
    }
}

/// Purges the lines that refer to removed assets; the purged `(seq, id)` pairs in
/// history order.
pub fn purge_lines_with_assets(history: &mut HistoryStore, removed: &[String]) -> (r: Vec<(LineSeq, LineId)>)
    requires
        old(history).wf(),
    ensures
        final(history).wf(),
        final(history).next_seq == old(history).next_seq,
        (final(history).view_lines(), r@) == purge_referencing(
            old(history).view_lines(),
            old(history).view_lines(),
            removed@,
        ),
        final(history).log@ == old(history).log@ + purge_ops(r@),
        log_extends(old(history).view_lines(), old(history).log@, final(history).view_lines(), final(history).log@),
{
    let ghost start = history.view_lines();
    let snapshot = history.all_lines();
    let mut purged: Vec<(LineSeq, LineId)> = Vec::new();
    let mut i: usize = 0;
    while i < snapshot.len()
        invariant
            i <= snapshot@.len(),
            history.wf(),
            history.next_seq == old(history).next_seq,
            line_views(snapshot@) == start,
            (history.view_lines(), purged@) == purge_referencing(
                start,
                start.take(i as int),
                removed@,
            ),
            history.log@ == old(history).log@ + purge_ops(purged@),
        decreases snapshot@.len() - i,
    {
        assert(start.take(i as int + 1).drop_last() =~= start.take(i as int));
        assert(start.take(i as int + 1).last() == snapshot@[i as int]@);
        let line = &snapshot[i];
        let ghost s_before = history.view_lines();
        let ghost p_before = purged@;
        let ghost l = start.take(i as int + 1).last();
        assert(l == line@);
        assert(purge_referencing(start, start.take(i as int + 1), removed@) == (if references_any(
            l.screenshot,
            l.audio,
            removed@,
        ) && has_id(s_before, l.line_id) {
            (purge_spec(s_before, l.line_id), p_before.push((l.line_seq, l.line_id)))
        } else {
            (s_before, p_before)
        }));
        if line_references_any_asset(line, removed) {
            proof {
                if !has_id(s_before, l.line_id) {
                    crate::history::lemma_purge_absent(s_before, l.line_id);
                }
            }
            let ghost log_before = history.log@;
            if history.purge_line(line.line_id) {
                purged.push((line.line_seq, line.line_id));
                assert(purged@ == p_before.push((l.line_seq, l.line_id)));
                assert(purge_ops(purged@) =~= purge_ops(p_before).push(HistoryOp::Purge { line_id: l.line_id }));
                assert(history.log@ =~= old(history).log@ + purge_ops(purged@));
            }
        }
        assert((history.view_lines(), purged@) == purge_referencing(
            start,
            start.take(i as int + 1),
            removed@,
        ));
        i = i + 1;
    }
    assert(start.take(snapshot@.len() as int) =~= start);
    proof {
        lemma_purge_replay(start, start, removed@);
        let log0 = old(history).log@;
        assert(history.log@.take(log0.len() as int) =~= log0);
        assert(history.log@.skip(log0.len() as int) =~= purge_ops(purged@));
    }
    purged
}

/// The text of the event that reports a purged line.
pub open spec fn purged_message(line_id: LineId) -> Seq<char> {
    "line "@ + decimal(line_id as nat) + " purged with expired assets"@
}

/// The event that tells browsers a line was purged with its expired assets.
pub fn line_purged_event(line_id: LineId) -> (e: BrowserEvent)
    ensures
        e matches BrowserEvent::Error(err) && err.code@ == "line_purged"@ && err.message@
            == purged_message(line_id),
{
    let mut v: Vec<char> = Vec::new();
    extend_str(&mut v, "line ");
    let d = decimal_chars(line_id);
    extend_chars(&mut v, &d);
    extend_str(&mut v, " purged with expired assets");
    BrowserEvent::Error(ErrorEvent { code: owned("line_purged"), message: chars_to_string(&v) })
}

} // verus!
