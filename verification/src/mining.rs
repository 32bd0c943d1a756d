//! Preparing a card from a range of lines: the lines in order, the sentence, the
//! screenshot, the audio clips and the source title.
use vstd::prelude::*;
use crate::history::{lines_by_ids, HistoryStore};
use crate::text::{chars_to_string, extend_chars, owned, str_chars, trim_str, trimmed};
use crate::types::{
    line_views, AssetInfo, AudioState, LineId, LineRecord, LineView, RangeScreenshotPick,
};

verus! {

/// The screenshot of the first line that has one.
pub open spec fn first_screenshot(s: Seq<LineView>) -> Option<AssetInfo>
    decreases s.len(),
{
    if s.len() == 0 {
        None
    } else {
        match s[0].screenshot {
            Some(a) => Some(a),
            None => first_screenshot(s.drop_first()),
        }
    }
}

/// The screenshot of the last line that has one.
pub open spec fn last_screenshot(s: Seq<LineView>) -> Option<AssetInfo>
    decreases s.len(),
{
    if s.len() == 0 {
        None
    } else {
        match s.last().screenshot {
            Some(a) => Some(a),
            None => last_screenshot(s.drop_last()),
        }
    }
}

/// The screenshot a card uses: of the first or of the last line that has one.
pub fn pick_screenshot(lines: &[LineRecord], pick: RangeScreenshotPick) -> (r: Option<AssetInfo>)
    ensures
        r == (match pick {
            RangeScreenshotPick::First => first_screenshot(line_views(lines@)),
            RangeScreenshotPick::Last => last_screenshot(line_views(lines@)),
        }),
{
    let ghost s = line_views(lines@);
    match pick {
        RangeScreenshotPick::First => {
            assert(s.skip(0) =~= s);
            let mut i: usize = 0;
            while i < lines.len()
                invariant
                    i <= lines@.len(),
                    s == line_views(lines@),
                    first_screenshot(s) == first_screenshot(s.skip(i as int)),
                    pick == RangeScreenshotPick::First,
                decreases lines@.len() - i,
            {
                assert(s.skip(i as int).drop_first() =~= s.skip(i as int + 1));
                assert(s.skip(i as int)[0] == lines@[i as int]@);
                match &lines[i].screenshot {
                    Some(a) => {
                        assert(first_screenshot(s.skip(i as int)) == Some(*a));
                        return Some(a.duplicate());
                    },
                    None => {},
                }
                i = i + 1;
            }
            None
        },
        RangeScreenshotPick::Last => {
            assert(s.take(lines@.len() as int) =~= s);
            let mut i: usize = lines.len();
            while i > 0
                invariant
                    i <= lines@.len(),
                    s == line_views(lines@),
                    last_screenshot(s) == last_screenshot(s.take(i as int)),
                    pick == RangeScreenshotPick::Last,
                decreases i,
            {
                assert(s.take(i as int).drop_last() =~= s.take(i as int - 1));
                assert(s.take(i as int).last() == lines@[i - 1]@);
                match &lines[i - 1].screenshot {
                    Some(a) => {
                        assert(last_screenshot(s.take(i as int)) == Some(*a));
                        return Some(a.duplicate());
                    },
                    None => {},
                }
                i = i - 1;
            }
            None
        },
    }
}

/// The ready clips of the lines, in line order.
pub open spec fn ready_audio_spec(s: Seq<LineView>) -> Seq<AssetInfo>
    decreases s.len(),
{
    if s.len() == 0 {
        Seq::empty()
    } else {
        match s.last().audio {
            Some(AudioState::Ready { asset, .. }) => ready_audio_spec(s.drop_last()).push(asset),
            _ => ready_audio_spec(s.drop_last()),
        }
    }
}

/// The ready clips of the lines, in line order.
pub fn ready_audio_assets(lines: &[LineRecord]) -> (r: Vec<AssetInfo>)
    ensures
        r@ == ready_audio_spec(line_views(lines@)),
{
    let ghost s = line_views(lines@);
    let mut r: Vec<AssetInfo> = Vec::new();
    let mut i: usize = 0;
    while i < lines.len()
        invariant
            i <= lines@.len(),
            s == line_views(lines@),
            r@ == ready_audio_spec(s.take(i as int)),
        decreases lines@.len() - i,
    {
        assert(s.take(i as int + 1).drop_last() =~= s.take(i as int));
        assert(s.take(i as int + 1).last() == lines@[i as int]@);
        match &lines[i].audio {
            Some(AudioState::Ready { asset, .. }) => r.push(asset.duplicate()),
            _ => {},
        }
        i = i + 1;
    }
    assert(s.take(lines@.len() as int) =~= s);
    r
}

/// The source title a card records: the window title, trimmed, or empty.
pub open spec fn mining_source_spec(l: LineView) -> Seq<char> {
    match l.meta.window_title {
        Some(t) => trimmed(t@),
        None => Seq::empty(),
    }
}

/// The source title a card records.
pub fn mining_source(line: &LineRecord) -> (r: String)
    ensures
        r@ == mining_source_spec(line@),
{
    match &line.meta.window_title {
        Some(t) => {
            let c = trim_str(t.as_str());
            chars_to_string(&c)
        },
        None => String::new(),
    }
}

/// The trimmed texts of the lines that are not empty, joined by `sep`.
pub open spec fn sentence_spec(s: Seq<LineView>, sep: Seq<char>) -> Seq<char>
    decreases s.len(),
{
    if s.len() == 0 {
        Seq::empty()
    } else {
        let head = sentence_spec(s.drop_last(), sep);
        let t = trimmed(s.last().text@);
        if t.len() == 0 {
            head
        } else if !has_text(s.drop_last()) {
            t
        } else {
            head + sep + t
        }
    }
}

/// Whether some line's trimmed text is not empty.
pub open spec fn has_text(s: Seq<LineView>) -> bool {
    exists|i: int| 0 <= i < s.len() && #[trigger] trimmed(s[i].text@).len() > 0
}

/// The screenshot a card uses when it asks for the first: that of a line that has one,
/// with no line before it having one; none only where no line has one.
pub proof fn lemma_first_screenshot(s: Seq<LineView>)
    ensures
        first_screenshot(s) is None <==> forall|i: int| 0 <= i < s.len() ==> #[trigger] s[i].screenshot is None,
        first_screenshot(s) matches Some(a) ==> exists|i: int|
            0 <= i < s.len() && s[i].screenshot == Some(a) && forall|j: int| 0 <= j < i ==> #[trigger] s[j].screenshot is None,
    decreases s.len(),
{
    if s.len() > 0 {
        let t = s.drop_first();
        lemma_first_screenshot(t);
        assert forall|i: int| 0 <= i < t.len() implies #[trigger] t[i] == s[i + 1] by {}
        if s[0].screenshot is None {
            if first_screenshot(t) is None {
                assert forall|i: int| 0 <= i < s.len() implies #[trigger] s[i].screenshot is None by {
                    if i > 0 {
                        assert(t[i - 1] == s[i]);
                    }
                }
            } else {
                let k = choose|i: int| 0 <= i < t.len() && t[i].screenshot == first_screenshot(t) && forall|j: int|
                    0 <= j < i ==> #[trigger] t[j].screenshot is None;
                assert(s[k + 1].screenshot == first_screenshot(s));
                assert forall|j: int| 0 <= j < k + 1 implies #[trigger] s[j].screenshot is None by {
                    if j > 0 {
                        assert(t[j - 1] == s[j]);
                    }
                }
                assert(!(s[k + 1].screenshot is None));
            }
        } else {
            assert(!(s[0].screenshot is None));
        }
    }
}

/// The screenshot a card uses when it asks for the last: that of a line that has one,
/// with no line after it having one; none only where no line has one.
pub proof fn lemma_last_screenshot(s: Seq<LineView>)
    ensures
        last_screenshot(s) is None <==> forall|i: int| 0 <= i < s.len() ==> #[trigger] s[i].screenshot is None,
        last_screenshot(s) matches Some(a) ==> exists|i: int|
            0 <= i < s.len() && s[i].screenshot == Some(a) && forall|j: int| i < j < s.len() ==> #[trigger] s[j].screenshot is None,
    decreases s.len(),
{
    if s.len() > 0 {
        let t = s.drop_last();
        lemma_last_screenshot(t);
        let n = s.len() - 1;
        if s[n].screenshot is None {
            assert(s.last() == s[n]);
            if last_screenshot(t) is None {
                assert forall|i: int| 0 <= i < s.len() implies #[trigger] s[i].screenshot is None by {
                    if i < n {
                        assert(t[i] == s[i]);
                    }
                }
            } else {
                let k = choose|i: int| 0 <= i < t.len() && t[i].screenshot == last_screenshot(t) && forall|j: int|
                    i < j < t.len() ==> #[trigger] t[j].screenshot is None;
                assert(s[k].screenshot == last_screenshot(s));
                assert forall|j: int| k < j < s.len() implies #[trigger] s[j].screenshot is None by {
                    if j < n {
                        assert(t[j] == s[j]);
                    }
                }
                assert(!(s[k].screenshot is None));
            }
        } else {
            assert(s.last() == s[n]);
            assert(!(s[n].screenshot is None));
        }
    }
}

/// The card's sentence is made of the lines' trimmed texts: one line gives its text
/// trimmed; two lines with text give both trimmed texts with the separator between;
/// a line whose text is only white space adds nothing.
pub proof fn lemma_sentence_of_trimmed_texts(a: LineView, b: LineView, sep: Seq<char>)
    ensures
        sentence_spec(seq![a], sep) == trimmed(a.text@),
        trimmed(a.text@).len() > 0 && trimmed(b.text@).len() > 0 ==> sentence_spec(seq![a, b], sep)
            == trimmed(a.text@) + sep + trimmed(b.text@),
        trimmed(b.text@).len() == 0 ==> sentence_spec(seq![a, b], sep) == trimmed(a.text@),
        trimmed(a.text@).len() == 0 ==> sentence_spec(seq![a, b], sep) == trimmed(b.text@),
{
    let one = seq![a];
    let two = seq![a, b];
    assert(one.drop_last() =~= Seq::<LineView>::empty());
    assert(two.drop_last() =~= one);
    assert(!has_text(Seq::<LineView>::empty()));
    assert(sentence_spec(Seq::<LineView>::empty(), sep) == Seq::<char>::empty());
    if trimmed(a.text@).len() > 0 {
        assert(one[0] == a);
        assert(has_text(one));
    } else {
        assert forall|i: int| 0 <= i < one.len() implies #[trigger] trimmed(one[i].text@).len() == 0 by {
            assert(one[i] == a);
        }
        assert(!has_text(one));
        assert(sentence_spec(one, sep) =~= Seq::<char>::empty());
    }
}

/// Adding a line to a card adds its trimmed text, after the separator where some
/// earlier line has text; a line whose text is only white space adds nothing; lines
/// with no text at all give an empty sentence.
pub proof fn lemma_sentence_grows_by_trimmed_text(s: Seq<LineView>, l: LineView, sep: Seq<char>)
    ensures
        trimmed(l.text@).len() == 0 ==> sentence_spec(s.push(l), sep) == sentence_spec(s, sep),
        trimmed(l.text@).len() > 0 && (exists|i: int| 0 <= i < s.len() && #[trigger] trimmed(s[i].text@).len()
            > 0) ==> sentence_spec(s.push(l), sep) == sentence_spec(s, sep) + sep + trimmed(l.text@),
        trimmed(l.text@).len() > 0 && (forall|i: int| 0 <= i < s.len() ==> #[trigger] trimmed(s[i].text@).len()
            == 0) ==> sentence_spec(s.push(l), sep) == trimmed(l.text@),
        (forall|i: int| 0 <= i < s.len() ==> #[trigger] trimmed(s[i].text@).len() == 0) ==> sentence_spec(
            s,
            sep,
        ) == Seq::<char>::empty(),
    decreases s.len(),
{
    assert(s.push(l).drop_last() =~= s);
    assert(s.push(l).last() == l);
    if forall|i: int| 0 <= i < s.len() ==> #[trigger] trimmed(s[i].text@).len() == 0 {
        if s.len() > 0 {
            let d = s.drop_last();
            assert forall|i: int| 0 <= i < d.len() implies #[trigger] trimmed(d[i].text@).len() == 0 by {
                assert(d[i] == s[i]);
            }
            lemma_sentence_grows_by_trimmed_text(d, s.last(), sep);
            assert(d.push(s.last()) =~= s);
            assert(trimmed(s[s.len() - 1].text@).len() == 0);
        }
    }
}

/// The card's sentence.
pub fn mine_sentence(lines: &[LineRecord], separator: &str) -> (r: String)
    ensures
        r@ == sentence_spec(line_views(lines@), separator@),
{
    let ghost s = line_views(lines@);
    let sep = str_chars(separator);
    let mut out: Vec<char> = Vec::new();
    let mut any = false;
    let mut i: usize = 0;
    while i < lines.len()
        invariant
            i <= lines@.len(),
            s == line_views(lines@),
            sep@ == separator@,
            out@ == sentence_spec(s.take(i as int), separator@),
            any == has_text(s.take(i as int)),
        decreases lines@.len() - i,
    {
        let ghost t = s.take(i as int + 1);
        assert(t.drop_last() =~= s.take(i as int));
        assert(t.last() == lines@[i as int]@);
        let text = trim_str(lines[i].text.as_str());
        if text.len() > 0 {
            if any {
                extend_chars(&mut out, &sep);
            }
            extend_chars(&mut out, &text);
            proof {
                if !any {
                    if sentence_spec(s.take(i as int), separator@).len() != 0 {
                        assert(false) by {
                            lemma_sentence_empty(s.take(i as int), separator@);
                        }
                    }
                    assert(out@ =~= text@);
                }
                assert(t[i as int] == t.last());
                assert(trimmed(t[i as int].text@).len() > 0);
                assert(has_text(t));
            }
            any = true;
        } else {
            proof {
                if has_text(t) {
                    let k = choose|k: int| 0 <= k < t.len() && #[trigger] trimmed(t[k].text@).len() > 0;
                    assert(k != i);
                    assert(s.take(i as int)[k] == t[k]);
                }
                if any {
                    let k = choose|k: int|
                        0 <= k < i && #[trigger] trimmed(s.take(i as int)[k].text@).len() > 0;
                    assert(t[k] == s.take(i as int)[k]);
                }
            }
        }
        i = i + 1;
    }
    assert(s.take(lines@.len() as int) =~= s);
    chars_to_string(&out)
}

proof fn lemma_sentence_empty(s: Seq<LineView>, sep: Seq<char>)
    requires
        !has_text(s),
    ensures
        sentence_spec(s, sep).len() == 0,
    decreases s.len(),
{
    if s.len() > 0 {
        assert(!has_text(s.drop_last())) by {
            if has_text(s.drop_last()) {
                let k = choose|k: int|
                    0 <= k < s.drop_last().len() && #[trigger] trimmed(s.drop_last()[k].text@).len() > 0;
                assert(s[k] == s.drop_last()[k]);
            }
        }
        lemma_sentence_empty(s.drop_last(), sep);
        assert(trimmed(s[s.len() - 1].text@).len() == 0);
    }
}

/// Sequence numbers never decrease along the run.
pub open spec fn seq_nondecreasing(s: Seq<LineView>) -> bool {
    forall|i: int, j: int| 0 <= i < j < s.len() ==> s[i].line_seq <= s[j].line_seq
}

/// The lines ordered by sequence number; lines with equal numbers keep their order.
pub fn sort_lines_by_seq(lines: Vec<LineRecord>) -> (r: Vec<LineRecord>)
    ensures
        seq_nondecreasing(line_views(r@)),
        line_views(r@).to_multiset() == line_views(lines@).to_multiset(),
{
    let mut r: Vec<LineRecord> = Vec::new();
    let mut i: usize = 0;
    let ghost src = line_views(lines@);
    assert(line_views(r@) =~= src.take(0));
    while i < lines.len()
        invariant
            i <= lines@.len(),
            src == line_views(lines@),
            seq_nondecreasing(line_views(r@)),
            line_views(r@).to_multiset() == src.take(i as int).to_multiset(),
        decreases lines@.len() - i,
    {
        let line = lines[i].duplicate();
        let key = line.line_seq;
        let mut pos: usize = r.len();
        while pos > 0 && r[pos - 1].line_seq > key
            invariant
                pos <= r@.len(),
                forall|k: int| pos <= k < r@.len() ==> #[trigger] r@[k].line_seq > key,
            decreases pos,
        {
            pos = pos - 1;
        }
        let ghost before = line_views(r@);
        r.insert(pos, line);
        proof {
            let after = line_views(r@);
            assert(after =~= before.insert(pos as int, line@));
            vstd::seq_lib::to_multiset_insert(before, pos as int, line@);
            vstd::seq_lib::to_multiset_build(src.take(i as int), src[i as int]);
            assert(src.take(i as int + 1) =~= src.take(i as int).push(src[i as int]));
            assert forall|a: int, b: int| 0 <= a < b < after.len() implies after[a].line_seq
                <= after[b].line_seq by {
                if b < pos {
                    assert(after[a] == before[a] && after[b] == before[b]);
                } else if a > pos {
                    assert(after[a] == before[a - 1] && after[b] == before[b - 1]);
                } else if a == pos {
                    assert(after[b] == before[b - 1]);
                    assert(before[b - 1].line_seq == r@[b].line_seq);
                } else {
                    assert(after[a] == before[a]);
                    if b == pos {
                        if pos > 0 {
                            assert(before[pos - 1].line_seq <= key);
                            assert(before[a].line_seq <= before[pos - 1].line_seq);
                        }
                    } else {
                        assert(after[b] == before[b - 1]);
                    }
                }
            }
        }
        i = i + 1;
    }
    assert(src.take(lines@.len() as int) =~= src);
    r
}

/// The lines a card is made from, in sequence order: every requested id must exist.
pub fn select_mine_lines(history: &HistoryStore, line_ids: &[LineId]) -> (r: Result<Vec<LineRecord>, String>)
    ensures
        line_ids@.len() == 0 ==> (r matches Err(m) && m@ == "line_ids must not be empty"@),
        line_ids@.len() > 0 && lines_by_ids(history.view_lines(), line_ids@).len() != line_ids@.len()
            ==> (r matches Err(m) && m@ == "one or more selected lines were not found"@),
        line_ids@.len() > 0 && lines_by_ids(history.view_lines(), line_ids@).len() == line_ids@.len()
            ==> (r matches Ok(v) && seq_nondecreasing(line_views(v@)) && line_views(v@).to_multiset()
            == lines_by_ids(history.view_lines(), line_ids@).to_multiset()),
{
    if line_ids.len() == 0 {
        return Err(owned("line_ids must not be empty"));
    }
    let lines = history.get_lines_by_ids(line_ids);
    if lines.len() != line_ids.len() {
        return Err(owned("one or more selected lines were not found"));
    }
    Ok(sort_lines_by_seq(lines))
}

} // verus!
