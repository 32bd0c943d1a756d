//! Splitting character runs into pieces at separators, and joining pieces back.
use vstd::prelude::*;
use crate::text::{is_white_space, char_is_white_space};

verus! {

/// Whether `c` separates pieces: the character `sep`, or white space where `sep` is
/// `None`.
pub open spec fn is_separator(c: char, sep: Option<char>) -> bool {
    match sep {
        Some(x) => c == x,
        None => is_white_space(c),
    }
}

/// The pieces of `s` between separators, empty ones included (what `str::split`
/// yields); there is always at least one.
pub open spec fn split_pieces(s: Seq<char>, sep: Option<char>) -> Seq<Seq<char>>
    decreases s.len(),
{
    if s.len() == 0 {
        seq![Seq::<char>::empty()]
    } else {
        let p = split_pieces(s.drop_last(), sep);
        if is_separator(s.last(), sep) {
            p.push(Seq::<char>::empty())
        } else {
            p.update(p.len() - 1, p.last().push(s.last()))
        }
    }
}

/// The pieces that are not empty, in order.
pub open spec fn nonempty_pieces(ps: Seq<Seq<char>>) -> Seq<Seq<char>>
    decreases ps.len(),
{
    if ps.len() == 0 {
        ps
    } else {
        let rest = nonempty_pieces(ps.drop_last());
        if ps.last().len() > 0 {
            rest.push(ps.last())
        } else {
            rest
        }
    }
}

/// The pieces joined with `sep` between each two.
pub open spec fn join_pieces(ps: Seq<Seq<char>>, sep: char) -> Seq<char>
    decreases ps.len(),
{
    if ps.len() == 0 {
        Seq::empty()
    } else if ps.len() == 1 {
        ps[0]
    } else {
        join_pieces(ps.drop_last(), sep).push(sep) + ps.last()
    }
}

/// The words of `s`: its pieces between runs of white space (what
/// `str::split_whitespace` yields).
pub open spec fn words(s: Seq<char>) -> Seq<Seq<char>> {
    nonempty_pieces(split_pieces(s, None))
}

/// The character runs that a vector of vectors holds.
pub open spec fn piece_views(v: Seq<Vec<char>>) -> Seq<Seq<char>> {
    v.map_values(|p: Vec<char>| p@)
}

pub proof fn lemma_split_nonempty(s: Seq<char>, sep: Option<char>)
    ensures
        split_pieces(s, sep).len() >= 1,
    decreases s.len(),
{
    if s.len() > 0 {
        lemma_split_nonempty(s.drop_last(), sep);
    }
}

/// The first piece is a prefix of `s`; where there are more, a separator follows it.
pub proof fn lemma_split_first(s: Seq<char>, sep: Option<char>)
    ensures
        split_pieces(s, sep).len() >= 1,
        split_pieces(s, sep)[0].len() <= s.len(),
        split_pieces(s, sep)[0] == s.take(split_pieces(s, sep)[0].len() as int),
        split_pieces(s, sep).len() == 1 ==> split_pieces(s, sep)[0] == s,
        split_pieces(s, sep).len() > 1 ==> split_pieces(s, sep)[0].len() < s.len()
            && is_separator(s[split_pieces(s, sep)[0].len() as int], sep),
    decreases s.len(),
{
    lemma_split_nonempty(s, sep);
    if s.len() == 0 {
        assert(s.take(0) =~= s);
    } else {
        let d = s.drop_last();
        lemma_split_first(d, sep);
        lemma_split_nonempty(d, sep);
        let p = split_pieces(d, sep);
        if p.len() == 1 {
            if !is_separator(s.last(), sep) {
                assert(p[0].push(s.last()) =~= s);
                assert(s.take(s.len() as int) =~= s);
            } else {
                assert(s.take(p[0].len() as int) =~= d);
            }
        } else {
            assert(s.take(p[0].len() as int) =~= d.take(p[0].len() as int));
        }
    }
}

fn is_separator_exec(c: char, sep: Option<char>) -> (r: bool)
    ensures
        r == is_separator(c, sep),
{
    match sep {
        Some(x) => c == x,
        None => char_is_white_space(c),
    }
}

/// The pieces of `s` between separators; with `drop_empty`, only those that are not
/// empty.
pub fn split_chars(s: &[char], sep: Option<char>, drop_empty: bool) -> (r: Vec<Vec<char>>)
    ensures
        !drop_empty ==> piece_views(r@) == split_pieces(s@, sep),
        drop_empty ==> piece_views(r@) == nonempty_pieces(split_pieces(s@, sep)),
{
    let mut out: Vec<Vec<char>> = Vec::new();
    let mut cur: Vec<char> = Vec::new();
    let mut i: usize = 0;
    proof {
        assert(s@.take(0) =~= Seq::<char>::empty());
        assert(piece_views(out@) =~= Seq::<Seq<char>>::empty());
    }
    while i < s.len()
        invariant
            i <= s@.len(),
            !drop_empty ==> piece_views(out@).push(cur@) == split_pieces(s@.take(i as int), sep),
            drop_empty ==> {
                let p = split_pieces(s@.take(i as int), sep);
                &&& p.len() >= 1
                &&& piece_views(out@) == nonempty_pieces(p.drop_last())
                &&& cur@ == p.last()
            },
        decreases s@.len() - i,
    {
        let c = s[i];
        let ghost t = s@.take(i as int + 1);
        let ghost p0 = split_pieces(s@.take(i as int), sep);
        proof {
            assert(t.drop_last() =~= s@.take(i as int));
            assert(t.last() == c);
            lemma_split_nonempty(s@.take(i as int), sep);
        }
        if is_separator_exec(c, sep) {
            let ghost old_out = piece_views(out@);
            let ghost old_cur = cur@;
            let mut done: Vec<char> = Vec::new();
            std::mem::swap(&mut done, &mut cur);
            if !drop_empty || done.len() > 0 {
                out.push(done);
            }
            proof {
                assert(split_pieces(t, sep) == p0.push(Seq::<char>::empty()));
                if !drop_empty {
                    assert(piece_views(out@) =~= old_out.push(old_cur));
                } else {
                    let p1 = p0.push(Seq::<char>::empty());
                    assert(p1.drop_last() =~= p0);
                    assert(p0 =~= p0.drop_last().push(p0.last()));
                    if old_cur.len() > 0 {
                        assert(piece_views(out@) =~= old_out.push(old_cur));
                    } else {
                        assert(piece_views(out@) =~= old_out);
                    }
                }
            }
        } else {
            let ghost old_out = piece_views(out@);
            cur.push(c);
            proof {
                let p1 = p0.update(p0.len() - 1, p0.last().push(c));
                assert(split_pieces(t, sep) == p1);
                assert(piece_views(out@) == old_out);
                if !drop_empty {
                    assert(old_out.push(cur@) =~= p1);
                } else {
                    assert(p1.drop_last() =~= p0.drop_last());
                }
            }
        }
        i = i + 1;
    }
    proof {
        assert(s@.take(s@.len() as int) =~= s@);
        lemma_split_nonempty(s@, sep);
    }
    let ghost old_out = piece_views(out@);
    let ghost old_cur = cur@;
    if !drop_empty || cur.len() > 0 {
        out.push(cur);
    }
    proof {
        let p = split_pieces(s@, sep);
        if !drop_empty {
            assert(piece_views(out@) =~= old_out.push(old_cur));
        } else {
            assert(p =~= p.drop_last().push(p.last()));
            if old_cur.len() > 0 {
                assert(piece_views(out@) =~= old_out.push(old_cur));
            } else {
                assert(piece_views(out@) =~= old_out);
            }
        }
    }
    out
}

} // verus!
