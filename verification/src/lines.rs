//! Which incoming pipe events are accepted, and when a line extends the previous one.
use vstd::prelude::*;
use vstd::utf8::encode_utf8;
use crate::text::{chars_start_with, str_chars, str_eq};
use crate::types::{AudioState, LineRecord, LineView, PipeLineEvent, PipeLineMeta, PROTOCOL_VERSION};

verus! {

proof fn lemma_encode_concat(a: Seq<char>, b: Seq<char>)
    ensures
        encode_utf8(a + b) == encode_utf8(a) + encode_utf8(b),
    decreases a.len(),
{
    if a.len() > 0 {
        assert((a + b).drop_first() =~= a.drop_first() + b);
        lemma_encode_concat(a.drop_first(), b);
        assert(encode_utf8(a + b) == vstd::utf8::encode_scalar((a + b)[0] as u32) + encode_utf8(
            (a + b).drop_first(),
        ));
        assert((a + b)[0] == a[0]);
    } else {
        assert(a + b =~= b);
    }
}

proof fn lemma_encode_len(a: Seq<char>)
    ensures
        encode_utf8(a).len() >= a.len(),
        a.len() > 0 ==> encode_utf8(a).len() > 0,
    decreases a.len(),
{
    if a.len() > 0 {
        lemma_encode_len(a.drop_first());
    }
}

/// Where `prev` is a prefix of `next`, `next` has more bytes exactly when it has more
/// characters.
proof fn lemma_prefix_byte_len(prev: Seq<char>, next: Seq<char>)
    requires
        prev.len() <= next.len(),
        next.take(prev.len() as int) == prev,
    ensures
        (encode_utf8(next).len() > encode_utf8(prev).len()) == (next.len() > prev.len()),
{
    let rest = next.skip(prev.len() as int);
    assert(next =~= prev + rest);
    lemma_encode_concat(prev, rest);
    lemma_encode_len(rest);
}

/// Whether a pipe event is a line event of this protocol version.
pub fn is_compatible_pipe_event(event: &PipeLineEvent) -> (r: bool)
    ensures
        r == (event.protocol_version == PROTOCOL_VERSION && event.event_type@ == "line"@),
{
    event.protocol_version == PROTOCOL_VERSION && str_eq(event.event_type.as_str(), "line")
}

/// Whether two lines come from the same hooked thread of the same process.
pub fn same_join_source(previous: &PipeLineMeta, next: &PipeLineMeta) -> (r: bool)
    ensures
        r == (previous.process_id == next.process_id && previous.thread_number
            == next.thread_number && previous.source@ == next.source@ && previous.arch@
            == next.arch@),
{
    previous.process_id == next.process_id && previous.thread_number == next.thread_number
        && previous.source == next.source && previous.arch == next.arch
}

/// Whether the incoming text extends the previous line's text (Textractor repeating a
/// line as it is revealed): same source, a strictly longer text that starts with the
/// previous one, and no finished audio on the previous line.
pub open spec fn can_join_spec(previous: LineView, event: PipeLineEvent) -> bool {
    &&& previous.meta.process_id == event.meta.process_id
    &&& previous.meta.thread_number == event.meta.thread_number
    &&& previous.meta.source@ == event.meta.source@
    &&& previous.meta.arch@ == event.meta.arch@
    &&& previous.text@.len() <= event.text@.len()
    &&& event.text@.take(previous.text@.len() as int) == previous.text@
    &&& encode_utf8(event.text@).len() > encode_utf8(previous.text@).len()
    &&& !(previous.audio matches Some(AudioState::Ready { .. }))
}

/// Whether the incoming text extends the previous line.
pub fn can_join_progressive_line(previous: &LineRecord, event: &PipeLineEvent) -> (r: bool)
    ensures
        r == can_join_spec(previous@, *event),
{
    if !same_join_source(&previous.meta, &event.meta) {
        return false;
    }
    let next_chars = str_chars(event.text.as_str());
    let previous_chars = str_chars(previous.text.as_str());
    if !chars_start_with(&next_chars, &previous_chars) {
        return false;
    }
    proof {
        lemma_prefix_byte_len(previous.text@, event.text@);
    }
    if next_chars.len() <= previous_chars.len() {
        return false;
    }
    match &previous.audio {
        Some(AudioState::Ready { .. }) => false,
        _ => true,
    }
}

/// Joining only extends: an event joins the previous line only where it comes from the
/// same process, thread, source and architecture, the previous line's audio is not
/// finished, and its text starts with the previous text and is strictly longer (so an
/// event that repeats the previous text never joins).
pub proof fn lemma_join_extends(previous: LineView, event: PipeLineEvent)
    ensures
        can_join_spec(previous, event) ==> {
            &&& previous.meta.process_id == event.meta.process_id
            &&& previous.meta.thread_number == event.meta.thread_number
            &&& previous.meta.source@ == event.meta.source@
            &&& previous.meta.arch@ == event.meta.arch@
            &&& !(previous.audio matches Some(AudioState::Ready { .. }))
            &&& event.text@.len() > previous.text@.len()
            &&& event.text@.subrange(0, previous.text@.len() as int) == previous.text@
            &&& event.text@ != previous.text@
        },
        event.text@ == previous.text@ ==> !can_join_spec(previous, event),
{
    if event.text@.len() >= previous.text@.len() && event.text@.take(previous.text@.len() as int)
        == previous.text@ {
        lemma_prefix_byte_len(previous.text@, event.text@);
    }
}

} // verus!
