//! The decode pipeline: log line to envelope to event to normalized event,
//! then on to the subscribers.

use vstd::prelude::*;
use crate::registry::{Registry, created_tag, accepted_tag, completed_tag};
use crate::extract::{extract_payload, extract_spec, payload_text, base64_decoded};
use crate::decode::{decode_event, decode_spec};
use crate::normalize::{normalize, normalize_spec, opt_web_view, WebEvent, WebView};
use crate::broadcast::{Broadcaster, push_bounded, queue_view};

verus! {

/// The normalized event that one log line yields, if any.
pub open spec fn line_event(line: Seq<char>) -> Option<WebView> {
    match extract_spec(line) {
        Some(env) => match decode_spec(env.0, env.1) {
            Some(e) => Some(normalize_spec(e)),
            None => None,
        },
        None => None,
    }
}

pub open spec fn opt_seq(e: Option<WebView>) -> Seq<WebView> {
    match e {
        Some(w) => seq![w],
        None => Seq::empty(),
    }
}

/// The events that a sequence of log lines yields, in order.
pub open spec fn batch_events(lines: Seq<Seq<char>>) -> Seq<WebView>
    decreases lines.len(),
{
    if lines.len() == 0 {
        Seq::empty()
    } else {
        batch_events(lines.drop_last()) + opt_seq(line_event(lines.last()))
    }
}

pub open spec fn lines_view(lines: Seq<String>) -> Seq<Seq<char>> {
    lines.map_values(|s: String| s@)
}

/// The events of two runs of lines one after the other are those of the
/// first run followed by those of the second: each line is handled on its
/// own.
pub proof fn lemma_batch_concat(a: Seq<Seq<char>>, b: Seq<Seq<char>>)
    ensures
        batch_events(a + b) == batch_events(a) + batch_events(b),
    decreases b.len(),
{
    if b.len() == 0 {
        assert(a + b =~= a);
        assert(batch_events(a) + batch_events(b) =~= batch_events(a));
    } else {
        lemma_batch_concat(a, b.drop_last());
        assert((a + b).drop_last() =~= a + b.drop_last());
        assert((a + b).last() == b.last());
        assert(batch_events(a + b) =~= batch_events(a) + batch_events(b));
    }
}

/// A line that yields no event leaves the events of the lines around it as
/// they would be without it.
pub proof fn lemma_silent_line_skipped(before: Seq<Seq<char>>, line: Seq<char>, after: Seq<Seq<char>>)
    requires
        line_event(line) is None,
    ensures
        batch_events(before + seq![line] + after) == batch_events(before + after),
{
    let one = seq![line];
    lemma_batch_concat(before, one);
    lemma_batch_concat(before + one, after);
    lemma_batch_concat(before, after);
    assert(one.drop_last() =~= Seq::<Seq<char>>::empty());
    assert(one.last() == line);
    assert(batch_events(one.drop_last()) == Seq::<WebView>::empty());
    assert(batch_events(one) =~= Seq::<WebView>::empty());
    assert(batch_events(before) + batch_events(one) =~= batch_events(before));
}

/// A line whose marked text is not valid base64 yields nothing, and the
/// lines after it are handled as if it were not there.
pub proof fn lemma_malformed_base64_skipped(line: Seq<char>, after: Seq<Seq<char>>)
    requires
        payload_text(line) is Some,
        base64_decoded(payload_text(line)->Some_0) is None,
    ensures
        line_event(line) is None,
        batch_events(seq![line] + after) == batch_events(after),
{
    lemma_silent_line_skipped(Seq::empty(), line, after);
    assert(Seq::<Seq<char>>::empty() + seq![line] =~= seq![line]);
    assert(Seq::<Seq<char>>::empty() + after =~= after);
}

/// A payload whose tag is none of the known schemas' yields nothing, and the
/// lines after it are handled as if it were not there.
pub proof fn lemma_unknown_tag_skipped(line: Seq<char>, after: Seq<Seq<char>>)
    requires
        extract_spec(line) is Some,
        extract_spec(line)->Some_0.0 != created_tag(),
        extract_spec(line)->Some_0.0 != accepted_tag(),
        extract_spec(line)->Some_0.0 != completed_tag(),
    ensures
        line_event(line) is None,
        batch_events(seq![line] + after) == batch_events(after),
{
    lemma_silent_line_skipped(Seq::empty(), line, after);
    assert(Seq::<Seq<char>>::empty() + seq![line] =~= seq![line]);
    assert(Seq::<Seq<char>>::empty() + after =~= after);
}

/// Runs one log line through extraction, decoding and normalization.
pub fn process_line(reg: &Registry, line: &str) -> (r: Option<WebEvent>)
    requires
        reg.wf(),
    ensures
        opt_web_view(r) == line_event(line@),
{
    match extract_payload(line) {
        Some(env) => match decode_event(reg, env.tag.as_slice(), env.body.as_slice()) {
            Some(e) => Some(normalize(&e)),
            None => None,
        },
        None => None,
    }
}

/// The events of a batch of log lines, in order; lines that yield none are
/// skipped.
pub fn process_lines(reg: &Registry, lines: &Vec<String>) -> (r: Vec<WebEvent>)
    requires
        reg.wf(),
    ensures
        queue_view(r@) == batch_events(lines_view(lines@)),
{
    let mut out: Vec<WebEvent> = Vec::new();
    let mut i: usize = 0;
    while i < lines.len()
        invariant
            reg.wf(),
            i <= lines@.len(),
            queue_view(out@) == batch_events(lines_view(lines@.take(i as int))),
        decreases lines@.len() - i,
    {
        let ghost prev = out@;
        let ev = process_line(reg, lines[i].as_str());
        proof {
            let t = lines_view(lines@.take(i + 1));
            assert(t.drop_last() =~= lines_view(lines@.take(i as int)));
            assert(t.last() == lines@[i as int]@);
        }
        match ev {
            Some(w) => {
                out.push(w);
                assert(queue_view(out@) =~= queue_view(prev) + opt_seq(line_event(lines@[i as int]@)));
            },
            None => {
                assert(queue_view(out@) =~= queue_view(prev) + opt_seq(line_event(lines@[i as int]@)));
            },
        }
        i = i + 1;
    }
    assert(lines@.take(lines@.len() as int) =~= lines@);
    out
}

/// Runs one log line through the pipeline and publishes its event, if any,
/// to every subscriber; returns how many subscribers it was offered to.
pub fn handle_line(reg: &Registry, line: &str, b: &mut Broadcaster) -> (r: usize)
    requires
        reg.wf(),
        old(b).wf(),
    ensures
        final(b).wf(),
        final(b).capacity() == old(b).capacity(),
        final(b).next_id() == old(b).next_id(),
        final(b).subscribers().len() == old(b).subscribers().len(),
        match line_event(line@) {
            Some(w) => {
                &&& r == old(b).subscribers().len()
                &&& forall|i: int| 0 <= i < old(b).subscribers().len() ==> final(b).subscribers()[i] == (
                    old(b).subscribers()[i].0,
                    push_bounded(old(b).subscribers()[i].1, w, old(b).capacity()),
                )
            },
            None => r == 0 && final(b).subscribers() == old(b).subscribers(),
        },
{
    match process_line(reg, line) {
        Some(e) => b.publish(e),
        None => 0,
    }
}

} // verus!
