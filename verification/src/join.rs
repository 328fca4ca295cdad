//! Gluing fragments into logical lines.
//!
//! A read from a pipe may return part of a line, and the rest arrives with
//! the next read. Joining puts such pieces back together: a line runs from
//! the fragment after the previous line's end up to and including the next
//! fragment that ends with a line feed, or up to the last fragment of all.

use vstd::prelude::*;
use crate::logline::{concat_texts, Fragment, LogLine};
use crate::text::{ends_line, ends_with_newline};
use crate::timestamp::Timestamp;

verus! {

/// The lines that the fragments `s` make up.
///
/// A fragment begins a new line when it is the first of all or when the one
/// before it ends with a line feed. Any other fragment is glued, with nothing
/// in between, to the end of the line that is open, and that line keeps the
/// time of the fragment that began it.
pub open spec fn joined(s: Seq<Fragment>) -> Seq<Fragment>
    decreases s.len(),
{
    if s.len() == 0 {
        Seq::empty()
    } else {
        let before = joined(s.drop_last());
        if s.len() == 1 || ends_line(s[s.len() - 2].text) {
            before.push(s.last())
        } else {
            before.drop_last().push(
                Fragment { time: before.last().time, text: before.last().text + s.last().text },
            )
        }
    }
}

/// Every fragment of `s` ends with a line feed.
pub open spec fn all_terminated(s: Seq<Fragment>) -> bool {
    forall|i: int| 0 <= i < s.len() ==> ends_line(#[trigger] s[i].text)
}

/// Every fragment of `s` but possibly the last ends with a line feed.
pub open spec fn whole_lines(s: Seq<Fragment>) -> bool {
    forall|i: int| 0 <= i < s.len() - 1 ==> ends_line(#[trigger] s[i].text)
}

/// No fragment of `s` but possibly the last ends with a line feed.
pub open spec fn single_line(s: Seq<Fragment>) -> bool {
    forall|i: int| 0 <= i < s.len() - 1 ==> !ends_line(#[trigger] s[i].text)
}

/// The test for a fragment that ends with a line feed.
pub open spec fn terminated() -> spec_fn(Fragment) -> bool {
    |f: Fragment| ends_line(f.text)
}

/// Joining yields no line exactly when there is no fragment, and never more
/// lines than fragments.
pub proof fn lemma_joined_len(s: Seq<Fragment>)
    ensures
        joined(s).len() <= s.len(),
        joined(s).len() == 0 <==> s.len() == 0,
    decreases s.len(),
{
    if s.len() > 0 {
        lemma_joined_len(s.drop_last());
    }
}

/// A line ends with each fragment that ends with a line feed, and with the
/// last fragment of all: there is one line more than there are terminated
/// fragments before the last.
pub proof fn lemma_joined_count(s: Seq<Fragment>)
    requires
        s.len() > 0,
    ensures
        joined(s).len() == s.drop_last().filter(terminated()).len() + 1,
    decreases s.len(),
{
    let init = s.drop_last();
    assert(init.filter(terminated()) == (if init.len() == 0 {
        init
    } else if ends_line(init.last().text) {
        init.drop_last().filter(terminated()).push(init.last())
    } else {
        init.drop_last().filter(terminated())
    })) by {
        reveal(Seq::filter);
    }
    lemma_joined_len(init);
    if s.len() > 1 {
        lemma_joined_count(init);
    }
}

/// Fragments that are lines already stay as they are: where each but
/// possibly the last ends with a line feed, joining changes nothing.
pub proof fn lemma_joined_of_whole_lines(s: Seq<Fragment>)
    requires
        whole_lines(s),
    ensures
        joined(s) == s,
    decreases s.len(),
{
    if s.len() > 0 {
        let init = s.drop_last();
        assert(whole_lines(init));
        lemma_joined_of_whole_lines(init);
    }
}

/// Fragments that each end with a line feed are lines already: joining
/// returns them unchanged, one line per fragment.
pub proof fn lemma_joined_of_terminated(s: Seq<Fragment>)
    requires
        all_terminated(s),
    ensures
        joined(s) == s,
        joined(s).len() == s.len(),
        forall|i: int| 0 <= i < s.len() ==> #[trigger] joined(s)[i] == s[i],
{
    lemma_joined_of_whole_lines(s);
}

/// Fragments of which none but the last may end with a line feed make one
/// line: it carries the time of the first fragment and the text of all.
pub proof fn lemma_joined_single_line(s: Seq<Fragment>)
    requires
        s.len() > 0,
        single_line(s),
    ensures
        joined(s) == seq![Fragment { time: s[0].time, text: concat_texts(s) }],
    decreases s.len(),
{
    let init = s.drop_last();
    if s.len() == 1 {
        assert(joined(init) =~= Seq::<Fragment>::empty());
        assert(concat_texts(init) =~= Seq::<char>::empty());
    } else {
        assert(single_line(init));
        lemma_joined_single_line(init);
    }
}

/// Lines do not reach across a line feed: where `s` is empty or ends with a
/// terminated fragment, the lines of `s` followed by `t` are the lines of
/// `s` followed by the lines of `t`.
pub proof fn lemma_joined_add(s: Seq<Fragment>, t: Seq<Fragment>)
    requires
        s.len() == 0 || ends_line(s.last().text),
    ensures
        joined(s + t) == joined(s) + joined(t),
    decreases t.len(),
{
    if t.len() > 0 {
        let init = t.drop_last();
        lemma_joined_add(s, init);
        assert((s + t).drop_last() =~= s + init);
    }
}

/// Joining moves no character: the lines, read one after the other, give
/// the same text as the fragments.
pub proof fn lemma_joined_keeps_text(s: Seq<Fragment>)
    ensures
        concat_texts(joined(s)) == concat_texts(s),
    decreases s.len(),
{
    if s.len() > 0 {
        let init = s.drop_last();
        let before = joined(init);
        lemma_joined_keeps_text(init);
        if s.len() == 1 || ends_line(s[s.len() - 2].text) {
            assert(before.push(s.last()).drop_last() =~= before);
        } else {
            let glued = Fragment {
                time: before.last().time,
                text: before.last().text + s.last().text,
            };
            assert(before.drop_last().push(glued).drop_last() =~= before.drop_last());
        }
    }
}

/// Every line but the last ends with a line feed, and the last one does
/// exactly when the last fragment does.
pub proof fn lemma_joined_lines_terminated(s: Seq<Fragment>)
    ensures
        forall|k: int| 0 <= k < joined(s).len() - 1 ==> ends_line(#[trigger] joined(s)[k].text),
        s.len() > 0 ==> (ends_line(joined(s).last().text) <==> ends_line(s.last().text)),
    decreases s.len(),
{
    if s.len() > 0 {
        let init = s.drop_last();
        lemma_joined_lines_terminated(init);
        lemma_joined_len(init);
    }
}

/// Joining twice is joining once: what comes out are lines, and lines stay
/// as they are.
pub proof fn lemma_joined_idempotent(s: Seq<Fragment>)
    ensures
        joined(joined(s)) == joined(s),
{
    lemma_joined_lines_terminated(s);
    lemma_joined_of_whole_lines(joined(s));
}

/// Glues fragments into lines.
///
/// The fragments are read in order and their text is collected, byte for
/// byte and with no delimiter, into the line that is open. A line is closed
/// by a fragment that ends with a line feed and by the last fragment of all;
/// it carries the time of the first fragment that went into it.
pub fn join_log_lines(messages: &[LogLine]) -> (joined_messages: Vec<LogLine>)
    ensures
        joined_messages.deep_view() == joined(messages.deep_view()),
        all_terminated(messages.deep_view()) ==> joined_messages.deep_view()
            == messages.deep_view(),
        concat_texts(joined_messages.deep_view()) == concat_texts(messages.deep_view()),
{
    let ghost s = messages.deep_view();
    let mut joined_messages: Vec<LogLine> = Vec::new();
    let mut line: String = String::new();
    let mut first_ts: Option<Timestamp> = None;
    let mut index: usize = 0;
    // While a line is open, the lines of the fragments read so far are those
    // closed already and then the open one.
    while index < messages.len()
        invariant
            index <= messages.len(),
            s == messages.deep_view(),
            first_ts is Some ==> 0 < index < messages.len(),
            first_ts is Some ==> joined(s.take(index as int)) == joined_messages.deep_view().push(
                Fragment { time: first_ts->0, text: line@ },
            ),
            first_ts is None ==> joined(s.take(index as int)) == joined_messages.deep_view(),
            first_ts is None ==> line@.len() == 0,
            first_ts is None ==> index == 0 || index == messages.len() || ends_line(
                s[index - 1].text,
            ),
            first_ts is Some ==> !ends_line(s[index - 1].text),
        decreases messages.len() - index,
    {
        let message = &messages[index];
        proof {
            assert(s.take(index + 1).drop_last() =~= s.take(index as int));
        }
        line.append(message.text.as_str());
        if first_ts.is_none() {
            first_ts = Some(message.timestamp);
        }
        if ends_with_newline(message.text.as_str()) || index == messages.len() - 1 {
            joined_messages.push(LogLine { timestamp: first_ts.unwrap(), text: line });
            first_ts = None;
            line = String::new();
        }
        index += 1;
    }
    proof {
        assert(s.take(index as int) =~= s);
        if all_terminated(s) {
            lemma_joined_of_terminated(s);
        }
        lemma_joined_keeps_text(s);
    }
    joined_messages
}

} // verus!
