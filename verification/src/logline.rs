//! Timestamped fragments of captured output.

use vstd::prelude::*;
use crate::timestamp::Timestamp;

verus! {

/// A chunk of text read from one output stream, with the instant at which
/// the read completed. A fragment need not be a whole line.
#[derive(Debug, PartialEq, Eq)]
pub struct LogLine {
    pub timestamp: Timestamp,
    pub text: String,
}

/// What a `LogLine` stands for in contracts.
pub struct Fragment {
    pub time: Timestamp,
    pub text: Seq<char>,
}

impl View for LogLine {
    type V = Fragment;

    open spec fn view(&self) -> Fragment {
        Fragment { time: self.timestamp, text: self.text@ }
    }
}

impl DeepView for LogLine {
    type V = Fragment;

    open spec fn deep_view(&self) -> Fragment {
        self@
    }
}

impl Clone for LogLine {
    fn clone(&self) -> (copy: LogLine)
        ensures
            copy == *self,
    {
        LogLine { timestamp: self.timestamp, text: self.text.clone() }
    }
}

impl LogLine {
    /// The fragment `text`, read at `timestamp`.
    pub fn new(timestamp: Timestamp, text: String) -> (line: LogLine)
        ensures
            line.timestamp == timestamp,
            line.text == text,
    {
        LogLine { timestamp, text }
    }
}

/// The texts of `lines`, one after the other, with nothing in between.
pub open spec fn concat_texts(lines: Seq<Fragment>) -> Seq<char>
    decreases lines.len(),
{
    if lines.len() == 0 {
        Seq::empty()
    } else {
        concat_texts(lines.drop_last()) + lines.last().text
    }
}

/// Concatenation of texts goes through concatenation of sequences.
pub proof fn lemma_concat_texts_add(a: Seq<Fragment>, b: Seq<Fragment>)
    ensures
        concat_texts(a + b) == concat_texts(a) + concat_texts(b),
    decreases b.len(),
{
    if b.len() > 0 {
        lemma_concat_texts_add(a, b.drop_last());
        assert((a + b).drop_last() =~= a + b.drop_last());
    }
}

/// Joins the texts of `lines` into one string.
pub fn concat_lines(lines: &[LogLine]) -> (text: String)
    ensures
        text@ == concat_texts(lines.deep_view()),
{
    let mut text = String::new();
    let mut i: usize = 0;
    while i < lines.len()
        invariant
            i <= lines.len(),
            text@ == concat_texts(lines.deep_view().take(i as int)),
        decreases lines.len() - i,
    {
        proof {
            assert(lines.deep_view().take(i + 1).drop_last() =~= lines.deep_view().take(i as int));
        }
        text.append(lines[i].text.as_str());
        i += 1;
    }
    proof {
        assert(lines.deep_view().take(i as int) =~= lines.deep_view());
    }
    text
}

} // verus!
