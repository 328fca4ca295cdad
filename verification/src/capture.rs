//! Collecting what a running script prints.
//!
//! The program that runs a script reads its two output pipes and waits for
//! it to end. What it reads it hands to a `Capture`, event by event; the
//! capture stamps each piece of text with the time, files it under its
//! stream, and says what to do next: echo the text, read on, or wait for
//! the exit status once both streams have ended.

use vstd::prelude::*;
use crate::logline::{Fragment, LogLine};
use crate::timestamp::Timestamp;

verus! {

/// One of the two output streams of a process.
#[derive(Clone, Copy, Debug, PartialEq, Eq, Structural)]
pub enum Stream {
    Stdout,
    Stderr,
}

/// How a process ended.
#[derive(Clone, Copy, Debug, PartialEq, Eq, Structural)]
pub enum ExitOutcome {
    /// The process reported success.
    Success,
    /// The process ended with this exit code.
    Code(i32),
    /// The process was ended by a signal and left no exit code.
    Signal,
}

impl ExitOutcome {
    /// The process ended well: it reported success or exit code 0.
    pub open spec fn succeeded(self) -> bool {
        self is Success || self == ExitOutcome::Code(0)
    }

    /// The exit code to report: that of the process, 0 for success, and -1
    /// where a signal ended it.
    pub open spec fn reported_code(self) -> int {
        match self {
            ExitOutcome::Success => 0,
            ExitOutcome::Code(code) => code as int,
            ExitOutcome::Signal => -1,
        }
    }

    /// Tells whether the process ended well.
    pub fn is_success(&self) -> (r: bool)
        ensures
            r == self.succeeded(),
    {
        match self {
            ExitOutcome::Success => true,
            ExitOutcome::Code(code) => *code == 0,
            ExitOutcome::Signal => false,
        }
    }

    /// The exit code to report.
    pub fn code(&self) -> (code: i32)
        ensures
            code == self.reported_code(),
    {
        match self {
            ExitOutcome::Success => 0,
            ExitOutcome::Code(code) => *code,
            ExitOutcome::Signal => -1,
        }
    }
}

/// What one run of a script left behind: how it ended and what it wrote to
/// each stream, in the order of capture.
#[derive(Debug, PartialEq, Eq)]
pub struct CaptureResult {
    pub exit_status: ExitOutcome,
    pub stdout: Vec<LogLine>,
    pub stderr: Vec<LogLine>,
}

/// Something that happened on one of the pipes.
#[derive(Debug, PartialEq, Eq)]
pub enum CaptureEvent {
    /// A read on the stream returned this text.
    Line(Stream, String),
    /// The stream has ended.
    EndOfStream(Stream),
}

/// What the reader is to do after an event.
#[derive(Debug, PartialEq, Eq)]
pub enum CaptureAction {
    /// Write the text to the reader's own stream of the same kind, then
    /// read on.
    Echo(Stream, String),
    /// Read on; there is nothing to write.
    KeepReading,
    /// Both streams have ended: wait for the exit status.
    AwaitExit,
}

/// The fragments collected so far and which streams are still open.
pub struct Capture {
    stdout: Vec<LogLine>,
    stderr: Vec<LogLine>,
    stdout_open: bool,
    stderr_open: bool,
}

/// What a `Capture` stands for in contracts.
pub struct CaptureState {
    pub stdout: Seq<Fragment>,
    pub stderr: Seq<Fragment>,
    pub stdout_open: bool,
    pub stderr_open: bool,
}

impl CaptureState {
    /// Nothing captured yet, both streams open.
    pub open spec fn start() -> CaptureState {
        CaptureState {
            stdout: Seq::empty(),
            stderr: Seq::empty(),
            stdout_open: true,
            stderr_open: true,
        }
    }

    /// The stream has not ended yet.
    pub open spec fn is_open(self, stream: Stream) -> bool {
        match stream {
            Stream::Stdout => self.stdout_open,
            Stream::Stderr => self.stderr_open,
        }
    }

    /// Both streams have ended.
    pub open spec fn drained(self) -> bool {
        !self.stdout_open && !self.stderr_open
    }

    /// The fragments captured from the stream.
    pub open spec fn fragments(self, stream: Stream) -> Seq<Fragment> {
        match stream {
            Stream::Stdout => self.stdout,
            Stream::Stderr => self.stderr,
        }
    }

    /// The state with one more fragment filed under the stream.
    pub open spec fn with_fragment(self, stream: Stream, fragment: Fragment) -> CaptureState {
        match stream {
            Stream::Stdout => CaptureState { stdout: self.stdout.push(fragment), ..self },
            Stream::Stderr => CaptureState { stderr: self.stderr.push(fragment), ..self },
        }
    }

    /// The state with the stream closed.
    pub open spec fn with_closed(self, stream: Stream) -> CaptureState {
        match stream {
            Stream::Stdout => CaptureState { stdout_open: false, ..self },
            Stream::Stderr => CaptureState { stderr_open: false, ..self },
        }
    }

    /// The state after `event`, seen at the instant `now`.
    ///
    /// Text read from an open stream is filed under that stream with the
    /// instant. The end of a stream closes it and leaves the other as it is.
    /// Text that claims to come from a stream that has ended is dropped.
    pub open spec fn after(self, now: Timestamp, event: CaptureEvent) -> CaptureState {
        match event {
            CaptureEvent::Line(stream, text) => if self.is_open(stream) {
                self.with_fragment(stream, Fragment { time: now, text: text@ })
            } else {
                self
            },
            CaptureEvent::EndOfStream(stream) => self.with_closed(stream),
        }
    }

    /// `action` is the answer to `event` in this state: text from an open
    /// stream is echoed to the stream of the same kind; otherwise the reader
    /// waits for the exit status if both streams have ended with this event,
    /// and reads on if not.
    pub open spec fn answers(self, event: CaptureEvent, action: CaptureAction) -> bool {
        match event {
            CaptureEvent::Line(stream, text) => if self.is_open(stream) {
                action matches CaptureAction::Echo(to, echoed) && to == stream && echoed@ == text@
            } else if self.drained() {
                action is AwaitExit
            } else {
                action is KeepReading
            },
            CaptureEvent::EndOfStream(stream) => if self.with_closed(stream).drained() {
                action is AwaitExit
            } else {
                action is KeepReading
            },
        }
    }
}

impl CaptureEvent {
    /// The stream on which the event happened.
    pub open spec fn stream(self) -> Stream {
        match self {
            CaptureEvent::Line(stream, _) => stream,
            CaptureEvent::EndOfStream(stream) => stream,
        }
    }
}

/// The two streams do not stand in each other's way: an event on one leaves
/// the other open or closed as it was, with the fragments it had.
pub proof fn lemma_streams_are_independent(
    state: CaptureState,
    now: Timestamp,
    event: CaptureEvent,
    other: Stream,
)
    requires
        other != event.stream(),
    ensures
        state.after(now, event).is_open(other) == state.is_open(other),
        state.after(now, event).fragments(other) == state.fragments(other),
{
}

/// Nothing that was captured is lost or moved: an event leaves the fragments
/// of its stream as they were or adds one at the end, stamped with the
/// instant of the event. A stream that has ended stays so.
pub proof fn lemma_capture_only_grows(state: CaptureState, now: Timestamp, event: CaptureEvent)
    ensures
        ({
            let stream = event.stream();
            let before = state.fragments(stream);
            let after = state.after(now, event).fragments(stream);
            match event {
                CaptureEvent::Line(_, text) => if state.is_open(stream) {
                    after == before.push(Fragment { time: now, text: text@ })
                } else {
                    after == before
                },
                CaptureEvent::EndOfStream(_) => after == before,
            }
        }),
        forall|stream: Stream|
            !state.is_open(stream) ==> !#[trigger] state.after(now, event).is_open(stream),
        state.drained() ==> state.after(now, event) == state,
{
}

/// The reader is sent to wait for the exit status exactly when both
/// streams have ended, and is handed text to echo exactly when text came
/// from a stream that was open.
pub proof fn lemma_answers(
    state: CaptureState,
    now: Timestamp,
    event: CaptureEvent,
    action: CaptureAction,
)
    requires
        state.answers(event, action),
    ensures
        action is AwaitExit <==> state.after(now, event).drained(),
        action is Echo <==> event is Line && state.is_open(event.stream()),
{
}

/// An event and the instant at which it was seen.
pub struct Stamped {
    pub at: Timestamp,
    pub event: CaptureEvent,
}

/// The stream ends somewhere in `events`.
pub open spec fn ends_in(stream: Stream, events: Seq<Stamped>) -> bool {
    exists|i: int|
        0 <= i < events.len() && (#[trigger] events[i]).event == CaptureEvent::EndOfStream(stream)
}

/// What `events` bring from the stream: the text read from it before its
/// end, piece by piece in the order of the events, each piece with the
/// instant of its event.
pub open spec fn read_from(stream: Stream, events: Seq<Stamped>) -> Seq<Fragment>
    decreases events.len(),
{
    if events.len() == 0 {
        Seq::empty()
    } else {
        let earlier = events.drop_last();
        match events.last().event {
            CaptureEvent::Line(from, text) => if from == stream && !ends_in(stream, earlier) {
                read_from(stream, earlier).push(Fragment { time: events.last().at, text: text@ })
            } else {
                read_from(stream, earlier)
            },
            CaptureEvent::EndOfStream(_) => read_from(stream, earlier),
        }
    }
}

impl CaptureState {
    /// The state after a whole run of events, each taken in at its instant.
    pub open spec fn after_all(self, events: Seq<Stamped>) -> CaptureState
        decreases events.len(),
    {
        if events.len() == 0 {
            self
        } else {
            self.after_all(events.drop_last()).after(events.last().at, events.last().event)
        }
    }
}

proof fn lemma_ends_in_last(stream: Stream, events: Seq<Stamped>)
    requires
        events.len() > 0,
    ensures
        ends_in(stream, events) <==> ends_in(stream, events.drop_last()) || events.last().event
            == CaptureEvent::EndOfStream(stream),
{
    let earlier = events.drop_last();
    if ends_in(stream, earlier) {
        let i = choose|i: int|
            0 <= i < earlier.len() && (#[trigger] earlier[i]).event == CaptureEvent::EndOfStream(
                stream,
            );
        assert(events[i] == earlier[i]);
    }
    if events.last().event == CaptureEvent::EndOfStream(stream) {
        assert(events[events.len() - 1].event == CaptureEvent::EndOfStream(stream));
    }
    if ends_in(stream, events) {
        let i = choose|i: int|
            0 <= i < events.len() && (#[trigger] events[i]).event == CaptureEvent::EndOfStream(
                stream,
            );
        if i < events.len() - 1 {
            assert(earlier[i] == events[i]);
        }
    }
}

/// Over a whole run each stream goes its own way, whatever happens on the
/// other. It is open at the end exactly when it was open at the start and
/// did not end on the way. Its fragments are those it had, followed, if it
/// was open, by the text read from it before its end, in the order of
/// reading.
pub proof fn lemma_whole_run(state: CaptureState, events: Seq<Stamped>, stream: Stream)
    ensures
        state.after_all(events).is_open(stream) == (state.is_open(stream) && !ends_in(
            stream,
            events,
        )),
        state.after_all(events).fragments(stream) == state.fragments(stream) + (if state.is_open(
            stream,
        ) {
            read_from(stream, events)
        } else {
            Seq::empty()
        }),
    decreases events.len(),
{
    if events.len() > 0 {
        lemma_whole_run(state, events.drop_last(), stream);
        lemma_ends_in_last(stream, events);
    }
}

/// A run that begins with nothing captured ends with what was read from
/// each stream before its end, and capture is over exactly when both
/// streams have ended.
pub proof fn lemma_run_from_start(events: Seq<Stamped>)
    ensures
        CaptureState::start().after_all(events).stdout == read_from(Stream::Stdout, events),
        CaptureState::start().after_all(events).stderr == read_from(Stream::Stderr, events),
        CaptureState::start().after_all(events).drained() <==> ends_in(Stream::Stdout, events)
            && ends_in(Stream::Stderr, events),
{
    lemma_whole_run(CaptureState::start(), events, Stream::Stdout);
    lemma_whole_run(CaptureState::start(), events, Stream::Stderr);
}

impl View for Capture {
    type V = CaptureState;

    closed spec fn view(&self) -> CaptureState {
        CaptureState {
            stdout: self.stdout.deep_view(),
            stderr: self.stderr.deep_view(),
            stdout_open: self.stdout_open,
            stderr_open: self.stderr_open,
        }
    }
}

/// Reads the clock.
///
/// Takes the system time and has chrono make an instant of it, by its
/// `From<SystemTime>` for `DateTime<Utc>`; the instant is given as
/// `DateTime::timestamp` (whole seconds since the Unix epoch) and
/// `DateTime::timestamp_subsec_nanos` (nanoseconds into that second). A
/// clock that reads a time before the epoch gives a negative number of
/// seconds. Nothing is claimed of the value: a clock may stand still or be
/// set back between two calls.
#[verifier::external_body]
fn now() -> (t: Timestamp) {
    let instant = chrono::DateTime::<chrono::Utc>::from(std::time::SystemTime::now());
    Timestamp { secs: instant.timestamp(), nanos: instant.timestamp_subsec_nanos() }
}

impl Capture {
    /// A capture that has seen nothing yet.
    pub fn new() -> (capture: Capture)
        ensures
            capture@ == CaptureState::start(),
    {
        let capture = Capture {
            stdout: Vec::new(),
            stderr: Vec::new(),
            stdout_open: true,
            stderr_open: true,
        };
        proof {
            assert(capture.stdout.deep_view() =~= Seq::<Fragment>::empty());
            assert(capture.stderr.deep_view() =~= Seq::<Fragment>::empty());
        }
        capture
    }

    /// Tells whether the stream has not ended yet.
    pub fn is_open(&self, stream: Stream) -> (r: bool)
        ensures
            r == self@.is_open(stream),
    {
        match stream {
            Stream::Stdout => self.stdout_open,
            Stream::Stderr => self.stderr_open,
        }
    }

    /// Tells whether both streams have ended.
    pub fn is_drained(&self) -> (r: bool)
        ensures
            r == self@.drained(),
    {
        !self.stdout_open && !self.stderr_open
    }

    /// The fragments captured from the stream so far.
    pub fn fragments(&self, stream: Stream) -> (lines: &[LogLine])
        ensures
            lines.deep_view() == self@.fragments(stream),
    {
        match stream {
            Stream::Stdout => self.stdout.as_slice(),
            Stream::Stderr => self.stderr.as_slice(),
        }
    }

    /// Takes in `event` as seen at the instant `now` and says what to do
    /// next.
    pub fn advance(&mut self, now: Timestamp, event: CaptureEvent) -> (action: CaptureAction)
        ensures
            final(self)@ == old(self)@.after(now, event),
            old(self)@.answers(event, action),
            action is AwaitExit <==> final(self)@.drained(),
    {
        match event {
            CaptureEvent::Line(stream, text) => {
                if self.is_open(stream) {
                    let echoed = text.clone();
                    let line = LogLine { timestamp: now, text };
                    match stream {
                        Stream::Stdout => {
                            let ghost before = self.stdout.deep_view();
                            self.stdout.push(line);
                            proof {
                                assert(self.stdout.deep_view() =~= before.push(line@));
                            }
                        },
                        Stream::Stderr => {
                            let ghost before = self.stderr.deep_view();
                            self.stderr.push(line);
                            proof {
                                assert(self.stderr.deep_view() =~= before.push(line@));
                            }
                        },
                    }
                    CaptureAction::Echo(stream, echoed)
                } else if self.is_drained() {
                    CaptureAction::AwaitExit
                } else {
                    CaptureAction::KeepReading
                }
            },
            CaptureEvent::EndOfStream(stream) => {
                match stream {
                    Stream::Stdout => {
                        self.stdout_open = false;
                    },
                    Stream::Stderr => {
                        self.stderr_open = false;
                    },
                }
                if self.is_drained() {
                    CaptureAction::AwaitExit
                } else {
                    CaptureAction::KeepReading
                }
            },
        }
    }

    /// Takes in `event` as of now, by the clock, and says what to do next.
    ///
    /// The instant is read when the event is handed over; apart from that
    /// this is `advance`.
    pub fn on_event(&mut self, event: CaptureEvent) -> (action: CaptureAction)
        ensures
            exists|instant: Timestamp| final(self)@ == #[trigger] old(self)@.after(instant, event),
            old(self)@.answers(event, action),
            action is AwaitExit <==> final(self)@.drained(),
    {
        let instant = now();
        self.advance(instant, event)
    }

    /// Closes the capture with the exit status of the process.
    ///
    /// A result is due once both streams have ended, and not before: while
    /// a stream is open there may be output to come.
    pub fn finish(self, exit_status: ExitOutcome) -> (result: Option<CaptureResult>)
        ensures
            result is Some <==> self@.drained(),
            result matches Some(captured) ==> {
                &&& captured.exit_status == exit_status
                &&& captured.stdout.deep_view() == self@.stdout
                &&& captured.stderr.deep_view() == self@.stderr
            },
    {
        if self.is_drained() {
            Some(CaptureResult { exit_status, stdout: self.stdout, stderr: self.stderr })
        } else {
            None
        }
    }
}

} // verus!
