//! The ordered event stream of a supervised process: lines of its two output
//! streams as they complete, then exactly one termination event once both
//! streams have closed and the exit is known.

use vstd::prelude::*;
use crate::lines::{
    LineBuffer, lines_of, all_lines, delivered_lines, joined, has_no_newline,
    lemma_lines_round_trip, lemma_unterminated_line_kept,
};

verus! {

/// What `String::from_utf8_lossy` makes of a line's bytes.
pub uninterp spec fn lossy_text(bytes: Seq<u8>) -> Seq<char>;

/// Relies on `String::from_utf8_lossy`: the text depends on the bytes alone
/// (undecodable sequences become U+FFFD).
#[verifier::external_body]
pub(crate) fn decode_lossy(bytes: &[u8]) -> (r: String)
    ensures
        r@ == lossy_text(bytes@),
{
    String::from_utf8_lossy(bytes).into_owned()
}

/// One observation of the child process, as the caller sees it.
#[derive(Debug, PartialEq, Eq)]
pub enum OutputEvent {
    StdoutLine(String),
    StderrLine(String),
    /// The exit code, where the process reported one.
    Terminated(Option<i32>),
}

pub enum EventView {
    StdoutLine(Seq<char>),
    StderrLine(Seq<char>),
    Terminated(Option<i32>),
}

impl View for OutputEvent {
    type V = EventView;

    open spec fn view(&self) -> EventView {
        match self {
            OutputEvent::StdoutLine(t) => EventView::StdoutLine(t@),
            OutputEvent::StderrLine(t) => EventView::StderrLine(t@),
            OutputEvent::Terminated(c) => EventView::Terminated(*c),
        }
    }
}

/// What the reader of the pipes hands to the supervisor.
#[derive(Debug, PartialEq, Eq)]
pub enum PipeInput {
    Stdout(Vec<u8>),
    StdoutClosed,
    Stderr(Vec<u8>),
    StderrClosed,
    /// The process has exited, with its code where it reported one.
    Exited(Option<i32>),
}

pub open spec fn events_view(evs: Seq<OutputEvent>) -> Seq<EventView> {
    evs.map_values(|e: OutputEvent| e@)
}

pub open spec fn decoded(ls: Seq<Seq<u8>>) -> Seq<Seq<char>> {
    ls.map_values(|l: Seq<u8>| lossy_text(l))
}

/// The texts of the standard-output lines of `log`, in order.
pub open spec fn stdout_texts(log: Seq<EventView>) -> Seq<Seq<char>>
    decreases log.len(),
{
    if log.len() == 0 {
        Seq::empty()
    } else {
        match log.last() {
            EventView::StdoutLine(t) => stdout_texts(log.drop_last()).push(t),
            _ => stdout_texts(log.drop_last()),
        }
    }
}

/// The texts of the standard-error lines of `log`, in order.
pub open spec fn stderr_texts(log: Seq<EventView>) -> Seq<Seq<char>>
    decreases log.len(),
{
    if log.len() == 0 {
        Seq::empty()
    } else {
        match log.last() {
            EventView::StderrLine(t) => stderr_texts(log.drop_last()).push(t),
            _ => stderr_texts(log.drop_last()),
        }
    }
}

/// How many termination events `log` holds.
pub open spec fn termination_count(log: Seq<EventView>) -> nat
    decreases log.len(),
{
    if log.len() == 0 {
        0
    } else {
        match log.last() {
            EventView::Terminated(_) => termination_count(log.drop_last()) + 1,
            _ => termination_count(log.drop_last()),
        }
    }
}

/// The supervisor's state, as a caller reasons about it.
pub struct SupervisorView {
    /// Every byte read from standard output while it was open.
    pub stdout: Seq<u8>,
    pub stdout_closed: bool,
    /// Every byte read from standard error while it was open.
    pub stderr: Seq<u8>,
    pub stderr_closed: bool,
    /// The first exit reported, if any.
    pub exit: Option<Option<i32>>,
    /// Every event handed out so far, in order.
    pub log: Seq<EventView>,
}

impl SupervisorView {
    /// Both streams are drained and the exit is known.
    pub open spec fn done(&self) -> bool {
        self.stdout_closed && self.stderr_closed && self.exit is Some
    }

    /// The events handed out agree with what was read: every line of each
    /// stream once, in the order written, and a single termination event,
    /// last, exactly when the run is done.
    pub open spec fn consistent(&self) -> bool {
        &&& stdout_texts(self.log) == decoded(delivered_lines(self.stdout, self.stdout_closed))
        &&& stderr_texts(self.log) == decoded(delivered_lines(self.stderr, self.stderr_closed))
        &&& if self.done() {
            termination_count(self.log) == 1
                && self.log.last() == EventView::Terminated(self.exit->Some_0)
        } else {
            termination_count(self.log) == 0
        }
    }

    /// The state after `input` has been taken in, apart from the log.
    pub open spec fn takes(&self, input: PipeInput, next: SupervisorView) -> bool {
        let open_out = !self.stdout_closed && !self.done();
        let open_err = !self.stderr_closed && !self.done();
        &&& next.stdout == match input {
            PipeInput::Stdout(b) => if open_out { self.stdout + b@ } else { self.stdout },
            _ => self.stdout,
        }
        &&& next.stdout_closed == (self.stdout_closed || input is StdoutClosed)
        &&& next.stderr == match input {
            PipeInput::Stderr(b) => if open_err { self.stderr + b@ } else { self.stderr },
            _ => self.stderr,
        }
        &&& next.stderr_closed == (self.stderr_closed || input is StderrClosed)
        &&& next.exit == match input {
            PipeInput::Exited(c) => if self.exit is Some { self.exit } else { Some(c) },
            _ => self.exit,
        }
    }
}

/// Turns the output of one child process into its event stream.
pub struct Supervisor {
    out: LineBuffer,
    err: LineBuffer,
    out_closed: bool,
    err_closed: bool,
    exit: Option<Option<i32>>,
    finished: bool,
    log: Ghost<Seq<EventView>>,
}

impl View for Supervisor {
    type V = SupervisorView;

    closed spec fn view(&self) -> SupervisorView {
        SupervisorView {
            stdout: self.out@,
            stdout_closed: self.out_closed,
            stderr: self.err@,
            stderr_closed: self.err_closed,
            exit: self.exit,
            log: self.log@,
        }
    }
}

pub open spec fn line_event(stdout: bool, t: Seq<char>) -> EventView {
    if stdout {
        EventView::StdoutLine(t)
    } else {
        EventView::StderrLine(t)
    }
}

impl Supervisor {
    pub closed spec fn wf(&self) -> bool {
        &&& (self.out_closed || self.out.wf())
        &&& (self.err_closed || self.err.wf())
        &&& self.finished == self@.done()
        &&& self@.consistent()
    }

    pub fn new() -> (r: Supervisor)
        ensures
            r.wf(),
            r@.stdout == Seq::<u8>::empty(),
            r@.stderr == Seq::<u8>::empty(),
            !r@.stdout_closed,
            !r@.stderr_closed,
            r@.exit is None,
            r@.log == Seq::<EventView>::empty(),
    {
        let r = Supervisor {
            out: LineBuffer::new(),
            err: LineBuffer::new(),
            out_closed: false,
            err_closed: false,
            exit: None,
            finished: false,
            log: Ghost(Seq::empty()),
        };
        proof {
            assert(decoded(Seq::<Seq<u8>>::empty()) =~= Seq::<Seq<char>>::empty());
        }
        r
    }

    /// Whether the termination event has been handed out.
    pub fn is_finished(&self) -> (r: bool)
        requires
            self.wf(),
        ensures
            r == self@.done(),
    {
        self.finished
    }

    /// Hands out one event per line, decoded, and records them in the log.
    fn emit_lines(&mut self, lines: Vec<Vec<u8>>, stdout: bool, out: &mut Vec<OutputEvent>)
        ensures
            final(self).out == old(self).out,
            final(self).err == old(self).err,
            final(self).out_closed == old(self).out_closed,
            final(self).err_closed == old(self).err_closed,
            final(self).exit == old(self).exit,
            final(self).finished == old(self).finished,
            final(self).log@ == old(self).log@ + events_view(final(out)@).skip(old(out)@.len() as int),
            events_view(final(out)@).subrange(0, old(out)@.len() as int) == events_view(old(out)@),
            stdout_texts(final(self).log@) == stdout_texts(old(self).log@)
                + (if stdout { decoded(lines@.map_values(|l: Vec<u8>| l@)) } else { Seq::empty() }),
            stderr_texts(final(self).log@) == stderr_texts(old(self).log@)
                + (if stdout { Seq::empty() } else { decoded(lines@.map_values(|l: Vec<u8>| l@)) }),
            termination_count(final(self).log@) == termination_count(old(self).log@),
    {
        let ghost log0 = self.log@;
        let ghost out0 = out@;
        let ghost ls = lines@.map_values(|l: Vec<u8>| l@);
        let mut i: usize = 0;
        while i < lines.len()
            invariant
                0 <= i <= lines@.len(),
                ls == lines@.map_values(|l: Vec<u8>| l@),
                out@.len() == out0.len() + i,
                out@.subrange(0, out0.len() as int) == out0,
                self.log@ == log0 + events_view(out@.subrange(out0.len() as int, out@.len() as int)),
                stdout_texts(self.log@) == stdout_texts(log0)
                    + (if stdout { decoded(ls.subrange(0, i as int)) } else { Seq::empty() }),
                stderr_texts(self.log@) == stderr_texts(log0)
                    + (if stdout { Seq::empty() } else { decoded(ls.subrange(0, i as int)) }),
                termination_count(self.log@) == termination_count(log0),
                self.out == old(self).out,
                self.err == old(self).err,
                self.out_closed == old(self).out_closed,
                self.err_closed == old(self).err_closed,
                self.exit == old(self).exit,
                self.finished == old(self).finished,
            decreases lines@.len() - i,
        {
            let text = decode_lossy(lines[i].as_slice());
            let ev = if stdout {
                OutputEvent::StdoutLine(text)
            } else {
                OutputEvent::StderrLine(text)
            };
            let ghost prev_log = self.log@;
            let ghost prev_out = out@;
            let ghost e = ev@;
            out.push(ev);
            self.log = Ghost(prev_log.push(e));
            proof {
                assert(self.log@.drop_last() =~= prev_log);
                assert(ls[i as int] == lines@[i as int]@);
                assert(decoded(ls.subrange(0, i + 1)) =~= decoded(ls.subrange(0, i as int)).push(lossy_text(ls[i as int])));
                assert(out@.subrange(0, out0.len() as int) =~= prev_out.subrange(0, out0.len() as int));
                assert(events_view(out@.subrange(out0.len() as int, out@.len() as int))
                    =~= events_view(prev_out.subrange(out0.len() as int, prev_out.len() as int)).push(e));
                if stdout {
                    assert(stdout_texts(self.log@) =~= stdout_texts(log0) + decoded(ls.subrange(0, i + 1)));
                    assert(stderr_texts(self.log@) =~= stderr_texts(log0) + Seq::empty());
                } else {
                    assert(stderr_texts(self.log@) =~= stderr_texts(log0) + decoded(ls.subrange(0, i + 1)));
                    assert(stdout_texts(self.log@) =~= stdout_texts(log0) + Seq::empty());
                }
            }
            i = i + 1;
        }
        proof {
            assert(ls.subrange(0, lines@.len() as int) =~= ls);
            assert(events_view(out@).subrange(0, out0.len() as int) =~= events_view(out0));
            assert(events_view(out@).skip(out0.len() as int)
                =~= events_view(out@.subrange(out0.len() as int, out@.len() as int)));
        }
    }
    /// Takes in one observation of the child and hands out the events that it
    /// completes, in order. Nothing is handed out after the termination event.
    pub fn step(&mut self, input: PipeInput) -> (r: Vec<OutputEvent>)
        requires
            old(self).wf(),
        ensures
            final(self).wf(),
            old(self)@.takes(input, final(self)@),
            final(self)@.log == old(self)@.log + events_view(r@),
            old(self)@.done() ==> r@.len() == 0,
    {
        let mut out: Vec<OutputEvent> = Vec::new();
        if self.finished {
            proof {
                assert(self.log@ + events_view(out@) =~= self.log@);
            }
            return out;
        }
        let ghost v0 = self@;
        match input {
            PipeInput::Stdout(bytes) => {
                if !self.out_closed {
                    let lines = self.out.push(bytes.as_slice());
                    proof {
                        lemma_decoded_concat(lines_of(v0.stdout), lines@.map_values(|l: Vec<u8>| l@));
                    }
                    self.emit_lines(lines, true, &mut out);
                }
            }
            PipeInput::StdoutClosed => {
                if !self.out_closed {
                    let last = self.out.finish();
                    let mut lines: Vec<Vec<u8>> = Vec::new();
                    match last {
                        Some(line) => {
                            lines.push(line);
                        },
                        None => {},
                    }
                    proof {
                        assert(all_lines(v0.stdout) =~= lines_of(v0.stdout) + lines@.map_values(|l: Vec<u8>| l@));
                        lemma_decoded_concat(lines_of(v0.stdout), lines@.map_values(|l: Vec<u8>| l@));
                    }
                    self.emit_lines(lines, true, &mut out);
                    self.out_closed = true;
                }
            }
            PipeInput::Stderr(bytes) => {
                if !self.err_closed {
                    let lines = self.err.push(bytes.as_slice());
                    proof {
                        lemma_decoded_concat(lines_of(v0.stderr), lines@.map_values(|l: Vec<u8>| l@));
                    }
                    self.emit_lines(lines, false, &mut out);
                }
            }
            PipeInput::StderrClosed => {
                if !self.err_closed {
                    let last = self.err.finish();
                    let mut lines: Vec<Vec<u8>> = Vec::new();
                    match last {
                        Some(line) => {
                            lines.push(line);
                        },
                        None => {},
                    }
                    proof {
                        assert(all_lines(v0.stderr) =~= lines_of(v0.stderr) + lines@.map_values(|l: Vec<u8>| l@));
                        lemma_decoded_concat(lines_of(v0.stderr), lines@.map_values(|l: Vec<u8>| l@));
                    }
                    self.emit_lines(lines, false, &mut out);
                    self.err_closed = true;
                }
            }
            PipeInput::Exited(code) => {
                if self.exit.is_none() {
                    self.exit = Some(code);
                }
            }
        }
        if self.out_closed && self.err_closed && self.exit.is_some() {
            let code = match self.exit {
                Some(c) => c,
                None => None,
            };
            let ghost prev_log = self.log@;
            let ghost prev_out = out@;
            let ev = OutputEvent::Terminated(code);
            let ghost e = ev@;
            out.push(ev);
            self.log = Ghost(prev_log.push(e));
            self.finished = true;
            proof {
                assert(self.log@.drop_last() =~= prev_log);
                assert(events_view(out@) =~= events_view(prev_out).push(e));
            }
        }
        proof {
            assert(self.log@ =~= v0.log + events_view(out@));
        }
        out
    }
}

/// Decoding line by line commutes with concatenation.
pub proof fn lemma_decoded_concat(a: Seq<Seq<u8>>, b: Seq<Seq<u8>>)
    ensures
        decoded(a + b) == decoded(a) + decoded(b),
{
    assert(decoded(a + b) =~= decoded(a) + decoded(b));
}

/// A log with no standard-error line and no termination is its
/// standard-output lines, in order.
proof fn lemma_only_stdout(log: Seq<EventView>)
    requires
        stderr_texts(log) == Seq::<Seq<char>>::empty(),
        termination_count(log) == 0,
    ensures
        log == stdout_texts(log).map_values(|t: Seq<char>| EventView::StdoutLine(t)),
    decreases log.len(),
{
    if log.len() > 0 {
        let init = log.drop_last();
        match log.last() {
            EventView::StdoutLine(t) => {
                lemma_only_stdout(init);
                assert(log =~= init.push(log.last()));
                assert(stdout_texts(log).map_values(|t: Seq<char>| EventView::StdoutLine(t))
                    =~= stdout_texts(init).map_values(|t: Seq<char>| EventView::StdoutLine(t)).push(log.last()));
            },
            EventView::StderrLine(t) => {
                assert(stderr_texts(log).len() == stderr_texts(init).len() + 1);
            },
            EventView::Terminated(_) => {},
        }
    }
}

/// A log without termination events has none at any position.
proof fn lemma_no_termination(log: Seq<EventView>)
    requires
        termination_count(log) == 0,
    ensures
        forall|i: int| 0 <= i < log.len() ==> !(#[trigger] log[i] is Terminated),
    decreases log.len(),
{
    if log.len() > 0 {
        let init = log.drop_last();
        lemma_no_termination(init);
        assert forall|i: int| 0 <= i < log.len() implies !(#[trigger] log[i] is Terminated) by {
            if i < init.len() {
                assert(log[i] == init[i]);
            }
        }
    }
}

/// A run that writes the lines `ls` to standard output, nothing to standard
/// error, and exits with code 0 yields one standard-output event per line, in
/// the order written, followed by a single `Terminated(Some(0))`.
pub proof fn lemma_clean_run(s: Supervisor, ls: Seq<Seq<u8>>)
    requires
        s.wf(),
        s@.done(),
        forall|i: int| 0 <= i < ls.len() ==> has_no_newline(#[trigger] ls[i]),
        s@.stdout == joined(ls),
        s@.stderr == Seq::<u8>::empty(),
        s@.exit == Some(Some(0i32)),
    ensures
        s@.log == decoded(ls).map_values(|t: Seq<char>| EventView::StdoutLine(t)).push(
            EventView::Terminated(Some(0i32)),
        ),
{
    let log = s@.log;
    lemma_lines_round_trip(ls);
    assert(all_lines(Seq::<u8>::empty()) == Seq::<Seq<u8>>::empty());
    assert(decoded(Seq::<Seq<u8>>::empty()) =~= Seq::<Seq<char>>::empty());
    let init = log.drop_last();
    assert(termination_count(init) == 0);
    assert(stderr_texts(init) == stderr_texts(log));
    assert(stdout_texts(init) == stdout_texts(log));
    lemma_only_stdout(init);
    assert(log =~= init.push(log.last()));
}

/// Once the run is done its last event is `Terminated` with the exit code
/// exactly as reported, no earlier event is a termination, and every line of
/// both streams comes before it.
pub proof fn lemma_termination_last(s: Supervisor)
    requires
        s.wf(),
        s@.done(),
    ensures
        s@.log.len() > 0,
        s@.log.last() == EventView::Terminated(s@.exit->Some_0),
        forall|i: int| 0 <= i < s@.log.len() - 1 ==> !(#[trigger] s@.log[i] is Terminated),
        stdout_texts(s@.log.drop_last()) == decoded(all_lines(s@.stdout)),
        stderr_texts(s@.log.drop_last()) == decoded(all_lines(s@.stderr)),
{
    let log = s@.log;
    let init = log.drop_last();
    assert(termination_count(init) == 0);
    lemma_no_termination(init);
    assert forall|i: int| 0 <= i < log.len() - 1 implies !(#[trigger] log[i] is Terminated) by {
        assert(log[i] == init[i]);
    }
}

/// A final standard-output line written without terminator before the stream
/// closes is delivered whole, as the last standard-output event.
pub proof fn lemma_unterminated_line_delivered(s: Supervisor, ls: Seq<Seq<u8>>, frag: Seq<u8>)
    requires
        s.wf(),
        s@.stdout_closed,
        forall|i: int| 0 <= i < ls.len() ==> has_no_newline(#[trigger] ls[i]),
        has_no_newline(frag),
        frag.len() > 0,
        s@.stdout == joined(ls) + frag,
    ensures
        stdout_texts(s@.log) == decoded(ls.push(frag)),
        stdout_texts(s@.log).last() == lossy_text(frag),
{
    lemma_unterminated_line_kept(ls, frag);
}

} // verus!
