//! The decisions of a source reader.
//!
//! A reader turns what happens at its origin (the file was opened, a line
//! arrived, the input ended, the consumer went away) into what to do next:
//! read on, send a line, or finish. Opening files, spawning commands, reading
//! and sending are the caller's business; each outcome is handed to
//! [`Reader::step`] as an event, together with the shutdown signal as the
//! caller finds it at that moment.

use crate::config::{SourceConfig, SourceKind};
use crate::logline::LogLine;
use std::time::SystemTime;
use vstd::prelude::*;

verus! {

/// How far a reader has come.
#[derive(Debug, Clone, Copy, PartialEq, Eq, Structural)]
pub enum ReaderState {
    /// The origin has not been opened yet.
    Idle,
    /// The origin is open and lines are being read.
    Reading,
    /// The reader has finished; nothing more is read or sent.
    Done,
}

/// A failure that a reader reports before it finishes.
#[derive(Debug, Clone, Copy, PartialEq, Eq, Structural)]
pub enum ReaderFault {
    /// The file could not be opened, or the command could not be spawned.
    OpenFailed,
    /// The command runs, but its output cannot be read.
    NoOutputStream,
    /// A line could not be read or decoded.
    ReadFailed,
}

/// What happened at the reader's origin or at the queue.
#[derive(Debug)]
pub enum ReaderEvent {
    /// The file is open, or the command runs and its output is captured.
    Opened,
    /// The file could not be opened, or the command could not be spawned.
    OpenFailed,
    /// The command was spawned without an output stream.
    NoOutputStream,
    /// A line was read at the given time.
    Line { text: String, at: SystemTime },
    /// Reading or decoding a line failed.
    ReadFailed,
    /// The input is exhausted.
    EndOfInput,
    /// The line sent last could not be delivered: the consumer is gone.
    ConsumerGone,
}

/// What the reader does next.
#[derive(Debug)]
pub enum ReaderAction {
    /// Read the next line.
    Read,
    /// Push this line onto the queue, then read the next one.
    Send(LogLine),
    /// Stop. `report` names the failure to log, if there is one;
    /// `wait_for_exit` says whether a spawned command is still to be awaited.
    Finish { report: Option<ReaderFault>, wait_for_exit: bool },
}

/// The reader of one source.
#[derive(Debug)]
pub struct Reader {
    /// The name of the source; every line sent carries it.
    pub name: String,
    /// Whether the source is a command, whose exit is awaited once its output
    /// has been opened.
    pub from_command: bool,
    pub state: ReaderState,
}

impl ReaderEvent {
    /// Whether the event says that the origin could not be opened.
    pub open spec fn is_start_failure(self) -> bool {
        self is OpenFailed || self is NoOutputStream
    }
}

impl Reader {
    /// The action that ends an open reader: a command is awaited, a file is not.
    pub open spec fn closing(self, report: Option<ReaderFault>) -> ReaderAction {
        ReaderAction::Finish { report, wait_for_exit: self.from_command }
    }

    /// Whether the reader stays open after an event: it was opened just now,
    /// or it has read a line and shutdown is not requested.
    pub open spec fn goes_on(self, event: ReaderEvent, shutdown: bool) -> bool {
        match self.state {
            ReaderState::Idle => event is Opened,
            ReaderState::Reading => event is Line && !shutdown,
            ReaderState::Done => false,
        }
    }

    /// The state after an event.
    pub open spec fn next_state(self, event: ReaderEvent, shutdown: bool) -> ReaderState {
        if self.goes_on(event, shutdown) {
            ReaderState::Reading
        } else {
            ReaderState::Done
        }
    }

    /// The action that answers an event.
    ///
    /// Before the origin is open, only the outcome of opening it counts: a
    /// failure is reported, and no command is awaited. While reading, a line is
    /// sent under the reader's name unless shutdown is requested, in which case
    /// the send is abandoned and the reader ends in silence; a read failure is
    /// reported; the end of input or a vanished consumer ends the reader in
    /// silence. An event that does not belong to the state ends the reader in
    /// silence too. A finished reader stays finished.
    pub open spec fn reaction(self, event: ReaderEvent, shutdown: bool) -> ReaderAction {
        match self.state {
            ReaderState::Idle => match event {
                ReaderEvent::Opened => ReaderAction::Read,
                ReaderEvent::OpenFailed => ReaderAction::Finish {
                    report: Some(ReaderFault::OpenFailed),
                    wait_for_exit: false,
                },
                ReaderEvent::NoOutputStream => ReaderAction::Finish {
                    report: Some(ReaderFault::NoOutputStream),
                    wait_for_exit: false,
                },
                _ => ReaderAction::Finish { report: None, wait_for_exit: false },
            },
            ReaderState::Reading => match event {
                ReaderEvent::Line { text, at } => if shutdown {
                    self.closing(None)
                } else {
                    ReaderAction::Send(LogLine { source: self.name, line: text, timestamp: at })
                },
                ReaderEvent::ReadFailed => self.closing(Some(ReaderFault::ReadFailed)),
                _ => self.closing(None),
            },
            ReaderState::Done => ReaderAction::Finish { report: None, wait_for_exit: false },
        }
    }

    /// The reader after an event.
    pub open spec fn after(self, event: ReaderEvent, shutdown: bool) -> Reader {
        Reader {
            name: self.name,
            from_command: self.from_command,
            state: self.next_state(event, shutdown),
        }
    }

    /// The lines that a reader sends, in order, while it is fed `inputs`: each
    /// an event, and whether shutdown was requested when the event came.
    pub open spec fn sent(self, inputs: Seq<(ReaderEvent, bool)>) -> Seq<LogLine>
        decreases inputs.len(),
    {
        if inputs.len() == 0 {
            Seq::empty()
        } else {
            let (event, shutdown) = inputs[0];
            let rest = self.after(event, shutdown).sent(inputs.drop_first());
            match self.reaction(event, shutdown) {
                ReaderAction::Send(line) => seq![line] + rest,
                _ => rest,
            }
        }
    }

    /// A reader for `source`, with its origin still to be opened.
    pub fn new(source: &SourceConfig) -> (reader: Reader)
        ensures
            reader.name == source.name,
            reader.from_command == (source.kind is Command),
            reader.state == ReaderState::Idle,
    {
        let from_command = match &source.kind {
            SourceKind::File { .. } => false,
            SourceKind::Command { .. } => true,
        };
        Reader { name: source.name.clone(), from_command, state: ReaderState::Idle }
    }

    /// Takes one event, and the shutdown signal as it is found at that
    /// moment, and says what to do next.
    pub fn step(&mut self, event: ReaderEvent, shutdown: bool) -> (action: ReaderAction)
        ensures
            action == old(self).reaction(event, shutdown),
            *final(self) == old(self).after(event, shutdown),
    {
        match self.state {
            ReaderState::Idle => match event {
                ReaderEvent::Opened => {
                    self.state = ReaderState::Reading;
                    ReaderAction::Read
                },
                ReaderEvent::OpenFailed => {
                    self.state = ReaderState::Done;
                    ReaderAction::Finish {
                        report: Some(ReaderFault::OpenFailed),
                        wait_for_exit: false,
                    }
                },
                ReaderEvent::NoOutputStream => {
                    self.state = ReaderState::Done;
                    ReaderAction::Finish {
                        report: Some(ReaderFault::NoOutputStream),
                        wait_for_exit: false,
                    }
                },
                _ => {
                    self.state = ReaderState::Done;
                    ReaderAction::Finish { report: None, wait_for_exit: false }
                },
            },
            ReaderState::Reading => match event {
                ReaderEvent::Line { text, at } => if shutdown {
                    self.state = ReaderState::Done;
                    ReaderAction::Finish { report: None, wait_for_exit: self.from_command }
                } else {
                    ReaderAction::Send(
                        LogLine { source: self.name.clone(), line: text, timestamp: at },
                    )
                },
                ReaderEvent::ReadFailed => {
                    self.state = ReaderState::Done;
                    ReaderAction::Finish {
                        report: Some(ReaderFault::ReadFailed),
                        wait_for_exit: self.from_command,
                    }
                },
                _ => {
                    self.state = ReaderState::Done;
                    ReaderAction::Finish { report: None, wait_for_exit: self.from_command }
                },
            },
            ReaderState::Done => ReaderAction::Finish { report: None, wait_for_exit: false },
        }
    }
}

/// A finished reader sends nothing, whatever happens afterwards.
pub proof fn lemma_finished_reader_is_silent(reader: Reader, inputs: Seq<(ReaderEvent, bool)>)
    requires
        reader.state == ReaderState::Done,
    ensures
        reader.sent(inputs) == Seq::<LogLine>::empty(),
    decreases inputs.len(),
{
    if inputs.len() > 0 {
        lemma_finished_reader_is_silent(
            reader.after(inputs[0].0, inputs[0].1),
            inputs.drop_first(),
        );
    }
}

/// A source whose file cannot be opened, or whose command cannot be spawned or
/// gives no output stream, yields no line at all, whatever happens afterwards:
/// the failure is reported, and nothing is awaited.
pub proof fn lemma_failed_start_sends_nothing(reader: Reader, inputs: Seq<(ReaderEvent, bool)>)
    requires
        reader.state == ReaderState::Idle,
        inputs.len() > 0,
        inputs[0].0.is_start_failure(),
    ensures
        reader.sent(inputs) == Seq::<LogLine>::empty(),
        reader.reaction(inputs[0].0, inputs[0].1) matches ReaderAction::Finish {
            report,
            wait_for_exit,
        } && report is Some && !wait_for_exit,
{
    lemma_finished_reader_is_silent(reader.after(inputs[0].0, inputs[0].1), inputs.drop_first());
}

/// Once shutdown is requested a reader sends nothing more: if every event
/// comes with the signal set, no line is sent.
pub proof fn lemma_shutdown_sends_nothing(reader: Reader, inputs: Seq<(ReaderEvent, bool)>)
    requires
        forall|i: int| 0 <= i < inputs.len() ==> (#[trigger] inputs[i]).1,
    ensures
        reader.sent(inputs) == Seq::<LogLine>::empty(),
    decreases inputs.len(),
{
    if inputs.len() > 0 {
        let rest = inputs.drop_first();
        assert forall|i: int| 0 <= i < rest.len() implies (#[trigger] rest[i]).1 by {
            assert(rest[i] == inputs[i + 1]);
        }
        lemma_shutdown_sends_nothing(reader.after(inputs[0].0, inputs[0].1), rest);
    }
}

/// Every line that a reader sends names the reader's own source.
pub proof fn lemma_sent_lines_carry_name(reader: Reader, inputs: Seq<(ReaderEvent, bool)>)
    ensures
        forall|i: int|
            0 <= i < reader.sent(inputs).len() ==> (#[trigger] reader.sent(inputs)[i]).source
                == reader.name,
    decreases inputs.len(),
{
    if inputs.len() > 0 {
        let next = reader.after(inputs[0].0, inputs[0].1);
        let rest = next.sent(inputs.drop_first());
        lemma_sent_lines_carry_name(next, inputs.drop_first());
        assert forall|i: int| 0 <= i < reader.sent(inputs).len() implies (#[trigger] reader.sent(
            inputs,
        )[i]).source == reader.name by {
            if reader.reaction(inputs[0].0, inputs[0].1) is Send {
                if i > 0 {
                    assert(reader.sent(inputs)[i] == rest[i - 1]);
                }
            } else {
                assert(reader.sent(inputs)[i] == rest[i]);
            }
        }
    }
}

/// Within one source the order of reading is the order of sending: an open
/// reader that is fed lines only, with no shutdown requested, sends each of
/// them, with its text and time, at the position at which it was read.
pub proof fn lemma_lines_sent_in_read_order(reader: Reader, inputs: Seq<(ReaderEvent, bool)>)
    requires
        reader.state == ReaderState::Reading,
        forall|i: int| 0 <= i < inputs.len() ==> (#[trigger] inputs[i]).0 is Line && !inputs[i].1,
    ensures
        reader.sent(inputs).len() == inputs.len(),
        forall|i: int|
            0 <= i < inputs.len() ==> (#[trigger] reader.sent(inputs)[i]) == (LogLine {
                source: reader.name,
                line: inputs[i].0->text,
                timestamp: inputs[i].0->at,
            }),
    decreases inputs.len(),
{
    if inputs.len() > 0 {
        let rest = inputs.drop_first();
        assert forall|i: int| 0 <= i < rest.len() implies (#[trigger] rest[i]).0 is Line
            && !rest[i].1 by {
            assert(rest[i] == inputs[i + 1]);
        }
        lemma_lines_sent_in_read_order(reader.after(inputs[0].0, inputs[0].1), rest);
        assert forall|i: int| 0 <= i < inputs.len() implies (#[trigger] reader.sent(inputs)[i])
            == (LogLine {
            source: reader.name,
            line: inputs[i].0->text,
            timestamp: inputs[i].0->at,
        }) by {
            if i > 0 {
                assert(rest[i - 1] == inputs[i]);
                assert(reader.sent(inputs)[i] == reader.after(inputs[0].0, inputs[0].1).sent(
                    rest,
                )[i - 1]);
            }
        }
    }
}

/// One reader per source, in the order of the sources.
pub fn plan_readers(sources: &Vec<SourceConfig>) -> (readers: Vec<Reader>)
    ensures
        readers.len() == sources.len(),
        forall|i: int|
            0 <= i < sources.len() ==> {
                &&& (#[trigger] readers[i]).name == sources[i].name
                &&& readers[i].from_command == (sources[i].kind is Command)
                &&& readers[i].state == ReaderState::Idle
            },
{
    let mut readers: Vec<Reader> = Vec::new();
    let mut i: usize = 0;
    while i < sources.len()
        invariant
            i <= sources.len(),
            readers.len() == i,
            forall|k: int|
                0 <= k < i ==> {
                    &&& (#[trigger] readers[k]).name == sources[k].name
                    &&& readers[k].from_command == (sources[k].kind is Command)
                    &&& readers[k].state == ReaderState::Idle
                },
        decreases sources.len() - i,
    {
        readers.push(Reader::new(&sources[i]));
        i += 1;
    }
    readers
}

} // verus!
