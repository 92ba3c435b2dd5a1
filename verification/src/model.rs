//! The engine as a state machine over plain values: its states, the events
//! it is handed, and what it answers.
//!
//! The engine does no input or output of its own. Whoever drives it launches
//! the analyzer, reads and writes its streams, and reports what happened as
//! events; the engine answers each event with a directive that says what to
//! do next. This module is the mathematical side of that arrangement; the
//! executable side is [`crate::lemmatizer::Lemmatizer`], whose methods are
//! specified by the functions here. What holds of every run is proved in
//! [`crate::laws`].

use crate::alignment::{alignment, LemmatizeResultView};
use crate::error::CoreError;
use crate::protocol::{announces_ready, framed, invocation, is_noise, LaunchCommandView};
use crate::text::{filtered, trimmed};
use vstd::prelude::*;

verus! {

/// How far the analyzer has come.
///
/// A launched analyzer is either `Starting` or `Ready`, and goes from the
/// first to the second only. `Unlaunched` and `Launching` come before there
/// is a process; `Failed` means that there will be none. Nothing leads out
/// of `Ready` or `Failed`: an analyzer that dies is not launched again.
#[derive(Debug, Clone, Copy, PartialEq, Eq, Structural)]
pub enum Phase {
    /// No launch has been asked for.
    Unlaunched,
    /// A launch has been asked for and its outcome is awaited.
    Launching,
    /// The process runs; its readiness marker is awaited.
    Starting,
    /// The readiness marker has been seen; requests may be sent.
    Ready,
    /// Startup failed, for the reason given.
    Failed(CoreError),
}

/// The state of an engine.
pub struct Model {
    /// Where the analyzer's packaged artifact lies.
    pub artifact: Seq<char>,
    /// What follows the artifact's path on the analyzer's command line.
    pub flags: Seq<Seq<char>>,
    /// Whether filtering keeps numeric characters.
    pub keep_digits: bool,
    /// How far the analyzer has come.
    pub phase: Phase,
    /// The filtered text of the request whose answer is awaited, if there
    /// is one. This is the admission token: it is held while this is `Some`.
    pub pending: Option<Seq<char>>,
}

/// The mathematical content of a [`crate::lemmatizer::Event`]: what can
/// be reported to an engine.
pub enum EventView {
    /// A caller asks that the analyzer be ready.
    EnsureInitialized,
    /// A caller asks for the lemmas of a text.
    Lemmatize(Seq<char>),
    /// The launch that was asked for has succeeded.
    SpawnSucceeded,
    /// The launch that was asked for has failed.
    SpawnFailed,
    /// A line was read from the diagnostic stream, or, with `None`, the
    /// stream has ended.
    DiagnosticLine(Option<Seq<char>>),
    /// A line was read from the output stream, or, with `None`, the stream
    /// has ended.
    ResponseLine(Option<Seq<char>>),
}

/// The mathematical content of a [`crate::lemmatizer::Directive`].
pub enum DirectiveView {
    Spawn(LaunchCommandView),
    ReadDiagnostic,
    InProgress,
    Ready,
    Busy,
    Send(Seq<char>),
    ReadResponse,
    Done(LemmatizeResultView),
    Failed(CoreError),
    Ignored,
}

impl Model {
    /// The state of a new engine for the artifact at `artifact`.
    pub open spec fn initial(artifact: Seq<char>) -> Model {
        Model {
            artifact,
            flags: Seq::empty(),
            keep_digits: false,
            phase: Phase::Unlaunched,
            pending: None,
        }
    }

    /// Whether the state is one that an engine can be in: a request is
    /// pending only while the analyzer is ready, and startup has failed, if
    /// it has, for want of a process and not of a configuration.
    pub open spec fn wf(self) -> bool {
        &&& self.pending is Some ==> self.phase == Phase::Ready
        &&& self.phase != Phase::Failed(CoreError::InvalidConfiguration)
    }

    /// A caller asks that the analyzer be ready. Only the first such
    /// request finds it unlaunched and is told to launch it.
    pub open spec fn ensure_initialized(self) -> (Model, DirectiveView) {
        match self.phase {
            Phase::Unlaunched => (
                Model { phase: Phase::Launching, ..self },
                DirectiveView::Spawn(invocation(self.artifact, self.flags)),
            ),
            Phase::Launching => (self, DirectiveView::InProgress),
            Phase::Starting => (self, DirectiveView::InProgress),
            Phase::Ready => (self, DirectiveView::Ready),
            Phase::Failed(error) => (self, DirectiveView::Failed(error)),
        }
    }

    /// The launch has succeeded: the diagnostic stream is to be read.
    pub open spec fn spawn_succeeded(self) -> (Model, DirectiveView) {
        if self.phase == Phase::Launching {
            (Model { phase: Phase::Starting, ..self }, DirectiveView::ReadDiagnostic)
        } else {
            (self, DirectiveView::Ignored)
        }
    }

    /// The launch has failed: so has startup, for good.
    pub open spec fn spawn_failed(self) -> (Model, DirectiveView) {
        if self.phase == Phase::Launching {
            (
                Model { phase: Phase::Failed(CoreError::LaunchFailure), ..self },
                DirectiveView::Failed(CoreError::LaunchFailure),
            )
        } else {
            (self, DirectiveView::Ignored)
        }
    }

    /// A line of the diagnostic stream, or its end. During startup the
    /// first line that holds the marker makes the analyzer ready, any other
    /// line is passed over, and the end of the stream fails startup for good.
    pub open spec fn diagnostic_line(self, line: Option<Seq<char>>) -> (Model, DirectiveView) {
        if self.phase == Phase::Starting {
            match line {
                None => (
                    Model { phase: Phase::Failed(CoreError::ProcessTerminatedEarly), ..self },
                    DirectiveView::Failed(CoreError::ProcessTerminatedEarly),
                ),
                Some(text) => if announces_ready(text) {
                    (Model { phase: Phase::Ready, ..self }, DirectiveView::Ready)
                } else {
                    (self, DirectiveView::ReadDiagnostic)
                },
            }
        } else {
            (self, DirectiveView::Ignored)
        }
    }

    /// A caller asks for the lemmas of `text`. Until the analyzer is ready
    /// this is a request for readiness. Once it is, the request is admitted
    /// if no other is pending: its filtered text becomes the pending one and
    /// goes out as one line.
    pub open spec fn lemmatize(self, text: Seq<char>) -> (Model, DirectiveView) {
        if self.phase != Phase::Ready {
            self.ensure_initialized()
        } else if self.pending is Some {
            (self, DirectiveView::Busy)
        } else {
            let request = filtered(text, self.keep_digits);
            (Model { pending: Some(request), ..self }, DirectiveView::Send(framed(request)))
        }
    }

    /// A line of the output stream, or its end. While a request is pending,
    /// the first line that carries an answer completes it, lines that carry
    /// none are passed over, and the end of the stream fails the request.
    /// Either way of ending gives up the token and leaves the phase alone.
    pub open spec fn response_line(self, line: Option<Seq<char>>) -> (Model, DirectiveView) {
        if self.phase == Phase::Ready && self.pending is Some {
            match line {
                None => (
                    Model { pending: None, ..self },
                    DirectiveView::Failed(CoreError::ProcessTerminatedEarly),
                ),
                Some(text) => if is_noise(text) {
                    (self, DirectiveView::ReadResponse)
                } else {
                    (
                        Model { pending: None, ..self },
                        DirectiveView::Done(alignment(self.pending->0, trimmed(text))),
                    )
                },
            }
        } else {
            (self, DirectiveView::Ignored)
        }
    }

    /// The state after `event`, and the directive that answers it.
    pub open spec fn step(self, event: EventView) -> (Model, DirectiveView) {
        match event {
            EventView::EnsureInitialized => self.ensure_initialized(),
            EventView::Lemmatize(text) => self.lemmatize(text),
            EventView::SpawnSucceeded => self.spawn_succeeded(),
            EventView::SpawnFailed => self.spawn_failed(),
            EventView::DiagnosticLine(line) => self.diagnostic_line(line),
            EventView::ResponseLine(line) => self.response_line(line),
        }
    }

    /// The state after all of `events`, in order.
    pub open spec fn run(self, events: Seq<EventView>) -> Model
        decreases events.len(),
    {
        if events.len() == 0 {
            self
        } else {
            self.run(events.drop_last()).step(events.last()).0
        }
    }

    /// The directive that answers event `i` of `events`.
    pub open spec fn directive(self, events: Seq<EventView>, i: int) -> DirectiveView {
        self.run(events.take(i)).step(events[i]).1
    }

    /// How many of the directives that answer `events` ask for a launch.
    pub open spec fn spawn_count(self, events: Seq<EventView>) -> nat
        decreases events.len(),
    {
        if events.len() == 0 {
            0
        } else {
            let before = self.spawn_count(events.drop_last());
            if self.run(events.drop_last()).step(events.last()).1 is Spawn {
                before + 1
            } else {
                before
            }
        }
    }

    /// Everything that the directives that answer `events` have written to
    /// the analyzer's input stream, in order.
    pub open spec fn written(self, events: Seq<EventView>) -> Seq<char>
        decreases events.len(),
    {
        if events.len() == 0 {
            Seq::empty()
        } else {
            let before = self.written(events.drop_last());
            match self.run(events.drop_last()).step(events.last()).1 {
                DirectiveView::Send(line) => before + line,
                _ => before,
            }
        }
    }

    /// The texts of the requests among `events` that were admitted, in the
    /// order of their admission.
    pub open spec fn admitted(self, events: Seq<EventView>) -> Seq<Seq<char>>
        decreases events.len(),
    {
        if events.len() == 0 {
            Seq::empty()
        } else {
            let before = self.admitted(events.drop_last());
            match events.last() {
                EventView::Lemmatize(text) => {
                    if self.run(events.drop_last()).step(events.last()).1 is Send {
                        before.push(text)
                    } else {
                        before
                    }
                },
                _ => before,
            }
        }
    }
}

/// Whether `event` is a call that needs the analyzer ready.
pub open spec fn asks_for_readiness(event: EventView) -> bool {
    event is EnsureInitialized || event is Lemmatize
}

/// Whether `directive` ends an exchange and gives up the token.
pub open spec fn ends_exchange(directive: DirectiveView) -> bool {
    directive is Done || directive is Failed
}

/// The lines of `requests` as they stand on the wire, one after the other:
/// each request filtered, then ended by a line end.
pub open spec fn lines(requests: Seq<Seq<char>>, keep_digits: bool) -> Seq<char>
    decreases requests.len(),
{
    if requests.len() == 0 {
        Seq::empty()
    } else {
        lines(requests.drop_last(), keep_digits) + framed(
            filtered(requests.last(), keep_digits),
        )
    }
}

/// The events that report `lines` as read, one after the other, from the
/// diagnostic stream.
pub open spec fn diagnostic_lines(lines: Seq<Seq<char>>) -> Seq<EventView> {
    Seq::new(lines.len(), |i: int| EventView::DiagnosticLine(Some(lines[i])))
}

/// The events that report `lines` as read, one after the other, from the
/// output stream.
pub open spec fn response_lines(lines: Seq<Seq<char>>) -> Seq<EventView> {
    Seq::new(lines.len(), |i: int| EventView::ResponseLine(Some(lines[i])))
}

} // verus!
