//! The engine: supervision of the analyzer's startup, admission of one
//! request at a time, and the exchange of a request for its answer.

use crate::alignment::{build_alignment, LemmatizeResult};
use crate::error::CoreError;
use crate::model::{DirectiveView, EventView, Model, Phase};
use crate::protocol::{frame_request, is_ready_line, launch_command, response_of, LaunchCommand};
use crate::text::filter_text;
use vstd::prelude::*;

verus! {

/// What can be reported to an engine: a call, or what came of carrying out
/// a directive. Lines are handed over as they were read, line end and all.
#[derive(Debug, Clone, Copy, PartialEq, Eq)]
pub enum Event<'a> {
    /// A caller asks that the analyzer be ready.
    EnsureInitialized,
    /// A caller asks for the lemmas of a text.
    Lemmatize(&'a str),
    /// The launch that was asked for has succeeded.
    SpawnSucceeded,
    /// The launch that was asked for has failed.
    SpawnFailed,
    /// A line was read from the diagnostic stream; or, with `None`, the
    /// stream has ended or failed.
    DiagnosticLine(Option<&'a str>),
    /// A line was read from the output stream; or, with `None`, the stream
    /// has ended or failed, be it while the request was written or while
    /// its answer was read.
    ResponseLine(Option<&'a str>),
}

impl<'a> View for Event<'a> {
    type V = EventView;

    open spec fn view(&self) -> EventView {
        match self {
            Event::EnsureInitialized => EventView::EnsureInitialized,
            Event::Lemmatize(text) => EventView::Lemmatize(text@),
            Event::SpawnSucceeded => EventView::SpawnSucceeded,
            Event::SpawnFailed => EventView::SpawnFailed,
            Event::DiagnosticLine(line) => EventView::DiagnosticLine(line.deep_view()),
            Event::ResponseLine(line) => EventView::ResponseLine(line.deep_view()),
        }
    }
}

/// What the driver of an engine is to do next.
#[derive(Debug, PartialEq, Eq)]
pub enum Directive {
    /// Launch this command with its three standard streams captured, then
    /// report `spawn_succeeded` or `spawn_failed`.
    Spawn(LaunchCommand),
    /// Read one line from the diagnostic stream and report it with
    /// `diagnostic_line`.
    ReadDiagnostic,
    /// Startup is under way on another caller's behalf. Ask again once it
    /// has ended.
    InProgress,
    /// The analyzer is ready.
    Ready,
    /// Another request holds the token. Ask again once it has ended.
    Busy,
    /// Write this line to the input stream and flush it, then read one line
    /// from the output stream and report it with `response_line`.
    Send(String),
    /// Read one more line from the output stream and report it with
    /// `response_line`.
    ReadResponse,
    /// The request is complete, with this result.
    Done(LemmatizeResult),
    /// The call has failed, for this reason.
    Failed(CoreError),
    /// The event does not fit the engine's state. Nothing has changed.
    Ignored,
}

impl View for Directive {
    type V = DirectiveView;

    open spec fn view(&self) -> DirectiveView {
        match self {
            Directive::Spawn(command) => DirectiveView::Spawn(command@),
            Directive::ReadDiagnostic => DirectiveView::ReadDiagnostic,
            Directive::InProgress => DirectiveView::InProgress,
            Directive::Ready => DirectiveView::Ready,
            Directive::Busy => DirectiveView::Busy,
            Directive::Send(line) => DirectiveView::Send(line@),
            Directive::ReadResponse => DirectiveView::ReadResponse,
            Directive::Done(result) => DirectiveView::Done(result@),
            Directive::Failed(error) => DirectiveView::Failed(*error),
            Directive::Ignored => DirectiveView::Ignored,
        }
    }
}

/// The engine behind a lemmatization service.
///
/// It decides and remembers; it neither launches the analyzer nor touches
/// its streams. Each method reports a call or an event and returns the
/// [`Directive`] that says what its driver is to do next. What a method does
/// is told by the function of the same name on [`Model`], the engine's
/// state as a plain value.
///
/// An engine is always in a well-formed state: a request is pending only
/// while the analyzer is ready.
pub struct Lemmatizer {
    jar_path: String,
    flags: Vec<String>,
    keep_digits: bool,
    phase: Phase,
    pending: Option<String>,
}

impl View for Lemmatizer {
    type V = Model;

    closed spec fn view(&self) -> Model {
        Model {
            artifact: self.jar_path@,
            flags: self.flags.deep_view(),
            keep_digits: self.keep_digits,
            phase: self.phase,
            pending: self.pending.deep_view(),
        }
    }
}

impl Lemmatizer {
    #[verifier::type_invariant]
    spec fn well_formed(&self) -> bool {
        self@.wf()
    }

    /// An engine for the analyzer whose packaged artifact lies at
    /// `jar_path`. Nothing is launched yet.
    pub fn new(jar_path: String) -> (engine: Self)
        ensures
            engine@ == Model::initial(jar_path@),
            engine@.wf(),
    {
        let flags: Vec<String> = Vec::new();
        assert(flags.deep_view() =~= Seq::<Seq<char>>::empty());
        Lemmatizer { jar_path, flags, keep_digits: false, phase: Phase::Unlaunched, pending: None }
    }

    /// The same engine, but with `flags` handed to the analyzer after the
    /// artifact's path when it is launched.
    pub fn with_flags(self, flags: Vec<String>) -> (engine: Self)
        ensures
            engine@ == (Model { flags: flags.deep_view(), ..self@ }),
            engine@.wf(),
    {
        proof {
            use_type_invariant(&self);
        }
        Lemmatizer {
            jar_path: self.jar_path,
            flags,
            keep_digits: self.keep_digits,
            phase: self.phase,
            pending: self.pending,
        }
    }

    /// The same engine, but with filtering that keeps numeric characters
    /// if `keep` is set, and strips them if it is not.
    pub fn keeping_digits(self, keep: bool) -> (engine: Self)
        ensures
            engine@ == (Model { keep_digits: keep, ..self@ }),
            engine@.wf(),
    {
        proof {
            use_type_invariant(&self);
        }
        Lemmatizer {
            jar_path: self.jar_path,
            flags: self.flags,
            keep_digits: keep,
            phase: self.phase,
            pending: self.pending,
        }
    }

    /// A caller asks that the analyzer be ready.
    pub fn ensure_initialized(&mut self) -> (directive: Directive)
        ensures
            (final(self)@, directive@) == old(self)@.ensure_initialized(),
            final(self)@.wf(),
    {
        proof {
            use_type_invariant(&*self);
        }
        match self.phase {
            Phase::Unlaunched => {
                let command = launch_command(self.jar_path.as_str(), &self.flags);
                self.phase = Phase::Launching;
                Directive::Spawn(command)
            },
            Phase::Launching => Directive::InProgress,
            Phase::Starting => Directive::InProgress,
            Phase::Ready => Directive::Ready,
            Phase::Failed(error) => Directive::Failed(error),
        }
    }

    /// The launch that `ensure_initialized` or `lemmatize` asked for has
    /// succeeded.
    pub fn spawn_succeeded(&mut self) -> (directive: Directive)
        ensures
            (final(self)@, directive@) == old(self)@.spawn_succeeded(),
            final(self)@.wf(),
    {
        proof {
            use_type_invariant(&*self);
        }
        match self.phase {
            Phase::Launching => {
                self.phase = Phase::Starting;
                Directive::ReadDiagnostic
            },
            _ => Directive::Ignored,
        }
    }

    /// The launch that `ensure_initialized` or `lemmatize` asked for has
    /// failed.
    pub fn spawn_failed(&mut self) -> (directive: Directive)
        ensures
            (final(self)@, directive@) == old(self)@.spawn_failed(),
            final(self)@.wf(),
    {
        proof {
            use_type_invariant(&*self);
        }
        match self.phase {
            Phase::Launching => {
                self.phase = Phase::Failed(CoreError::LaunchFailure);
                Directive::Failed(CoreError::LaunchFailure)
            },
            _ => Directive::Ignored,
        }
    }

    /// A line has been read from the diagnostic stream, line end and all;
    /// or, with `None`, the stream has ended or failed.
    pub fn diagnostic_line(&mut self, line: Option<&str>) -> (directive: Directive)
        ensures
            (final(self)@, directive@) == old(self)@.diagnostic_line(line.deep_view()),
            final(self)@.wf(),
    {
        proof {
            use_type_invariant(&*self);
        }
        match self.phase {
            Phase::Starting => match line {
                None => {
                    self.phase = Phase::Failed(CoreError::ProcessTerminatedEarly);
                    Directive::Failed(CoreError::ProcessTerminatedEarly)
                },
                Some(text) => {
                    if is_ready_line(text) {
                        self.phase = Phase::Ready;
                        Directive::Ready
                    } else {
                        Directive::ReadDiagnostic
                    }
                },
            },
            _ => Directive::Ignored,
        }
    }

    /// A caller asks for the lemmas of `text`.
    ///
    /// Until the analyzer is ready, the answer is that of
    /// `ensure_initialized`, and the caller asks again once it is. Then the
    /// request is admitted unless another is pending, and `Send` holds its
    /// line: `text` without what is neither a letter nor white space nor,
    /// where digits are kept, numeric, followed by a line end.
    pub fn lemmatize(&mut self, text: &str) -> (directive: Directive)
        ensures
            (final(self)@, directive@) == old(self)@.lemmatize(text@),
            final(self)@.wf(),
    {
        proof {
            use_type_invariant(&*self);
        }
        match self.phase {
            Phase::Ready => {
                if self.pending.is_some() {
                    Directive::Busy
                } else {
                    let request = filter_text(text, self.keep_digits);
                    let line = frame_request(request.as_str());
                    self.pending = Some(request);
                    Directive::Send(line)
                }
            },
            _ => self.ensure_initialized(),
        }
    }

    /// A line has been read from the output stream, line end and all; or,
    /// with `None`, the stream has ended or failed, be it while the request
    /// was written or while its answer was read.
    pub fn response_line(&mut self, line: Option<&str>) -> (directive: Directive)
        ensures
            (final(self)@, directive@) == old(self)@.response_line(line.deep_view()),
            final(self)@.wf(),
    {
        proof {
            use_type_invariant(&*self);
        }
        match self.phase {
            Phase::Ready => {},
            _ => {
                return Directive::Ignored;
            },
        }
        let outcome = match &self.pending {
            None => {
                return Directive::Ignored;
            },
            Some(request) => match line {
                None => None,
                Some(text) => match response_of(text) {
                    None => {
                        return Directive::ReadResponse;
                    },
                    Some(answer) => Some(build_alignment(request.as_str(), answer.as_str())),
                },
            },
        };
        self.pending = None;
        match outcome {
            None => Directive::Failed(CoreError::ProcessTerminatedEarly),
            Some(result) => Directive::Done(result),
        }
    }

    /// Reports `event`, whichever it is, and returns the directive that
    /// answers it.
    pub fn step(&mut self, event: Event) -> (directive: Directive)
        ensures
            (final(self)@, directive@) == old(self)@.step(event@),
            final(self)@.wf(),
    {
        proof {
            use_type_invariant(&*self);
        }
        match event {
            Event::EnsureInitialized => self.ensure_initialized(),
            Event::Lemmatize(text) => self.lemmatize(text),
            Event::SpawnSucceeded => self.spawn_succeeded(),
            Event::SpawnFailed => self.spawn_failed(),
            Event::DiagnosticLine(line) => self.diagnostic_line(line),
            Event::ResponseLine(line) => self.response_line(line),
        }
    }

    /// How far the analyzer has come.
    pub fn phase(&self) -> (phase: Phase)
        ensures
            phase == self@.phase,
    {
        self.phase
    }

    /// Whether the analyzer is ready for requests.
    pub fn is_ready(&self) -> (ready: bool)
        ensures
            ready == (self@.phase == Phase::Ready),
    {
        match self.phase {
            Phase::Ready => true,
            _ => false,
        }
    }

    /// Whether a request is pending, that is, whether the admission token
    /// is held.
    pub fn is_busy(&self) -> (busy: bool)
        ensures
            busy == self@.pending is Some,
    {
        self.pending.is_some()
    }

    /// Where the analyzer's packaged artifact lies.
    pub fn jar_path(&self) -> (path: &str)
        ensures
            path@ == self@.artifact,
    {
        self.jar_path.as_str()
    }
}

} // verus!
