//! The fake backend on an input and an output that may fail.
//!
//! The caller reads and writes; what it does next, and when it is done, is
//! decided here.

use vstd::prelude::*;

use crate::clock::Clock;
use crate::control;
use crate::control::Control;
use crate::fake;
use crate::fake::FakeBackend;

verus! {

/// What the caller does next.
pub enum Errand {
    /// Read a line of control input.
    Read,
    /// Write this line and flush it.
    Write(String),
    /// Return this.
    Finish(Result<(), String>),
}

/// What a caller does next, with texts in place of strings.
pub enum Task {
    Read,
    Write(Seq<char>),
    Finish(Result<(), Seq<char>>),
}

impl View for Errand {
    type V = Task;

    open spec fn view(&self) -> Task {
        match *self {
            Errand::Read => Task::Read,
            Errand::Write(line) => Task::Write(line@),
            Errand::Finish(Ok(())) => Task::Finish(Ok(())),
            Errand::Finish(Err(error)) => Task::Finish(Err(error@)),
        }
    }
}

/// What comes next: the first failure is returned at once; else the lines that
/// wait are written, in order; then the input is read on until it ends.
pub open spec fn task_of(
    waiting: Seq<String>,
    ended: bool,
    failure: Option<Seq<char>>,
) -> Task {
    match failure {
        Some(error) => Task::Finish(Err(error)),
        None => if waiting.len() > 0 {
            Task::Write(waiting[0]@)
        } else if ended {
            Task::Finish(Ok(()))
        } else {
            Task::Read
        },
    }
}

/// A run of the fake backend.
pub struct Replay<C> {
    backend: FakeBackend<C>,
    waiting: Vec<String>,
    ended: bool,
    failure: Option<String>,
    written: Ghost<Seq<String>>,
    lines: Ghost<Seq<Seq<char>>>,
    heard: Ghost<Seq<Option<Result<Control, String>>>>,
}

/// Whether a run has just begun with this backend: the greeting waits to be
/// written.
pub open spec fn started<C: Clock>(run: Replay<C>, backend: FakeBackend<C>) -> bool {
    &&& run.backend().script() == backend.script()
    &&& run.backend().grace_ms() == backend.grace_ms()
    &&& run.backend().rule() == backend.rule()
    &&& run.backend().window() == backend.window()
    &&& fake::emitted(
        backend.rule(),
        backend.readings(),
        Seq::empty(),
        run.backend().readings(),
        run.waiting(),
        fake::greeting(backend.script(), backend.grace_ms()),
    )
    &&& run.written() == Seq::<String>::empty()
    &&& !run.ended()
    &&& run.failure() is None
    &&& run.lines() == Seq::<Seq<char>>::empty()
    &&& run.heard() == Seq::<Option<Result<Control, String>>>::empty()
}

/// Whether `after` is the run `before` once its next line was written, or could
/// not be.
pub open spec fn wrote_on<C: Clock>(
    before: Replay<C>,
    outcome: Result<(), String>,
    after: Replay<C>,
) -> bool {
    &&& after.backend() == before.backend()
    &&& after.ended() == before.ended()
    &&& after.lines() == before.lines()
    &&& after.heard() == before.heard()
    &&& match outcome {
        Ok(()) => {
            &&& after.written() == before.written().push(before.waiting()[0])
            &&& after.waiting() == before.waiting().skip(1)
            &&& after.failure() is None
        },
        Err(error) => {
            &&& after.written() == before.written()
            &&& after.waiting() == before.waiting()
            &&& after.failure() == Some(error@)
        },
    }
}

/// Whether `after` is the run `before` once a line was read and answered, the
/// input was at its end, or it could not be read.
pub open spec fn read_on<C: Clock, P: Fn(&str) -> Result<Control, String>>(
    parse: P,
    before: Replay<C>,
    outcome: Option<Result<String, String>>,
    after: Replay<C>,
) -> bool {
    &&& after.written() == before.written()
    &&& match outcome {
        None => {
            &&& after.backend() == before.backend()
            &&& after.waiting() == before.waiting()
            &&& after.ended()
            &&& after.failure() is None
            &&& after.lines() == before.lines()
            &&& after.heard() == before.heard()
        },
        Some(Err(error)) => {
            &&& after.backend() == before.backend()
            &&& after.waiting() == before.waiting()
            &&& after.ended() == before.ended()
            &&& after.failure() == Some(error@)
            &&& after.lines() == before.lines()
            &&& after.heard() == before.heard()
        },
        Some(Ok(line)) => {
            let message = after.heard().last();
            &&& after.heard() == before.heard().push(message)
            &&& after.lines() == before.lines().push(line@)
            &&& control::reads_as(parse, line@, message)
            &&& after.ended() == !fake::line_goes_on(message)
            &&& after.failure() is None
            &&& after.backend().script() == before.backend().script()
            &&& after.backend().grace_ms() == before.backend().grace_ms()
            &&& after.backend().rule() == before.backend().rule()
            &&& after.backend().window() == fake::window_after_line(
                before.backend().window(),
                message,
            )
            &&& fake::emitted(
                before.backend().rule(),
                before.backend().readings(),
                Seq::empty(),
                after.backend().readings(),
                after.waiting(),
                fake::line_answer(before.backend().script(), before.backend().window(), message),
            )
        },
    }
}

impl<C: Clock> Replay<C> {
    /// The backend as it stands.
    pub closed spec fn backend(&self) -> FakeBackend<C> {
        self.backend
    }

    /// The lines that were written.
    pub closed spec fn written(&self) -> Seq<String> {
        self.written@
    }

    /// The lines that wait to be written.
    pub closed spec fn waiting(&self) -> Seq<String> {
        self.waiting@
    }

    /// Whether the input ended, or a line stopped the run.
    pub closed spec fn ended(&self) -> bool {
        self.ended
    }

    /// The error that reading or writing failed with.
    pub closed spec fn failure(&self) -> Option<Seq<char>> {
        control::owned_text(self.failure)
    }

    /// The lines that were read.
    pub closed spec fn lines(&self) -> Seq<Seq<char>> {
        self.lines@
    }

    /// What was heard of them.
    pub closed spec fn heard(&self) -> Seq<Option<Result<Control, String>>> {
        self.heard@
    }

    /// What comes next.
    pub open spec fn task(&self) -> Task {
        task_of(self.waiting(), self.ended(), self.failure())
    }

    /// Starts a run: the greeting waits to be written.
    pub fn new(backend: FakeBackend<C>) -> (run: Self)
        ensures
            started(run, backend),
    {
        let mut backend = backend;
        let mut waiting: Vec<String> = Vec::new();
        backend.on_start(&mut waiting);
        Replay {
            backend,
            waiting,
            ended: false,
            failure: None,
            written: Ghost(Seq::empty()),
            lines: Ghost(Seq::empty()),
            heard: Ghost(Seq::empty()),
        }
    }

    /// What to do next.
    pub fn next(&self) -> (errand: Errand)
        ensures
            errand@ == self.task(),
    {
        match &self.failure {
            Some(error) => Errand::Finish(Err(error.clone())),
            None => if self.waiting.len() > 0 {
                Errand::Write(self.waiting[0].clone())
            } else if self.ended {
                Errand::Finish(Ok(()))
            } else {
                Errand::Read
            },
        }
    }

    /// Takes the outcome of writing the line that was to be written.
    pub fn wrote(&mut self, outcome: Result<(), String>)
        requires
            old(self).task() is Write,
        ensures
            wrote_on(*old(self), outcome, *final(self)),
    {
        match outcome {
            Ok(()) => {
                let line = self.waiting.remove(0);
                assert(self.waiting@ =~= old(self).waiting@.skip(1));
                proof {
                    self.written@ = self.written@.push(line);
                }
            },
            Err(error) => {
                self.failure = Some(error);
            },
        }
    }

    /// Takes the outcome of reading a line: `None` at the end of the input.
    pub fn read<P: Fn(&str) -> Result<Control, String>>(
        &mut self,
        outcome: Option<Result<String, String>>,
        parse: &P,
    )
        requires
            old(self).task() is Read,
            forall|t: &str| call_requires(*parse, (t,)),
        ensures
            read_on(*parse, *old(self), outcome, *final(self)),
    {
        match outcome {
            None => {
                self.ended = true;
            },
            Some(Err(error)) => {
                self.failure = Some(error);
            },
            Some(Ok(line)) => {
                let ghost before = self.backend;
                assert(self.waiting@ =~= Seq::<String>::empty());
                let more: bool = self.backend.handle_line(line.as_str(), parse, &mut self.waiting);
                self.ended = !more;
                proof {
                    let message = choose|message: Option<Result<Control, String>>| #[trigger]
                        control::reads_as(*parse, line@, message) && more == fake::line_goes_on(
                            message,
                        ) && self.backend.window() == fake::window_after_line(
                            before.window(),
                            message,
                        ) && fake::emitted(
                            before.rule(),
                            before.readings(),
                            Seq::empty(),
                            self.backend.readings(),
                            self.waiting@,
                            fake::line_answer(before.script(), before.window(), message),
                        );
                    self.lines@ = self.lines@.push(line@);
                    self.heard@ = self.heard@.push(message);
                }
            },
        }
    }
}

} // verus!
