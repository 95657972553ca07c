//! Whole runs of the fake backend, on an input and an output that may fail.

use vstd::prelude::*;

use crate::clock::Clock;
use crate::control;
use crate::control::Control;
use crate::fake;
use crate::fake::FakeBackend;
use crate::replay;
use crate::replay::{Errand, Replay, Task};

verus! {

/// Whether a run that began with this backend goes by its script: it heard each
/// line that was read, up to one that stops it, and the lines written, with
/// those that wait after them, are the greeting and the answers to what it
/// heard.
pub open spec fn plays<C: Clock, P: Fn(&str) -> Result<Control, String>>(
    run: Replay<C>,
    start: FakeBackend<C>,
    parse: P,
) -> bool {
    let heard = run.heard();
    &&& heard.len() == run.lines().len()
    &&& forall|i: int|
        0 <= i < heard.len() ==> control::reads_as(parse, run.lines()[i], #[trigger] heard[i])
    &&& forall|i: int| 0 <= i < heard.len() - 1 ==> fake::line_goes_on(#[trigger] heard[i])
    &&& heard.len() > 0 && !fake::line_goes_on(heard.last()) ==> run.ended()
    &&& run.backend().script() == start.script()
    &&& run.backend().grace_ms() == start.grace_ms()
    &&& run.backend().rule() == start.rule()
    &&& run.backend().window() == fake::session_window(start.window(), heard)
    &&& fake::emitted(
        start.rule(),
        start.readings(),
        Seq::empty(),
        run.backend().readings(),
        run.written() + run.waiting(),
        fake::greeting(start.script(), start.grace_ms()) + fake::session_answer(
            start.script(),
            start.window(),
            heard,
        ),
    )
}

/// Whether one run is the next moment of another: the task of the moment was
/// done, with whatever outcome.
pub open spec fn moves<C: Clock, P: Fn(&str) -> Result<Control, String>>(
    parse: P,
    before: Replay<C>,
    after: Replay<C>,
) -> bool {
    match before.task() {
        Task::Write(_) => exists|outcome: Result<(), String>| #[trigger]
            replay::wrote_on(before, outcome, after),
        Task::Read => exists|outcome: Option<Result<String, String>>| #[trigger]
            replay::read_on(parse, before, outcome, after),
        Task::Finish(_) => false,
    }
}

proof fn lemma_read_plays<C: Clock, P: Fn(&str) -> Result<Control, String>>(
    start: FakeBackend<C>,
    parse: P,
    before: Replay<C>,
    line: String,
    after: Replay<C>,
)
    requires
        plays(before, start, parse),
        before.task() is Read,
        replay::read_on(parse, before, Some(Ok(line)), after),
    ensures
        plays(after, start, parse),
{
    let heard = before.heard();
    let message = after.heard().last();
    let hello = fake::greeting(start.script(), start.grace_ms());
    let said = fake::session_answer(start.script(), start.window(), heard);
    let answer = fake::line_answer(start.script(), before.backend().window(), message);
    assert(heard.push(message).drop_last() =~= heard);
    assert(before.written() + before.waiting() =~= before.written());
    fake::lemma_emitted_behind(
        start.rule(),
        before.backend().readings(),
        Seq::empty(),
        after.backend().readings(),
        after.waiting(),
        answer,
        before.written(),
    );
    assert(before.written() + Seq::<String>::empty() =~= before.written());
    fake::lemma_emitted_more(
        start.rule(),
        start.readings(),
        Seq::empty(),
        before.backend().readings(),
        before.written(),
        hello + said,
        after.backend().readings(),
        before.written() + after.waiting(),
        answer,
    );
    assert(hello + said + answer =~= hello + (said + answer));
    assert forall|i: int| 0 <= i < after.heard().len() implies control::reads_as(
        parse,
        after.lines()[i],
        #[trigger] after.heard()[i],
    ) by {
        if i < heard.len() {
            assert(after.heard()[i] == heard[i]);
            assert(after.lines()[i] == before.lines()[i]);
        }
    }
    assert forall|i: int| 0 <= i < after.heard().len() - 1 implies fake::line_goes_on(
        #[trigger] after.heard()[i],
    ) by {
        assert(after.heard()[i] == heard[i]);
        if i == heard.len() - 1 {
            assert(heard.last() == heard[i]);
        }
    }
}

/// A run goes by its script from its start through every moment of it: what is
/// written is the greeting and then the answer to each line that was read, in
/// that order, and no line after one that stops the run is read.
pub proof fn law_run_goes_by_the_script<C: Clock, P: Fn(&str) -> Result<Control, String>>(
    start: FakeBackend<C>,
    parse: P,
    moments: Seq<Replay<C>>,
)
    requires
        moments.len() > 0,
        replay::started(moments[0], start),
        forall|i: int|
            0 < i < moments.len() ==> moves(parse, moments[i - 1], #[trigger] moments[i]),
    ensures
        plays(moments.last(), start, parse),
    decreases moments.len(),
{
    let run = moments.last();
    if moments.len() == 1 {
        let hello = fake::greeting(start.script(), start.grace_ms());
        assert(run.written() + run.waiting() =~= run.waiting());
        assert(hello + fake::session_answer(start.script(), start.window(), run.heard())
            =~= hello);
    } else {
        let earlier = moments.drop_last();
        assert forall|i: int| 0 < i < earlier.len() implies moves(
            parse,
            earlier[i - 1],
            #[trigger] earlier[i],
        ) by {
            assert(earlier[i - 1] == moments[i - 1] && earlier[i] == moments[i]);
        }
        law_run_goes_by_the_script(start, parse, earlier);
        let before = earlier.last();
        assert(moments[moments.len() - 1] == run && moments[moments.len() - 2] == before);
        assert(moves(parse, before, run));
        match before.task() {
            Task::Write(_) => {
                let outcome = choose|outcome: Result<(), String>| #[trigger]
                    replay::wrote_on(before, outcome, run);
                assert(run.written() + run.waiting() =~= before.written() + before.waiting());
            },
            Task::Read => {
                let outcome = choose|outcome: Option<Result<String, String>>| #[trigger]
                    replay::read_on(parse, before, outcome, run);
                if let Some(Ok(line)) = outcome {
                    lemma_read_plays(start, parse, before, line, run);
                }
            },
            Task::Finish(_) => {},
        }
    }
}

/// A run that finishes well has written all that it had to say; it did not
/// fail, and its input ended or a line stopped it.
pub proof fn law_finished_run_said_everything<C: Clock, P: Fn(&str) -> Result<Control, String>>(
    start: FakeBackend<C>,
    parse: P,
    run: Replay<C>,
)
    requires
        plays(run, start, parse),
        run.task() == Task::Finish(Ok::<(), Seq<char>>(())),
    ensures
        run.failure() is None,
        run.ended(),
        fake::emitted(
            start.rule(),
            start.readings(),
            Seq::empty(),
            run.backend().readings(),
            run.written(),
            fake::greeting(start.script(), start.grace_ms()) + fake::session_answer(
                start.script(),
                start.window(),
                run.heard(),
            ),
        ),
{
    assert(run.written() + run.waiting() =~= run.written());
}

/// The first error of reading or writing is what the run returns, at once:
/// nothing is written or read after it.
pub proof fn law_first_failure_is_returned<C: Clock, P: Fn(&str) -> Result<Control, String>>(
    parse: P,
    before: Replay<C>,
    error: String,
    after: Replay<C>,
)
    requires
        before.task() is Write && replay::wrote_on(before, Err(error), after)
            || before.task() is Read && replay::read_on(parse, before, Some(Err(error)), after),
    ensures
        after.task() == Task::Finish(Err::<(), Seq<char>>(error@)),
        after.written() == before.written(),
        forall|next: Replay<C>| !moves(parse, after, next),
{
}

/// What a caller does next: the first failure is returned; else the oldest line
/// that waits is written; else, where the input ended, the run is over; else a
/// line is read.
pub proof fn law_tasks(waiting: Seq<String>, ended: bool, failure: Option<Seq<char>>)
    ensures
        ({
            let task = replay::task_of(waiting, ended, failure);
            &&& failure matches Some(error) ==> task == Task::Finish(Err::<(), Seq<char>>(error))
            &&& failure is None && waiting.len() > 0 ==> task == Task::Write(waiting[0]@)
            &&& failure is None && waiting.len() == 0 && ended ==> task == Task::Finish(
                Ok::<(), Seq<char>>(()),
            )
            &&& failure is None && waiting.len() == 0 && !ended ==> task == Task::Read
        }),
{
}

/// What a caller is asked stands for what it is given.
pub proof fn law_errands(line: String, error: String)
    ensures
        Errand::Read@ == Task::Read,
        Errand::Write(line)@ == Task::Write(line@),
        Errand::Finish(Ok(()))@ == Task::Finish(Ok::<(), Seq<char>>(())),
        Errand::Finish(Err(error))@ == Task::Finish(Err::<(), Seq<char>>(error@)),
{
}

/// A run begins with the greeting to write, nothing written and nothing read.
pub proof fn law_started<C: Clock>(run: Replay<C>, backend: FakeBackend<C>)
    requires
        replay::started(run, backend),
    ensures
        run.written().len() == 0,
        run.lines().len() == 0,
        run.heard().len() == 0,
        !run.ended(),
        run.failure() is None,
        run.backend().window() == backend.window(),
        run.backend().script() == backend.script(),
        run.backend().grace_ms() == backend.grace_ms(),
        run.backend().rule() == backend.rule(),
        fake::emitted(
            backend.rule(),
            backend.readings(),
            Seq::empty(),
            run.backend().readings(),
            run.waiting(),
            fake::greeting(backend.script(), backend.grace_ms()),
        ),
{
}

/// A line that is written moves from those that wait to those that were
/// written, and all of them together stay the same; one that cannot be written
/// stays, and its error is what the run fails with.
pub proof fn law_wrote<C: Clock>(
    before: Replay<C>,
    outcome: Result<(), String>,
    after: Replay<C>,
)
    requires
        before.waiting().len() > 0,
        replay::wrote_on(before, outcome, after),
    ensures
        after.written() + after.waiting() == before.written() + before.waiting(),
        outcome is Ok ==> after.written().len() == before.written().len() + 1 && after.failure()
            is None,
        outcome matches Err(error) ==> after.written() == before.written() && after.failure()
            == Some(error@),
        after.backend() == before.backend(),
        after.ended() == before.ended(),
        after.lines() == before.lines(),
        after.heard() == before.heard(),
{
    assert(after.written() + after.waiting() =~= before.written() + before.waiting());
}

/// A line that is read is heard as the parser reads it, and its answer waits to
/// be written; it stops the run exactly where it is a shutdown. At the end of
/// the input the run ends; an error of reading is what it fails with. Reading
/// writes nothing.
pub proof fn law_read<C: Clock, P: Fn(&str) -> Result<Control, String>>(
    parse: P,
    before: Replay<C>,
    outcome: Option<Result<String, String>>,
    after: Replay<C>,
)
    requires
        replay::read_on(parse, before, outcome, after),
    ensures
        after.written() == before.written(),
        outcome is None ==> after.ended() && after.failure() is None && after.waiting()
            == before.waiting() && after.heard() == before.heard() && after.backend()
            == before.backend(),
        outcome matches Some(Err(error)) ==> after.failure() == Some(error@) && after.waiting()
            == before.waiting() && after.heard() == before.heard() && after.backend()
            == before.backend(),
        outcome matches Some(Ok(line)) ==> {
            let n = before.heard().len() as int;
            let message = after.heard()[n];
            &&& after.heard().len() == n + 1
            &&& forall|i: int| 0 <= i < n ==> #[trigger] after.heard()[i] == before.heard()[i]
            &&& after.lines() == before.lines().push(line@)
            &&& after.backend().grace_ms() == before.backend().grace_ms()
            &&& after.backend().rule() == before.backend().rule()
            &&& control::reads_as(parse, line@, message)
            &&& after.ended() <==> message == Some(Ok::<Control, String>(Control::Shutdown))
            &&& after.failure() is None
            &&& after.backend().script() == before.backend().script()
            &&& after.backend().window() == fake::window_after_line(
                before.backend().window(),
                message,
            )
            &&& fake::emitted(
                before.backend().rule(),
                before.backend().readings(),
                Seq::empty(),
                after.backend().readings(),
                after.waiting(),
                fake::line_answer(before.backend().script(), before.backend().window(), message),
            )
        },
{
}

} // verus!
