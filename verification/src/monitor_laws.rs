//! What a run under the monitor promises, step by step.

use vstd::prelude::*;

use crate::bytes;
use crate::monitor;
use crate::monitor::Abort;
use crate::monitor::Closing;
use crate::monitor::Event;
use crate::monitor::OutputModel;
use crate::monitor::ReadEnd;
use crate::monitor::Run;

verus! {

/// The pipes are read, and the build is waited for, only after the user has been
/// found not to have asked to stop: read as long as there may be input, waited for
/// when there is none left.
pub proof fn user_is_asked_first<S, E>(run: Run<S, E>, event: Event<S, E>)
    ensures
        monitor::advanced(run, event) is Read && !(run is Read) ==> run == (Run::<S, E>::Poll {
            input_done: false,
        }) && event == Event::<S, E>::Interrupted(false),
        monitor::advanced(run, event) is Wait && !(run is Wait) ==> run == (Run::<S, E>::Poll {
            input_done: true,
        }) && event == Event::<S, E>::Interrupted(false),
        run matches Run::Poll { input_done } ==> (event == Event::<S, E>::Interrupted(false)
            ==> monitor::advanced(run, event) == if input_done {
            Run::<S, E>::Wait
        } else {
            Run::<S, E>::Read
        }),
        run is Poll && event == Event::<S, E>::Interrupted(true) ==> monitor::advanced(run, event)
            == Run::<S, E>::Kill(Abort::Interrupted),
{
}

/// Whether a failure of the step is a failure of the run.
pub open spec fn must_succeed<S, E>(run: Run<S, E>) -> bool {
    match run {
        Run::Connect | Run::Wait => true,
        Run::Forward { .. } | Run::Flush { .. } | Run::Push { .. } | Run::Render { .. } => true,
        Run::Close { step, .. } => !(step is Save),
        _ => false,
    }
}

/// When a step fails that must succeed, the build is killed and waited for, and the
/// run ends with the error of the step; with that of the waiting, if waiting fails.
/// That killing fails does not matter.
pub proof fn failures_end_the_run<S, E>(run: Run<S, E>, e: E, killed: Event<S, E>, other: E)
    requires
        must_succeed(run),
        killed is Done || killed is Failed,
    ensures
        ({
            let stopped = monitor::advanced(run, Event::Failed(e));
            let dead = monitor::advanced(stopped, killed);
            &&& stopped == Run::<S, E>::Kill(Abort::Failed(e))
            &&& dead == Run::<S, E>::Reap(Abort::Failed(e))
            &&& monitor::advanced(dead, Event::Done) == Run::<S, E>::Done(Err(Abort::Failed(e)))
            &&& monitor::advanced(dead, Event::Failed(other)) == Run::<S, E>::Done(
                Err(Abort::Failed(other)),
            )
        }),
{
}

/// A frame is drawn when the last one is fifty milliseconds old or older, and the
/// run goes on as if it had not been.
pub proof fn frames_are_drawn_in_time<S, E>(input_done: bool, ms: u64)
    ensures
        ({
            let next = monitor::advanced(
                Run::<S, E>::Clock { input_done },
                Event::<S, E>::Elapsed(ms),
            );
            &&& ms < 50 ==> next == (Run::<S, E>::Poll { input_done })
            &&& ms >= 50 ==> next == (Run::<S, E>::Render { input_done }) && monitor::advanced(
                next,
                Event::Done,
            ) == (Run::<S, E>::Poll { input_done })
        }),
{
}

/// What a read brought is written, flushed and handed on, in this order. Then the
/// run ends if the read failed; it goes on without input if the read was complete
/// and brought nothing; otherwise with input.
pub proof fn what_is_read_is_handed_on<S, E>(stdout: Vec<u8>, stderr: Vec<u8>, end: ReadEnd<E>)
    ensures
        ({
            let read = monitor::advanced(
                Run::<S, E>::Read,
                Event::Received { stdout, stderr, end },
            );
            let written = monitor::advanced(read, Event::Done);
            let flushed = monitor::advanced(written, Event::Done);
            let pushed = monitor::advanced(flushed, Event::Done);
            &&& read matches Run::Forward { stdout: out, stderr: err, .. } && out == stdout && err
                == stderr
            &&& written matches Run::Flush { stderr: err, .. } && err == stderr
            &&& flushed matches Run::Push { stderr: err, .. } && err == stderr
            &&& pushed == match end {
                ReadEnd::Failed(e) => Run::<S, E>::Kill(Abort::Failed(e)),
                ReadEnd::TimedOut => Run::<S, E>::Clock { input_done: false },
                ReadEnd::Complete => Run::<S, E>::Clock {
                    input_done: stdout@.len() == 0 && stderr@.len() == 0,
                },
            }
        }),
{
}

/// A build that has not exited is asked again after the clock; one that has is
/// closed with its status: what the monitor holds is written, the last frame drawn,
/// the summary appended if the terminal takes no frames, the terminal restored, and
/// the history saved, whether that succeeds or not.
pub proof fn exited_build_is_closed<S, E>(status: S, retired: bool, saved: Event<S, E>)
    requires
        saved is Done || saved is Failed,
    ensures
        monitor::advanced(Run::<S, E>::Wait, Event::Exited(None)) == (Run::<S, E>::Clock {
            input_done: true,
        }),
        ({
            let drain = monitor::advanced(Run::<S, E>::Wait, Event::Exited(Some(status)));
            let render = monitor::advanced(drain, Event::Done);
            let look = monitor::advanced(render, Event::Done);
            let next = monitor::advanced(look, Event::Retired(retired));
            let restore = if retired {
                monitor::advanced(next, Event::Done)
            } else {
                next
            };
            let save = monitor::advanced(restore, Event::Done);
            &&& drain == (Run::<S, E>::Close { step: Closing::Drain, status })
            &&& render == (Run::<S, E>::Close { step: Closing::Render, status })
            &&& look == (Run::<S, E>::Close { step: Closing::Look, status })
            &&& retired ==> next == (Run::<S, E>::Close { step: Closing::Append, status })
            &&& restore == (Run::<S, E>::Close { step: Closing::Restore, status })
            &&& save == (Run::<S, E>::Close { step: Closing::Save, status })
            &&& monitor::advanced(save, saved) == Run::<S, E>::Done(Ok(status))
        }),
{
}

/// A run starts by opening the pipes; then the user is asked. A run that is done
/// stays as it is.
pub proof fn runs_start_and_end<S, E>(outcome: Result<S, Abort<E>>, event: Event<S, E>)
    ensures
        monitor::after(Seq::<Event<S, E>>::empty()) == Run::<S, E>::Connect,
        monitor::advanced(Run::<S, E>::Connect, Event::Done) == (Run::<S, E>::Poll {
            input_done: false,
        }),
        monitor::advanced(Run::<S, E>::Done(outcome), event) == Run::<S, E>::Done(outcome),
{
}

/// Once there is no input left nothing is read any more.
pub proof fn nothing_is_read_after_the_end<S, E>(run: Run<S, E>, event: Event<S, E>)
    requires
        monitor::counts_on_end(run),
    ensures
        !(monitor::advanced(run, event) is Read),
        monitor::counts_on_end(monitor::advanced(run, event)) || monitor::aborted(
            monitor::advanced(run, event),
        ),
{
}

/// The bytes of the writes, one after the other.
pub open spec fn flat(writes: Seq<Seq<u8>>) -> Seq<u8>
    decreases writes.len(),
{
    if writes.len() == 0 {
        Seq::empty()
    } else {
        flat(writes.drop_last()) + writes.last()
    }
}

/// Whether the bytes put the output on the terminal: bytes that are passed through
/// as they are, a line of the log as it is formatted and with a line feed behind
/// it.
pub open spec fn shows(shown: Seq<u8>, output: OutputModel, ansi: bool) -> bool {
    match output {
        OutputModel::Passthrough(raw) => shown == raw,
        OutputModel::Log(line) => shown == bytes::encoded(
            monitor::formatted_log(line.prefix, line.styled, line.plain, ansi),
        ) + seq![10u8],
    }
}

/// What is written for some outputs and one more is what is written for those, and
/// behind it the one more; nothing is written for none.
pub proof fn outputs_are_written_in_order(
    outputs: Seq<OutputModel>,
    more: OutputModel,
    ansi: bool,
    shown: Seq<u8>,
)
    requires
        shows(shown, more, ansi),
    ensures
        flat(monitor::all_writes(outputs.push(more), ansi)) == flat(
            monitor::all_writes(outputs, ansi),
        ) + shown,
        monitor::all_writes(Seq::empty(), ansi).len() == 0,
{
    let all = outputs.push(more);
    assert(all.drop_last() =~= outputs);
    let before = monitor::all_writes(outputs, ansi);
    let last = monitor::writes(more, ansi);
    flat_of_joined(before, last);
    match more {
        OutputModel::Passthrough(raw) => {
            assert(last.drop_last() =~= Seq::<Seq<u8>>::empty());
            assert(flat(last.drop_last()) =~= Seq::<u8>::empty());
            assert(flat(last) =~= raw);
        },
        OutputModel::Log(line) => {
            let text = bytes::encoded(
                monitor::formatted_log(line.prefix, line.styled, line.plain, ansi),
            );
            let first = last.drop_last();
            assert(first =~= seq![text]);
            assert(first.drop_last() =~= Seq::<Seq<u8>>::empty());
            assert(flat(first.drop_last()) =~= Seq::<u8>::empty());
            assert(flat(first) =~= text);
            assert(flat(last) =~= text + seq![10u8]);
        },
    }
}

proof fn flat_of_joined(a: Seq<Seq<u8>>, b: Seq<Seq<u8>>)
    ensures
        flat(a + b) == flat(a) + flat(b),
    decreases b.len(),
{
    if b.len() == 0 {
        assert(a + b =~= a);
        assert(flat(b) =~= Seq::<u8>::empty());
        assert(flat(a) + flat(b) =~= flat(a));
    } else {
        assert((a + b).drop_last() =~= a + b.drop_last());
        flat_of_joined(a, b.drop_last());
        assert(flat(a) + (flat(b.drop_last()) + b.last()) =~= flat(a) + flat(b.drop_last())
            + b.last());
    }
}

}
