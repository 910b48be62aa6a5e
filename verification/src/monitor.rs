//! Running a build under a monitor that draws its progress.
//!
//! The build, its pipes, the clock and the terminal belong to the caller. A
//! [`Run`] says what the caller does next; the caller reports how that went,
//! and [`Run::advance`] tells how it goes on.

use vstd::prelude::*;

use crate::bytes;
use crate::text;
use crate::text::Text;

verus! {

/// The time between two frames, and the longest time that the caller waits for
/// the build, in milliseconds.
pub const FRAME_INTERVAL: u64 = 50;

/// The most bytes that the caller reads at once.
pub const READ_LIMIT: usize = 65536;

/// Why a run has no exit status.
#[derive(Debug, PartialEq, Eq)]
pub enum Abort<E> {
    /// The user asked to stop.
    Interrupted,
    /// Something went wrong.
    Failed(E),
}

/// How a read ended.
#[derive(Debug, PartialEq, Eq)]
pub enum ReadEnd<E> {
    /// As it should: if nothing came, nothing more will come.
    Complete,
    /// The time for it was over.
    TimedOut,
    /// With an error.
    Failed(E),
}

/// What a read tells of the input that is still to come.
#[derive(Debug, PartialEq, Eq)]
pub enum Input<E> {
    /// There may be more.
    Open,
    /// There is none.
    Over,
    /// It cannot be read.
    Broken(E),
}

/// What is left to do once the build has exited.
#[derive(Debug, Clone, Copy, PartialEq, Eq, Structural)]
pub enum Closing {
    /// Write what the monitor still holds.
    Drain,
    /// Draw the last frame.
    Render,
    /// Tell whether the terminal takes no more frames.
    Look,
    /// Append the summary.
    Append,
    /// Restore the terminal.
    Restore,
    /// Save the history.
    Save,
}

/// What the caller does next. `S` is the exit status of the build, `E` the
/// error type of the caller.
#[derive(Debug, PartialEq, Eq)]
pub enum Run<S, E> {
    /// Open the pipes of the build.
    Connect,
    /// Tell whether the user asked to stop.
    Poll { input_done: bool },
    /// Read from both pipes.
    Read,
    /// Write the bytes of `stdout`.
    Forward { stdout: Vec<u8>, stderr: Vec<u8>, input: Input<E> },
    /// Flush what was written.
    Flush { stderr: Vec<u8>, input: Input<E> },
    /// Hand the bytes of `stderr` to the monitor.
    Push { stderr: Vec<u8>, input: Input<E> },
    /// Wait for the build to exit.
    Wait,
    /// Tell how long ago the last frame was drawn.
    Clock { input_done: bool },
    /// Draw a frame.
    Render { input_done: bool },
    /// Finish the monitor.
    Close { step: Closing, status: S },
    /// Kill the build.
    Kill(Abort<E>),
    /// Wait for the killed build.
    Reap(Abort<E>),
    /// Nothing: this is the outcome.
    Done(Result<S, Abort<E>>),
}

/// What the caller reports.
#[derive(Debug, PartialEq, Eq)]
pub enum Event<S, E> {
    /// It is done.
    Done,
    /// It failed.
    Failed(E),
    /// Whether the user asked to stop.
    Interrupted(bool),
    /// What was read.
    Received { stdout: Vec<u8>, stderr: Vec<u8>, end: ReadEnd<E> },
    /// The exit status, if the build has exited.
    Exited(Option<S>),
    /// The time since the last frame, in milliseconds.
    Elapsed(u64),
    /// Whether the terminal takes no more frames.
    Retired(bool),
}

/// What a read that ended so and brought so much tells of the rest.
pub open spec fn input_after<E>(stdout: Seq<u8>, stderr: Seq<u8>, end: ReadEnd<E>) -> Input<E> {
    match end {
        ReadEnd::Complete => if stdout.len() == 0 && stderr.len() == 0 {
            Input::Over
        } else {
            Input::Open
        },
        ReadEnd::TimedOut => Input::Open,
        ReadEnd::Failed(e) => Input::Broken(e),
    }
}

/// How it goes on once the bytes of a read have been passed on.
pub open spec fn passed_on<S, E>(input: Input<E>) -> Run<S, E> {
    match input {
        Input::Open => Run::Clock { input_done: false },
        Input::Over => Run::Clock { input_done: true },
        Input::Broken(e) => Run::Kill(Abort::Failed(e)),
    }
}

/// How it goes on after a step of the closing is done.
pub open spec fn closed<S, E>(step: Closing, status: S) -> Run<S, E> {
    match step {
        Closing::Drain => Run::Close { step: Closing::Render, status },
        Closing::Render => Run::Close { step: Closing::Look, status },
        Closing::Look => Run::Close { step: Closing::Look, status },
        Closing::Append => Run::Close { step: Closing::Restore, status },
        Closing::Restore => Run::Close { step: Closing::Save, status },
        Closing::Save => Run::Done(Ok(status)),
    }
}

/// How the run goes on after the event. An event that does not answer what the
/// caller was to do changes nothing.
pub open spec fn advanced<S, E>(run: Run<S, E>, event: Event<S, E>) -> Run<S, E> {
    match (run, event) {
        (Run::Connect, Event::Done) => Run::Poll { input_done: false },
        (Run::Connect, Event::Failed(e)) => Run::Kill(Abort::Failed(e)),
        (Run::Poll { .. }, Event::Interrupted(true)) => Run::Kill(Abort::Interrupted),
        (Run::Poll { input_done: true }, Event::Interrupted(false)) => Run::Wait,
        (Run::Poll { input_done: false }, Event::Interrupted(false)) => Run::Read,
        (Run::Read, Event::Received { stdout, stderr, end }) => Run::Forward {
            stdout,
            stderr,
            input: input_after(stdout@, stderr@, end),
        },
        (Run::Forward { stderr, input, .. }, Event::Done) => Run::Flush { stderr, input },
        (Run::Forward { .. }, Event::Failed(e)) => Run::Kill(Abort::Failed(e)),
        (Run::Flush { stderr, input }, Event::Done) => Run::Push { stderr, input },
        (Run::Flush { .. }, Event::Failed(e)) => Run::Kill(Abort::Failed(e)),
        (Run::Push { input, .. }, Event::Done) => passed_on(input),
        (Run::Push { .. }, Event::Failed(e)) => Run::Kill(Abort::Failed(e)),
        (Run::Wait, Event::Exited(Some(status))) => Run::Close { step: Closing::Drain, status },
        (Run::Wait, Event::Exited(None)) => Run::Clock { input_done: true },
        (Run::Wait, Event::Failed(e)) => Run::Kill(Abort::Failed(e)),
        (Run::Clock { input_done }, Event::Elapsed(ms)) => if ms >= FRAME_INTERVAL {
            Run::Render { input_done }
        } else {
            Run::Poll { input_done }
        },
        (Run::Render { input_done }, Event::Done) => Run::Poll { input_done },
        (Run::Render { .. }, Event::Failed(e)) => Run::Kill(Abort::Failed(e)),
        (Run::Close { step: Closing::Look, status }, Event::Retired(true)) => Run::Close {
            step: Closing::Append,
            status,
        },
        (Run::Close { step: Closing::Look, status }, Event::Retired(false)) => Run::Close {
            step: Closing::Restore,
            status,
        },
        (Run::Close { step, status }, Event::Done) => closed(step, status),
        (Run::Close { step: Closing::Save, status }, Event::Failed(_)) => Run::Done(Ok(status)),
        (Run::Close { .. }, Event::Failed(e)) => Run::Kill(Abort::Failed(e)),
        (Run::Kill(abort), Event::Done) => Run::Reap(abort),
        (Run::Kill(abort), Event::Failed(_)) => Run::Reap(abort),
        (Run::Reap(abort), Event::Done) => Run::Done(Err(abort)),
        (Run::Reap(_), Event::Failed(e)) => Run::Done(Err(Abort::Failed(e))),
        (run, _) => run,
    }
}

fn input_after_read<E>(stdout: &Vec<u8>, stderr: &Vec<u8>, end: ReadEnd<E>) -> (r: Input<E>)
    ensures
        r == input_after(stdout@, stderr@, end),
{
    match end {
        ReadEnd::Complete => if stdout.len() == 0 && stderr.len() == 0 {
            Input::Over
        } else {
            Input::Open
        },
        ReadEnd::TimedOut => Input::Open,
        ReadEnd::Failed(e) => Input::Broken(e),
    }
}

impl<S, E> Run<S, E> {
    /// How the run starts.
    pub fn start() -> (r: Self)
        ensures
            r == Run::<S, E>::Connect,
    {
        Run::Connect
    }

    /// How the run goes on after the event.
    pub fn advance(self, event: Event<S, E>) -> (r: Self)
        ensures
            r == advanced(self, event),
    {
        match (self, event) {
            (Run::Connect, Event::Done) => Run::Poll { input_done: false },
            (Run::Connect, Event::Failed(e)) => Run::Kill(Abort::Failed(e)),
            (Run::Poll { input_done }, Event::Interrupted(interrupted)) => if interrupted {
                Run::Kill(Abort::Interrupted)
            } else if input_done {
                Run::Wait
            } else {
                Run::Read
            },
            (Run::Read, Event::Received { stdout, stderr, end }) => {
                let input = input_after_read(&stdout, &stderr, end);
                Run::Forward { stdout, stderr, input }
            },
            (Run::Forward { stderr, input, .. }, Event::Done) => Run::Flush { stderr, input },
            (Run::Forward { .. }, Event::Failed(e)) => Run::Kill(Abort::Failed(e)),
            (Run::Flush { stderr, input }, Event::Done) => Run::Push { stderr, input },
            (Run::Flush { .. }, Event::Failed(e)) => Run::Kill(Abort::Failed(e)),
            (Run::Push { input, .. }, Event::Done) => match input {
                Input::Open => Run::Clock { input_done: false },
                Input::Over => Run::Clock { input_done: true },
                Input::Broken(e) => Run::Kill(Abort::Failed(e)),
            },
            (Run::Push { .. }, Event::Failed(e)) => Run::Kill(Abort::Failed(e)),
            (Run::Wait, Event::Exited(exited)) => match exited {
                Some(status) => Run::Close { step: Closing::Drain, status },
                None => Run::Clock { input_done: true },
            },
            (Run::Wait, Event::Failed(e)) => Run::Kill(Abort::Failed(e)),
            (Run::Clock { input_done }, Event::Elapsed(ms)) => if ms >= FRAME_INTERVAL {
                Run::Render { input_done }
            } else {
                Run::Poll { input_done }
            },
            (Run::Render { input_done }, Event::Done) => Run::Poll { input_done },
            (Run::Render { .. }, Event::Failed(e)) => Run::Kill(Abort::Failed(e)),
            (Run::Close { step, status }, event) => Run::close(step, status, event),
            (Run::Kill(abort), Event::Done) => Run::Reap(abort),
            (Run::Kill(abort), Event::Failed(_)) => Run::Reap(abort),
            (Run::Reap(abort), Event::Done) => Run::Done(Err(abort)),
            (Run::Reap(_), Event::Failed(e)) => Run::Done(Err(Abort::Failed(e))),
            (run, _) => run,
        }
    }

    fn close(step: Closing, status: S, event: Event<S, E>) -> (r: Self)
        ensures
            r == advanced(Run::Close { step, status }, event),
    {
        match (step, event) {
            (Closing::Drain, Event::Done) => Run::Close { step: Closing::Render, status },
            (Closing::Render, Event::Done) => Run::Close { step: Closing::Look, status },
            (Closing::Look, Event::Retired(retired)) => if retired {
                Run::Close { step: Closing::Append, status }
            } else {
                Run::Close { step: Closing::Restore, status }
            },
            (Closing::Append, Event::Done) => Run::Close { step: Closing::Restore, status },
            (Closing::Restore, Event::Done) => Run::Close { step: Closing::Save, status },
            (Closing::Save, Event::Done) => Run::Done(Ok(status)),
            (Closing::Save, Event::Failed(_)) => Run::Done(Ok(status)),
            (_, Event::Failed(e)) => Run::Kill(Abort::Failed(e)),
            (step, _) => Run::Close { step, status },
        }
    }
}

/// How a run stands after the events.
pub open spec fn after<S, E>(events: Seq<Event<S, E>>) -> Run<S, E>
    decreases events.len(),
{
    if events.len() == 0 {
        Run::Connect
    } else {
        advanced(after(events.drop_last()), events.last())
    }
}

/// The pipes of the build.
pub enum Pipe {
    Stdout,
    Stderr,
}

/// The bytes that the event brings from the pipe.
pub open spec fn received_by<S, E>(pipe: Pipe, run: Run<S, E>, event: Event<S, E>) -> Seq<u8> {
    match (run, event) {
        (Run::Read, Event::Received { stdout, stderr, .. }) => match pipe {
            Pipe::Stdout => stdout@,
            Pipe::Stderr => stderr@,
        },
        _ => Seq::empty(),
    }
}

/// The bytes from the pipe that were passed on when the event came: written, or
/// handed to the monitor.
pub open spec fn passed_by<S, E>(pipe: Pipe, run: Run<S, E>, event: Event<S, E>) -> Seq<u8> {
    match (pipe, run, event) {
        (Pipe::Stdout, Run::Forward { stdout, .. }, Event::Done) => stdout@,
        (Pipe::Stderr, Run::Push { stderr, .. }, Event::Done) => stderr@,
        _ => Seq::empty(),
    }
}

/// All bytes that the events bring from the pipe.
pub open spec fn received<S, E>(pipe: Pipe, events: Seq<Event<S, E>>) -> Seq<u8>
    decreases events.len(),
{
    if events.len() == 0 {
        Seq::empty()
    } else {
        received(pipe, events.drop_last()) + received_by(
            pipe,
            after(events.drop_last()),
            events.last(),
        )
    }
}

/// All bytes from the pipe that were passed on.
pub open spec fn passed<S, E>(pipe: Pipe, events: Seq<Event<S, E>>) -> Seq<u8>
    decreases events.len(),
{
    if events.len() == 0 {
        Seq::empty()
    } else {
        passed(pipe, events.drop_last()) + passed_by(
            pipe,
            after(events.drop_last()),
            events.last(),
        )
    }
}

/// The bytes from the pipe that the run holds.
pub open spec fn held<S, E>(pipe: Pipe, run: Run<S, E>) -> Seq<u8> {
    match (pipe, run) {
        (Pipe::Stdout, Run::Forward { stdout, .. }) => stdout@,
        (Pipe::Stderr, Run::Forward { stderr, .. }) => stderr@,
        (Pipe::Stderr, Run::Flush { stderr, .. }) => stderr@,
        (Pipe::Stderr, Run::Push { stderr, .. }) => stderr@,
        _ => Seq::empty(),
    }
}

/// Whether the run has been given up.
pub open spec fn aborted<S, E>(run: Run<S, E>) -> bool {
    match run {
        Run::Kill(_) | Run::Reap(_) => true,
        Run::Done(r) => r is Err,
        _ => false,
    }
}

/// What the build writes is passed on unchanged and in order: what was passed
/// on and what is held make up all that was received. When a run is given up,
/// what was passed on is the beginning of it.
pub proof fn output_is_passed_on<S, E>(pipe: Pipe, events: Seq<Event<S, E>>)
    ensures
        !aborted(after(events)) ==> passed(pipe, events) + held(pipe, after(events)) == received(
            pipe,
            events,
        ),
        passed(pipe, events).is_prefix_of(received(pipe, events)),
    decreases events.len(),
{
    if events.len() == 0 {
        assert(passed(pipe, events) + held(pipe, after(events)) =~= received(pipe, events));
        assert(passed(pipe, events) =~= received(pipe, events).subrange(0, 0));
    } else {
        let front = events.drop_last();
        output_is_passed_on(pipe, front);
        let run = after(front);
        let event = events.last();
        let a = passed(pipe, front);
        let b = received(pipe, front);
        assert(passed(pipe, events) == a + passed_by(pipe, run, event));
        assert(received(pipe, events) == b + received_by(pipe, run, event));
        assert(aborted(run) ==> aborted(advanced(run, event)));
        if aborted(run) {
            assert(passed(pipe, events) =~= a);
            assert(received(pipe, events) =~= b);
        } else {
            assert(b =~= a + held(pipe, run));
            if aborted(after(events)) {
                assert(received(pipe, events) =~= b);
                assert(passed(pipe, events) =~= received(pipe, events).subrange(
                    0,
                    passed(pipe, events).len() as int,
                ));
            } else {
                assert(passed(pipe, events) + held(pipe, after(events)) =~= received(
                    pipe,
                    events,
                ));
                assert(passed(pipe, events) =~= received(pipe, events).subrange(
                    0,
                    passed(pipe, events).len() as int,
                ));
            }
        }
    }
}

/// How often the caller was done with killing the build.
pub open spec fn kills<S, E>(events: Seq<Event<S, E>>) -> nat
    decreases events.len(),
{
    if events.len() == 0 {
        0
    } else {
        kills(events.drop_last()) + if after(events.drop_last()) is Kill && !(after(events)
            is Kill) {
            1nat
        } else {
            0
        }
    }
}

/// How often the caller was done with waiting for the killed build.
pub open spec fn reaps<S, E>(events: Seq<Event<S, E>>) -> nat
    decreases events.len(),
{
    if events.len() == 0 {
        0
    } else {
        reaps(events.drop_last()) + if after(events.drop_last()) is Reap && !(after(events)
            is Reap) {
            1nat
        } else {
            0
        }
    }
}

/// A run without an exit status has killed the build and waited for it, once;
/// a run with one has not.
pub proof fn given_up_build_is_killed_and_reaped<S, E>(events: Seq<Event<S, E>>)
    ensures
        (after(events) matches Run::Done(r) && r is Err) ==> kills(events) == 1 && reaps(events)
            == 1,
        !aborted(after(events)) ==> kills(events) == 0 && reaps(events) == 0,
{
    killed_and_reaped(events);
}

proof fn killed_and_reaped<S, E>(events: Seq<Event<S, E>>)
    ensures
        match after(events) {
            Run::Reap(_) => kills(events) == 1 && reaps(events) == 0,
            Run::Done(Err(_)) => kills(events) == 1 && reaps(events) == 1,
            _ => kills(events) == 0 && reaps(events) == 0,
        },
    decreases events.len(),
{
    if events.len() > 0 {
        killed_and_reaped(events.drop_last());
    }
}

/// The exit status that the caller reported while it waited for the build.
pub open spec fn exited<S, E>(events: Seq<Event<S, E>>) -> Option<S>
    decreases events.len(),
{
    if events.len() == 0 {
        None
    } else {
        match (after(events.drop_last()), events.last()) {
            (Run::Wait, Event::Exited(Some(status))) => Some(status),
            _ => exited(events.drop_last()),
        }
    }
}

/// Whether a read has told that no input is to come.
pub open spec fn input_over<S, E>(events: Seq<Event<S, E>>) -> bool
    decreases events.len(),
{
    if events.len() == 0 {
        false
    } else {
        input_over(events.drop_last()) || match (after(events.drop_last()), events.last()) {
            (Run::Read, Event::Received { stdout, stderr, end }) => end is Complete && stdout@.len()
                == 0 && stderr@.len() == 0,
            _ => false,
        }
    }
}

/// Whether the terminal was restored.
pub open spec fn restored<S, E>(events: Seq<Event<S, E>>) -> bool
    decreases events.len(),
{
    if events.len() == 0 {
        false
    } else {
        restored(events.drop_last()) || match (after(events.drop_last()), events.last()) {
            (Run::Close { step: Closing::Restore, .. }, Event::Done) => true,
            _ => false,
        }
    }
}

/// Whether the run counts on there being no more input.
pub open spec fn counts_on_end<S, E>(run: Run<S, E>) -> bool {
    match run {
        Run::Poll { input_done } => input_done,
        Run::Clock { input_done } => input_done,
        Run::Render { input_done } => input_done,
        Run::Forward { input, .. } => input is Over,
        Run::Flush { input, .. } => input is Over,
        Run::Push { input, .. } => input is Over,
        Run::Wait => true,
        Run::Close { .. } => true,
        Run::Done(r) => r is Ok,
        _ => false,
    }
}

/// A run succeeds with the exit status of the build, and only after all input
/// has been read and passed on and the terminal has been restored.
pub proof fn success_is_earned<S, E>(events: Seq<Event<S, E>>, status: S)
    requires
        after(events) == Run::<S, E>::Done(Ok(status)),
    ensures
        exited(events) == Some(status),
        input_over(events),
        restored(events),
        passed(Pipe::Stdout, events) == received(Pipe::Stdout, events),
        passed(Pipe::Stderr, events) == received(Pipe::Stderr, events),
{
    closing_follows_exit(events);
    output_is_passed_on(Pipe::Stdout, events);
    output_is_passed_on(Pipe::Stderr, events);
    assert(passed(Pipe::Stdout, events) + held(Pipe::Stdout, after(events)) =~= passed(
        Pipe::Stdout,
        events,
    ));
    assert(passed(Pipe::Stderr, events) + held(Pipe::Stderr, after(events)) =~= passed(
        Pipe::Stderr,
        events,
    ));
}

proof fn closing_follows_exit<S, E>(events: Seq<Event<S, E>>)
    ensures
        counts_on_end(after(events)) ==> input_over(events),
        after(events) matches Run::Close { step, status } ==> exited(events) == Some(status) && (
        step == Closing::Save ==> restored(events)),
        after(events) matches Run::Done(Ok(status)) ==> exited(events) == Some(status)
            && restored(events),
    decreases events.len(),
{
    if events.len() > 0 {
        closing_follows_exit(events.drop_last());
    }
}

/// A run that the user asked to stop says so, unless waiting for the killed
/// build fails.
pub proof fn interruption_is_reported<S, E>(
    input_done: bool,
    killed: Event<S, E>,
)
    requires
        killed is Done || killed is Failed,
    ensures
        advanced(
            advanced(
                advanced(Run::<S, E>::Poll { input_done }, Event::Interrupted(true)),
                killed,
            ),
            Event::Done,
        ) == Run::<S, E>::Done(Err(Abort::Interrupted)),
{
}

/// What the monitor has for the terminal.
#[derive(Debug, PartialEq, Eq)]
pub enum Output {
    /// Bytes that are written as they are.
    Passthrough(Vec<u8>),
    /// A line of the log.
    Log(LogLine<String>),
}

/// A line of the log of a build.
#[derive(Debug, PartialEq, Eq)]
pub struct LogLine<T> {
    /// What the line belongs to.
    pub prefix: T,
    /// The message with its styling.
    pub styled: T,
    /// The message without styling.
    pub plain: T,
}

/// The contents of an [`Output`].
pub enum OutputModel {
    Passthrough(Seq<u8>),
    Log(LogLine<Text>),
}

impl DeepView for Output {
    type V = OutputModel;

    open spec fn deep_view(&self) -> OutputModel {
        match self {
            Output::Passthrough(bytes) => OutputModel::Passthrough(bytes@),
            Output::Log(line) => OutputModel::Log(
                LogLine { prefix: line.prefix@, styled: line.styled@, plain: line.plain@ },
            ),
        }
    }
}

/// What `rom::display::format_log` makes of a line, given whether styling is
/// wanted, with all other settings at their defaults.
pub uninterp spec fn formatted_log(
    prefix: Seq<char>,
    styled: Seq<char>,
    plain: Seq<char>,
    ansi: bool,
) -> Seq<char>;

/// `rom::display::format_log` for settings that differ from the defaults in
/// `ansi` alone. Its result depends on the three texts of the line and on
/// `ansi`; it is named here and not spelled out.
#[verifier::external_body]
fn format_log(line: &LogLine<String>, ansi: bool) -> (r: String)
    ensures
        r@ == formatted_log(line.prefix@, line.styled@, line.plain@, ansi),
{
    let line = rom::types::LogLine {
        prefix: line.prefix.clone(),
        styled: line.styled.clone(),
        plain: line.plain.clone(),
    };
    let config = rom::types::RenderConfig { ansi, ..rom::types::RenderConfig::default() };
    rom::display::format_log(&line, &config)
}

/// The writes that put a formatted line on the terminal: the line, then a line
/// feed.
pub open spec fn line_writes(formatted: Text) -> Seq<Seq<u8>> {
    seq![bytes::encoded(formatted), seq![10u8]]
}

/// The writes that put an output on the terminal.
pub open spec fn writes(output: OutputModel, ansi: bool) -> Seq<Seq<u8>> {
    match output {
        OutputModel::Passthrough(bytes) => seq![bytes],
        OutputModel::Log(line) => line_writes(
            formatted_log(line.prefix, line.styled, line.plain, ansi),
        ),
    }
}

/// The writes that put the outputs on the terminal, in order.
pub open spec fn all_writes(outputs: Seq<OutputModel>, ansi: bool) -> Seq<Seq<u8>>
    decreases outputs.len(),
{
    if outputs.len() == 0 {
        Seq::empty()
    } else {
        all_writes(outputs.drop_last(), ansi) + writes(outputs.last(), ansi)
    }
}

fn push_bytes(v: &mut Vec<Vec<u8>>, b: Vec<u8>)
    ensures
        final(v).deep_view() == old(v).deep_view().push(b@),
{
    let ghost before = v.deep_view();
    v.push(b);
    assert(b.deep_view() =~= b@);
    assert(v.deep_view() =~= before.push(b@));
}

fn copy_bytes(b: &[u8]) -> (r: Vec<u8>)
    ensures
        r@ == b@,
{
    let mut r: Vec<u8> = Vec::new();
    let mut i: usize = 0;
    while i < b.len()
        invariant
            i <= b@.len(),
            r@ == b@.take(i as int),
        decreases b@.len() - i,
    {
        r.push(b[i]);
        i += 1;
        assert(b@.take(i as int) =~= b@.take(i - 1).push(b@[i - 1]));
    }
    assert(b@.take(i as int) =~= b@);
    r
}

/// Adds the writes that put a formatted line on the terminal.
pub fn write_line(out: &mut Vec<Vec<u8>>, formatted: &str)
    ensures
        final(out).deep_view() == old(out).deep_view() + line_writes(formatted@),
{
    let ghost before = out.deep_view();
    push_bytes(out, copy_bytes(formatted.as_bytes()));
    let mut feed: Vec<u8> = Vec::new();
    feed.push(10u8);
    assert(feed@ =~= seq![10u8]);
    push_bytes(out, feed);
    assert(out.deep_view() =~= before + line_writes(formatted@));
}

/// The writes that put the outputs on the terminal, in order. `ansi` says
/// whether the styling of log lines is kept.
pub fn output(processed: &Vec<Output>, ansi: bool) -> (r: Vec<Vec<u8>>)
    ensures
        r.deep_view() == all_writes(processed.deep_view(), ansi),
{
    let ghost all = processed.deep_view();
    let mut r: Vec<Vec<u8>> = Vec::new();
    let mut i: usize = 0;
    assert(r.deep_view() =~= all_writes(all.take(0), ansi));
    while i < processed.len()
        invariant
            i <= processed@.len(),
            all == processed.deep_view(),
            r.deep_view() == all_writes(all.take(i as int), ansi),
        decreases processed@.len() - i,
    {
        let ghost before = r.deep_view();
        assert(all[i as int] == processed@[i as int].deep_view());
        assert(all.take(i + 1).drop_last() =~= all.take(i as int));
        match &processed[i] {
            Output::Passthrough(bytes) => {
                push_bytes(&mut r, copy_bytes(bytes.as_slice()));
                assert(r.deep_view() =~= before + seq![bytes@]);
            },
            Output::Log(line) => {
                let formatted = format_log(line, ansi);
                write_line(&mut r, formatted.as_str());
            },
        }
        i += 1;
    }
    assert(all.take(i as int) =~= all);
    r
}

/// Whether styling is wanted: standard error is a terminal that can show it,
/// and the user has not asked for none. `term` is the value of `TERM`.
pub fn wants_ansi(is_terminal: bool, no_color: bool, term: Option<&str>) -> (r: bool)
    ensures
        r == (is_terminal && !no_color && term.deep_view() != Some("dumb"@)),
{
    is_terminal && !no_color && match term {
        Some(t) => !text::same(t, "dumb"),
        None => true,
    }
}

/// Whether no frames are drawn from the start: there is no styling, or the
/// terminal admits no live frames.
pub fn starts_retired(ansi: bool, live: bool) -> (r: bool)
    ensures
        r == (!ansi || !live),
{
    !ansi || !live
}

}
