use nixgen::monitor::{
    output, starts_retired, wants_ansi, write_line, Abort, Closing, Event, LogLine, Output, ReadEnd,
    Run, FRAME_INTERVAL,
};

type Step = Event<i32, String>;

fn run(events: Vec<Step>) -> Run<i32, String> {
    let mut r = Run::start();
    for e in events {
        r = r.advance(e);
    }
    r
}

fn received(stdout: &[u8], stderr: &[u8], end: ReadEnd<String>) -> Step {
    Event::Received {
        stdout: stdout.to_vec(),
        stderr: stderr.to_vec(),
        end,
    }
}

fn failed(e: &str) -> Step {
    Event::Failed(e.to_owned())
}

/// The events up to the point where the build has exited.
fn until_exit() -> Vec<Step> {
    vec![
        Event::Done,
        Event::Interrupted(false),
        received(b"out", b"err", ReadEnd::TimedOut),
        Event::Done,
        Event::Done,
        Event::Done,
        Event::Elapsed(10),
        Event::Interrupted(false),
        received(b"", b"", ReadEnd::Complete),
        Event::Done,
        Event::Done,
        Event::Done,
        Event::Elapsed(FRAME_INTERVAL),
        Event::Done,
        Event::Interrupted(false),
        Event::Exited(None),
        Event::Elapsed(0),
        Event::Interrupted(false),
        Event::Exited(Some(3)),
    ]
}

#[test]
fn run_succeeds_with_the_exit_status() {
    let mut events = until_exit();
    assert_eq!(
        run(until_exit()),
        Run::Close {
            step: Closing::Drain,
            status: 3
        }
    );
    events.push(Event::Done);
    events.push(Event::Done);
    events.push(Event::Retired(true));
    events.push(Event::Done);
    events.push(Event::Done);
    events.push(failed("history"));
    assert_eq!(run(events), Run::Done(Ok(3)));
}

#[test]
fn live_terminal_needs_no_summary() {
    let mut events = until_exit();
    events.push(Event::Done);
    events.push(Event::Done);
    events.push(Event::Retired(false));
    assert_eq!(
        run(events),
        Run::Close {
            step: Closing::Restore,
            status: 3
        }
    );
}

#[test]
fn bytes_are_passed_on_in_order() {
    let mut r: Run<i32, String> = Run::start();
    let mut stdout: Vec<u8> = vec![];
    let mut stderr: Vec<u8> = vec![];
    let reads: Vec<(&[u8], &[u8])> = vec![(b"ab", b"1"), (b"", b"23"), (b"c", b"")];
    r = r.advance(Event::Done);
    for (o, e) in reads {
        r = r.advance(Event::Interrupted(false));
        assert_eq!(r, Run::Read);
        r = r.advance(received(o, e, ReadEnd::Complete));
        match &r {
            Run::Forward { stdout: s, .. } => stdout.extend_from_slice(s),
            _ => panic!("not forwarding"),
        }
        r = r.advance(Event::Done);
        r = r.advance(Event::Done);
        match &r {
            Run::Push { stderr: s, .. } => stderr.extend_from_slice(s),
            _ => panic!("not pushing"),
        }
        r = r.advance(Event::Done);
        assert_eq!(r, Run::Clock { input_done: false });
        r = r.advance(Event::Elapsed(0));
    }
    assert_eq!(stdout, b"abc");
    assert_eq!(stderr, b"123");
}

#[test]
fn interruption_kills_the_build() {
    let r = run(vec![Event::Done, Event::Interrupted(true)]);
    assert_eq!(r, Run::Kill(Abort::Interrupted));
    let r = r.advance(failed("kill"));
    assert_eq!(r, Run::Reap(Abort::Interrupted));
    let r = r.advance(Event::Done);
    assert_eq!(r, Run::Done(Err(Abort::Interrupted)));
    assert_eq!(
        r.advance(Event::Done),
        Run::Done(Err(Abort::Interrupted))
    );
}

#[test]
fn failure_to_reap_counts_most() {
    let r = run(vec![
        Event::Done,
        Event::Interrupted(true),
        Event::Done,
        failed("wait"),
    ]);
    assert_eq!(r, Run::Done(Err(Abort::Failed("wait".to_owned()))));
}

#[test]
fn broken_input_is_passed_on_before_the_build_is_killed() {
    let r = run(vec![
        Event::Done,
        Event::Interrupted(false),
        received(b"last", b"", ReadEnd::Failed("read".to_owned())),
    ]);
    assert!(matches!(&r, Run::Forward { stdout, .. } if stdout == b"last"));
    let r = r
        .advance(Event::Done)
        .advance(Event::Done)
        .advance(Event::Done);
    assert_eq!(r, Run::Kill(Abort::Failed("read".to_owned())));
}

#[test]
fn every_failure_kills_the_build() {
    let kill: Run<i32, String> = Run::Kill(Abort::Failed("x".to_owned()));
    assert_eq!(run(vec![failed("x")]), kill);
    for n in [3, 4, 5, 13, 18] {
        let mut events = until_exit();
        events.truncate(n);
        events.push(failed("x"));
        assert_eq!(run(events), kill, "after {n} events");
    }
    let mut events = until_exit();
    events.push(failed("x"));
    assert_eq!(run(events), kill);
}

#[test]
fn events_that_answer_nothing_change_nothing() {
    assert_eq!(run(vec![Event::Elapsed(99)]), Run::Connect);
    assert_eq!(
        run(vec![Event::Done, Event::Exited(Some(1))]),
        Run::Poll { input_done: false }
    );
}

#[test]
fn frames_are_drawn_at_intervals() {
    let mut events = until_exit();
    events.truncate(6);
    events.push(Event::Elapsed(49));
    assert_eq!(run(events), Run::Poll { input_done: false });
    let mut events = until_exit();
    events.truncate(6);
    events.push(Event::Elapsed(50));
    assert_eq!(run(events), Run::Render { input_done: false });
}

fn line() -> LogLine<String> {
    LogLine {
        prefix: "hello> ".to_owned(),
        styled: "\u{1b}[31mred\u{1b}[0m".to_owned(),
        plain: "red\u{7}".to_owned(),
    }
}

#[test]
fn log_lines_are_formatted() {
    let plain = output(&vec![Output::Log(line())], false);
    assert_eq!(plain, [b"hello> red".to_vec(), b"\n".to_vec()]);
    let styled = output(&vec![Output::Log(line())], true);
    assert_eq!(styled.len(), 2);
    let text = String::from_utf8(styled[0].clone()).unwrap();
    assert!(text.contains("hello> "));
    assert!(text.contains("\u{1b}[31mred"));
    assert!(text.ends_with("\u{1b}[0m"));
    assert_eq!(styled[1], b"\n");
}

#[test]
fn other_bytes_are_written_as_they_are() {
    let writes = output(
        &vec![
            Output::Passthrough(vec![0, 255, 10]),
            Output::Log(line()),
            Output::Passthrough(vec![]),
        ],
        false,
    );
    assert_eq!(
        writes,
        [
            vec![0, 255, 10],
            b"hello> red".to_vec(),
            b"\n".to_vec(),
            vec![]
        ]
    );
}

#[test]
fn formatted_line_ends_in_a_line_feed() {
    let mut out: Vec<Vec<u8>> = vec![vec![1]];
    write_line(&mut out, "\u{e9}");
    assert_eq!(out, [vec![1], vec![0xc3, 0xa9], vec![10]]);
}

#[test]
fn styling_is_for_terminals() {
    assert!(wants_ansi(true, false, Some("xterm")));
    assert!(wants_ansi(true, false, None));
    assert!(!wants_ansi(true, false, Some("dumb")));
    assert!(!wants_ansi(true, true, Some("xterm")));
    assert!(!wants_ansi(false, false, Some("xterm")));
    assert!(starts_retired(false, true));
    assert!(starts_retired(true, false));
    assert!(!starts_retired(true, true));
}
