use watchman::supervise::drain_decision;
use watchman::supervise::exit_event;
use watchman::supervise::DrainStep;
use watchman::supervise::log_text;
use watchman::supervise::render_entry;
use watchman::supervise::ExitKind;
use watchman::supervise::LogLine;
use watchman::supervise::Supervisor;

#[test]
fn backoff_starts_at_one_second() {
    let s = Supervisor::new();
    assert_eq!(s.wait_seconds, 1);
}

#[test]
fn backoff_doubles_on_consecutive_failures_capped_at_sixty() {
    // Eight consecutive failing cycles: 1, 2, 4, 8, 16, 32, 60, 60, 60.
    let mut s = Supervisor::new();
    let mut waits = vec![s.wait_seconds];
    for _ in 0..8 {
        waits.push(s.on_exit(ExitKind::FailedCode));
    }
    assert_eq!(waits, vec![1, 2, 4, 8, 16, 32, 60, 60, 60]);
}

#[test]
fn backoff_stays_at_one_while_cycles_succeed() {
    let mut s = Supervisor::new();
    for _ in 0..5 {
        assert_eq!(s.on_exit(ExitKind::Succeeded), 1);
    }
}

#[test]
fn a_single_success_resets_the_backoff() {
    let mut s = Supervisor::new();
    for _ in 0..6 {
        s.on_exit(ExitKind::FailedCode);
    }
    assert_eq!(s.wait_seconds, 60);
    assert_eq!(s.on_exit(ExitKind::Succeeded), 1);
    assert_eq!(s.on_exit(ExitKind::FailedCode), 2);
}

#[test]
fn a_signal_killed_exit_resets_the_backoff() {
    let mut s = Supervisor::new();
    s.on_exit(ExitKind::FailedCode);
    s.on_exit(ExitKind::FailedCode);
    assert_eq!(s.on_exit(ExitKind::NoCode), 1);
}

#[test]
fn a_failed_wait_call_doubles_without_the_cap() {
    let mut s = Supervisor::new();
    for _ in 0..6 {
        s.on_exit(ExitKind::FailedCode);
    }
    assert_eq!(s.wait_seconds, 60);
    assert_eq!(s.on_exit(ExitKind::WaitFailed), 120);
    assert_eq!(s.on_exit(ExitKind::WaitFailed), 240);
}

#[test]
fn exit_events_classify_codes() {
    assert_eq!(exit_event(Some(0)), ExitKind::Succeeded);
    assert_eq!(exit_event(Some(1)), ExitKind::FailedCode);
    assert_eq!(exit_event(Some(-7)), ExitKind::FailedCode);
    assert_eq!(exit_event(None), ExitKind::NoCode);
}

#[test]
fn draining_delivers_stops_or_tolerates_in_that_order() {
    assert_eq!(drain_decision(true, false), DrainStep::Deliver);
    assert_eq!(drain_decision(true, true), DrainStep::Deliver);
    assert_eq!(drain_decision(false, true), DrainStep::Stop);
    assert_eq!(drain_decision(false, false), DrainStep::Transient);
}

#[test]
fn log_lines_carry_their_source_tags() {
    assert_eq!(LogLine::StdOut("hello".to_string()).render(), "OUT hello");
    assert_eq!(LogLine::StdErr("oops".to_string()).render(), "ERR oops");
    assert_eq!(LogLine::Sys("restarting".to_string()).render(), "SYS restarting");
}

#[test]
fn log_entries_put_the_timestamp_first() {
    let line = LogLine::Sys("sleeping 2s".to_string());
    let entry = render_entry("2024-05-01 12:00:00", &line);
    assert_eq!(entry, "2024-05-01 12:00:00 SYS sleeping 2s");
}

#[test]
fn log_text_ends_with_the_tagged_line() {
    let line = LogLine::StdOut("ready".to_string());
    let text = log_text(&line);
    assert!(text.ends_with(" OUT ready"));
    // The timestamp before the tag is at least 19 characters.
    assert!(text.len() >= 19 + " OUT ready".len());
}
