//! The supervised-restart engine: backoff policy and log-line format.
//!
//! The engine keeps one foreground command alive indefinitely. Each
//! cycle spawns the child, drains its merged output, waits for it to
//! exit, classifies the exit, and sleeps `wait_seconds` before the next
//! cycle. The spawning, draining and sleeping are operating-system
//! effects performed by the caller; the decisions — how the exit
//! classification drives the backoff, and what a log line looks like —
//! are here, verified.

use vstd::prelude::*;
use vstd::string::StringExecFns;

verus! {

/// How one supervision cycle's child exit is classified.
#[derive(Clone, Copy, Debug, PartialEq, Eq, Structural)]
pub enum ExitKind {
    /// The child exited with a success code.
    Succeeded,
    /// The child exited with a non-zero code.
    FailedCode,
    /// The child exited with no code: it was killed by a signal.
    NoCode,
    /// The wait call itself failed — a distinct failure class from a
    /// bad exit code.
    WaitFailed,
}

/// Classify an exit code as reported by the child: a code of zero is
/// success, any other code is a failure, no code means the child was
/// killed by a signal.
pub fn exit_event(code: Option<i32>) -> (e: ExitKind)
    ensures
        code == Some(0i32) ==> e == ExitKind::Succeeded,
        (code matches Some(c) && c != 0) ==> e == ExitKind::FailedCode,
        code is None ==> e == ExitKind::NoCode,
{
    match code {
        Some(0) => ExitKind::Succeeded,
        Some(_) => ExitKind::FailedCode,
        None => ExitKind::NoCode,
    }
}

/// The backoff value after `n` consecutive failing exits from a fresh
/// supervisor: starts at 1 and doubles on every failure, capped at 60.
pub open spec fn spec_backoff(n: nat) -> nat
    decreases n,
{
    if n == 0 {
        1
    } else {
        let prev = spec_backoff((n - 1) as nat);
        if 2 * prev <= 60 {
            2 * prev
        } else {
            60
        }
    }
}

proof fn lemma_backoff_capped(n: nat)
    requires
        n >= 6,
    ensures
        spec_backoff(n) == 60,
    decreases n,
{
    if n == 6 {
        reveal_with_fuel(spec_backoff, 7);
    } else {
        lemma_backoff_capped((n - 1) as nat);
    }
}

/// The backoff sequence for consecutive failing runs is
/// 1, 2, 4, 8, 16, 32, 60, 60, 60, …: doubling, capped at 60.
pub proof fn lemma_backoff_sequence()
    ensures
        spec_backoff(0) == 1,
        spec_backoff(1) == 2,
        spec_backoff(2) == 4,
        spec_backoff(3) == 8,
        spec_backoff(4) == 16,
        spec_backoff(5) == 32,
        forall|n: nat| n >= 6 ==> #[trigger] spec_backoff(n) == 60,
{
    reveal_with_fuel(spec_backoff, 7);
    assert forall|n: nat| n >= 6 implies #[trigger] spec_backoff(n) == 60 by {
        lemma_backoff_capped(n);
    }
}

/// One supervision session: the current backoff duration in seconds.
/// Created when supervision starts; there is no persisted session state,
/// so restarting the supervisor resets the backoff to 1.
pub struct Supervisor {
    pub wait_seconds: u64,
}

impl Supervisor {
    /// A fresh session: the backoff starts at one second.
    pub fn new() -> (s: Self)
        ensures
            s.wait_seconds == 1,
    {
        Supervisor { wait_seconds: 1 }
    }

    /// Apply one cycle's exit classification to the backoff and return
    /// how long to sleep before the next cycle: a success or a
    /// signal-killed exit resets the backoff to 1, a failing code
    /// doubles it up to the cap of 60, and a failed wait call doubles
    /// it without the cap.
    pub fn on_exit(&mut self, e: ExitKind) -> (sleep: u64)
        ensures
            sleep == final(self).wait_seconds,
            (e is Succeeded || e is NoCode) ==> final(self).wait_seconds == 1,
            e is FailedCode ==> final(self).wait_seconds == (if 2 * old(self).wait_seconds
                <= 60 {
                2 * old(self).wait_seconds
            } else {
                60
            }),
            e is FailedCode ==> forall|n: nat|
                old(self).wait_seconds == #[trigger] spec_backoff(n)
                    ==> final(self).wait_seconds == spec_backoff(n + 1),
            e is WaitFailed ==> final(self).wait_seconds == (if 2 * old(self).wait_seconds
                <= u64::MAX {
                2 * old(self).wait_seconds
            } else {
                u64::MAX as int
            }),
    {
        match e {
            ExitKind::Succeeded => {
                self.wait_seconds = 1;
            },
            ExitKind::NoCode => {
                self.wait_seconds = 1;
            },
            ExitKind::FailedCode => {
                self.wait_seconds = if self.wait_seconds >= 30 {
                    60
                } else {
                    self.wait_seconds * 2
                };
            },
            ExitKind::WaitFailed => {
                self.wait_seconds = if self.wait_seconds <= u64::MAX / 2 {
                    self.wait_seconds * 2
                } else {
                    u64::MAX
                };
            },
        }
        self.wait_seconds
    }
}

/// What the draining loop does after one receive attempt on the merged
/// log channel.
#[derive(Clone, Copy, Debug, PartialEq, Eq, Structural)]
pub enum DrainStep {
    /// A line arrived: deliver it to the log.
    Deliver,
    /// The senders are gone and the child is confirmed exited: stop
    /// draining.
    Stop,
    /// A receive error before the child is confirmed exited: log it as
    /// transient and keep receiving — it is not fatal.
    Transient,
}

/// Decide what the draining loop does next, from whether the receive
/// attempt yielded a line and whether the child has been confirmed
/// exited by a non-blocking wait check.
pub fn drain_decision(received: bool, child_exited: bool) -> (s: DrainStep)
    ensures
        received ==> s == DrainStep::Deliver,
        !received && child_exited ==> s == DrainStep::Stop,
        !received && !child_exited ==> s == DrainStep::Transient,
{
    if received {
        DrainStep::Deliver
    } else if child_exited {
        DrainStep::Stop
    } else {
        DrainStep::Transient
    }
}

/// One line of the merged supervision log, tagged with its source.
#[derive(Debug)]
pub enum LogLine {
    /// A line read from the child's standard output.
    StdOut(String),
    /// A line read from the child's standard error.
    StdErr(String),
    /// A line emitted by the supervisor itself.
    Sys(String),
}

/// The tagged form of a log line: its source tag, a space, the text.
pub open spec fn spec_render(l: LogLine) -> Seq<char> {
    match l {
        LogLine::StdOut(s) => "OUT "@ + s@,
        LogLine::StdErr(s) => "ERR "@ + s@,
        LogLine::Sys(s) => "SYS "@ + s@,
    }
}

impl LogLine {
    /// Render the line with its source tag.
    pub fn render(&self) -> (r: String)
        ensures
            r@ == spec_render(*self),
    {
        match self {
            LogLine::StdOut(s) => {
                let mut r = "OUT ".to_owned();
                r.append(s.as_str());
                r
            },
            LogLine::StdErr(s) => {
                let mut r = "ERR ".to_owned();
                r.append(s.as_str());
                r
            },
            LogLine::Sys(s) => {
                let mut r = "SYS ".to_owned();
                r.append(s.as_str());
                r
            },
        }
    }
}

/// A full log entry: the given timestamp, a space, the tagged line.
pub fn render_entry(stamp: &str, line: &LogLine) -> (r: String)
    ensures
        r@ == stamp@ + seq![' '] + spec_render(*line),
{
    let mut r = stamp.to_owned();
    r.append(" ");
    let rendered = line.render();
    r.append(rendered.as_str());
    proof {
        reveal_strlit(" ");
        assert(" "@ =~= seq![' ']);
        assert(r@ =~= stamp@ + seq![' '] + spec_render(*line));
    }
    r
}

/// Relies on `chrono::Local::now` and its `format`: the current local
/// time, rendered as `%Y-%m-%d %H:%M:%S`. The year is zero-padded to at
/// least four digits and every other field to two, so the stamp is at
/// least 19 characters long.
#[verifier::external_body]
fn now_stamp() -> (r: String)
    ensures
        r@.len() >= 19,
{
    chrono::Local::now().format("%Y-%m-%d %H:%M:%S").to_string()
}

/// The printed form of a log line: the current timestamp (at least 19
/// characters), a space, the tagged text.
pub fn log_text(line: &LogLine) -> (r: String)
    ensures
        exists|stamp: Seq<char>|
            stamp.len() >= 19 && r@ == stamp + seq![' '] + spec_render(*line),
{
    let stamp = now_stamp();
    let r = render_entry(stamp.as_str(), line);
    proof {
        assert(stamp@.len() >= 19 && r@ == stamp@ + seq![' '] + spec_render(*line));
    }
    r
}

} // verus!
