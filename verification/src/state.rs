//! The process status model and the reconciliation engine.
//!
//! A managed process is one declared command with an intent: the status
//! variant records both what was intended (enabled or disabled) and what
//! the process table last showed. Reconciliation refreshes that status
//! from the table and decides the corrective action; the actual spawn is
//! the caller's, since starting a child is an operating-system effect.

use vstd::prelude::*;

use crate::system::get_by_pid;
use crate::system::kill_by_pid;
use crate::system::Process;

verus! {

/// The reconciled state of one managed process.
#[derive(Clone, Copy, Debug, PartialEq, Eq, Structural)]
pub enum ProcessStatus {
    /// Expecting the process to be running with this pid.
    Running(i32),
    /// Another process runs under the last known pid: the slot was
    /// recycled by an unrelated command.
    Invalid(i32),
    /// The last known pid is no longer present in the process table.
    Stopped(i32),
    /// The process is not expected to run; no pid is carried.
    Disabled,
}

impl Default for ProcessStatus {
    /// A record without a recorded status is taken as not expected to run.
    fn default() -> (s: Self)
        ensures
            s == ProcessStatus::Disabled,
    {
        ProcessStatus::Disabled
    }
}

/// The last pid associated with a status: every variant but `Disabled`
/// carries one.
pub open spec fn status_pid(s: ProcessStatus) -> Option<i32> {
    match s {
        ProcessStatus::Running(pid) => Some(pid),
        ProcessStatus::Invalid(pid) => Some(pid),
        ProcessStatus::Stopped(pid) => Some(pid),
        ProcessStatus::Disabled => None,
    }
}

/// One declared unit: an optional human label, the exact command line
/// (program and arguments joined by single spaces — the equality key for
/// detecting pid reuse), and the reconciled status.
#[derive(Debug, Clone)]
pub struct ProcessConfig {
    pub name: Option<String>,
    pub cmd: String,
    pub status: ProcessStatus,
}

/// The status a record earns from a probe of its pid: absent means
/// stopped; present with the identical command line means running;
/// present with a different command line means the pid was reused.
pub open spec fn spec_observed(cmd: Seq<char>, pid: i32, probe: Option<Process>) -> ProcessStatus {
    match probe {
        None => ProcessStatus::Stopped(pid),
        Some(p) => if p.cmd@ == cmd {
            ProcessStatus::Running(p.pid)
        } else {
            ProcessStatus::Invalid(p.pid)
        },
    }
}

impl ProcessConfig {
    /// A newly declared record: disabled, with no pid.
    pub fn new(cmd: String, name: Option<String>) -> (r: Self)
        ensures
            r.cmd == cmd,
            r.name == name,
            r.status == ProcessStatus::Disabled,
    {
        ProcessConfig { name, cmd, status: ProcessStatus::Disabled }
    }

    /// Assemble a record from loaded fields. A record stored without a
    /// status defaults to `Disabled`.
    pub fn from_parts(name: Option<String>, cmd: String, status: Option<ProcessStatus>) -> (r:
        Self)
        ensures
            r.name == name,
            r.cmd == cmd,
            r.status == (match status {
                Some(s) => s,
                None => ProcessStatus::Disabled,
            }),
    {
        let status = match status {
            Some(s) => s,
            None => ProcessStatus::Disabled,
        };
        ProcessConfig { name, cmd, status }
    }

    /// The last pid associated with this record, if any.
    pub fn get_pid(&self) -> (r: Option<i32>)
        ensures
            r == status_pid(self.status),
    {
        match self.status {
            ProcessStatus::Running(pid) => Some(pid),
            ProcessStatus::Invalid(pid) => Some(pid),
            ProcessStatus::Stopped(pid) => Some(pid),
            ProcessStatus::Disabled => None,
        }
    }

    /// The status this record earns from the given probe result for its
    /// pid: absent means stopped, an identical command line means
    /// running, a different one means the pid was reused.
    pub fn status_from_probe(&self, pid: i32, probe: Option<Process>) -> (r: ProcessStatus)
        ensures
            r == spec_observed(self.cmd@, pid, probe),
            probe is None ==> r == ProcessStatus::Stopped(pid),
            probe matches Some(p) ==> r == (if p.cmd@ == self.cmd@ {
                ProcessStatus::Running(p.pid)
            } else {
                ProcessStatus::Invalid(p.pid)
            }),
    {
        match probe {
            None => ProcessStatus::Stopped(pid),
            Some(p) => {
                if p.cmd == self.cmd {
                    ProcessStatus::Running(p.pid)
                } else {
                    ProcessStatus::Invalid(p.pid)
                }
            },
        }
    }

    /// Probe the process table and report what this record's status
    /// should be. A record with no pid is disabled; otherwise the probe
    /// of its pid decides, and the pid is preserved.
    pub fn check_status(&self) -> (r: ProcessStatus)
        ensures
            self.status is Disabled ==> r is Disabled,
            status_pid(r) == status_pid(self.status),
    {
        match self.get_pid() {
            None => ProcessStatus::Disabled,
            Some(pid) => {
                let probe = get_by_pid(pid);
                self.status_from_probe(pid, probe)
            },
        }
    }

    /// Refresh the status to probe-observed truth. Idempotent in intent:
    /// it always overrides any prior status guess, keeps the pid, and
    /// never flips a record into or out of `Disabled`.
    pub fn update(&mut self)
        ensures
            final(self).cmd == old(self).cmd,
            final(self).name == old(self).name,
            status_pid(final(self).status) == status_pid(old(self).status),
            (final(self).status is Disabled) == (old(self).status is Disabled),
    {
        self.status = self.check_status();
    }

    /// Whether the record was last observed running.
    pub fn is_running(&self) -> (r: bool)
        ensures
            r == (self.status is Running),
    {
        match self.status {
            ProcessStatus::Running(_) => true,
            _ => false,
        }
    }

    /// Whether the record is supposed to be up, regardless of observed
    /// health.
    pub fn is_enabled(&self) -> (r: bool)
        ensures
            r == !(self.status is Disabled),
    {
        match self.status {
            ProcessStatus::Disabled => false,
            _ => true,
        }
    }

    /// Refresh the status, and report whether a spawn is needed to honor
    /// a run request: none when the record is already observed running.
    /// The caller performs the spawn and then records it with `started`.
    ///
    /// Running is stable here: a record already running is left exactly
    /// as it was, and no spawn is requested.
    pub fn run(&mut self) -> (spawn_needed: bool)
        ensures
            final(self).cmd == old(self).cmd,
            final(self).name == old(self).name,
            status_pid(final(self).status) == status_pid(old(self).status),
            (final(self).status is Disabled) == (old(self).status is Disabled),
            spawn_needed == !(final(self).status is Running),
            old(self).status is Running && final(self).status is Running ==> final(self).status
                == old(self).status,
    {
        self.update();
        !self.is_running()
    }

    /// What a record becomes once a spawn of its command produced `pid`
    /// and a probe of that pid afterwards reported `probe`: the record is
    /// running under the new pid, and it adopts the command line the
    /// process table reports, keeping future equality checks stable.
    pub fn apply_spawn(&mut self, pid: i32, probe: Option<Process>)
        ensures
            final(self).name == old(self).name,
            final(self).status == ProcessStatus::Running(pid),
            final(self).cmd == (match probe {
                Some(p) => p.cmd,
                None => old(self).cmd,
            }),
    {
        self.status = ProcessStatus::Running(pid);
        match probe {
            Some(p) => {
                self.cmd = p.cmd;
            },
            None => (),
        }
    }

    /// Record that a spawn of this record's command produced `pid`:
    /// adopt the pid, and adopt the command line the process table
    /// reports for it, if the new pid can immediately be re-resolved.
    pub fn started(&mut self, pid: i32)
        ensures
            final(self).name == old(self).name,
            final(self).status == ProcessStatus::Running(pid),
    {
        let probe = get_by_pid(pid);
        self.apply_spawn(pid, probe);
    }

    /// Reconcile one enabled record: refresh it and report whether a
    /// spawn is needed. A disabled record is left untouched — it is not
    /// supposed to run.
    pub fn fix(&mut self) -> (spawn_needed: bool)
        ensures
            final(self).cmd == old(self).cmd,
            final(self).name == old(self).name,
            old(self).status is Disabled ==> *final(self) == *old(self) && !spawn_needed,
            !(old(self).status is Disabled) ==> {
                &&& status_pid(final(self).status) == status_pid(old(self).status)
                &&& !(final(self).status is Disabled)
                &&& spawn_needed == !(final(self).status is Running)
            },
    {
        if self.is_enabled() {
            self.run()
        } else {
            false
        }
    }

    /// Kill the process behind a running record: refresh, send one
    /// signal, refresh again — a single signal-then-check pass, never a
    /// loop. Returns whether the record transitioned to `Disabled`,
    /// which happens exactly when the process is confirmed gone after
    /// the signal. A record not observed running is left alone and
    /// reported as nothing-to-kill.
    pub fn kill(&mut self) -> (r: bool)
        ensures
            final(self).cmd == old(self).cmd,
            final(self).name == old(self).name,
            r ==> final(self).status is Disabled && !(old(self).status is Disabled),
            !r ==> ((final(self).status is Disabled) == (old(self).status is Disabled)),
            old(self).status is Disabled ==> !r && final(self).status is Disabled,
            old(self).status is Stopped && final(self).status is Stopped
                ==> !r && final(self).status == old(self).status,
            !(final(self).status is Disabled)
                ==> status_pid(final(self).status) == status_pid(old(self).status),
            final(self).status is Running ==> !r,
    {
        self.update();
        match self.status {
            ProcessStatus::Running(pid) => {
                let _accepted = kill_by_pid(pid);
                self.update();
                self.finish_kill()
            },
            _ => false,
        }
    }

    /// The closing step of a kill pass, applied after the post-signal
    /// re-check: a record whose process is confirmed gone transitions
    /// to `Disabled`; any other outcome leaves the record exactly as
    /// observed and reports failure.
    pub fn finish_kill(&mut self) -> (r: bool)
        ensures
            final(self).cmd == old(self).cmd,
            final(self).name == old(self).name,
            old(self).status is Stopped ==> final(self).status is Disabled && r,
            !(old(self).status is Stopped) ==> *final(self) == *old(self) && !r,
    {
        match self.status {
            ProcessStatus::Stopped(_) => {
                self.status = ProcessStatus::Disabled;
                true
            },
            _ => false,
        }
    }

    /// The record's display label: its name when one was declared, its
    /// command line otherwise.
    pub fn label(&self) -> (r: String)
        ensures
            r@ == (match self.name {
                Some(n) => n@,
                None => self.cmd@,
            }),
    {
        match &self.name {
            Some(name) => name.clone(),
            None => self.cmd.clone(),
        }
    }
}

/// An ordered collection of managed processes: the declarative source of
/// truth, owned by the caller and passed in for one operation at a time.
pub type State = Vec<ProcessConfig>;

/// Refresh every record's status from the process table: a pure status
/// refresh, no corrective action. Every record keeps its command, its
/// name, its pid and its enabled/disabled intent.
pub fn update_all(state: &mut State)
    ensures
        final(state)@.len() == old(state)@.len(),
        forall|i: int|
            0 <= i < old(state)@.len() ==> {
                &&& (#[trigger] final(state)@[i]).cmd == old(state)@[i].cmd
                &&& final(state)@[i].name == old(state)@[i].name
                &&& status_pid(final(state)@[i].status) == status_pid(old(state)@[i].status)
                &&& ((final(state)@[i].status is Disabled) == (old(state)@[i].status
                    is Disabled))
            },
{
    let n = state.len();
    let mut i: usize = 0;
    while i < n
        invariant
            n == state@.len(),
            i <= n,
            state@.len() == old(state)@.len(),
            forall|j: int|
                i <= j < old(state)@.len() ==> #[trigger] state@[j] == old(state)@[j],
            forall|j: int|
                0 <= j < i ==> {
                    &&& (#[trigger] state@[j]).cmd == old(state)@[j].cmd
                    &&& state@[j].name == old(state)@[j].name
                    &&& status_pid(state@[j].status) == status_pid(old(state)@[j].status)
                    &&& ((state@[j].status is Disabled) == (old(state)@[j].status is Disabled))
                },
        decreases n - i,
    {
        state[i].update();
        i = i + 1;
    }
}

/// What the interactive toggle pass does with one record, from a
/// snapshot of whether it was enabled before the pass and whether the
/// user selected it: a newly selected record is started, a deselected
/// one is killed, an unchanged one is left untouched.
#[derive(Clone, Copy, Debug, PartialEq, Eq, Structural)]
pub enum ToggleAction {
    /// Newly selected: run the record.
    Start,
    /// Newly deselected: kill the record.
    Kill,
    /// Unchanged: leave the record alone.
    Leave,
}

/// Decide the toggle action for one record from the before-snapshot and
/// the user's selection.
pub fn toggle_action(was_enabled: bool, selected: bool) -> (a: ToggleAction)
    ensures
        a == ToggleAction::Kill <==> (was_enabled && !selected),
        a == ToggleAction::Start <==> (!was_enabled && selected),
        a == ToggleAction::Leave <==> (was_enabled == selected),
{
    if was_enabled && !selected {
        ToggleAction::Kill
    } else if !was_enabled && selected {
        ToggleAction::Start
    } else {
        ToggleAction::Leave
    }
}

} // verus!
