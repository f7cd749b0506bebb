//! The sequential dispatch engine.
//!
//! A `ScanRun` is built once from the raw directory listing and then drives
//! the run: it hands out the qualifying directory names one at a time, in
//! plan order, and decides what the reporter says about each dispatch. The
//! binary performs the actual spawn-and-wait between two engine steps and
//! feeds the outcome back. Exactly one child is ever active at a time, and
//! a failed dispatch never stops the scan; only a spawn failure is fatal.

use vstd::prelude::*;
use crate::report::ExitStatus;
use crate::report::failure_diagnostic;
use crate::report::verbose_marker;
use crate::report::marker_text;
use crate::report::diagnostic_text;
use crate::scan::Entry;
use crate::scan::eligible_names;
use crate::scan::names_sorted;
use crate::scan::plan_scan;

verus! {

/// Exit code of a run that completed its scan, however many dispatches
/// failed, and of a run that only printed the help text.
pub const COMPLETED_EXIT_CODE: i32 = 0;

/// Exit code when no command was supplied after the flags.
pub const MISSING_COMMAND_EXIT_CODE: i32 = 1;

/// The command to dispatch: its name and the arguments passed through
/// unmodified to every invocation.
pub struct Invocation {
    /// The command name.
    pub command: String,
    /// The arguments, in order.
    pub args: Vec<String>,
}

/// Splits the positional arguments left over after flag handling into the
/// command and its pass-through arguments. `None` means no command was
/// supplied: the caller must print the usage line to standard error and
/// exit with `MISSING_COMMAND_EXIT_CODE` without scanning.
pub fn split_command(rest: Vec<String>) -> (r: Option<Invocation>)
    ensures
        match r {
            Option::Some(inv) => rest@.len() > 0 && inv.command == rest@[0] && inv.args@ == rest@
                .skip(1),
            Option::None => rest@.len() == 0,
        },
{
    let ghost given = rest@;
    let mut rest = rest;
    if rest.is_empty() {
        None
    } else {
        let command = rest.remove(0);
        proof {
            assert(rest@ =~= given.skip(1));
        }
        Some(Invocation { command, args: rest })
    }
}

/// How the child's standard error stream is routed.
#[derive(Debug, PartialEq, Eq, Structural)]
pub enum StderrRouting {
    /// The child writes to the parent's own standard error.
    Inherit,
    /// The child's standard error goes to a null sink.
    Discard,
}

/// Quiet runs discard the children's standard error; otherwise the children
/// inherit it.
pub fn child_stderr_routing(quiet: bool) -> (routing: StderrRouting)
    ensures
        routing == (if quiet {
            StderrRouting::Discard
        } else {
            StderrRouting::Inherit
        }),
{
    if quiet {
        StderrRouting::Discard
    } else {
        StderrRouting::Inherit
    }
}

/// The outcome of trying to dispatch one candidate.
pub enum DispatchOutcome {
    /// The command could not be located or spawned at all. This is a
    /// configuration problem, not a per-project outcome, and aborts the
    /// whole run.
    SpawnFailed,
    /// The command was spawned and terminated with the given status. Never
    /// fatal, whatever the status says.
    Completed(ExitStatus),
}

/// Only a spawn failure aborts the run; a dispatch that completed never
/// does, even with a non-zero exit code or a termination by signal.
pub fn outcome_is_fatal(outcome: &DispatchOutcome) -> (fatal: bool)
    ensures
        fatal == (outcome matches DispatchOutcome::SpawnFailed),
{
    match outcome {
        DispatchOutcome::SpawnFailed => true,
        DispatchOutcome::Completed(_) => false,
    }
}

/// One run over one base directory: the dispatch plan and the output flags.
pub struct ScanRun {
    /// The qualifying directory names, in dispatch order.
    pub plan: Vec<String>,
    /// How many names have been handed out so far.
    pub next: usize,
    /// Suppress the children's standard error and the failure diagnostics.
    pub quiet: bool,
    /// Print a marker line before each dispatch.
    pub verbose: bool,
}

impl ScanRun {
    /// The engine never hands out more names than the plan holds.
    pub open spec fn wf(self) -> bool {
        self.next <= self.plan@.len()
    }

    /// The scan is complete: every planned dispatch has been handed out.
    pub open spec fn done(self) -> bool {
        self.next == self.plan@.len()
    }

    /// Builds the engine for one run: the plan holds exactly the names of
    /// the eligible entries of the listing, in ascending lexicographic
    /// order, and no name has been handed out yet.
    pub fn new(entries: Vec<Entry>, quiet: bool, verbose: bool) -> (run: ScanRun)
        ensures
            run.wf(),
            run.next == 0,
            run.quiet == quiet,
            run.verbose == verbose,
            names_sorted(run.plan@),
            run.plan@.to_multiset() == eligible_names(entries@).to_multiset(),
    {
        let plan = plan_scan(entries);
        ScanRun { plan, next: 0, quiet, verbose }
    }

    /// Hands out the next directory to dispatch, in plan order, or `None`
    /// when the scan is complete.
    pub fn next_dir(&mut self) -> (dir: Option<String>)
        requires
            old(self).wf(),
        ensures
            final(self).wf(),
            final(self).plan == old(self).plan,
            final(self).quiet == old(self).quiet,
            final(self).verbose == old(self).verbose,
            match dir {
                Option::Some(name) => !old(self).done() && name@ == old(self).plan@[old(
                    self,
                ).next as int]@ && final(self).next == old(self).next + 1,
                Option::None => old(self).done() && final(self).next == old(self).next,
            },
    {
        if self.next < self.plan.len() {
            let name = self.plan[self.next].clone();
            self.next = self.next + 1;
            Some(name)
        } else {
            None
        }
    }

    /// The marker line to print immediately before dispatching into `name`:
    /// exactly one line naming the directory when verbose, nothing
    /// otherwise.
    pub fn marker_line(&self, name: &str) -> (line: Option<String>)
        ensures
            match line {
                Option::Some(l) => self.verbose && l@ == marker_text(name@),
                Option::None => !self.verbose,
            },
    {
        verbose_marker(self.verbose, name)
    }

    /// The diagnostic to print after a completed dispatch, if any: nothing
    /// when quiet or when the child succeeded.
    pub fn diagnostic(&self, status: &ExitStatus) -> (line: Option<String>)
        ensures
            match line {
                Option::Some(l) => !self.quiet && !status.success && l@ == diagnostic_text(
                    status.code,
                ),
                Option::None => self.quiet || status.success,
            },
    {
        failure_diagnostic(self.quiet, status)
    }

    /// The process exit code of a completed scan. It is `0` no matter how
    /// many dispatches failed along the way: per-directory failures are
    /// reported, not propagated.
    pub fn exit_code(&self) -> (code: i32)
        requires
            self.done(),
        ensures
            code == COMPLETED_EXIT_CODE,
    {
        COMPLETED_EXIT_CODE
    }
}

} // verus!
