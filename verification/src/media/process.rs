//! Subprocesses that work on media: their deadline and their cleanup.

use vstd::prelude::*;
use vstd::string::*;
use crate::numbers;
use crate::numbers::decimal_u64;
use crate::text;
use crate::text::concat;

verus! {

/// How long a PDF renderer may run, in nanoseconds.
pub const PDF_RENDERER_TIMEOUT_NANOS: u128 = 10_000_000_000;

/// What to do with a running subprocess.
#[derive(Debug, Clone, Copy, PartialEq, Eq, Structural)]
pub enum ChildStep {
    /// It has ended: clean up and read what it wrote.
    Collect,
    /// It has run too long: kill it and fail.
    Kill,
    /// It may go on: look again later.
    Wait,
}

/// What to do with a subprocess that has ended or not, after it has run for the given
/// time, where it may run for the given other.
pub fn next_child_step(ended: bool, elapsed_nanos: u128, timeout_nanos: u128) -> (r: ChildStep)
    ensures
        r == if ended {
            ChildStep::Collect
        } else if elapsed_nanos >= timeout_nanos {
            ChildStep::Kill
        } else {
            ChildStep::Wait
        },
{
    if ended {
        ChildStep::Collect
    } else if elapsed_nanos >= timeout_nanos {
        ChildStep::Kill
    } else {
        ChildStep::Wait
    }
}

/// Whether a renderer did its work: it succeeded, and its output is there.
pub fn renderer_succeeded(status_success: bool, output_exists: bool) -> (r: bool)
    ensures
        r == (status_success && output_exists),
{
    status_success && output_exists
}

/// The duty to end the process group of a spawned command.
#[derive(Debug)]
pub struct ProcessGroupGuard {
    /// The leader of the group, until the group has been ended.
    pub pid: Option<u32>,
}

impl ProcessGroupGuard {
    /// A guard for the group of the given leader.
    pub fn new(pid: Option<u32>) -> (r: Self)
        ensures
            r.pid == pid,
    {
        ProcessGroupGuard { pid }
    }

    /// Hands out the leader of the group that is to be ended, at most once.
    pub fn terminate_remaining(&mut self) -> (r: Option<u32>)
        ensures
            r == old(self).pid,
            final(self).pid is None,
    {
        self.pid.take()
    }
}

/// The arguments with which the kill program ends a process group.
pub open spec fn kill_args(pid: u32) -> Seq<Seq<char>> {
    seq!["-KILL"@, "--"@, "-"@ + numbers::nat_text(pid as nat)]
}

/// The arguments with which the kill program ends the process group of a leader.
pub fn kill_arguments(pid: u32) -> (r: Vec<String>)
    ensures
        text::views(r@) == kill_args(pid),
{
    let number = decimal_u64(pid as u64);
    let mut args: Vec<String> = Vec::new();
    args.push("-KILL".to_owned());
    args.push("--".to_owned());
    args.push(concat("-", number.as_str()));
    assert(text::views(args@) =~= kill_args(pid));
    args
}

/// A child's whole group is killed: the signal is the one that cannot be caught, and the
/// target is the negative of the child's number.
pub proof fn law_groups_are_killed(pid: u32)
    ensures
        kill_args(pid).len() == 3,
        kill_args(pid)[0] == "-KILL"@,
        kill_args(pid)[1] == "--"@,
        kill_args(pid)[2].len() > 1 && kill_args(pid)[2][0] == '-',
        pid > 0 ==> numbers::parsed_i64(kill_args(pid)[2]) == Some((-pid) as i64),
{
    reveal_strlit("-");
    let n = -pid;
    numbers::law_decimal_round_trip(n as i64);
    numbers::lemma_nat_text(pid as nat);
    assert("-"@ =~= seq!['-']);
    if pid > 0 {
        assert(kill_args(pid)[2] =~= numbers::int_text(n as int));
    }
}

} // verus!
