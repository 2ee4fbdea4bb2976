use vstd::prelude::*;

verus! {

/// How many times the input monitor may fail before it is given up.
pub const MONITOR_ATTEMPTS: u32 = 3;

/// How long to wait before restarting a failed input monitor.
pub const MONITOR_RESTART_DELAY_SECS: u64 = 5;

/// How a run of the input monitor ended.
#[derive(Clone, Copy, Debug, PartialEq, Eq, Structural)]
pub enum MonitorExit {
    /// It returned normally.
    Finished,
    /// It returned an error or panicked.
    Failed,
}

/// What to do after the input monitor has ended.
#[derive(Clone, Copy, Debug, PartialEq, Eq, Structural)]
pub enum MonitorDecision {
    /// It finished: nothing more to do.
    Stop,
    /// It failed too often: run without input monitoring.
    GiveUp,
    /// Wait `delay_secs` seconds, then start it again.
    Restart { delay_secs: u64 },
}

/// The decision after a run of the monitor that ended with `exit`, when it
/// had failed `failures` times before: the failure count afterwards and the
/// decision.
pub open spec fn supervise(failures: nat, exit: MonitorExit) -> (nat, MonitorDecision) {
    match exit {
        MonitorExit::Finished => (failures, MonitorDecision::Stop),
        MonitorExit::Failed => {
            let n = failures + 1;
            if n >= MONITOR_ATTEMPTS {
                (n, MonitorDecision::GiveUp)
            } else {
                (n, MonitorDecision::Restart { delay_secs: MONITOR_RESTART_DELAY_SECS })
            }
        },
    }
}

/// Decides whether the input monitor is restarted when it ends.
pub struct MonitorSupervisor {
    failures: u32,
}

impl View for MonitorSupervisor {
    type V = nat;

    closed spec fn view(&self) -> nat {
        self.failures as nat
    }
}

impl MonitorSupervisor {
    /// No failures yet.
    pub fn new() -> (s: Self)
        ensures
            s@ == 0,
    {
        MonitorSupervisor { failures: 0 }
    }

    /// The number of failures so far.
    pub fn failures(&self) -> (n: u32)
        ensures
            n == self@,
    {
        self.failures
    }

    /// Records how the monitor ended and decides what to do (see
    /// `supervise`).
    pub fn on_exit(&mut self, exit: MonitorExit) -> (d: MonitorDecision)
        requires
            old(self)@ < MONITOR_ATTEMPTS,
        ensures
            (final(self)@, d) == supervise(old(self)@, exit),
    {
        match exit {
            MonitorExit::Finished => MonitorDecision::Stop,
            MonitorExit::Failed => {
                self.failures = self.failures + 1;
                if self.failures >= MONITOR_ATTEMPTS {
                    MonitorDecision::GiveUp
                } else {
                    MonitorDecision::Restart { delay_secs: MONITOR_RESTART_DELAY_SECS }
                }
            },
        }
    }
}

/// The decisions for a run of monitor exits, starting with `failures`
/// failures, stopping at the first decision that is not a restart.
pub open spec fn supervise_all(failures: nat, exits: Seq<MonitorExit>) -> Seq<MonitorDecision>
    decreases exits.len(),
{
    if exits.len() == 0 {
        Seq::empty()
    } else {
        let (n, d) = supervise(failures, exits[0]);
        if d is Restart {
            seq![d] + supervise_all(n, exits.drop_first())
        } else {
            seq![d]
        }
    }
}

/// A monitor that keeps failing is restarted twice, five seconds after each
/// failure, and given up at its third failure; later exits are never looked
/// at.
pub proof fn lemma_monitor_given_up_on_third_failure(exits: Seq<MonitorExit>)
    requires
        exits.len() >= MONITOR_ATTEMPTS,
        forall|i: int| 0 <= i < exits.len() ==> exits[i] == MonitorExit::Failed,
    ensures
        supervise_all(0, exits) == seq![
            MonitorDecision::Restart { delay_secs: 5 },
            MonitorDecision::Restart { delay_secs: 5 },
            MonitorDecision::GiveUp,
        ],
{
    let rest1 = exits.drop_first();
    let rest2 = rest1.drop_first();
    assert(exits[0] == MonitorExit::Failed);
    assert(rest1[0] == exits[1]);
    assert(rest2[0] == exits[2]);
    assert(supervise_all(2, rest2) =~= seq![MonitorDecision::GiveUp]);
    assert(supervise_all(1, rest1) =~= seq![
        MonitorDecision::Restart { delay_secs: 5 },
        MonitorDecision::GiveUp,
    ]);
}

/// Whatever the exits, the supervisor never asks for more than
/// `MONITOR_ATTEMPTS` runs: at most `MONITOR_ATTEMPTS - failures` decisions
/// are made.
pub proof fn lemma_supervision_is_bounded(failures: nat, exits: Seq<MonitorExit>)
    requires
        failures < MONITOR_ATTEMPTS,
    ensures
        supervise_all(failures, exits).len() <= MONITOR_ATTEMPTS - failures,
    decreases exits.len(),
{
    if exits.len() > 0 {
        let (n, d) = supervise(failures, exits[0]);
        if d is Restart {
            lemma_supervision_is_bounded(n, exits.drop_first());
        }
    }
}

/// `secs` seconds in nanoseconds, or `u64::MAX` when that does not fit
/// (any duration that long reaches back before the clock's origin).
pub open spec fn nanos_saturating(secs: u64) -> u64 {
    if secs * 1_000_000_000 <= u64::MAX {
        (secs * 1_000_000_000) as u64
    } else {
        u64::MAX
    }
}

/// `secs` seconds in nanoseconds (see `nanos_saturating`).
pub fn secs_to_nanos(secs: u64) -> (n: u64)
    ensures
        n == nanos_saturating(secs),
{
    match secs.checked_mul(1_000_000_000) {
        Some(n) => n,
        None => u64::MAX,
    }
}

/// How much input history the daemon keeps, in seconds: ten minutes.
pub const EVENT_HISTORY_SECS: u64 = 600;

/// How much input history the daemon keeps, in nanoseconds: ten minutes.
pub fn event_history_nanos() -> (n: u64)
    ensures
        n == nanos_saturating(EVENT_HISTORY_SECS),
        n == 600_000_000_000,
{
    secs_to_nanos(EVENT_HISTORY_SECS)
}

} // verus!
