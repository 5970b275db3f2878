//! What depends on the operating system: how children are made to exit, and the
//! console's mode.

use vstd::prelude::*;
use crate::text::{decimal, push_decimal, texts};
use crate::constants::{
    CREATE_NEW_PROCESS_GROUP, EXIT_CODE_FORCED_TERMINATION, MAX_SPAN, PROCESS_WAIT_TIMEOUT,
    STOP_ALL_CUSHION, TERMINATION_POLL_INTERVAL,
};

verus! {

/// What is known of the machine.
#[derive(Clone, Copy, Debug, PartialEq, Eq, Structural)]
pub struct Host {
    pub windows: bool,
    pub pwsh_on_path: bool,
}

/// How a child is set apart from gaffa, so that a Ctrl+C of the console does
/// not reach it.
#[derive(Clone, Copy, Debug, PartialEq, Eq, Structural)]
pub enum GroupSetup {
    /// By the creation flags of Windows.
    CreationFlags(u32),
    /// By the number of a process group, 0 for a new one.
    ProcessGroup(i32),
}

/// How a child is set apart from gaffa, by leading a process group of its own.
pub open spec fn group_of(host: Host) -> GroupSetup {
    if host.windows {
        GroupSetup::CreationFlags(CREATE_NEW_PROCESS_GROUP)
    } else {
        GroupSetup::ProcessGroup(0)
    }
}

/// How a child is set apart from gaffa.
pub fn configure_command(host: Host) -> (r: GroupSetup)
    ensures
        r == group_of(host),
{
    if host.windows {
        GroupSetup::CreationFlags(CREATE_NEW_PROCESS_GROUP)
    } else {
        GroupSetup::ProcessGroup(0)
    }
}

/// The console mode in which output is processed, wrapped and coloured, out of
/// the mode that is set. Nothing else is changed.
pub fn ensure_console_mode(mode: u32) -> (r: u32)
    ensures
        r == mode | 0x7,
        r & 0x7 == 0x7,
        r & !0x7u32 == mode & !0x7u32,
{
    let r: u32 = mode | 0x7;
    assert((mode | 0x7) & 0x7 == 0x7) by (bit_vector);
    assert((mode | 0x7) & !0x7u32 == mode & !0x7u32) by (bit_vector);
    r
}

/// The arguments of `taskkill` that kill a process and all its descendants.
pub fn taskkill_args(pid: u32) -> (r: Vec<String>)
    ensures
        texts(r@) == seq!["/F"@, "/T"@, "/PID"@, decimal(pid as nat)],
{
    let mut number = String::new();
    push_decimal(&mut number, pid as u64);
    assert(number@ =~= decimal(pid as nat));
    let mut r: Vec<String> = Vec::new();
    r.push("/F".to_owned());
    r.push("/T".to_owned());
    r.push("/PID".to_owned());
    r.push(number);
    assert(texts(r@) =~= seq!["/F"@, "/T"@, "/PID"@, decimal(pid as nat)]);
    r
}

/// Whom a signal to a child goes to: its process group, and the child alone where
/// the group cannot be reached.
pub fn signal_targets(pid: u32) -> (r: (i32, i32))
    requires
        pid <= i32::MAX,
    ensures
        r.0 == -(pid as int),
        r.1 == pid,
{
    let process: i32 = pid as i32;
    (-process, process)
}

/// How a child is killed with all its descendants.
#[derive(Debug)]
pub enum KillPlan {
    /// By a signal to its group, or to the child alone where that fails.
    Signals { group: i32, process: i32 },
    /// By `taskkill` with these arguments.
    TaskKill(Vec<String>),
}

/// How a child is killed with all its descendants.
pub fn force_kill_process(host: Host, pid: u32) -> (r: KillPlan)
    requires
        host.windows || pid <= i32::MAX,
    ensures
        if host.windows {
            r matches KillPlan::TaskKill(args) && texts(args@) == seq![
                "/F"@,
                "/T"@,
                "/PID"@,
                decimal(pid as nat),
            ]
        } else {
            r matches KillPlan::Signals { group, process } && group == -(pid as int) && process
                == pid
        },
{
    if host.windows {
        KillPlan::TaskKill(taskkill_args(pid))
    } else {
        let (group, process) = signal_targets(pid);
        KillPlan::Signals { group, process }
    }
}

/// What the end of a child waits for.
#[derive(Clone, Copy, Debug, PartialEq, Eq, Structural)]
pub enum TermPhase {
    /// For the first look at the child.
    Looking,
    /// For the signal to be sent.
    Signalling,
    /// For another look, within the time the child has.
    Polling,
    /// For the time until the next look.
    Sleeping,
    /// For the child to be killed.
    Killing,
    /// For the exit to be confirmed.
    Confirming,
    /// For nothing more.
    Over,
}

/// The end of a child that is under way: the time it has to exit by itself, and
/// how much of it has passed.
#[derive(Clone, Copy, Debug, PartialEq, Eq, Structural)]
pub struct Termination {
    pub timeout: u128,
    pub waited: u128,
    pub phase: TermPhase,
}

/// What is to be done to a child.
#[derive(Clone, Copy, Debug, PartialEq, Eq, Structural)]
pub enum TermAction {
    /// Look whether the child has exited.
    Look,
    /// Ask the child and its group to exit.
    Signal,
    /// Wait.
    Sleep(u128),
    /// Kill the child and its group.
    ForceKill,
    /// Wait that long for the child to exit.
    Confirm(u128),
    /// Nothing: the child has exited, with its code if it has one, or it is
    /// still there.
    Done(Option<Option<i32>>),
}

/// What came of it.
#[derive(Clone, Copy, Debug, PartialEq, Eq, Structural)]
pub enum TermEvent {
    /// The child has exited, with its code if it has one.
    Exited(Option<i32>),
    /// The child is there. `has_pid` says whether it can be signalled.
    Alive { has_pid: bool },
    /// The signal was sent, or could not be.
    Signalled(bool),
    /// The time is over.
    Slept,
    /// The child was killed.
    Killed,
    /// The child did not exit in time.
    TimedOut,
}

impl Termination {
    /// Whether the end waits for such an event.
    pub open spec fn expects(&self, event: TermEvent) -> bool {
        match self.phase {
            TermPhase::Looking | TermPhase::Polling => event is Exited || event is Alive,
            TermPhase::Signalling => event is Signalled,
            TermPhase::Sleeping => event is Slept,
            TermPhase::Killing => event is Killed,
            TermPhase::Confirming => event is Exited || event is TimedOut,
            TermPhase::Over => false,
        }
    }

    /// The time that has passed is never more than the child has, rounded up to
    /// the next look. A look or a pause comes only within that time.
    pub open spec fn wf(&self) -> bool {
        &&& self.timeout <= MAX_SPAN
        &&& self.waited < self.timeout + TERMINATION_POLL_INTERVAL
        &&& self.phase == TermPhase::Polling || self.phase == TermPhase::Sleeping ==> self.waited
            < self.timeout
    }

    /// Either another look, or the kill where the time has passed.
    pub open spec fn look_or_kill(self, waited: u128) -> (Termination, TermAction) {
        if waited < self.timeout {
            (Termination { waited, phase: TermPhase::Polling, ..self }, TermAction::Look)
        } else {
            (Termination { waited, phase: TermPhase::Killing, ..self }, TermAction::ForceKill)
        }
    }

    /// What follows on an event. A child is asked to exit, looked at until its
    /// time has passed, and then killed. One that cannot be asked is killed at
    /// once, and one without a process id is only waited for.
    pub open spec fn next(self, event: TermEvent) -> (Termination, TermAction) {
        match event {
            TermEvent::Exited(code) => (
                Termination { phase: TermPhase::Over, ..self },
                TermAction::Done(Some(code)),
            ),
            TermEvent::Alive { has_pid } => if self.phase == TermPhase::Polling {
                (
                    Termination { phase: TermPhase::Sleeping, ..self },
                    TermAction::Sleep(TERMINATION_POLL_INTERVAL),
                )
            } else if has_pid {
                (Termination { phase: TermPhase::Signalling, ..self }, TermAction::Signal)
            } else {
                (
                    Termination { phase: TermPhase::Confirming, ..self },
                    TermAction::Confirm(PROCESS_WAIT_TIMEOUT),
                )
            },
            TermEvent::Signalled(sent) => if sent {
                self.look_or_kill(0)
            } else {
                (Termination { phase: TermPhase::Killing, ..self }, TermAction::ForceKill)
            },
            TermEvent::Slept => self.look_or_kill(
                (self.waited + TERMINATION_POLL_INTERVAL) as u128,
            ),
            TermEvent::Killed => (
                Termination { phase: TermPhase::Confirming, ..self },
                TermAction::Confirm(PROCESS_WAIT_TIMEOUT),
            ),
            TermEvent::TimedOut => (
                Termination { phase: TermPhase::Over, ..self },
                TermAction::Done(None),
            ),
        }
    }

    /// How far the end is from being over, in two parts: the time that is left,
    /// and the phases that are left within it.
    pub open spec fn remaining(self) -> (nat, nat) {
        let time = if self.waited < self.timeout {
            (self.timeout - self.waited) as nat
        } else {
            0
        };
        match self.phase {
            TermPhase::Looking => ((self.timeout + 3) as nat, 0),
            TermPhase::Signalling => ((self.timeout + 2) as nat, 0),
            TermPhase::Polling => (time + 1, 1),
            TermPhase::Sleeping => (time + 1, 0),
            TermPhase::Killing => (0, 2),
            TermPhase::Confirming => (0, 1),
            TermPhase::Over => (0, 0),
        }
    }

    /// Goes on after the event that is waited for.
    fn advance(&mut self, event: TermEvent) -> (r: TermAction)
        requires
            old(self).wf(),
            old(self).expects(event),
        ensures
            (*final(self), r) == old(self).next(event),
            final(self).wf(),
    {
        match event {
            TermEvent::Exited(code) => {
                self.phase = TermPhase::Over;
                TermAction::Done(Some(code))
            },
            TermEvent::Alive { has_pid } => if self.phase == TermPhase::Polling {
                self.phase = TermPhase::Sleeping;
                TermAction::Sleep(TERMINATION_POLL_INTERVAL)
            } else if has_pid {
                self.phase = TermPhase::Signalling;
                TermAction::Signal
            } else {
                self.phase = TermPhase::Confirming;
                TermAction::Confirm(PROCESS_WAIT_TIMEOUT)
            },
            TermEvent::Signalled(sent) => {
                if sent {
                    self.waited = 0;
                }
                if sent && self.waited < self.timeout {
                    self.phase = TermPhase::Polling;
                    TermAction::Look
                } else {
                    self.phase = TermPhase::Killing;
                    TermAction::ForceKill
                }
            },
            TermEvent::Slept => {
                self.waited = self.waited + TERMINATION_POLL_INTERVAL;
                if self.waited < self.timeout {
                    self.phase = TermPhase::Polling;
                    TermAction::Look
                } else {
                    self.phase = TermPhase::Killing;
                    TermAction::ForceKill
                }
            },
            TermEvent::Killed => {
                self.phase = TermPhase::Confirming;
                TermAction::Confirm(PROCESS_WAIT_TIMEOUT)
            },
            TermEvent::TimedOut => {
                self.phase = TermPhase::Over;
                TermAction::Done(None)
            },
        }
    }

    /// Begins the end of a child that has `timeout` to exit by itself. The first
    /// thing is a look at it.
    pub fn begin(timeout: u128) -> (r: (Termination, TermAction))
        requires
            timeout <= MAX_SPAN,
        ensures
            r.0 == (Termination { timeout, waited: 0, phase: TermPhase::Looking }),
            r.0.wf(),
            r.1 == TermAction::Look,
    {
        (Termination { timeout, waited: 0, phase: TermPhase::Looking }, TermAction::Look)
    }

    /// Whether the end waits for such an event.
    pub fn accepts(&self, event: TermEvent) -> (r: bool)
        ensures
            r == self.expects(event),
    {
        match event {
            TermEvent::Exited(_) => self.phase == TermPhase::Looking || self.phase
                == TermPhase::Polling || self.phase == TermPhase::Confirming,
            TermEvent::Alive { .. } => self.phase == TermPhase::Looking || self.phase
                == TermPhase::Polling,
            TermEvent::Signalled(_) => self.phase == TermPhase::Signalling,
            TermEvent::Slept => self.phase == TermPhase::Sleeping,
            TermEvent::Killed => self.phase == TermPhase::Killing,
            TermEvent::TimedOut => self.phase == TermPhase::Confirming,
        }
    }
}

/// Goes on with the end of a child after the event that is waited for.
pub fn terminate_process(state: &mut Termination, event: TermEvent) -> (r: TermAction)
    requires
        old(state).wf(),
        old(state).expects(event),
    ensures
        (*final(state), r) == old(state).next(event),
        final(state).wf(),
{
    state.advance(event)
}

/// The end of a child always comes: every event brings it nearer.
pub proof fn law_termination_ends(state: Termination, event: TermEvent)
    requires
        state.wf(),
        state.expects(event),
    ensures
        state.next(event).0.wf(),
        ({
            let a = state.next(event).0.remaining();
            let b = state.remaining();
            &&& decreases_to!(b.0, b.1 => a.0, a.1)
        }),
        state.next(event).1 is Done <==> state.next(event).0.phase == TermPhase::Over,
{
}

/// The time that the wait for a process has on top of its own is enough: a child
/// is killed before that wait is given up.
pub proof fn law_kill_comes_before_giving_up(state: Termination)
    requires
        state.wf(),
    ensures
        state.waited < state.timeout + STOP_ALL_CUSHION,
{
}

/// The state after the signal was sent and the child was found alive by `n`
/// looks, each followed by a pause.
pub open spec fn after_looks(timeout: u128, n: nat) -> (Termination, TermAction)
    decreases n,
{
    let asked = Termination { timeout, waited: 0, phase: TermPhase::Signalling };
    if n == 0 {
        asked.next(TermEvent::Signalled(true))
    } else {
        let (state, _) = after_looks(timeout, (n - 1) as nat);
        let (asleep, _) = state.next(TermEvent::Alive { has_pid: true });
        asleep.next(TermEvent::Slept)
    }
}

/// A child that was asked to exit is looked at once in each poll interval of
/// its time. It is killed as soon as its time has passed, and not before.
pub proof fn law_grace_period(timeout: u128, n: nat)
    requires
        timeout <= MAX_SPAN,
        n > 0 ==> (n - 1) * TERMINATION_POLL_INTERVAL < timeout,
    ensures
        after_looks(timeout, n).0.waited == n * TERMINATION_POLL_INTERVAL,
        after_looks(timeout, n).0.timeout == timeout,
        after_looks(timeout, n).0.wf(),
        n * TERMINATION_POLL_INTERVAL < timeout ==> after_looks(timeout, n).1 == TermAction::Look
            && after_looks(timeout, n).0.phase == TermPhase::Polling,
        n * TERMINATION_POLL_INTERVAL >= timeout ==> after_looks(timeout, n).1
            == TermAction::ForceKill,
    decreases n,
{
    if n > 0 {
        let m = (n - 1) as nat;
        assert(m > 0 ==> (m - 1) * TERMINATION_POLL_INTERVAL < timeout) by {
            if m > 0 {
                assert((m - 1) * TERMINATION_POLL_INTERVAL <= m * TERMINATION_POLL_INTERVAL)
                    by (nonlinear_arith);
            }
        }
        law_grace_period(timeout, m);
        assert(m * TERMINATION_POLL_INTERVAL + TERMINATION_POLL_INTERVAL == n
            * TERMINATION_POLL_INTERVAL) by (nonlinear_arith)
            requires
                n == m + 1,
        ;
    }
}

/// How a child is made to exit, from the mildest way on.
#[derive(Clone, Copy, Debug, PartialEq, Eq, Structural)]
pub enum Signal {
    CtrlC,
    CtrlBreak,
    Terminate,
    KillChild,
    KillTree,
}

/// A way to make a child exit, how long to wait then, and whether to look at
/// the child after it.
#[derive(Clone, Copy, Debug, PartialEq, Eq, Structural)]
pub struct Rung {
    pub signal: Signal,
    pub wait: u128,
    pub look: bool,
}

/// The ways to make a child exit that has no actor, in order. On Windows they
/// go from two interrupts over a break and a kill to the kill of the whole
/// tree; elsewhere from a request to a kill.
pub open spec fn ladder(windows: bool) -> Seq<Rung> {
    if windows {
        seq![
            Rung { signal: Signal::CtrlC, wait: 2_000_000_000, look: true },
            Rung { signal: Signal::CtrlC, wait: 2_000_000_000, look: true },
            Rung { signal: Signal::CtrlBreak, wait: 2_000_000_000, look: true },
            Rung { signal: Signal::KillChild, wait: 1_000_000_000, look: true },
            Rung { signal: Signal::KillTree, wait: 100_000_000, look: false },
        ]
    } else {
        seq![
            Rung { signal: Signal::Terminate, wait: 3_000_000_000, look: true },
            Rung { signal: Signal::KillChild, wait: 0, look: false },
        ]
    }
}

/// The ways to make a child exit, in order.
fn rungs(windows: bool) -> (r: Vec<Rung>)
    ensures
        r@ == ladder(windows),
{
    let mut r: Vec<Rung> = Vec::new();
    if windows {
        r.push(Rung { signal: Signal::CtrlC, wait: 2_000_000_000, look: true });
        r.push(Rung { signal: Signal::CtrlC, wait: 2_000_000_000, look: true });
        r.push(Rung { signal: Signal::CtrlBreak, wait: 2_000_000_000, look: true });
        r.push(Rung { signal: Signal::KillChild, wait: 1_000_000_000, look: true });
        r.push(Rung { signal: Signal::KillTree, wait: 100_000_000, look: false });
    } else {
        r.push(Rung { signal: Signal::Terminate, wait: 3_000_000_000, look: true });
        r.push(Rung { signal: Signal::KillChild, wait: 0, look: false });
    }
    assert(r@ =~= ladder(windows));
    r
}

/// What comes next for a child that has no actor.
#[derive(Clone, Copy, Debug, PartialEq, Eq, Structural)]
pub enum LadderAction {
    /// Take the way with this number.
    Climb { index: usize, rung: Rung },
    /// Wait that long for the child to exit.
    Confirm(u128),
    /// Nothing: the child has exited, with its code if it has one.
    Done(Option<i32>),
}

/// The number of the first way to take. A child without a process id cannot be
/// signalled: on Windows it is only waited for, elsewhere it is killed.
pub open spec fn first_rung(windows: bool, has_pid: bool) -> nat {
    if has_pid {
        0
    } else if windows {
        ladder(windows).len()
    } else {
        1
    }
}

/// What comes after `taken` ways. `seen` is the code of a child that was seen to
/// have exited.
pub open spec fn ladder_next(windows: bool, taken: nat, seen: Option<Option<i32>>) -> LadderAction {
    match seen {
        Some(code) => LadderAction::Done(code),
        None => if taken < ladder(windows).len() {
            LadderAction::Climb { index: taken as usize, rung: ladder(windows)[taken as int] }
        } else {
            LadderAction::Confirm(PROCESS_WAIT_TIMEOUT)
        },
    }
}

/// What is to be done with a child that is to exit, after a first look at it.
pub fn begin_ladder(host: Host, has_pid: bool, seen: Option<Option<i32>>) -> (r: LadderAction)
    ensures
        r == ladder_next(host.windows, first_rung(host.windows, has_pid), seen),
{
    let first: usize = if has_pid {
        0
    } else if host.windows {
        5
    } else {
        1
    };
    climb(host, first, seen)
}

/// What is to be done with a child after `taken` ways to make it exit.
pub fn climb(host: Host, taken: usize, seen: Option<Option<i32>>) -> (r: LadderAction)
    ensures
        r == ladder_next(host.windows, taken as nat, seen),
{
    if let Some(code) = seen {
        return LadderAction::Done(code);
    }
    let all = rungs(host.windows);
    if taken < all.len() {
        LadderAction::Climb { index: taken, rung: all[taken] }
    } else {
        LadderAction::Confirm(PROCESS_WAIT_TIMEOUT)
    }
}

/// The exit code after the last wait. `waited` is the code of a child that has
/// exited in time; one that has not counts as killed.
pub open spec fn confirmed(waited: Option<Option<i32>>) -> Option<i32> {
    match waited {
        Some(code) => code,
        None => Some(EXIT_CODE_FORCED_TERMINATION),
    }
}

/// The exit code after the last wait.
pub fn confirmed_code(waited: Option<Option<i32>>) -> (r: Option<i32>)
    ensures
        r == confirmed(waited),
{
    match waited {
        Some(code) => code,
        None => Some(EXIT_CODE_FORCED_TERMINATION),
    }
}

/// Every way is taken at most once, in order, and each child comes to an end.
pub proof fn law_ladder_ends(windows: bool, taken: nat, seen: Option<Option<i32>>)
    ensures
        ladder_next(windows, taken, seen) matches LadderAction::Climb { index, rung } ==> index
            == taken < ladder(windows).len() && rung == ladder(windows)[taken as int],
        taken >= ladder(windows).len() ==> !(ladder_next(windows, taken, seen) is Climb),
{
}

/// A child that is seen to have exited is done with, with the code that it exited
/// with, whenever that is seen. One that is still there when all time has passed is
/// done with as a survivor, and nothing else ends the end of a child.
pub proof fn law_exit_code_of_child_is_kept(state: Termination, event: TermEvent)
    requires
        state.expects(event),
    ensures
        event matches TermEvent::Exited(code) ==> state.next(event).1 == TermAction::Done(
            Some(code),
        ),
        event == TermEvent::TimedOut ==> state.next(event).1 == TermAction::Done(None),
        !(event is Exited) && event != TermEvent::TimedOut ==> !(state.next(event).1 is Done),
{
}

/// A child that is there is first asked to exit, where it can be signalled. One that
/// cannot be asked is killed at once, and one without a process id is only waited
/// for.
pub proof fn law_child_is_asked_first(state: Termination)
    requires
        state.phase == TermPhase::Looking,
    ensures
        ({
            let asked = state.next(TermEvent::Alive { has_pid: true });
            &&& asked.1 == TermAction::Signal
            &&& asked.0.next(TermEvent::Signalled(false)).1 == TermAction::ForceKill
            &&& state.timeout > 0 ==> asked.0.next(TermEvent::Signalled(true)).1
                == TermAction::Look
            &&& asked.0.timeout == state.timeout
        }),
        state.next(TermEvent::Alive { has_pid: false }).1 == TermAction::Confirm(2_000_000_000),
{
}

/// A child that does not exit is looked at every tenth of a second, and when it is
/// killed it has two seconds to go.
pub proof fn law_child_is_looked_at_in_turn(state: Termination)
    requires
        state.wf(),
    ensures
        state.phase == TermPhase::Polling ==> state.next(TermEvent::Alive { has_pid: true }).1
            == TermAction::Sleep(100_000_000) && state.next(TermEvent::Alive { has_pid: false }).1
            == TermAction::Sleep(100_000_000),
        state.phase == TermPhase::Sleeping ==> state.next(TermEvent::Slept).0.waited
            == state.waited + 100_000_000,
        state.phase == TermPhase::Sleeping ==> (state.next(TermEvent::Slept).1 == TermAction::Look
            <==> state.waited + 100_000_000 < state.timeout),
        state.phase == TermPhase::Sleeping ==> (state.next(TermEvent::Slept).1
            == TermAction::ForceKill <==> state.waited + 100_000_000 >= state.timeout),
        state.phase == TermPhase::Killing ==> state.next(TermEvent::Killed).1
            == TermAction::Confirm(2_000_000_000),
{
}

/// The ways to make a child exit go from asking to killing: none that asks comes
/// after one that kills, each but the last is followed by a look, and the last one
/// kills and is not.
pub proof fn law_ladder_goes_from_asking_to_killing(windows: bool, i: int, j: int)
    requires
        0 <= i < j < ladder(windows).len(),
    ensures
        ({
            let kills = |s: Signal| s == Signal::KillChild || s == Signal::KillTree;
            &&& kills(ladder(windows)[i].signal) ==> kills(ladder(windows)[j].signal)
            &&& kills(ladder(windows).last().signal)
            &&& !kills(ladder(windows)[0].signal)
            &&& ladder(windows)[i].look
            &&& !ladder(windows).last().look
            &&& ladder(windows)[j].wait <= ladder(windows)[i].wait
        }),
{
}

/// On Windows a child has two seconds after each of two interrupts and a break, and
/// one after the kill, before its whole tree is killed. Elsewhere it has three
/// seconds before it is killed.
pub proof fn law_ladder_gives_time()
    ensures
        ladder(true).len() == 5,
        ladder(true)[0] == (Rung { signal: Signal::CtrlC, wait: 2_000_000_000, look: true }),
        ladder(true)[1] == ladder(true)[0],
        ladder(true)[2] == (Rung { signal: Signal::CtrlBreak, wait: 2_000_000_000, look: true }),
        ladder(true)[3] == (Rung { signal: Signal::KillChild, wait: 1_000_000_000, look: true }),
        ladder(true)[4] == (Rung { signal: Signal::KillTree, wait: 100_000_000, look: false }),
        ladder(false).len() == 2,
        ladder(false)[0] == (Rung { signal: Signal::Terminate, wait: 3_000_000_000, look: true }),
        ladder(false)[1] == (Rung { signal: Signal::KillChild, wait: 0, look: false }),
{
}

/// A child that is seen to have exited is done with, with its code as it is, and no
/// way is taken any more. While it is there the next way is taken, and after the
/// last it is waited for.
pub proof fn law_ladder_stops_at_exit(windows: bool, taken: nat, code: Option<i32>)
    ensures
        ladder_next(windows, taken, Some(code)) == LadderAction::Done(code),
        taken < ladder(windows).len() ==> ladder_next(windows, taken, None) is Climb,
        taken >= ladder(windows).len() ==> ladder_next(windows, taken, None)
            == LadderAction::Confirm(2_000_000_000),
        ladder_next(windows, first_rung(windows, true), None) == (LadderAction::Climb {
            index: 0,
            rung: ladder(windows)[0],
        }),
        ladder_next(true, first_rung(true, false), None) == LadderAction::Confirm(2_000_000_000),
        ladder_next(false, first_rung(false, false), None) == (LadderAction::Climb {
            index: 1,
            rung: ladder(false)[1],
        }),
{
}

/// The code of a child that exited in time is passed on as it is, and one that did not
/// counts as killed.
pub proof fn law_confirmed_code_is_passed_on(code: Option<i32>)
    ensures
        confirmed(Some(code)) == code,
        confirmed(None) == Some(-1i32),
{
}

/// A child leads a group of its own, by the flag of Windows or by a new process
/// group elsewhere.
pub proof fn law_child_leads_its_group(host: Host)
    ensures
        host.windows ==> group_of(host) == GroupSetup::CreationFlags(0x200),
        !host.windows ==> group_of(host) == GroupSetup::ProcessGroup(0),
{
}

/// The end of a child waits for what its last action brings.
pub proof fn law_end_waits_for_its_action(state: Termination, event: TermEvent, later: TermEvent)
    requires
        state.wf(),
        state.expects(event),
    ensures
        ({
            let (next, action) = state.next(event);
            &&& action == TermAction::Look ==> (next.expects(later) <==> later is Exited || later
                is Alive)
            &&& action == TermAction::Signal ==> (next.expects(later) <==> later is Signalled)
            &&& action is Sleep ==> (next.expects(later) <==> later == TermEvent::Slept)
            &&& action == TermAction::ForceKill ==> (next.expects(later) <==> later
                == TermEvent::Killed)
            &&& action is Confirm ==> (next.expects(later) <==> later is Exited || later
                == TermEvent::TimedOut)
            &&& action is Done ==> !next.expects(later)
            &&& next.timeout == state.timeout
        }),
{
}

} // verus!
