//! The actor of a child: the task that owns it, notes its exit, and does what it
//! is told.

use vstd::prelude::*;
use crate::constants::{EXIT_CODE_FORCED_TERMINATION, PROCESS_WAIT_TIMEOUT};

verus! {

/// What a process can be told by way of its actor, the task that owns the child.
#[derive(Clone, Copy, Debug, PartialEq, Eq, Structural)]
pub enum ActorCommand {
    /// To end, and to be killed where it does not.
    Stop,
    /// To be killed at once.
    Kill,
}

/// What comes back when an actor is told something.
#[derive(Clone, Copy, Debug, PartialEq, Eq, Structural)]
pub enum Reply {
    /// The actor was gone before it got the command.
    Closed,
    /// The actor got the command and went away without an answer.
    Dropped,
    /// The exit code of the child, or `None` where the child survived.
    Code(Option<i32>),
}

/// What a reply says: `None` where no actor got the command, else the exit
/// code, or that the child survived. An actor that gives no answer has seen its
/// child exit.
pub open spec fn answer(reply: Reply) -> Option<Option<i32>> {
    match reply {
        Reply::Closed => None,
        Reply::Dropped => Some(Some(EXIT_CODE_FORCED_TERMINATION)),
        Reply::Code(code) => Some(code),
    }
}

/// What a reply of an actor says.
pub fn answer_of(reply: Reply) -> (r: Option<Option<i32>>)
    ensures
        r == answer(reply),
{
    match reply {
        Reply::Closed => None,
        Reply::Dropped => Some(Some(EXIT_CODE_FORCED_TERMINATION)),
        Reply::Code(code) => Some(code),
    }
}

/// What the actor of a child waits for.
#[derive(Clone, Copy, Debug, PartialEq, Eq, Structural)]
pub enum ActorPhase {
    /// For the child to exit, or for a command.
    Watching,
    /// For the child to be terminated.
    Stopping,
    /// For the child to be killed.
    Killing,
    /// For the child to exit, with nobody left to give commands.
    Alone,
    /// For the exit of the child, which came by itself, to be noted.
    NotingExit { exit_code: Option<i32> },
    /// For the exit of the child, which was asked for, to be noted.
    NotingEnd { code: i32 },
    /// For nothing more.
    Closed,
}

/// What an actor learns.
#[derive(Clone, Copy, Debug, PartialEq, Eq, Structural)]
pub enum ActorEvent {
    /// The child exited, with its code if it has one.
    Exited(Option<i32>),
    /// A command came.
    Told(ActorCommand),
    /// Nobody is left to give commands.
    Abandoned,
    /// The child was terminated or killed, and exited with its code if it has
    /// one.
    Ended(Option<i32>),
    /// The child survived.
    Survived,
    /// The exit of the child is noted.
    Noted,
}

/// What an actor does.
#[derive(Clone, Copy, Debug, PartialEq, Eq, Structural)]
pub enum ActorAction {
    /// Wait for the child and for commands.
    Watch,
    /// Wait for the child alone.
    WaitAlone,
    /// Terminate the child.
    Terminate,
    /// Kill the child, and wait that long for it to exit.
    Kill { wait: u128 },
    /// Note the exit, so that everyone sees the process as stopped.
    Note { exit_code: Option<i32> },
    /// Announce the exit, and leave.
    Announce { exit_code: Option<i32> },
    /// Reply with the code, and leave.
    Reply { code: i32 },
    /// Reply that the child survived, and go on watching it.
    ReplySurvived,
}

/// Whether an actor in the given phase can learn this.
pub open spec fn actor_expects(phase: ActorPhase, event: ActorEvent) -> bool {
    match phase {
        ActorPhase::Watching => event is Exited || event is Told || event is Abandoned,
        ActorPhase::Stopping | ActorPhase::Killing => event is Ended || event is Survived,
        ActorPhase::Alone => event is Exited,
        ActorPhase::NotingExit { .. } | ActorPhase::NotingEnd { .. } => event == ActorEvent::Noted,
        ActorPhase::Closed => false,
    }
}

/// What an actor does when it learns something, and what it waits for then. An
/// exit is noted before it is announced or replied to. A child that was ended
/// without a code counts as killed.
pub open spec fn actor_next(phase: ActorPhase, event: ActorEvent) -> (ActorPhase, ActorAction) {
    match event {
        ActorEvent::Exited(exit_code) => (
            ActorPhase::NotingExit { exit_code },
            ActorAction::Note { exit_code },
        ),
        ActorEvent::Told(ActorCommand::Stop) => (ActorPhase::Stopping, ActorAction::Terminate),
        ActorEvent::Told(ActorCommand::Kill) => (
            ActorPhase::Killing,
            ActorAction::Kill { wait: PROCESS_WAIT_TIMEOUT },
        ),
        ActorEvent::Abandoned => (ActorPhase::Alone, ActorAction::WaitAlone),
        ActorEvent::Ended(exit_code) => {
            let code = match exit_code {
                Some(code) => code,
                None => EXIT_CODE_FORCED_TERMINATION,
            };
            (ActorPhase::NotingEnd { code }, ActorAction::Note { exit_code: Some(code) })
        },
        ActorEvent::Survived => (ActorPhase::Watching, ActorAction::ReplySurvived),
        ActorEvent::Noted => match phase {
            ActorPhase::NotingEnd { code } => (ActorPhase::Closed, ActorAction::Reply { code }),
            ActorPhase::NotingExit { exit_code } => (
                ActorPhase::Closed,
                ActorAction::Announce { exit_code },
            ),
            _ => (phase, ActorAction::Watch),
        },
    }
}

/// Whether an actor in the given phase can learn this.
pub fn actor_accepts(phase: ActorPhase, event: ActorEvent) -> (r: bool)
    ensures
        r == actor_expects(phase, event),
{
    match event {
        ActorEvent::Exited(_) => phase == ActorPhase::Watching || phase == ActorPhase::Alone,
        ActorEvent::Told(_) | ActorEvent::Abandoned => phase == ActorPhase::Watching,
        ActorEvent::Ended(_) | ActorEvent::Survived => phase == ActorPhase::Stopping || phase
            == ActorPhase::Killing,
        ActorEvent::Noted => match phase {
            ActorPhase::NotingExit { .. } | ActorPhase::NotingEnd { .. } => true,
            _ => false,
        },
    }
}

/// What an actor does when it learns something.
pub fn run_process_actor(phase: ActorPhase, event: ActorEvent) -> (r: (ActorPhase, ActorAction))
    requires
        actor_expects(phase, event),
    ensures
        r == actor_next(phase, event),
{
    match event {
        ActorEvent::Exited(exit_code) => (
            ActorPhase::NotingExit { exit_code },
            ActorAction::Note { exit_code },
        ),
        ActorEvent::Told(ActorCommand::Stop) => (ActorPhase::Stopping, ActorAction::Terminate),
        ActorEvent::Told(ActorCommand::Kill) => (
            ActorPhase::Killing,
            ActorAction::Kill { wait: PROCESS_WAIT_TIMEOUT },
        ),
        ActorEvent::Abandoned => (ActorPhase::Alone, ActorAction::WaitAlone),
        ActorEvent::Ended(exit_code) => {
            let code: i32 = match exit_code {
                Some(code) => code,
                None => EXIT_CODE_FORCED_TERMINATION,
            };
            (ActorPhase::NotingEnd { code }, ActorAction::Note { exit_code: Some(code) })
        },
        ActorEvent::Survived => (ActorPhase::Watching, ActorAction::ReplySurvived),
        ActorEvent::Noted => match phase {
            ActorPhase::NotingEnd { code } => (ActorPhase::Closed, ActorAction::Reply { code }),
            ActorPhase::NotingExit { exit_code } => (
                ActorPhase::Closed,
                ActorAction::Announce { exit_code },
            ),
            _ => (phase, ActorAction::Watch),
        },
    }
}

/// An actor closes once, when its child is gone and that was noted, and only a
/// child that survived is watched again.
pub proof fn law_actor_closes_with_child(phase: ActorPhase, event: ActorEvent)
    requires
        actor_expects(phase, event),
    ensures
        actor_next(phase, event).0 == ActorPhase::Closed <==> event == ActorEvent::Noted,
        actor_next(phase, event).0 is NotingExit <==> event is Exited,
        actor_next(phase, event).0 is NotingEnd <==> event is Ended,
        actor_next(phase, event).0 == ActorPhase::Watching <==> event == ActorEvent::Survived,
        forall|later: ActorEvent| !actor_expects(ActorPhase::Closed, later),
{
}

/// The process is stopped for everyone before a reply says so: a code is replied
/// only once the exit with that code was noted, and an exit is announced only
/// once it was noted.
pub proof fn law_exit_is_noted_before_reply(phase: ActorPhase, event: ActorEvent)
    requires
        actor_expects(phase, event),
    ensures
        actor_next(phase, event).1 matches ActorAction::Reply { code } ==> event
            == ActorEvent::Noted && phase == (ActorPhase::NotingEnd { code }),
        actor_next(phase, event).1 matches ActorAction::Announce { exit_code } ==> event
            == ActorEvent::Noted && phase == (ActorPhase::NotingExit { exit_code }),
        actor_next(phase, event).0 matches ActorPhase::NotingEnd { code } ==> actor_next(
            phase,
            event,
        ).1 == (ActorAction::Note { exit_code: Some(code) }),
        actor_next(phase, event).0 matches ActorPhase::NotingExit { exit_code } ==> actor_next(
            phase,
            event,
        ).1 == (ActorAction::Note { exit_code }),
{
}

/// The code that a child exited with is the code that is noted and replied: none
/// takes its place. A child that was ended without a code is noted, and replied,
/// with the code of forced termination.
pub proof fn law_exit_code_is_passed_on(phase: ActorPhase, code: i32)
    requires
        actor_expects(phase, ActorEvent::Ended(Some(code))),
    ensures
        ({
            let noting = actor_next(phase, ActorEvent::Ended(Some(code)));
            let replying = actor_next(noting.0, ActorEvent::Noted);
            &&& actor_expects(noting.0, ActorEvent::Noted)
            &&& noting.1 == (ActorAction::Note { exit_code: Some(code) })
            &&& replying == (ActorPhase::Closed, ActorAction::Reply { code })
        }),
        ({
            let noting = actor_next(phase, ActorEvent::Ended(None));
            let replying = actor_next(noting.0, ActorEvent::Noted);
            &&& actor_expects(noting.0, ActorEvent::Noted)
            &&& noting.1 == (ActorAction::Note { exit_code: Some(-1i32) })
            &&& replying == (ActorPhase::Closed, ActorAction::Reply { code: -1i32 })
        }),
{
}

/// An exit that came by itself is noted and announced as it is, with its code or
/// without one.
pub proof fn law_own_exit_is_passed_on(phase: ActorPhase, exit_code: Option<i32>)
    requires
        actor_expects(phase, ActorEvent::Exited(exit_code)),
    ensures
        ({
            let noting = actor_next(phase, ActorEvent::Exited(exit_code));
            let announcing = actor_next(noting.0, ActorEvent::Noted);
            &&& actor_expects(noting.0, ActorEvent::Noted)
            &&& noting.1 == (ActorAction::Note { exit_code })
            &&& announcing == (ActorPhase::Closed, ActorAction::Announce { exit_code })
        }),
{
}

/// A watched child that is told to stop is terminated, one that is told to die is
/// killed and given two seconds, and one that nobody can tell anything goes on.
/// Whether it ended is then waited for, and a survivor is watched again.
pub proof fn law_actor_does_what_it_is_told()
    ensures
        ({
            let next = actor_next(ActorPhase::Watching, ActorEvent::Told(ActorCommand::Stop));
            &&& next.1 == ActorAction::Terminate
            &&& forall|end: Option<i32>| #[trigger]
                actor_expects(next.0, ActorEvent::Ended(end))
            &&& actor_next(next.0, ActorEvent::Survived) == (
                ActorPhase::Watching,
                ActorAction::ReplySurvived,
            )
        }),
        ({
            let next = actor_next(ActorPhase::Watching, ActorEvent::Told(ActorCommand::Kill));
            &&& next.1 == (ActorAction::Kill { wait: 2_000_000_000 })
            &&& forall|end: Option<i32>| #[trigger]
                actor_expects(next.0, ActorEvent::Ended(end))
            &&& actor_next(next.0, ActorEvent::Survived) == (
                ActorPhase::Watching,
                ActorAction::ReplySurvived,
            )
        }),
        ({
            let next = actor_next(ActorPhase::Watching, ActorEvent::Abandoned);
            &&& next.1 == ActorAction::WaitAlone
            &&& forall|end: Option<i32>| #[trigger]
                actor_expects(next.0, ActorEvent::Exited(end))
        }),
{
}

/// What an actor replies is what its reply says, and only an actor that was gone
/// says nothing. One that gave no answer has seen its child exit.
pub proof fn law_reply_is_taken_at_its_word(reply: Reply)
    ensures
        answer(reply) is None <==> reply == Reply::Closed,
        reply matches Reply::Code(code) ==> answer(reply) == Some(code),
        reply == Reply::Dropped ==> answer(reply) == Some(Some(-1i32)),
{
}

/// A watched child may exit, and commands may come or cease. A child that is being
/// ended has ended or survived, one that nobody commands can only exit, and an exit
/// that is being noted can only have been noted.
pub proof fn law_actor_waits_for_what_can_come(
    event: ActorEvent,
    code: i32,
    exit_code: Option<i32>,
)
    ensures
        actor_expects(ActorPhase::Watching, event) <==> event is Exited || event is Told || event
            == ActorEvent::Abandoned,
        actor_expects(ActorPhase::Stopping, event) <==> event is Ended || event
            == ActorEvent::Survived,
        actor_expects(ActorPhase::Killing, event) <==> event is Ended || event
            == ActorEvent::Survived,
        actor_expects(ActorPhase::Alone, event) <==> event is Exited,
        actor_expects(ActorPhase::NotingExit { exit_code }, event) <==> event == ActorEvent::Noted,
        actor_expects(ActorPhase::NotingEnd { code }, event) <==> event == ActorEvent::Noted,
{
}

} // verus!
