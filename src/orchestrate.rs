//! The order of the launch: bind the control listener, start the launcher only
//! once the listener is bound, wait for every endpoint, write the artifact,
//! then hand over to the front end. Each step is a decision from the current
//! phase and what the last action gave back to the next action; performing the
//! actions is left to the caller.
use vstd::prelude::*;
use crate::launch::Frontend;

verus! {

/// Where the launch stands.
#[derive(Clone, Copy, Debug, PartialEq, Eq, Structural)]
pub enum Phase {
    /// Nothing done yet.
    Idle,
    /// Waiting for the control listener to be bound.
    Binding,
    /// Waiting for the launcher to be started.
    Spawning,
    /// Waiting for every rank's endpoint.
    Collecting,
    /// Waiting for the artifact to be written.
    Writing,
    /// Finished; for the debugger front end, control has passed to it.
    Done,
    /// Stopped on an error.
    Failed,
}

/// What the last action gave back.
#[derive(Clone, Copy, Debug, PartialEq, Eq, Structural)]
pub enum Event {
    /// The launch is asked to begin.
    Begin,
    /// The control listener is bound and listening.
    ListenerBound,
    /// The control listener could not be bound.
    ListenerFailed,
    /// The launcher process started.
    LauncherSpawned,
    /// The launcher process could not be started.
    LaunchFailed,
    /// Every expected endpoint has arrived.
    EndpointsCollected,
    /// Receiving the endpoints failed.
    CollectFailed,
    /// The artifact is written.
    ArtifactWritten,
    /// Writing the artifact failed.
    ArtifactFailed,
}

/// What to do next.
#[derive(Clone, Copy, Debug, PartialEq, Eq, Structural)]
pub enum Action {
    /// Bind the control listener and signal when it listens.
    BindListener,
    /// Start the launcher with the launcher command line.
    SpawnLauncher,
    /// Wait until every endpoint has arrived.
    AwaitEndpoints,
    /// Write the debugger script.
    WriteScript,
    /// Write the IDE descriptor.
    WriteDescriptor,
    /// Replace this process with the interactive debugger.
    ExecDebugger,
    /// Report where the descriptor was written, and stop.
    ReportDescriptor,
    /// Stop: nothing further to do.
    Finish,
    /// Stop on an error.
    Abort,
}

/// The next phase and action after `event` in `phase`.
pub open spec fn transition(phase: Phase, dry_run: bool, frontend: Frontend, event: Event) -> (
    Phase,
    Action,
) {
    match (phase, event) {
        (Phase::Idle, Event::Begin) => if dry_run {
            (Phase::Done, Action::Finish)
        } else {
            (Phase::Binding, Action::BindListener)
        },
        (Phase::Binding, Event::ListenerBound) => (Phase::Spawning, Action::SpawnLauncher),
        (Phase::Spawning, Event::LauncherSpawned) => (Phase::Collecting, Action::AwaitEndpoints),
        (Phase::Collecting, Event::EndpointsCollected) => match frontend {
            Frontend::Gdb => (Phase::Writing, Action::WriteScript),
            Frontend::VsCode => (Phase::Writing, Action::WriteDescriptor),
        },
        (Phase::Writing, Event::ArtifactWritten) => match frontend {
            Frontend::Gdb => (Phase::Done, Action::ExecDebugger),
            Frontend::VsCode => (Phase::Done, Action::ReportDescriptor),
        },
        (Phase::Done, _) => (Phase::Done, Action::Finish),
        _ => (Phase::Failed, Action::Abort),
    }
}

/// The actions taken, one per event, starting in `phase`.
pub open spec fn actions(phase: Phase, dry_run: bool, frontend: Frontend, events: Seq<Event>) -> Seq<
    Action,
>
    decreases events.len(),
{
    if events.len() == 0 {
        seq![]
    } else {
        let (next, action) = transition(phase, dry_run, frontend, events[0]);
        seq![action] + actions(next, dry_run, frontend, events.drop_first())
    }
}

/// Drives one launch.
#[derive(Clone, Copy, Debug)]
pub struct Orchestrator {
    pub phase: Phase,
    pub dry_run: bool,
    pub frontend: Frontend,
}

impl Orchestrator {
    /// A launch that has not begun.
    pub fn new(dry_run: bool, frontend: Frontend) -> (r: Self)
        ensures
            r.phase == Phase::Idle,
            r.dry_run == dry_run,
            r.frontend == frontend,
    {
        Orchestrator { phase: Phase::Idle, dry_run, frontend }
    }

    /// Takes what the last action gave back and returns the next action.
    pub fn step(&mut self, event: Event) -> (r: Action)
        ensures
            (final(self).phase, r) == transition(
                old(self).phase,
                old(self).dry_run,
                old(self).frontend,
                event,
            ),
            final(self).dry_run == old(self).dry_run,
            final(self).frontend == old(self).frontend,
    {
        let (next, action) = match (self.phase, event) {
            (Phase::Idle, Event::Begin) => if self.dry_run {
                (Phase::Done, Action::Finish)
            } else {
                (Phase::Binding, Action::BindListener)
            },
            (Phase::Binding, Event::ListenerBound) => (Phase::Spawning, Action::SpawnLauncher),
            (Phase::Spawning, Event::LauncherSpawned) => (Phase::Collecting, Action::AwaitEndpoints),
            (Phase::Collecting, Event::EndpointsCollected) => match self.frontend {
                Frontend::Gdb => (Phase::Writing, Action::WriteScript),
                Frontend::VsCode => (Phase::Writing, Action::WriteDescriptor),
            },
            (Phase::Writing, Event::ArtifactWritten) => match self.frontend {
                Frontend::Gdb => (Phase::Done, Action::ExecDebugger),
                Frontend::VsCode => (Phase::Done, Action::ReportDescriptor),
            },
            (Phase::Done, _) => (Phase::Done, Action::Finish),
            _ => (Phase::Failed, Action::Abort),
        };
        self.phase = next;
        action
    }
}

/// Whatever the events, the launcher is started only in answer to the listener
/// being bound: if the listener is never bound, the launcher is never started.
pub proof fn lemma_spawn_needs_bound_listener(
    phase: Phase,
    dry_run: bool,
    frontend: Frontend,
    events: Seq<Event>,
)
    ensures
        actions(phase, dry_run, frontend, events).len() == events.len(),
        forall|k: int|
            0 <= k < events.len() && actions(phase, dry_run, frontend, events)[k]
                == Action::SpawnLauncher ==> events[k] == Event::ListenerBound,
        (forall|k: int| 0 <= k < events.len() ==> events[k] != Event::ListenerBound) ==> forall|
            k: int,
        |
            0 <= k < events.len() ==> actions(phase, dry_run, frontend, events)[k]
                != Action::SpawnLauncher,
    decreases events.len(),
{
    if events.len() > 0 {
        let (next, action) = transition(phase, dry_run, frontend, events[0]);
        lemma_spawn_needs_bound_listener(next, dry_run, frontend, events.drop_first());
        let rest = actions(next, dry_run, frontend, events.drop_first());
        assert forall|k: int|
            0 <= k < events.len() && actions(phase, dry_run, frontend, events)[k]
                == Action::SpawnLauncher implies events[k] == Event::ListenerBound by {
            if k > 0 {
                assert(actions(phase, dry_run, frontend, events)[k] == rest[k - 1]);
                assert(events.drop_first()[k - 1] == events[k]);
            }
        }
    }
}

/// A dry run that begins from scratch never binds a listener nor starts the
/// launcher, whatever events follow.
pub proof fn lemma_dry_run_is_inert(frontend: Frontend, events: Seq<Event>)
    ensures
        forall|k: int|
            0 <= k < actions(Phase::Idle, true, frontend, events).len() ==> {
                let a = #[trigger] actions(Phase::Idle, true, frontend, events)[k];
                a != Action::BindListener && a != Action::SpawnLauncher
            },
{
    lemma_dry_run_inert_from(Phase::Idle, frontend, events);
}

proof fn lemma_dry_run_inert_from(phase: Phase, frontend: Frontend, events: Seq<Event>)
    requires
        phase == Phase::Idle || phase == Phase::Done || phase == Phase::Failed,
    ensures
        forall|k: int|
            0 <= k < actions(phase, true, frontend, events).len() ==> {
                let a = #[trigger] actions(phase, true, frontend, events)[k];
                a != Action::BindListener && a != Action::SpawnLauncher
            },
    decreases events.len(),
{
    if events.len() > 0 {
        let (next, action) = transition(phase, true, frontend, events[0]);
        lemma_dry_run_inert_from(next, frontend, events.drop_first());
        let all = actions(phase, true, frontend, events);
        let rest = actions(next, true, frontend, events.drop_first());
        assert(all == seq![action] + rest);
        assert forall|k: int| 0 <= k < all.len() implies #[trigger] all[k] != Action::BindListener
            && all[k] != Action::SpawnLauncher by {
            if k > 0 {
                assert(all[k] == rest[k - 1]);
            }
        }
    }
}

} // verus!
