//! The supervisor of one tunnel, as a state machine: it is asked what to do
//! next, is told nothing back, and counts the starts it has ordered.
//!
//! Whoever runs it starts the command it names, waits until that command
//! ends or fails to start, and asks again.

use crate::text::strings_view;
use crate::tunnel::{
    merge_path, merged_path, TunnelManager, TunnelManagerModel, MAX_START_ATTEMPTS,
};
use vstd::prelude::*;

verus! {

/// What a supervisor orders next.
#[derive(Debug)]
pub enum SupervisorStep {
    /// Start `command` with `args` and with `path` as its `PATH`, wait until
    /// it ends, then ask again.
    Start { command: String, args: Vec<String>, path: String },
    /// Supervision is over. `exhausted` says that every attempt was used.
    Finished { exhausted: bool },
}

/// A step as sequences of characters.
pub enum StepModel {
    Start { command: Seq<char>, args: Seq<Seq<char>>, path: Seq<char> },
    Finished { exhausted: bool },
}

impl View for SupervisorStep {
    type V = StepModel;

    open spec fn view(&self) -> StepModel {
        match self {
            SupervisorStep::Start { command, args, path } => StepModel::Start {
                command: command@,
                args: strings_view(args@),
                path: path@,
            },
            SupervisorStep::Finished { exhausted } => StepModel::Finished { exhausted: *exhausted },
        }
    }
}

/// What a supervisor is to its rules: the key of its tunnel and the number of
/// starts it has ordered.
pub struct SupervisorModel {
    pub key: Seq<char>,
    pub attempts: nat,
}

impl SupervisorModel {
    /// The supervisor has ordered no more starts than it may.
    pub open spec fn wf(self) -> bool {
        self.attempts <= MAX_START_ATTEMPTS
    }

    /// Whether the supervisor orders a start when it sees `manager`: its
    /// tunnel is active, an attempt is left, and the registry knows the
    /// tunnel.
    pub open spec fn may_start(self, manager: TunnelManagerModel) -> bool {
        &&& manager.active.contains(self.key)
        &&& self.attempts < MAX_START_ATTEMPTS
        &&& manager.commands.contains_key(self.key)
    }

    /// The step that the supervisor orders when it sees `manager`, and the
    /// supervisor after it.
    ///
    /// A start counts as an attempt whatever becomes of it. The command is
    /// the one that the registry holds at this moment, and the `PATH` is
    /// merged anew. Without a start the supervisor is done, and it is
    /// exhausted where it has used every attempt.
    pub open spec fn next_step(
        self,
        manager: TunnelManagerModel,
        configured_path: Seq<char>,
        inherited_path: Option<Seq<char>>,
    ) -> (SupervisorModel, StepModel) {
        if self.may_start(manager) {
            (
                SupervisorModel { attempts: self.attempts + 1, ..self },
                StepModel::Start {
                    command: manager.commands[self.key].command,
                    args: manager.commands[self.key].args,
                    path: merged_path(configured_path, inherited_path),
                },
            )
        } else {
            (self, StepModel::Finished { exhausted: self.attempts == MAX_START_ATTEMPTS })
        }
    }

    /// The number of starts that the supervisor orders over a run in which it
    /// sees the manager in the states `managers`, one after the other.
    pub open spec fn starts_in_run(
        self,
        managers: Seq<TunnelManagerModel>,
        configured_path: Seq<char>,
        inherited_path: Option<Seq<char>>,
    ) -> nat
        decreases managers.len(),
    {
        if managers.len() == 0 {
            0
        } else {
            let (next, step) = self.next_step(managers[0], configured_path, inherited_path);
            let started: nat = if step is Start {
                1
            } else {
                0
            };
            started + next.starts_in_run(managers.drop_first(), configured_path, inherited_path)
        }
    }
}

/// Keeps one tunnel alive: orders its command started again whenever it has
/// ended, while the tunnel is active and attempts are left.
pub struct TunnelSupervisor {
    key: String,
    attempts: u32,
}

impl View for TunnelSupervisor {
    type V = SupervisorModel;

    closed spec fn view(&self) -> SupervisorModel {
        SupervisorModel { key: self.key@, attempts: self.attempts as nat }
    }
}

impl TunnelSupervisor {
    #[verifier::type_invariant]
    spec fn inv(self) -> bool {
        self.attempts <= MAX_START_ATTEMPTS
    }

    /// A supervisor for the tunnel under `key` that has ordered no start yet.
    pub fn new(key: String) -> (supervisor: Self)
        ensures
            supervisor@ == (SupervisorModel { key: key@, attempts: 0 }),
            supervisor@.wf(),
    {
        TunnelSupervisor { key, attempts: 0 }
    }

    /// The key of the supervised tunnel.
    pub fn key(&self) -> (key: &str)
        ensures
            key@ == self@.key,
    {
        self.key.as_str()
    }

    /// The number of starts ordered so far.
    pub fn attempts(&self) -> (attempts: u32)
        ensures
            attempts == self@.attempts,
            self@.wf(),
    {
        proof {
            use_type_invariant(self);
        }
        self.attempts
    }

    /// What to do next, given the manager as it is now, the configured search
    /// path and the `PATH` that the process inherited, if any.
    pub fn next_step(
        &mut self,
        manager: &TunnelManager,
        configured_path: &str,
        inherited_path: Option<&str>,
    ) -> (step: SupervisorStep)
        ensures
            (final(self)@, step@) == old(self)@.next_step(
                manager@,
                configured_path@,
                match inherited_path {
                    Some(p) => Some(p@),
                    None => None,
                },
            ),
            final(self)@.wf(),
    {
        proof {
            use_type_invariant(&*self);
        }
        if !manager.is_active(self.key.as_str()) || self.attempts >= MAX_START_ATTEMPTS {
            return SupervisorStep::Finished { exhausted: self.attempts == MAX_START_ATTEMPTS };
        }
        match manager.start_command(self.key.as_str()) {
            Some(line) => {
                self.attempts = self.attempts + 1;
                SupervisorStep::Start {
                    command: line.program,
                    args: line.args,
                    path: merge_path(configured_path, inherited_path),
                }
            },
            None => SupervisorStep::Finished { exhausted: self.attempts == MAX_START_ATTEMPTS },
        }
    }
}

/// The retry bound: whatever the supervisor sees, it orders no more starts
/// than it may. A supervisor that has ordered `attempts` starts orders at
/// most as many more as are left, so a new one orders at most
/// `MAX_START_ATTEMPTS` in all.
pub proof fn lemma_retry_bound(
    supervisor: SupervisorModel,
    managers: Seq<TunnelManagerModel>,
    configured_path: Seq<char>,
    inherited_path: Option<Seq<char>>,
)
    requires
        supervisor.wf(),
    ensures
        supervisor.attempts + supervisor.starts_in_run(managers, configured_path, inherited_path)
            <= MAX_START_ATTEMPTS,
    decreases managers.len(),
{
    if managers.len() > 0 {
        let (next, step) = supervisor.next_step(managers[0], configured_path, inherited_path);
        lemma_retry_bound(next, managers.drop_first(), configured_path, inherited_path);
    }
}

/// An exhausted supervisor is done for good: with every attempt used it
/// orders no start again, whatever it sees, and says so. The manager is only
/// read, so the tunnel stays in the active set until it is turned off.
pub proof fn lemma_exhausted_stays_finished(
    supervisor: SupervisorModel,
    manager: TunnelManagerModel,
    configured_path: Seq<char>,
    inherited_path: Option<Seq<char>>,
)
    requires
        supervisor.attempts == MAX_START_ATTEMPTS,
    ensures
        supervisor.next_step(manager, configured_path, inherited_path) == (
            supervisor,
            StepModel::Finished { exhausted: true },
        ),
{
}

/// A supervisor whose tunnel is active, known and started every time is
/// exhausted after exactly `MAX_START_ATTEMPTS` starts.
pub proof fn lemma_runs_until_exhausted(
    supervisor: SupervisorModel,
    manager: TunnelManagerModel,
    configured_path: Seq<char>,
    inherited_path: Option<Seq<char>>,
)
    requires
        supervisor.wf(),
        manager.active.contains(supervisor.key),
        manager.commands.contains_key(supervisor.key),
    ensures
        supervisor.next_step(manager, configured_path, inherited_path).1 is Start
            <==> supervisor.attempts < MAX_START_ATTEMPTS,
        supervisor.next_step(manager, configured_path, inherited_path).1 is Finished
            ==> supervisor.next_step(manager, configured_path, inherited_path).1
            == (StepModel::Finished { exhausted: true }),
{
}

/// A supervisor stops as soon as its tunnel is turned off: where the key is
/// not active it orders no start.
pub proof fn lemma_inactive_tunnel_is_not_started(
    supervisor: SupervisorModel,
    manager: TunnelManagerModel,
    configured_path: Seq<char>,
    inherited_path: Option<Seq<char>>,
)
    requires
        !manager.active.contains(supervisor.key),
    ensures
        supervisor.next_step(manager, configured_path, inherited_path).1 is Finished,
        supervisor.next_step(manager, configured_path, inherited_path).0 == supervisor,
{
}

} // verus!
