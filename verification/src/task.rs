//! A scheduled task: what to run, when it last ran and when it is due next.

use crate::config::ScheduledTaskConfig;
use crate::cron::{
    cron_error_text, current_time, normalized_schedule, schedule_is_valid, CompiledSchedule,
};
use crate::error::SchedulerError;
use crate::instant::Instant;
use crate::platform::{CommandLine, CommandLineView, Dispatcher, ProcessSpawner, Request};
use crate::text::{clone_strings, strings_view};
use vstd::prelude::*;

verus! {

/// The part of a task that is persisted: when it last ran and when it is due
/// next.
#[derive(Clone, Copy, Debug, PartialEq, Eq)]
pub struct TaskState {
    pub last_run: Option<Instant>,
    pub next_run: Option<Instant>,
}

/// What a scheduled task is to the scheduler's rules: its texts as sequences
/// of characters, the text that its evaluator handle was compiled from, and
/// its two instants.
pub struct TaskModel {
    pub name: Seq<char>,
    pub command: Seq<char>,
    pub args: Seq<Seq<char>>,
    pub cron_schedule: Seq<char>,
    pub compiled_from: Seq<char>,
    pub last_run: Option<Instant>,
    pub next_run: Option<Instant>,
}

/// The `next_run` of a persisted state, if there is a state and it has one.
pub open spec fn persisted_next_run(state: Option<TaskState>) -> Option<Instant> {
    match state {
        Some(s) => s.next_run,
        None => None,
    }
}

/// The `last_run` of a persisted state, if there is a state and it has one.
pub open spec fn persisted_last_run(state: Option<TaskState>) -> Option<Instant> {
    match state {
        Some(s) => s.last_run,
        None => None,
    }
}

impl TaskModel {
    /// The task is due at `now`: it has a `next_run`, and `now` has reached it.
    pub open spec fn is_due(self, now: Instant) -> bool {
        self.next_run matches Some(next) && next.spec_le(now)
    }

    /// The task was missed at `now`: it is due, and it has not run since it
    /// became due (it never ran, or it last ran before its `next_run`).
    pub open spec fn is_missed(self, now: Instant) -> bool {
        &&& self.next_run matches Some(next)
        &&& next.spec_le(now)
        &&& (self.last_run matches Some(last) ==> last.spec_lt(next))
    }

    /// The task after a run at `now`, where `next` is what the cron evaluator
    /// gave for the time after `now`.
    pub open spec fn after_run(self, now: Instant, next: Option<Instant>) -> TaskModel {
        TaskModel { last_run: Some(now), next_run: next, ..self }
    }

    /// `self` is `prev` after a run at `now`: `last_run` is `now`, `next_run` is
    /// absent or lies strictly after `now`, and nothing else differs.
    pub open spec fn ran_at(self, prev: TaskModel, now: Instant) -> bool {
        &&& self == prev.after_run(now, self.next_run)
        &&& self.next_run_lies_after(now)
    }

    /// The task has no `next_run`, or one that lies strictly after `now`.
    pub open spec fn next_run_lies_after(self, now: Instant) -> bool {
        self.next_run matches Some(next) ==> now.spec_lt(next)
    }

    /// `self` is `prev` after a run at some time, which its `last_run` holds.
    pub open spec fn ran_since(self, prev: TaskModel) -> bool {
        self.last_run matches Some(now) && self.ran_at(prev, now)
    }

    /// `self` is the task that `config` and a persisted `state` give: the
    /// texts of the configuration, an evaluator handle compiled from its
    /// cron expression, the persisted `last_run`, and the persisted
    /// `next_run` where there is one.
    pub open spec fn created_from(self, config: ScheduledTaskConfig, state: Option<TaskState>) -> bool {
        &&& self.name == config.name@
        &&& self.command == config.command@
        &&& self.args == strings_view(config.args@)
        &&& self.cron_schedule == config.cron_schedule@
        &&& self.compiled_from == config.cron_schedule@
        &&& self.last_run == persisted_last_run(state)
        &&& (persisted_next_run(state) is Some ==> self.next_run == persisted_next_run(state))
    }

    /// The part of the task that is persisted.
    pub open spec fn state(self) -> TaskState {
        TaskState { last_run: self.last_run, next_run: self.next_run }
    }

    /// The command that runs the task.
    pub open spec fn command_line(self) -> CommandLineView {
        CommandLineView { program: self.command, args: self.args }
    }

    /// The request that a run of the task hands to the spawner.
    pub open spec fn spawn_request(self, path: Seq<char>) -> Request {
        Request::Spawn { line: self.command_line(), path }
    }

    /// What an attempt to run the task at `now` leaves of it: where the
    /// command started, the task after the run, with `next` as the time it
    /// is due again; where it did not, the task as it was.
    pub open spec fn after_attempt(
        self,
        now: Instant,
        started: bool,
        next: Option<Instant>,
    ) -> TaskModel {
        if started {
            self.after_run(now, next)
        } else {
            self
        }
    }
}

/// A scheduled task with its configuration and its runtime state.
#[derive(Debug)]
pub struct ScheduledTask {
    pub name: String,
    pub command: String,
    pub args: Vec<String>,
    pub cron_schedule: String,
    pub last_run: Option<Instant>,
    pub next_run: Option<Instant>,
    pub cron: CompiledSchedule,
}

impl View for ScheduledTask {
    type V = TaskModel;

    open spec fn view(&self) -> TaskModel {
        TaskModel {
            name: self.name@,
            command: self.command@,
            args: strings_view(self.args@),
            cron_schedule: self.cron_schedule@,
            compiled_from: self.cron@,
            last_run: self.last_run,
            next_run: self.next_run,
        }
    }
}

impl Clone for ScheduledTask {
    fn clone(&self) -> (copy: Self)
        ensures
            copy@ == self@,
    {
        ScheduledTask {
            name: self.name.clone(),
            command: self.command.clone(),
            args: clone_strings(&self.args),
            cron_schedule: self.cron_schedule.clone(),
            last_run: self.last_run,
            next_run: self.next_run,
            cron: self.cron.duplicate(),
        }
    }
}

impl ScheduledTask {
    /// Creates a task from its configuration and its persisted state, with
    /// the clock's time as the reference for a `next_run` that has to be
    /// computed.
    ///
    /// Fails exactly when the cron expression does not parse. A persisted
    /// `next_run` is taken as it is; without one, `next_run` is what the cron
    /// evaluator gives, of which nothing is known here.
    pub fn new(
        config: &ScheduledTaskConfig,
        state: Option<TaskState>,
    ) -> (res: Result<Self, SchedulerError>)
        ensures
            res is Ok <==> schedule_is_valid(config.cron_schedule@),
            res matches Ok(task) ==> task@.created_from(*config, state),
            res matches Err(e) ==> e.rejects_schedule(config.cron_schedule@),
    {
        let now = current_time();
        Self::new_at(config, state, &now)
    }

    /// Creates a task from its configuration and its persisted state, with
    /// `now` as the reference for a `next_run` that has to be computed.
    ///
    /// Fails exactly when the cron expression does not parse. A persisted
    /// `next_run` is taken as it is. Without one, `next_run` is computed from
    /// `now`: it is absent where the evaluation fails, and otherwise lies
    /// strictly after `now`.
    pub fn new_at(
        config: &ScheduledTaskConfig,
        state: Option<TaskState>,
        now: &Instant,
    ) -> (res: Result<Self, SchedulerError>)
        ensures
            res is Ok <==> schedule_is_valid(config.cron_schedule@),
            res matches Ok(task) ==> {
                &&& task@.created_from(*config, state)
                &&& persisted_next_run(state) is None ==> task@.next_run_lies_after(*now)
            },
            res matches Err(e) ==> e.rejects_schedule(config.cron_schedule@),
    {
        let cron = match CompiledSchedule::compile(config.cron_schedule.as_str()) {
            Ok(cron) => cron,
            Err(error) => {
                return Err(
                    SchedulerError::InvalidSchedule {
                        schedule: config.cron_schedule.clone(),
                        reason: cron_error_text(&error),
                    },
                );
            },
        };
        let (last_run, saved_next_run) = match state {
            Some(s) => (s.last_run, s.next_run),
            None => (None, None),
        };
        let next_run = match saved_next_run {
            Some(next) => Some(next),
            None => cron.next_after(now),
        };
        Ok(
            ScheduledTask {
                name: config.name.clone(),
                command: config.command.clone(),
                args: clone_strings(&config.args),
                cron_schedule: config.cron_schedule.clone(),
                last_run,
                next_run,
                cron,
            },
        )
    }

    /// The cron expression that the task's evaluator handle was compiled
    /// from, as the evaluator normalised it, for display.
    pub fn get_schedule_description(&self) -> (text: String)
        ensures
            text@ == normalized_schedule(self@.compiled_from),
    {
        self.cron.pattern_text()
    }

    /// Whether the task is due at `now`.
    pub fn should_run(&self, now: &Instant) -> (due: bool)
        ensures
            due == self@.is_due(*now),
    {
        match &self.next_run {
            Some(next) => now.is_at_or_after(next),
            None => false,
        }
    }

    /// Whether the task was missed at `now`: due, and not run since it became
    /// due.
    pub fn is_missed(&self, now: &Instant) -> (missed: bool)
        ensures
            missed == self@.is_missed(*now),
    {
        match &self.next_run {
            Some(next) => {
                let is_overdue = now.is_at_or_after(next);
                let was_not_run_yet = match &self.last_run {
                    Some(last) => last.is_before(next),
                    None => true,
                };
                is_overdue && was_not_run_yet
            },
            None => false,
        }
    }

    /// The part of the task that is persisted.
    pub fn state(&self) -> (state: TaskState)
        ensures
            state == self@.state(),
    {
        TaskState { last_run: self.last_run, next_run: self.next_run }
    }

    /// The command that a run of the task hands to the spawner.
    pub fn command_line(&self) -> (line: CommandLine)
        ensures
            line@ == self@.command_line(),
    {
        CommandLine { program: self.command.clone(), args: clone_strings(&self.args) }
    }

    /// Takes note of how an attempt to run the task at `now` went.
    ///
    /// Where the command started, the run is recorded at `now`, with `next`
    /// as the time the task is due again. Where it did not, the task is left
    /// as it was, so it stays due, and the error names the task and gives the
    /// spawner's reason.
    pub fn conclude_attempt(
        &mut self,
        now: Instant,
        spawned: Result<(), String>,
        next: Option<Instant>,
    ) -> (res: Result<(), SchedulerError>)
        ensures
            final(self)@ == old(self)@.after_attempt(now, spawned is Ok, next),
            res is Ok == spawned is Ok,
            res matches Err(e) ==> e.reports_failed_start(old(self)@.name, spawned->Err_0@),
    {
        match spawned {
            Ok(_) => {
                self.record_run(now, next);
                Ok(())
            },
            Err(reason) => Err(SchedulerError::SpawnFailed { task: self.name.clone(), reason }),
        }
    }

    /// Records a run at `now`, with `next` as the time the task is due again.
    pub fn record_run(&mut self, now: Instant, next: Option<Instant>)
        ensures
            final(self)@ == old(self)@.after_run(now, next),
    {
        self.last_run = Some(now);
        self.next_run = next;
    }

    /// Records a run at the clock's time and computes when the task is due
    /// again. Where the evaluation fails, `next_run` becomes absent.
    pub fn update_next_run(&mut self)
        ensures
            final(self)@.ran_since(old(self)@),
    {
        let now = current_time();
        self.update_next_run_at(&now);
    }

    /// Records a run at `now` and computes when the task is due again. Where
    /// the evaluation fails, `next_run` becomes absent.
    pub fn update_next_run_at(&mut self, now: &Instant)
        ensures
            final(self)@.ran_at(old(self)@, *now),
    {
        let next = self.cron.next_after(now);
        self.record_run(*now, next);
    }

    /// Runs the task at the clock's time: see `execute_at`.
    pub fn execute<S: ProcessSpawner>(
        &mut self,
        path: &str,
        dispatcher: &mut Dispatcher<S>,
    ) -> (res: Result<(), SchedulerError>)
        ensures
            final(dispatcher).platform() == old(dispatcher).platform(),
            final(dispatcher).handed_over() == old(dispatcher).handed_over().push(
                old(self)@.spawn_request(path@),
            ),
            res is Ok ==> final(self)@.ran_since(old(self)@),
            res matches Err(e) ==> final(self)@ == old(self)@ && e.names_failed_task(old(self)@.name),
    {
        let now = current_time();
        self.execute_at(path, &now, dispatcher)
    }

    /// Runs the task at `now`: hands the command, its arguments and `path` to
    /// the spawner, once, without waiting for the command to end.
    ///
    /// Where the command started, the run is recorded at `now` and `next_run`
    /// is computed anew. Where it did not, the task is left as it was, so it
    /// stays due, and the error names the task.
    pub fn execute_at<S: ProcessSpawner>(
        &mut self,
        path: &str,
        now: &Instant,
        dispatcher: &mut Dispatcher<S>,
    ) -> (res: Result<(), SchedulerError>)
        ensures
            final(dispatcher).platform() == old(dispatcher).platform(),
            final(dispatcher).handed_over() == old(dispatcher).handed_over().push(
                old(self)@.spawn_request(path@),
            ),
            res is Ok ==> final(self)@.ran_at(old(self)@, *now),
            res matches Err(e) ==> final(self)@ == old(self)@ && e.names_failed_task(old(self)@.name),
    {
        let line = self.command_line();
        let spawned = dispatcher.spawn(line.program.as_str(), line.args.as_slice(), path);
        let next = if spawned.is_ok() {
            self.cron.next_after(now)
        } else {
            None
        };
        self.conclude_attempt(*now, spawned, next)
    }
}

/// A run is not repeated: a task that ran at `now` is neither due nor missed
/// at `now` or at any time before it, so a second look at the same time finds
/// nothing to run.
pub proof fn lemma_run_is_not_repeated(prev: TaskModel, task: TaskModel, now: Instant, at: Instant)
    requires
        task.ran_at(prev, now),
        at.spec_le(now),
    ensures
        !task.is_due(at),
        !task.is_missed(at),
{
}

/// A task that is due stays due: as long as it is left as it was, which is
/// what happens while its command does not start, every later time finds it
/// due again. The same holds of a task that was missed.
pub proof fn lemma_unchanged_task_stays_due(task: TaskModel, now: Instant, later: Instant)
    requires
        now.spec_le(later),
    ensures
        task.is_due(now) ==> task.is_due(later),
        task.is_missed(now) ==> task.is_missed(later),
{
}

/// A task without a `next_run` is dormant: it is never due and never missed.
/// That is the state of a task whose cron evaluation failed after a run.
pub proof fn lemma_dormant_without_next_run(prev: TaskModel, now: Instant, at: Instant)
    ensures
        !prev.after_run(now, None).is_due(at),
        !prev.after_run(now, None).is_missed(at),
        prev.next_run is None ==> !prev.is_due(at) && !prev.is_missed(at),
{
}

/// A task created from the state that was saved of another has that task's
/// `last_run`, and its `next_run` too where that one is set.
pub proof fn lemma_restored_task_keeps_state(
    saved: TaskModel,
    restored: TaskModel,
    config: ScheduledTaskConfig,
)
    requires
        restored.created_from(config, Some(saved.state())),
    ensures
        restored.last_run == saved.last_run,
        saved.next_run is Some ==> restored.next_run == saved.next_run,
{
}

} // verus!
