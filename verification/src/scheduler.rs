//! The task scheduler: every scheduled task under its key, the persisted
//! snapshot of their states, and the rules that decide what runs when.

use crate::config::ScheduledTaskConfig;
use crate::cron::{current_time, schedule_is_valid};
use crate::error::SchedulerError;
use crate::instant::Instant;
use crate::keyed::{keyed, lemma_keyed_at, lemma_keyed_place, well_keyed, KeyedList};
use crate::platform::{AppPaths, Dispatcher, ProcessSpawner, Request};
use crate::task::{persisted_next_run, ScheduledTask, TaskModel, TaskState};
use crate::text::strings_view;
use vstd::prelude::*;

verus! {

/// The seconds between two polls of the schedule.
pub const POLL_INTERVAL_SECS: u64 = 30;

/// What a scheduler is to its rules.
///
/// The tasks and the persisted states are each two lists of one length, the
/// keys in the order in which they first came and what stands under them.
/// The state file is the path that the platform gave when the scheduler was
/// made; no rule reads it, and none changes it.
#[verifier::ext_equal]
pub struct SchedulerModel {
    pub task_keys: Seq<Seq<char>>,
    pub task_models: Seq<TaskModel>,
    pub state_keys: Seq<Seq<char>>,
    pub state_values: Seq<TaskState>,
    pub path: Seq<char>,
    pub running: bool,
    pub state_file: std::path::PathBuf,
}

/// The states of all the tasks of a map: what a save persists.
pub open spec fn snapshot_of(tasks: Map<Seq<char>, TaskModel>) -> Map<Seq<char>, TaskState> {
    tasks.map_values(|t: TaskModel| t.state())
}

/// The map that a list of persisted entries stands for: where a key comes
/// twice, the later entry counts.
pub open spec fn persisted_map(entries: Seq<(String, TaskState)>) -> Map<Seq<char>, TaskState>
    decreases entries.len(),
{
    if entries.len() == 0 {
        Map::empty()
    } else {
        persisted_map(entries.drop_last()).insert(entries.last().0@, entries.last().1)
    }
}

/// What the scheduler may do with one task at `now`: where the task is
/// `selected`, it is left as it was (its command did not start) or it ran
/// at `now`; where it is not, it is left as it was.
pub open spec fn attempted(before: TaskModel, after: TaskModel, now: Instant, selected: bool) -> bool {
    after == before || (selected && after.ran_at(before, now))
}

/// Whether a sweep at `now` selects `task`: a sweep for missed runs takes
/// the tasks that were missed, a poll takes the tasks that are due.
pub open spec fn selects(task: TaskModel, now: Instant, missed_only: bool) -> bool {
    if missed_only {
        task.is_missed(now)
    } else {
        task.is_due(now)
    }
}

/// The requests that a sweep at `now` hands to the spawner: one for each task
/// that it selects, in the order of the tasks, each with `path` as its
/// `PATH`.
pub open spec fn sweep_requests(
    tasks: Seq<TaskModel>,
    now: Instant,
    missed_only: bool,
    path: Seq<char>,
) -> Seq<Request>
    decreases tasks.len(),
{
    if tasks.len() == 0 {
        Seq::empty()
    } else {
        let earlier = sweep_requests(tasks.drop_last(), now, missed_only, path);
        if selects(tasks.last(), now, missed_only) {
            earlier.push(tasks.last().spawn_request(path))
        } else {
            earlier
        }
    }
}

impl SchedulerModel {
    /// The tasks by key.
    pub open spec fn tasks(self) -> Map<Seq<char>, TaskModel> {
        keyed(self.task_keys, self.task_models)
    }

    /// The persisted states by key.
    pub open spec fn states(self) -> Map<Seq<char>, TaskState> {
        keyed(self.state_keys, self.state_values)
    }

    /// No key comes twice, among the tasks or among the states.
    pub open spec fn wf(self) -> bool {
        well_keyed(self.task_keys, self.task_models) && well_keyed(
            self.state_keys,
            self.state_values,
        )
    }

    /// The persisted state under `key`, if there is one.
    pub open spec fn state_of(self, key: Seq<char>) -> Option<TaskState> {
        if self.states().contains_key(key) {
            Some(self.states()[key])
        } else {
            None
        }
    }

    /// The model after a save: the persisted states are the states of the
    /// tasks, under the tasks' keys.
    pub open spec fn saved(self) -> SchedulerModel {
        SchedulerModel {
            state_keys: self.task_keys,
            state_values: self.task_models.map_values(|t: TaskModel| t.state()),
            ..self
        }
    }

    /// `self` is `before` with the task that `config` gives put under `key`:
    /// in the place of the task that `key` had, or as the last one. The
    /// task has the texts of `config` and what the persisted state under
    /// `key` holds for it; the other tasks, the persisted states, the path
    /// and the running flag are as they were.
    pub open spec fn with_task_added(
        self,
        before: SchedulerModel,
        key: Seq<char>,
        config: ScheduledTaskConfig,
    ) -> bool {
        &&& self.tasks().dom() == before.tasks().dom().insert(key)
        &&& self.tasks()[key].created_from(config, before.state_of(key))
        &&& forall|k: Seq<char>|
            k != key && before.tasks().contains_key(k) ==> #[trigger] self.tasks()[k]
                == before.tasks()[k]
        &&& self.task_keys == if before.tasks().contains_key(key) {
            before.task_keys
        } else {
            before.task_keys.push(key)
        }
        &&& self.state_keys == before.state_keys
        &&& self.state_values == before.state_values
        &&& self.path == before.path
        &&& self.running == before.running
        &&& self.state_file == before.state_file
    }

    /// `self` is `before` after the task under `key` changed and the states
    /// of all the tasks were saved: no other task differs, nor the order of
    /// the keys, the path or the running flag.
    pub open spec fn with_task_changed(self, before: SchedulerModel, key: Seq<char>) -> bool {
        &&& before.tasks().contains_key(key)
        &&& self.task_keys == before.task_keys
        &&& self.tasks() == before.tasks().insert(key, self.tasks()[key])
        &&& self.states() == snapshot_of(self.tasks())
        &&& self.state_keys == self.task_keys
        &&& self.path == before.path
        &&& self.running == before.running
        &&& self.state_file == before.state_file
    }

    /// The requests that a manual run of the task under `key` hands to the
    /// spawner: the one of that task, or none where there is no such task.
    pub open spec fn manual_run_requests(self, key: Seq<char>) -> Seq<Request> {
        if self.tasks().contains_key(key) {
            seq![self.tasks()[key].spawn_request(self.path)]
        } else {
            Seq::empty()
        }
    }

    /// `self` is what a sweep at `now` leaves of `before`, and the requests
    /// that the spawner was handed grew from `handed_before` to
    /// `handed_after` by those of the sweep.
    pub open spec fn sweep_outcome(
        self,
        before: SchedulerModel,
        now: Instant,
        missed_only: bool,
        handed_before: Seq<Request>,
        handed_after: Seq<Request>,
    ) -> bool {
        &&& self.swept_and_saved_from(before, now, missed_only)
        &&& handed_after == handed_before + sweep_requests(
            before.task_models,
            now,
            missed_only,
            before.path,
        )
    }

    /// `self` is `before` after a sweep at `now`, but for the persisted
    /// states: the same keys in the same order, and each task attempted or
    /// left alone as `attempted` says.
    pub open spec fn swept_from(self, before: SchedulerModel, now: Instant, missed_only: bool) -> bool {
        &&& self.task_keys == before.task_keys
        &&& self.path == before.path
        &&& self.running == before.running
        &&& self.state_file == before.state_file
        &&& self.tasks().dom() == before.tasks().dom()
        &&& forall|k: Seq<char>| #[trigger]
            before.tasks().contains_key(k) ==> attempted(
                before.tasks()[k],
                self.tasks()[k],
                now,
                selects(before.tasks()[k], now, missed_only),
            )
    }

    /// `self` is what a sweep at `now` leaves of `before`, the persisted
    /// states included: they are saved anew where a task ran, and left as
    /// they were where none did.
    pub open spec fn swept_and_saved_from(
        self,
        before: SchedulerModel,
        now: Instant,
        missed_only: bool,
    ) -> bool {
        &&& self.swept_from(before, now, missed_only)
        &&& if self.tasks() == before.tasks() {
            self.state_keys == before.state_keys && self.state_values == before.state_values
        } else {
            self.state_keys == self.task_keys && self.state_values == self.task_models.map_values(
                |t: TaskModel| t.state(),
            )
        }
    }
}

/// Owns the scheduled tasks and decides which of them run.
pub struct TaskScheduler {
    tasks: KeyedList<ScheduledTask>,
    path: String,
    running: bool,
    states: KeyedList<TaskState>,
    state_file: std::path::PathBuf,
}

impl View for TaskScheduler {
    type V = SchedulerModel;

    closed spec fn view(&self) -> SchedulerModel {
        SchedulerModel {
            task_keys: self.tasks.key_views(),
            task_models: self.tasks.values@.map_values(|t: ScheduledTask| t@),
            state_keys: self.states.key_views(),
            state_values: self.states.values@,
            path: self.path@,
            running: self.running,
            state_file: self.state_file,
        }
    }
}

impl TaskScheduler {
    #[verifier::type_invariant]
    spec fn inv(self) -> bool {
        self.tasks.wf() && self.states.wf()
    }

    /// Creates a scheduler without tasks, not running, that starts commands
    /// with `path` as their `PATH` and holds `persisted` as the states that
    /// were saved before.
    pub fn new<P: AppPaths>(
        path: String,
        paths: &P,
        persisted: Vec<(String, TaskState)>,
    ) -> (scheduler: Self)
        ensures
            scheduler@.wf(),
            scheduler@.task_keys.len() == 0,
            scheduler@.states() == persisted_map(persisted@),
            scheduler@.path == path@,
            !scheduler@.running,
    {
        let state_file = paths.state_path();
        let mut states: KeyedList<TaskState> = KeyedList::new();
        let mut i: usize = 0;
        assert(persisted@.take(0) =~= Seq::empty());
        assert(states.map() =~= persisted_map(persisted@.take(0)));
        while i < persisted.len()
            invariant
                i <= persisted.len(),
                states.wf(),
                states.map() == persisted_map(persisted@.take(i as int)),
            decreases persisted.len() - i,
        {
            proof {
                let prefix = persisted@.take(i as int + 1);
                assert(prefix.drop_last() =~= persisted@.take(i as int));
                assert(prefix.last() == persisted@[i as int]);
            }
            states.insert(persisted[i].0.clone(), persisted[i].1);
            i += 1;
        }
        assert(persisted@.take(persisted.len() as int) =~= persisted@);
        TaskScheduler { tasks: KeyedList::new(), path, running: false, states, state_file }
    }

    /// Where the platform keeps the persisted states.
    pub fn state_file(&self) -> (file: &std::path::PathBuf)
        ensures
            *file == self@.state_file,
    {
        &self.state_file
    }

    /// The `PATH` that scheduled commands get.
    pub fn path(&self) -> (path: &str)
        ensures
            path@ == self@.path,
    {
        self.path.as_str()
    }

    /// Whether the polling loop is meant to run.
    pub fn is_running(&self) -> (running: bool)
        ensures
            running == self@.running,
    {
        self.running
    }

    /// The number of tasks.
    pub fn task_count(&self) -> (count: usize)
        ensures
            count == self@.task_keys.len(),
            self@.wf(),
    {
        proof {
            use_type_invariant(self);
        }
        self.tasks.keys.len()
    }

    /// The persisted state under `key`, if there is one.
    pub fn persisted_state(&self, key: &str) -> (state: Option<TaskState>)
        ensures
            state == self@.state_of(key@),
    {
        proof {
            use_type_invariant(self);
        }
        match self.states.find(key) {
            Some(i) => Some(self.states.values[i]),
            None => None,
        }
    }

    /// Adds a task under `key`, with the clock's time as the reference for a
    /// `next_run` that has to be computed: see `add_task_at`.
    pub fn add_task(
        &mut self,
        key: String,
        config: &ScheduledTaskConfig,
    ) -> (res: Result<(), SchedulerError>)
        ensures
            final(self)@.wf(),
            res is Ok <==> schedule_is_valid(config.cron_schedule@),
            res matches Err(e) ==> e.rejects_schedule(config.cron_schedule@),
            res is Err ==> final(self)@ == old(self)@,
            res is Ok ==> final(self)@.with_task_added(old(self)@, key@, *config),
    {
        let now = current_time();
        self.add_task_at(key, config, &now)
    }

    /// Adds a task under `key`, in the place of the task that `key` had or
    /// as the last one, with `now` as the reference for a `next_run` that has
    /// to be computed.
    ///
    /// Fails exactly when the cron expression does not parse, and then
    /// changes nothing. The task takes its `last_run` from the persisted
    /// state under `key`, and its `next_run` too where that state has one.
    /// Without one, `next_run` is computed from `now`: it is absent where the
    /// evaluation fails, and otherwise lies strictly after `now`.
    pub fn add_task_at(
        &mut self,
        key: String,
        config: &ScheduledTaskConfig,
        now: &Instant,
    ) -> (res: Result<(), SchedulerError>)
        ensures
            final(self)@.wf(),
            res is Ok <==> schedule_is_valid(config.cron_schedule@),
            res matches Err(e) ==> e.rejects_schedule(config.cron_schedule@),
            res is Err ==> final(self)@ == old(self)@,
            res is Ok ==> final(self)@.with_task_added(old(self)@, key@, *config),
            res is Ok && persisted_next_run(old(self)@.state_of(key@)) is None
                ==> final(self)@.tasks()[key@].next_run_lies_after(*now),
    {
        proof {
            use_type_invariant(&*self);
        }
        let state = self.persisted_state(key.as_str());
        match ScheduledTask::new_at(config, state, now) {
            Ok(task) => {
                let ghost before = self.tasks;
                let mut tasks: KeyedList<ScheduledTask> = KeyedList::new();
                std::mem::swap(&mut self.tasks, &mut tasks);
                tasks.insert(key, task);
                std::mem::swap(&mut self.tasks, &mut tasks);
                proof {
                    lemma_models_after_insert(before, self.tasks, key@, task);
                }
                Ok(())
            },
            Err(error) => Err(error),
        }
    }

    /// Persists the states of all the tasks: the persisted snapshot becomes
    /// the state of every task, under the tasks' keys.
    pub fn save_states(&mut self)
        ensures
            final(self)@ == old(self)@.saved(),
            final(self)@.wf(),
            final(self)@.states() == snapshot_of(final(self)@.tasks()),
    {
        proof {
            use_type_invariant(&*self);
        }
        let mut keys: Vec<String> = Vec::new();
        let mut values: Vec<TaskState> = Vec::new();
        let mut i: usize = 0;
        while i < self.tasks.keys.len()
            invariant
                self.tasks.wf(),
                i <= self.tasks.keys.len(),
                keys.len() == i,
                values.len() == i,
                forall|k: int| 0 <= k < i ==> keys[k]@ == self.tasks.keys[k]@,
                forall|k: int| 0 <= k < i ==> values[k] == self.tasks.values[k]@.state(),
            decreases self.tasks.keys.len() - i,
        {
            keys.push(self.tasks.keys[i].clone());
            values.push(self.tasks.values[i].state());
            i += 1;
        }
        proof {
            assert(strings_view(keys@) =~= self.tasks.key_views());
            assert(values@ =~= self@.task_models.map_values(|t: TaskModel| t.state()));
            lemma_snapshot(self@.task_keys, self@.task_models);
        }
        self.states = KeyedList { keys, values };
    }

    /// The persisted snapshot, entry by entry in the order of its keys, for
    /// whoever writes it to the state file.
    pub fn persisted_states(&self) -> (entries: Vec<(String, TaskState)>)
        ensures
            entries.len() == self@.state_keys.len(),
            forall|i: int|
                0 <= i < entries.len() ==> (#[trigger] entries[i]).0@ == self@.state_keys[i]
                    && entries[i].1 == self@.state_values[i],
    {
        let mut entries: Vec<(String, TaskState)> = Vec::new();
        proof {
            use_type_invariant(self);
        }
        let mut i: usize = 0;
        while i < self.states.keys.len()
            invariant
                self.states.wf(),
                i <= self.states.keys.len(),
                entries.len() == i,
                forall|k: int|
                    0 <= k < i ==> (#[trigger] entries[k]).0@ == self.states.keys[k]@
                        && entries[k].1 == self.states.values[k],
            decreases self.states.keys.len() - i,
        {
            entries.push((self.states.keys[i].clone(), self.states.values[i]));
            i += 1;
        }
        entries
    }

    /// A copy of the task under `key`, if there is one.
    pub fn get_task(&self, key: &str) -> (task: Option<ScheduledTask>)
        ensures
            match task {
                Some(t) => self@.tasks().contains_key(key@) && t@ == self@.tasks()[key@],
                None => !self@.tasks().contains_key(key@),
            },
    {
        proof {
            use_type_invariant(self);
        }
        match self.tasks.find(key) {
            Some(i) => {
                proof {
                    lemma_keyed_at(self@.task_keys, self@.task_models, i as int);
                }
                Some(self.tasks.values[i].clone())
            },
            None => None,
        }
    }

    /// Copies of all the tasks with their keys, in the order in which the
    /// keys were added.
    pub fn get_all_tasks(&self) -> (all: Vec<(String, ScheduledTask)>)
        ensures
            all.len() == self@.task_keys.len(),
            forall|i: int|
                0 <= i < all.len() ==> (#[trigger] all[i]).0@ == self@.task_keys[i] && all[i].1@
                    == self@.task_models[i],
    {
        let mut all: Vec<(String, ScheduledTask)> = Vec::new();
        proof {
            use_type_invariant(self);
        }
        let mut i: usize = 0;
        while i < self.tasks.keys.len()
            invariant
                self.tasks.wf(),
                i <= self.tasks.keys.len(),
                all.len() == i,
                forall|k: int|
                    0 <= k < i ==> (#[trigger] all[k]).0@ == self.tasks.keys[k]@ && all[k].1@
                        == self.tasks.values[k]@,
            decreases self.tasks.keys.len() - i,
        {
            all.push((self.tasks.keys[i].clone(), self.tasks.values[i].clone()));
            i += 1;
        }
        all
    }

    /// Marks the scheduler as running. Returns whether it was stopped
    /// before, that is whether a polling loop has to be launched now: a
    /// second start launches none.
    pub fn start(&mut self) -> (launch: bool)
        ensures
            launch == !old(self)@.running,
            final(self)@ == (SchedulerModel { running: true, ..old(self)@ }),
    {
        proof {
            use_type_invariant(&*self);
        }
        let launch = !self.running;
        self.running = true;
        launch
    }

    /// Marks the scheduler as stopped: the polling loop ends at its next
    /// turn.
    pub fn stop(&mut self)
        ensures
            final(self)@ == (SchedulerModel { running: false, ..old(self)@ }),
    {
        proof {
            use_type_invariant(&*self);
        }
        self.running = false;
    }

    /// Runs the task under `key` at the clock's time, whatever its schedule
    /// says: see `run_task_now_at`.
    pub fn run_task_now<S: ProcessSpawner>(
        &mut self,
        key: &str,
        dispatcher: &mut Dispatcher<S>,
    ) -> (res: Result<(), SchedulerError>)
        ensures
            final(dispatcher).platform() == old(dispatcher).platform(),
            final(self)@.wf(),
            final(dispatcher).handed_over() == old(dispatcher).handed_over()
                + old(self)@.manual_run_requests(key@),
            !old(self)@.tasks().contains_key(key@) ==> (res matches Err(e) && e.misses_task(key@)),
            res matches Err(e) ==> final(self)@ == old(self)@ && (old(self)@.tasks().contains_key(key@)
                ==> e.names_failed_task(old(self)@.tasks()[key@].name)),
            res is Ok ==> final(self)@.with_task_changed(old(self)@, key@),
            res is Ok ==> final(self)@.tasks()[key@].ran_since(old(self)@.tasks()[key@]),
    {
        let now = current_time();
        self.run_task_now_at(key, &now, dispatcher)
    }

    /// Runs the task under `key` at `now`, whatever its schedule says.
    ///
    /// Without a task under `key` the call fails and changes nothing. With
    /// one, its command is handed to the spawner. Where it started, the run
    /// is recorded at `now`, `next_run` is computed anew, and the states of
    /// all the tasks are persisted. Where it did not, nothing changes and the
    /// error names the task.
    pub fn run_task_now_at<S: ProcessSpawner>(
        &mut self,
        key: &str,
        now: &Instant,
        dispatcher: &mut Dispatcher<S>,
    ) -> (res: Result<(), SchedulerError>)
        ensures
            final(dispatcher).platform() == old(dispatcher).platform(),
            final(self)@.wf(),
            final(dispatcher).handed_over() == old(dispatcher).handed_over()
                + old(self)@.manual_run_requests(key@),
            !old(self)@.tasks().contains_key(key@) ==> (res matches Err(e) && e.misses_task(key@)),
            res matches Err(e) ==> final(self)@ == old(self)@ && (old(self)@.tasks().contains_key(key@)
                ==> e.names_failed_task(old(self)@.tasks()[key@].name)),
            res is Ok ==> final(self)@.with_task_changed(old(self)@, key@),
            res is Ok ==> final(self)@.tasks()[key@].ran_at(old(self)@.tasks()[key@], *now),
    {
        proof {
            use_type_invariant(&*self);
        }
        match self.tasks.find(key) {
            Some(i) => {
                proof {
                    lemma_keyed_at(self@.task_keys, self@.task_models, i as int);
                }
                let ghost before = self@;
                let task = &mut self.tasks.values[i];
                match task.execute_at(self.path.as_str(), now, dispatcher) {
                    Ok(()) => {
                        proof {
                            let after = self@;
                            assert(after.task_models =~= before.task_models.update(
                                i as int,
                                after.task_models[i as int],
                            ));
                            crate::keyed::lemma_keyed_update(
                                before.task_keys,
                                before.task_models,
                                i as int,
                                after.task_models[i as int],
                            );
                            lemma_keyed_at(after.task_keys, after.task_models, i as int);
                        }
                        self.save_states();
                        Ok(())
                    },
                    Err(error) => {
                        proof {
                            assert(self@.task_models =~= before.task_models);
                        }
                        Err(error)
                    },
                }
            },
            None => Err(SchedulerError::TaskNotFound { key: key.to_owned() }),
        }
    }

    /// Hands every selected task to the spawner at `now` and reports whether
    /// any of them ran. The persisted states are left alone.
    fn run_selected<S: ProcessSpawner>(
        &mut self,
        now: &Instant,
        missed_only: bool,
        dispatcher: &mut Dispatcher<S>,
    ) -> (any_ran: bool)
        ensures
            final(dispatcher).platform() == old(dispatcher).platform(),
            final(self)@.wf(),
            final(self)@.swept_from(old(self)@, *now, missed_only),
            final(self)@.state_keys == old(self)@.state_keys,
            final(self)@.state_values == old(self)@.state_values,
            any_ran == (final(self)@.tasks() != old(self)@.tasks()),
            final(dispatcher).handed_over() == old(dispatcher).handed_over() + sweep_requests(
                old(self)@.task_models,
                *now,
                missed_only,
                old(self)@.path,
            ),
    {
        proof {
            use_type_invariant(&*self);
        }
        let mut any_ran = false;
        let mut i: usize = 0;
        let ghost models = self@.task_models;
        assert(models.take(0) =~= Seq::empty());
        assert(dispatcher.handed_over() =~= old(dispatcher).handed_over() + sweep_requests(
            models.take(0),
            *now,
            missed_only,
            self.path@,
        ));
        while i < self.tasks.values.len()
            invariant
                self.tasks.wf(),
                self.states.wf(),
                models == old(self)@.task_models,
                models.len() == self.tasks.values.len(),
                dispatcher.platform() == old(dispatcher).platform(),
                dispatcher.handed_over() == old(dispatcher).handed_over() + sweep_requests(
                    models.take(i as int),
                    *now,
                    missed_only,
                    self.path@,
                ),
                old(self).tasks.wf(),
                self.states == old(self).states,
                self.path == old(self).path,
                self.running == old(self).running,
                self.state_file == old(self).state_file,
                self.tasks.keys == old(self).tasks.keys,
                self.tasks.values.len() == old(self).tasks.values.len(),
                i <= self.tasks.values.len(),
                forall|k: int|
                    i <= k < self.tasks.values.len() ==> self.tasks.values[k]
                        == old(self).tasks.values[k],
                forall|k: int|
                    0 <= k < i ==> attempted(
                        old(self).tasks.values[k]@,
                        #[trigger] self.tasks.values[k]@,
                        *now,
                        selects(old(self).tasks.values[k]@, *now, missed_only),
                    ),
                !any_ran ==> forall|k: int|
                    0 <= k < i ==> #[trigger] self.tasks.values[k]@ == old(self).tasks.values[k]@,
                any_ran ==> exists|k: int|
                    0 <= k < i && #[trigger] self.tasks.values[k]@ != old(self).tasks.values[k]@,
            decreases self.tasks.values.len() - i,
        {
            let selected = if missed_only {
                self.tasks.values[i].is_missed(now)
            } else {
                self.tasks.values[i].should_run(now)
            };
            proof {
                let longer = models.take(i as int + 1);
                assert(longer.drop_last() =~= models.take(i as int));
                assert(longer.last() == self.tasks.values[i as int]@);
            }
            if selected {
                let ghost prev = self.tasks.values[i as int]@;
                let ghost witness = if any_ran {
                    choose|k: int|
                        0 <= k < i && #[trigger] self.tasks.values[k]@ != old(self).tasks.values[k]@
                } else {
                    0
                };
                let task = &mut self.tasks.values[i];
                match task.execute_at(self.path.as_str(), now, dispatcher) {
                    Ok(()) => {
                        proof {
                            lemma_run_changes_due_task(prev, self.tasks.values[i as int]@, *now);
                        }
                        any_ran = true;
                    },
                    Err(_) => {
                        proof {
                            if any_ran {
                                assert(self.tasks.values[witness]@ != old(self).tasks.values[witness]@);
                            }
                        }
                    },
                }
                proof {
                    let earlier = sweep_requests(models.take(i as int), *now, missed_only, self.path@);
                    assert(dispatcher.handed_over() =~= old(dispatcher).handed_over() + earlier.push(
                        prev.spawn_request(self.path@),
                    ));
                }
            }
            i += 1;
        }
        proof {
            assert(models.take(models.len() as int) =~= models);
            if any_ran {
                let k = choose|k: int|
                    0 <= k < i && #[trigger] self.tasks.values[k]@ != old(self).tasks.values[k]@;
                assert(self@.task_models[k] != old(self)@.task_models[k]);
            }
            lemma_swept(old(self)@, self@, *now, missed_only, any_ran);
        }
        any_ran
    }

    /// One turn of the polling loop at the clock's time: see
    /// `run_due_tasks_at`.
    pub fn run_due_tasks<S: ProcessSpawner>(
        &mut self,
        dispatcher: &mut Dispatcher<S>,
    ) -> (any_ran: bool)
        ensures
            final(dispatcher).platform() == old(dispatcher).platform(),
            final(self)@.wf(),
            any_ran == (final(self)@.tasks() != old(self)@.tasks()),
            exists|now: Instant|
                final(self)@.sweep_outcome(
                    old(self)@,
                    now,
                    false,
                    old(dispatcher).handed_over(),
                    final(dispatcher).handed_over(),
                ),
    {
        let now = current_time();
        let any_ran = self.run_due_tasks_at(&now, dispatcher);
        assert(final(self)@.sweep_outcome(
            old(self)@,
            now,
            false,
            old(dispatcher).handed_over(),
            final(dispatcher).handed_over(),
        ));
        any_ran
    }

    /// One turn of the polling loop at `now`: every task that is due is
    /// handed to the spawner. A task whose command started has its run
    /// recorded at `now` and its `next_run` computed anew; one whose command
    /// did not start is left as it was, and so stays due for the next turn.
    /// Where any task ran, the states of all the tasks are persisted after
    /// the last of them. Returns whether any task ran.
    pub fn run_due_tasks_at<S: ProcessSpawner>(
        &mut self,
        now: &Instant,
        dispatcher: &mut Dispatcher<S>,
    ) -> (any_ran: bool)
        ensures
            final(dispatcher).platform() == old(dispatcher).platform(),
            final(self)@.wf(),
            any_ran == (final(self)@.tasks() != old(self)@.tasks()),
            final(self)@.sweep_outcome(
                old(self)@,
                *now,
                false,
                old(dispatcher).handed_over(),
                final(dispatcher).handed_over(),
            ),
    {
        let any_ran = self.run_selected(now, false, dispatcher);
        if any_ran {
            self.save_states();
        }
        any_ran
    }

    /// Looks for missed runs at the clock's time and makes up for them: see
    /// `check_and_run_missed_tasks_at`.
    pub fn check_and_run_missed_tasks<S: ProcessSpawner>(
        &mut self,
        dispatcher: &mut Dispatcher<S>,
    ) -> (any_ran: bool)
        ensures
            final(dispatcher).platform() == old(dispatcher).platform(),
            final(self)@.wf(),
            any_ran == (final(self)@.tasks() != old(self)@.tasks()),
            exists|now: Instant|
                final(self)@.sweep_outcome(
                    old(self)@,
                    now,
                    true,
                    old(dispatcher).handed_over(),
                    final(dispatcher).handed_over(),
                ),
    {
        let now = current_time();
        let any_ran = self.check_and_run_missed_tasks_at(&now, dispatcher);
        assert(final(self)@.sweep_outcome(
            old(self)@,
            now,
            true,
            old(dispatcher).handed_over(),
            final(dispatcher).handed_over(),
        ));
        any_ran
    }

    /// Makes up for missed runs at `now`, after a start or a wake from sleep.
    ///
    /// Every task that was missed (due, and not run since it became due) is
    /// handed to the spawner, as in a poll. Where any task ran, the states of
    /// all the tasks are persisted. Returns whether any task ran.
    pub fn check_and_run_missed_tasks_at<S: ProcessSpawner>(
        &mut self,
        now: &Instant,
        dispatcher: &mut Dispatcher<S>,
    ) -> (any_ran: bool)
        ensures
            final(dispatcher).platform() == old(dispatcher).platform(),
            final(self)@.wf(),
            any_ran == (final(self)@.tasks() != old(self)@.tasks()),
            final(self)@.sweep_outcome(
                old(self)@,
                *now,
                true,
                old(dispatcher).handed_over(),
                final(dispatcher).handed_over(),
            ),
    {
        let any_ran = self.run_selected(now, true, dispatcher);
        if any_ran {
            self.save_states();
        }
        any_ran
    }
}

/// A run changes a task that was selected: its `next_run` had been reached,
/// and after the run it is absent or lies ahead.
proof fn lemma_run_changes_due_task(before: TaskModel, after: TaskModel, now: Instant)
    requires
        before.is_due(now) || before.is_missed(now),
        after.ran_at(before, now),
    ensures
        after != before,
{
}

/// What the loop of a sweep has established place by place holds key by key.
proof fn lemma_swept(
    before: SchedulerModel,
    after: SchedulerModel,
    now: Instant,
    missed_only: bool,
    any_ran: bool,
)
    requires
        before.wf(),
        after.task_keys == before.task_keys,
        after.task_models.len() == before.task_models.len(),
        after.path == before.path,
        after.running == before.running,
        after.state_file == before.state_file,
        forall|k: int|
            0 <= k < before.task_models.len() ==> attempted(
                before.task_models[k],
                #[trigger] after.task_models[k],
                now,
                selects(before.task_models[k], now, missed_only),
            ),
        !any_ran ==> forall|k: int|
            0 <= k < before.task_models.len() ==> #[trigger] after.task_models[k]
                == before.task_models[k],
        any_ran ==> exists|k: int|
            0 <= k < before.task_models.len() && #[trigger] after.task_models[k]
                != before.task_models[k],
    ensures
        after.swept_from(before, now, missed_only),
        any_ran == (after.tasks() != before.tasks()),
{
    assert(after.tasks().dom() =~= before.tasks().dom());
    assert forall|k: Seq<char>| #[trigger] before.tasks().contains_key(k) implies attempted(
        before.tasks()[k],
        after.tasks()[k],
        now,
        selects(before.tasks()[k], now, missed_only),
    ) by {
        let i = lemma_keyed_place(before.task_keys, before.task_models, k);
        lemma_keyed_at(after.task_keys, after.task_models, i);
    }
    if any_ran {
        let i = choose|k: int|
            0 <= k < before.task_models.len() && #[trigger] after.task_models[k]
                != before.task_models[k];
        lemma_keyed_at(before.task_keys, before.task_models, i);
        lemma_keyed_at(after.task_keys, after.task_models, i);
    } else {
        assert(after.task_models =~= before.task_models);
    }
}

/// The models of a list of tasks after an insertion are the models before it
/// with the model of the new task inserted.
proof fn lemma_models_after_insert(
    before: KeyedList<ScheduledTask>,
    after: KeyedList<ScheduledTask>,
    key: Seq<char>,
    task: ScheduledTask,
)
    requires
        before.wf(),
        after.wf(),
        after.map() == before.map().insert(key, task),
        before.key_views().contains(key) ==> {
            &&& after.key_views() == before.key_views()
            &&& after.values@ == before.values@.update(before.key_views().index_of(key), task)
        },
        !before.key_views().contains(key) ==> {
            &&& after.key_views() == before.key_views().push(key)
            &&& after.values@ == before.values@.push(task)
        },
    ensures
        ({
            let f = |t: ScheduledTask| t@;
            let old_map = keyed(before.key_views(), before.values@.map_values(f));
            let new_map = keyed(after.key_views(), after.values@.map_values(f));
            &&& new_map.dom() == old_map.dom().insert(key)
            &&& new_map[key] == task@
            &&& forall|k: Seq<char>|
                k != key && old_map.contains_key(k) ==> #[trigger] new_map[k] == old_map[k]
            &&& old_map.contains_key(key) == before.key_views().contains(key)
        }),
{
    let f = |t: ScheduledTask| t@;
    let keys = before.key_views();
    let models = before.values@.map_values(f);
    if keys.contains(key) {
        let i = keys.index_of(key);
        assert(after.values@.map_values(f) =~= models.update(i, task@));
        crate::keyed::lemma_keyed_update(keys, models, i, task@);
    } else {
        assert(after.values@.map_values(f) =~= models.push(task@));
        crate::keyed::lemma_keyed_push(keys, models, key, task@);
    }
    let old_map = keyed(keys, models);
    let new_map = keyed(after.key_views(), after.values@.map_values(f));
    assert(new_map == old_map.insert(key, task@));
    assert(new_map.dom() =~= old_map.dom().insert(key));
}

/// The states of the tasks, under the tasks' keys, are the snapshot of the
/// tasks.
proof fn lemma_snapshot(keys: Seq<Seq<char>>, models: Seq<TaskModel>)
    requires
        well_keyed(keys, models),
    ensures
        well_keyed(keys, models.map_values(|t: TaskModel| t.state())),
        keyed(keys, models.map_values(|t: TaskModel| t.state())) == snapshot_of(keyed(keys, models)),
{
    let states = models.map_values(|t: TaskModel| t.state());
    let left = keyed(keys, states);
    let right = snapshot_of(keyed(keys, models));
    assert forall|k: Seq<char>| #[trigger] left.contains_key(k) implies left[k] == right[k] by {
        let i = lemma_keyed_place(keys, states, k);
        lemma_keyed_at(keys, models, i);
    }
    assert(left =~= right);
}

/// A missed run is made up for once: a task that ran in a sweep for missed
/// runs at `now` is left alone by a second sweep at the same time.
pub proof fn lemma_missed_sweep_runs_once(
    before: SchedulerModel,
    after: SchedulerModel,
    again: SchedulerModel,
    now: Instant,
    key: Seq<char>,
)
    requires
        after.swept_from(before, now, true),
        again.swept_from(after, now, true),
        before.tasks().contains_key(key),
        after.tasks()[key] != before.tasks()[key],
    ensures
        !after.tasks()[key].is_missed(now),
        again.tasks()[key] == after.tasks()[key],
{
    assert(after.tasks().contains_key(key));
}

/// A sweep for missed runs is idempotent where every command started: if the
/// first sweep at `now` ran every task that was missed, no task is missed
/// after it, and a second sweep at the same time changes nothing.
pub proof fn lemma_missed_sweep_is_idempotent(
    before: SchedulerModel,
    after: SchedulerModel,
    again: SchedulerModel,
    now: Instant,
)
    requires
        after.swept_and_saved_from(before, now, true),
        again.swept_and_saved_from(after, now, true),
        forall|k: Seq<char>|
            before.tasks().contains_key(k) && before.tasks()[k].is_missed(now)
                ==> #[trigger] after.tasks()[k] != before.tasks()[k],
    ensures
        forall|k: Seq<char>|
            after.tasks().contains_key(k) ==> !(#[trigger] after.tasks()[k]).is_missed(now),
        again.tasks() == after.tasks(),
        again.state_keys == after.state_keys,
        again.state_values == after.state_values,
{
    assert forall|k: Seq<char>| after.tasks().contains_key(k) implies !(
        #[trigger] after.tasks()[k]
    ).is_missed(now) by {
        assert(before.tasks().contains_key(k));
    }
    assert forall|k: Seq<char>| after.tasks().contains_key(k) implies #[trigger] again.tasks()[k]
        == after.tasks()[k] by {
        assert(before.tasks().contains_key(k));
    }
    assert(again.tasks() =~= after.tasks());
}

/// A poll does not run a task twice for one time: a task that ran in a poll
/// at `now` is left alone by a second poll at the same time.
pub proof fn lemma_poll_runs_once(
    before: SchedulerModel,
    after: SchedulerModel,
    again: SchedulerModel,
    now: Instant,
    key: Seq<char>,
)
    requires
        after.swept_from(before, now, false),
        again.swept_from(after, now, false),
        before.tasks().contains_key(key),
        after.tasks()[key] != before.tasks()[key],
    ensures
        !after.tasks()[key].is_due(now),
        again.tasks()[key] == after.tasks()[key],
{
    assert(after.tasks().contains_key(key));
}

/// A task whose command does not start is tried again at every later poll:
/// a poll at `now` that left a due task as it was leaves it selected for the
/// poll at any later time. A task without a `next_run` is selected by no
/// sweep at all, and every sweep leaves it as it was.
pub proof fn lemma_retried_until_started(
    before: SchedulerModel,
    after: SchedulerModel,
    now: Instant,
    later: Instant,
    key: Seq<char>,
    missed_only: bool,
)
    requires
        after.swept_from(before, now, missed_only),
        before.tasks().contains_key(key),
        now.spec_le(later),
    ensures
        selects(before.tasks()[key], now, missed_only) && after.tasks()[key] == before.tasks()[key]
            ==> selects(after.tasks()[key], later, missed_only),
        before.tasks()[key].next_run is None ==> after.tasks()[key] == before.tasks()[key]
            && !selects(after.tasks()[key], later, missed_only),
{
}

/// The persisted snapshot comes back as it was saved: the entries that
/// `persisted_states` hands out stand for the map of the persisted states,
/// which is what a scheduler created from them holds.
pub proof fn lemma_persisted_entries_round_trip(
    model: SchedulerModel,
    entries: Seq<(String, TaskState)>,
)
    requires
        model.wf(),
        entries.len() == model.state_keys.len(),
        forall|i: int|
            0 <= i < entries.len() ==> (#[trigger] entries[i]).0@ == model.state_keys[i]
                && entries[i].1 == model.state_values[i],
    ensures
        persisted_map(entries) == model.states(),
    decreases entries.len(),
{
    if entries.len() == 0 {
        assert(model.states() =~= Map::empty());
    } else {
        let shorter = SchedulerModel {
            state_keys: model.state_keys.drop_last(),
            state_values: model.state_values.drop_last(),
            ..model
        };
        assert(shorter.state_keys.no_duplicates());
        lemma_persisted_entries_round_trip(shorter, entries.drop_last());
        let last_key = model.state_keys.last();
        assert(!shorter.state_keys.contains(last_key)) by {
            if shorter.state_keys.contains(last_key) {
                let j = choose|j: int|
                    0 <= j < shorter.state_keys.len() && shorter.state_keys[j] == last_key;
                assert(model.state_keys[j] == last_key);
            }
        }
        crate::keyed::lemma_keyed_push(
            shorter.state_keys,
            shorter.state_values,
            last_key,
            model.state_values.last(),
        );
        assert(shorter.state_keys.push(last_key) =~= model.state_keys);
        assert(shorter.state_values.push(model.state_values.last()) =~= model.state_values);
    }
}

/// After a save, the persisted state under the key of each task is the state
/// of that task.
pub proof fn lemma_saved_snapshot_is_faithful(model: SchedulerModel, key: Seq<char>)
    requires
        model.wf(),
        model.tasks().contains_key(key),
    ensures
        model.saved().state_of(key) == Some(model.tasks()[key].state()),
        model.saved().tasks() == model.tasks(),
{
    lemma_snapshot(model.task_keys, model.task_models);
}

/// A sweep asks for the tasks that it selects, and for no others: the
/// request of every selected task is among those that the sweep hands to the
/// spawner, and every request that it hands over is that of a selected task.
/// So a task that stays due is asked for at every poll, and a task without a
/// `next_run` never is.
pub proof fn lemma_sweep_asks_for_the_selected(
    tasks: Seq<TaskModel>,
    now: Instant,
    missed_only: bool,
    path: Seq<char>,
)
    ensures
        forall|i: int|
            0 <= i < tasks.len() && selects(#[trigger] tasks[i], now, missed_only) ==> sweep_requests(
                tasks,
                now,
                missed_only,
                path,
            ).contains(tasks[i].spawn_request(path)),
        forall|r: Request| #[trigger]
            sweep_requests(tasks, now, missed_only, path).contains(r) ==> exists|i: int|
                0 <= i < tasks.len() && selects(#[trigger] tasks[i], now, missed_only) && r
                    == tasks[i].spawn_request(path),
    decreases tasks.len(),
{
    if tasks.len() > 0 {
        let shorter = tasks.drop_last();
        let last = tasks.len() - 1;
        lemma_sweep_asks_for_the_selected(shorter, now, missed_only, path);
        let earlier = sweep_requests(shorter, now, missed_only, path);
        let all = sweep_requests(tasks, now, missed_only, path);
        assert forall|i: int|
            0 <= i < tasks.len() && selects(#[trigger] tasks[i], now, missed_only) implies all.contains(
            tasks[i].spawn_request(path),
        ) by {
            if i < last {
                assert(shorter[i] == tasks[i]);
                let j = choose|j: int|
                    0 <= j < earlier.len() && earlier[j] == shorter[i].spawn_request(path);
                assert(all[j] == tasks[i].spawn_request(path));
            } else {
                assert(all[all.len() - 1] == tasks[i].spawn_request(path));
            }
        }
        assert forall|r: Request| #[trigger] all.contains(r) implies exists|i: int|
            0 <= i < tasks.len() && selects(#[trigger] tasks[i], now, missed_only) && r
                == tasks[i].spawn_request(path) by {
            let j = choose|j: int| 0 <= j < all.len() && all[j] == r;
            if j < earlier.len() {
                assert(earlier[j] == r);
                assert(earlier.contains(r));
                let i = choose|i: int|
                    0 <= i < shorter.len() && selects(#[trigger] shorter[i], now, missed_only) && r
                        == shorter[i].spawn_request(path);
                assert(tasks[i] == shorter[i]);
            } else {
                assert(selects(tasks[last], now, missed_only));
                assert(r == tasks[last].spawn_request(path));
            }
        }
    }
}

} // verus!
