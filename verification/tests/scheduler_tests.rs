use std::cell::RefCell;
use std::path::PathBuf;

use chrono::{Local, TimeZone};
use something_bg_core::config::ScheduledTaskConfig;
use something_bg_core::error::SchedulerError;
use something_bg_core::instant::Instant;
use something_bg_core::platform::{AppPaths, Dispatcher, ProcessSpawner};
use something_bg_core::scheduler::{TaskScheduler, POLL_INTERVAL_SECS};
use something_bg_core::task::{ScheduledTask, TaskState};

struct TestPaths;

impl AppPaths for TestPaths {
    fn config_path(&self) -> PathBuf {
        PathBuf::from("config.toml")
    }

    fn state_path(&self) -> PathBuf {
        PathBuf::from("task_state.toml")
    }
}

/// Records every call and answers each spawn as it was told to.
struct Recorder {
    spawn_ok: bool,
    spawned: RefCell<Vec<(String, Vec<String>, String)>>,
    killed: RefCell<Vec<(String, Vec<String>)>>,
}

impl Recorder {
    fn new(spawn_ok: bool) -> Self {
        Recorder { spawn_ok, spawned: RefCell::new(Vec::new()), killed: RefCell::new(Vec::new()) }
    }

    fn spawn_count(&self) -> usize {
        self.spawned.borrow().len()
    }
}

impl ProcessSpawner for Recorder {
    fn spawn(&self, program: &str, args: &[String], path: &str) -> Result<(), String> {
        self.spawned.borrow_mut().push((program.to_string(), args.to_vec(), path.to_string()));
        if self.spawn_ok {
            Ok(())
        } else {
            Err("No such file or directory".to_string())
        }
    }

    fn kill(&self, program: &str, args: &[String]) -> Result<(), String> {
        self.killed.borrow_mut().push((program.to_string(), args.to_vec()));
        Ok(())
    }
}

fn local(year: i32, month: u32, day: u32, hour: u32, minute: u32, second: u32) -> Instant {
    let dt = Local.with_ymd_and_hms(year, month, day, hour, minute, second).single().unwrap();
    Instant::new(dt.timestamp(), dt.timestamp_subsec_nanos())
}

fn task_config(name: &str, schedule: &str) -> ScheduledTaskConfig {
    ScheduledTaskConfig {
        name: name.to_string(),
        command: "echo".to_string(),
        args: vec!["Running daily backup...".to_string()],
        cron_schedule: schedule.to_string(),
        separator_after: None,
        group_header: None,
        group_icon: None,
    }
}

fn scheduler_with(persisted: Vec<(String, TaskState)>) -> TaskScheduler {
    TaskScheduler::new("/usr/bin:/bin".to_string(), &TestPaths, persisted)
}

#[test]
fn daily_backup_added_without_state_is_due_next_morning() {
    let mut scheduler = scheduler_with(Vec::new());
    let now = local(2025, 1, 10, 8, 0, 0);
    let added =
        scheduler.add_task_at("daily-backup".to_string(), &task_config("Daily Backup", "0 6 * * *"), &now);
    assert!(added.is_ok());
    let task = scheduler.get_task("daily-backup").unwrap();
    assert_eq!(task.next_run, Some(local(2025, 1, 11, 6, 0, 0)));
    assert_eq!(task.last_run, None);
    assert_eq!(task.name, "Daily Backup");
    assert_eq!(task.command, "echo");
    assert_eq!(task.args, vec!["Running daily backup...".to_string()]);
    assert_eq!(task.cron_schedule, "0 6 * * *");
}

#[test]
fn task_that_ran_after_its_due_time_is_not_missed() {
    let state = TaskState {
        last_run: Some(local(2025, 1, 11, 6, 0, 1)),
        next_run: Some(local(2025, 1, 11, 6, 0, 0)),
    };
    let mut scheduler = scheduler_with(vec![("daily-backup".to_string(), state)]);
    let added = scheduler.add_task_at(
        "daily-backup".to_string(),
        &task_config("Daily Backup", "0 6 * * *"),
        &local(2025, 1, 11, 6, 30, 0),
    );
    assert!(added.is_ok());
    let task = scheduler.get_task("daily-backup").unwrap();
    assert_eq!(task.last_run, state.last_run);
    assert_eq!(task.next_run, state.next_run);

    let mut spawner = Dispatcher::new(Recorder::new(true));
    let now = local(2025, 1, 11, 7, 0, 0);
    assert!(!task.is_missed(&now));
    let ran = scheduler.check_and_run_missed_tasks_at(&now, &mut spawner);
    assert!(!ran);
    assert_eq!(spawner.spawner().spawn_count(), 0);
    let task = scheduler.get_task("daily-backup").unwrap();
    assert_eq!(task.last_run, state.last_run);
    assert_eq!(task.next_run, state.next_run);
}

#[test]
fn computed_next_run_lies_after_the_reference() {
    let patterns = ["* * * * *", "0 6 * * *", "*/5 * * * *", "0 0 1 1 *", "30 12 * * MON", "* * * * * *"];
    let now = Instant::new(local(2025, 3, 1, 10, 15, 30).secs, 250_000_000);
    for pattern in patterns {
        let mut scheduler = scheduler_with(Vec::new());
        scheduler.add_task_at("t".to_string(), &task_config("T", pattern), &now).unwrap();
        let next = scheduler.get_task("t").unwrap().next_run.unwrap();
        assert!(now.is_before(&next), "pattern {pattern}");
    }
}

#[test]
fn every_second_pattern_gives_the_next_whole_second() {
    let base = local(2025, 3, 1, 10, 15, 30);
    let now = Instant::new(base.secs, 250_000_000);
    let task = ScheduledTask::new_at(&task_config("T", "* * * * * *"), None, &now).unwrap();
    assert_eq!(task.next_run, Some(Instant::new(base.secs + 1, 0)));
}

#[test]
fn persisted_next_run_is_reused_verbatim() {
    let saved = TaskState { last_run: None, next_run: Some(local(2024, 12, 24, 18, 0, 0)) };
    let now = local(2025, 1, 10, 8, 0, 0);
    let task = ScheduledTask::new_at(&task_config("T", "0 6 * * *"), Some(saved), &now).unwrap();
    assert_eq!(task.next_run, saved.next_run);
    assert_eq!(task.last_run, None);
}

#[test]
fn persisted_state_without_next_run_computes_it() {
    let saved = TaskState { last_run: Some(local(2025, 1, 9, 6, 0, 0)), next_run: None };
    let now = local(2025, 1, 10, 8, 0, 0);
    let task = ScheduledTask::new_at(&task_config("T", "0 6 * * *"), Some(saved), &now).unwrap();
    assert_eq!(task.next_run, Some(local(2025, 1, 11, 6, 0, 0)));
    assert_eq!(task.last_run, saved.last_run);
}

#[test]
fn invalid_schedule_is_rejected_and_nothing_is_added() {
    let mut scheduler = scheduler_with(Vec::new());
    let now = local(2025, 1, 10, 8, 0, 0);
    let res = scheduler.add_task_at("bad".to_string(), &task_config("Bad", "not a cron"), &now);
    match res {
        Err(SchedulerError::InvalidSchedule { schedule, reason }) => {
            assert_eq!(schedule, "not a cron");
            assert!(!reason.is_empty());
        }
        other => panic!("unexpected result: {other:?}"),
    }
    assert!(scheduler.get_task("bad").is_none());
    assert_eq!(scheduler.task_count(), 0);

    // The scheduler goes on with the other tasks.
    assert!(scheduler.add_task_at("good".to_string(), &task_config("Good", "0 6 * * *"), &now).is_ok());
    assert_eq!(scheduler.task_count(), 1);
}

#[test]
fn empty_schedule_is_rejected() {
    let now = local(2025, 1, 10, 8, 0, 0);
    let res = ScheduledTask::new_at(&task_config("Empty", ""), None, &now);
    assert!(matches!(res, Err(SchedulerError::InvalidSchedule { .. })));
}

#[test]
fn add_task_with_the_clock_computes_a_next_run() {
    let mut scheduler = scheduler_with(Vec::new());
    assert!(scheduler.add_task("t".to_string(), &task_config("T", "0 6 * * *")).is_ok());
    let task = scheduler.get_task("t").unwrap();
    assert!(task.next_run.is_some());
    assert_eq!(task.last_run, None);
    let now = Local::now();
    let next = task.next_run.unwrap();
    assert!(next.secs > now.timestamp() - 5);
    assert!(next.secs <= now.timestamp() + 24 * 3600 + 3600 + 5);
}

#[test]
fn error_messages_read_as_sentences() {
    let not_found = SchedulerError::TaskNotFound { key: "nightly".to_string() };
    assert_eq!(not_found.message(), "Task 'nightly' not found");
    let invalid = SchedulerError::InvalidSchedule {
        schedule: "x".to_string(),
        reason: "Invalid pattern: bad".to_string(),
    };
    assert_eq!(invalid.message(), "Failed to parse cron schedule 'x': Invalid pattern: bad");
    let spawn = SchedulerError::SpawnFailed {
        task: "Daily Backup".to_string(),
        reason: "No such file or directory".to_string(),
    };
    assert_eq!(spawn.message(), "Failed to execute task 'Daily Backup': No such file or directory");
}

#[test]
fn run_task_now_on_unknown_key_fails() {
    let mut scheduler = scheduler_with(Vec::new());
    let mut spawner = Dispatcher::new(Recorder::new(true));
    let res = scheduler.run_task_now_at("nobody", &local(2025, 1, 10, 8, 0, 0), &mut spawner);
    match res {
        Err(SchedulerError::TaskNotFound { key }) => assert_eq!(key, "nobody"),
        other => panic!("unexpected result: {other:?}"),
    }
    assert_eq!(spawner.spawner().spawn_count(), 0);
    assert!(scheduler.persisted_states().is_empty());
}

#[test]
fn run_task_now_records_the_run_and_persists() {
    let mut scheduler = scheduler_with(Vec::new());
    let added_at = local(2025, 1, 10, 8, 0, 0);
    scheduler.add_task_at("daily-backup".to_string(), &task_config("Daily Backup", "0 6 * * *"), &added_at).unwrap();
    scheduler.add_task_at("hourly".to_string(), &task_config("Hourly", "0 * * * *"), &added_at).unwrap();
    assert!(scheduler.persisted_states().is_empty());

    let mut spawner = Dispatcher::new(Recorder::new(true));
    let now = local(2025, 1, 10, 9, 30, 0);
    assert!(scheduler.run_task_now_at("daily-backup", &now, &mut spawner).is_ok());

    let spawned = spawner.spawner().spawned.borrow();
    assert_eq!(spawned.len(), 1);
    assert_eq!(spawned[0].0, "echo");
    assert_eq!(spawned[0].1, vec!["Running daily backup...".to_string()]);
    assert_eq!(spawned[0].2, "/usr/bin:/bin");

    let task = scheduler.get_task("daily-backup").unwrap();
    assert_eq!(task.last_run, Some(now));
    assert_eq!(task.next_run, Some(local(2025, 1, 11, 6, 0, 0)));
    let other = scheduler.get_task("hourly").unwrap();
    assert_eq!(other.last_run, None);
    assert_eq!(other.next_run, Some(local(2025, 1, 10, 9, 0, 0)));

    let persisted = scheduler.persisted_states();
    assert_eq!(persisted.len(), 2);
    assert_eq!(persisted[0].0, "daily-backup");
    assert_eq!(persisted[0].1, TaskState { last_run: Some(now), next_run: Some(local(2025, 1, 11, 6, 0, 0)) });
    assert_eq!(persisted[1].0, "hourly");
    assert_eq!(persisted[1].1, TaskState { last_run: None, next_run: Some(local(2025, 1, 10, 9, 0, 0)) });
}

#[test]
fn run_task_now_that_does_not_start_changes_nothing() {
    let mut scheduler = scheduler_with(Vec::new());
    let added_at = local(2025, 1, 10, 8, 0, 0);
    scheduler.add_task_at("daily-backup".to_string(), &task_config("Daily Backup", "0 6 * * *"), &added_at).unwrap();
    let before = scheduler.get_task("daily-backup").unwrap();

    let mut spawner = Dispatcher::new(Recorder::new(false));
    let res = scheduler.run_task_now_at("daily-backup", &local(2025, 1, 10, 9, 30, 0), &mut spawner);
    match res {
        Err(SchedulerError::SpawnFailed { task, reason }) => {
            assert_eq!(task, "Daily Backup");
            assert_eq!(reason, "No such file or directory");
        }
        other => panic!("unexpected result: {other:?}"),
    }
    assert_eq!(spawner.spawner().spawn_count(), 1);
    let after = scheduler.get_task("daily-backup").unwrap();
    assert_eq!(after.last_run, before.last_run);
    assert_eq!(after.next_run, before.next_run);
    assert!(scheduler.persisted_states().is_empty());
}

#[test]
fn missed_task_runs_once_across_two_checks() {
    let overdue = TaskState { last_run: None, next_run: Some(local(2025, 1, 11, 6, 0, 0)) };
    let mut scheduler = scheduler_with(vec![("daily-backup".to_string(), overdue)]);
    scheduler
        .add_task_at("daily-backup".to_string(), &task_config("Daily Backup", "0 6 * * *"), &local(2025, 1, 11, 6, 59, 0))
        .unwrap();

    let mut spawner = Dispatcher::new(Recorder::new(true));
    let now = local(2025, 1, 11, 7, 0, 0);
    assert!(scheduler.get_task("daily-backup").unwrap().is_missed(&now));
    assert!(scheduler.check_and_run_missed_tasks_at(&now, &mut spawner));
    assert_eq!(spawner.spawner().spawn_count(), 1);
    let task = scheduler.get_task("daily-backup").unwrap();
    assert_eq!(task.last_run, Some(now));
    assert_eq!(task.next_run, Some(local(2025, 1, 12, 6, 0, 0)));
    assert!(!task.is_missed(&now));

    assert!(!scheduler.check_and_run_missed_tasks_at(&now, &mut spawner));
    assert_eq!(spawner.spawner().spawn_count(), 1);
    let again = scheduler.get_task("daily-backup").unwrap();
    assert_eq!(again.last_run, Some(now));
    assert_eq!(again.next_run, Some(local(2025, 1, 12, 6, 0, 0)));
}

#[test]
fn missed_task_with_an_older_last_run_is_made_up_for() {
    let state = TaskState {
        last_run: Some(local(2025, 1, 10, 6, 0, 0)),
        next_run: Some(local(2025, 1, 11, 6, 0, 0)),
    };
    let mut scheduler = scheduler_with(vec![("daily-backup".to_string(), state)]);
    scheduler
        .add_task_at("daily-backup".to_string(), &task_config("Daily Backup", "0 6 * * *"), &local(2025, 1, 11, 6, 59, 0))
        .unwrap();
    let mut spawner = Dispatcher::new(Recorder::new(true));
    assert!(scheduler.check_and_run_missed_tasks_at(&local(2025, 1, 11, 7, 0, 0), &mut spawner));
    assert_eq!(spawner.spawner().spawn_count(), 1);
}

#[test]
fn task_that_is_not_yet_due_is_neither_polled_nor_missed() {
    let mut scheduler = scheduler_with(Vec::new());
    let added_at = local(2025, 1, 10, 8, 0, 0);
    scheduler.add_task_at("daily-backup".to_string(), &task_config("Daily Backup", "0 6 * * *"), &added_at).unwrap();
    let mut spawner = Dispatcher::new(Recorder::new(true));
    let now = local(2025, 1, 11, 5, 59, 59);
    assert!(!scheduler.run_due_tasks_at(&now, &mut spawner));
    assert!(!scheduler.check_and_run_missed_tasks_at(&now, &mut spawner));
    assert_eq!(spawner.spawner().spawn_count(), 0);
    assert!(scheduler.persisted_states().is_empty());
}

#[test]
fn poll_runs_a_task_at_the_instant_it_becomes_due() {
    let mut scheduler = scheduler_with(Vec::new());
    let added_at = local(2025, 1, 10, 8, 0, 0);
    scheduler.add_task_at("daily-backup".to_string(), &task_config("Daily Backup", "0 6 * * *"), &added_at).unwrap();
    let mut spawner = Dispatcher::new(Recorder::new(true));
    let now = local(2025, 1, 11, 6, 0, 0);
    assert!(scheduler.get_task("daily-backup").unwrap().should_run(&now));
    assert!(scheduler.run_due_tasks_at(&now, &mut spawner));
    assert_eq!(spawner.spawner().spawn_count(), 1);
    let task = scheduler.get_task("daily-backup").unwrap();
    assert_eq!(task.last_run, Some(now));
    assert_eq!(task.next_run, Some(local(2025, 1, 12, 6, 0, 0)));
    assert_eq!(
        scheduler.persisted_states(),
        vec![("daily-backup".to_string(), TaskState { last_run: Some(now), next_run: Some(local(2025, 1, 12, 6, 0, 0)) })]
    );

    // A second poll at the same instant finds nothing due.
    assert!(!scheduler.run_due_tasks_at(&now, &mut spawner));
    assert_eq!(spawner.spawner().spawn_count(), 1);
}

#[test]
fn task_whose_command_never_starts_is_tried_at_every_poll() {
    let mut scheduler = scheduler_with(Vec::new());
    let added_at = local(2025, 1, 10, 8, 0, 0);
    scheduler.add_task_at("daily-backup".to_string(), &task_config("Daily Backup", "0 6 * * *"), &added_at).unwrap();
    let before = scheduler.get_task("daily-backup").unwrap();

    let mut spawner = Dispatcher::new(Recorder::new(false));
    let first = local(2025, 1, 11, 6, 0, 10);
    for tick in 0..10 {
        let now = Instant::new(first.secs + tick * (POLL_INTERVAL_SECS as i64), 0);
        assert!(!scheduler.run_due_tasks_at(&now, &mut spawner));
        assert_eq!(spawner.spawner().spawn_count(), (tick + 1) as usize);
        let task = scheduler.get_task("daily-backup").unwrap();
        assert_eq!(task.last_run, before.last_run);
        assert_eq!(task.next_run, before.next_run);
    }
    assert!(scheduler.persisted_states().is_empty());
}

#[test]
fn task_whose_evaluation_fails_after_a_run_is_never_tried_again() {
    let due = TaskState { last_run: None, next_run: Some(Instant::new(0, 0)) };
    let mut scheduler_with_state = scheduler_with(vec![("t".to_string(), due)]);
    scheduler_with_state
        .add_task_at("t".to_string(), &task_config("T", "0 6 * * *"), &local(2025, 1, 10, 8, 0, 0))
        .unwrap();

    // No calendar reaches this far, so the evaluation after the run fails.
    let mut spawner = Dispatcher::new(Recorder::new(true));
    let far = Instant::new(i64::MAX - 1_000_000, 0);
    assert!(scheduler_with_state.run_due_tasks_at(&far, &mut spawner));
    assert_eq!(spawner.spawner().spawn_count(), 1);
    let task = scheduler_with_state.get_task("t").unwrap();
    assert_eq!(task.last_run, Some(far));
    assert_eq!(task.next_run, None);

    for offset in [0i64, 1, 30, 86_400] {
        let later = Instant::new(far.secs + offset, 0);
        assert!(!task.should_run(&later));
        assert!(!task.is_missed(&later));
        assert!(!scheduler_with_state.run_due_tasks_at(&later, &mut spawner));
        assert!(!scheduler_with_state.check_and_run_missed_tasks_at(&later, &mut spawner));
    }
    assert_eq!(spawner.spawner().spawn_count(), 1);

    // A manual run is still possible.
    assert!(scheduler_with_state.run_task_now_at("t", &local(2025, 1, 10, 9, 0, 0), &mut spawner).is_ok());
    assert_eq!(spawner.spawner().spawn_count(), 2);
}

#[test]
fn schedule_with_a_past_year_leaves_no_next_run_after_a_run() {
    let now = local(2025, 1, 10, 8, 0, 0);
    let saved = TaskState { last_run: None, next_run: Some(local(2020, 1, 1, 0, 0, 0)) };
    let mut task = ScheduledTask::new_at(&task_config("Once", "0 0 0 1 1 * 2020"), Some(saved), &now).unwrap();
    assert!(task.should_run(&now));
    let mut spawner = Dispatcher::new(Recorder::new(true));
    assert!(task.execute_at("/bin", &now, &mut spawner).is_ok());
    assert_eq!(task.last_run, Some(now));
    assert_eq!(task.next_run, None);
    assert!(!task.should_run(&local(2030, 1, 1, 0, 0, 0)));
}

#[test]
fn saved_states_restore_the_same_tasks() {
    let mut scheduler = scheduler_with(Vec::new());
    let added_at = local(2025, 1, 10, 8, 0, 0);
    scheduler.add_task_at("daily-backup".to_string(), &task_config("Daily Backup", "0 6 * * *"), &added_at).unwrap();
    scheduler.add_task_at("hourly".to_string(), &task_config("Hourly", "0 * * * *"), &added_at).unwrap();
    let mut spawner = Dispatcher::new(Recorder::new(true));
    scheduler.run_task_now_at("hourly", &local(2025, 1, 10, 8, 10, 0), &mut spawner).unwrap();
    scheduler.save_states();
    let snapshot = scheduler.persisted_states();
    assert_eq!(snapshot.len(), 2);

    let mut restored = scheduler_with(snapshot.clone());
    assert_eq!(restored.persisted_states(), snapshot);
    let much_later = local(2025, 6, 1, 12, 0, 0);
    restored.add_task_at("daily-backup".to_string(), &task_config("Daily Backup", "0 6 * * *"), &much_later).unwrap();
    restored.add_task_at("hourly".to_string(), &task_config("Hourly", "0 * * * *"), &much_later).unwrap();
    for key in ["daily-backup", "hourly"] {
        let a = scheduler.get_task(key).unwrap();
        let b = restored.get_task(key).unwrap();
        assert_eq!(a.last_run, b.last_run);
        assert_eq!(a.next_run, b.next_run);
        assert_eq!(restored.persisted_state(key), Some(a.state()));
    }
}

#[test]
fn later_persisted_entry_counts_where_a_key_comes_twice() {
    let first = TaskState { last_run: None, next_run: Some(Instant::new(10, 0)) };
    let second = TaskState { last_run: Some(Instant::new(5, 0)), next_run: Some(Instant::new(20, 0)) };
    let scheduler = scheduler_with(vec![
        ("a".to_string(), first),
        ("b".to_string(), first),
        ("a".to_string(), second),
    ]);
    assert_eq!(scheduler.persisted_state("a"), Some(second));
    assert_eq!(scheduler.persisted_state("b"), Some(first));
    assert_eq!(scheduler.persisted_state("c"), None);
    assert_eq!(scheduler.persisted_states(), vec![("a".to_string(), second), ("b".to_string(), first)]);
}

#[test]
fn stale_persisted_keys_are_ignored_and_dropped_at_the_next_save() {
    let stale = TaskState { last_run: None, next_run: Some(Instant::new(10, 0)) };
    let mut scheduler = scheduler_with(vec![("removed".to_string(), stale)]);
    scheduler
        .add_task_at("daily-backup".to_string(), &task_config("Daily Backup", "0 6 * * *"), &local(2025, 1, 10, 8, 0, 0))
        .unwrap();
    assert!(scheduler.get_task("removed").is_none());
    scheduler.save_states();
    let persisted = scheduler.persisted_states();
    assert_eq!(persisted.len(), 1);
    assert_eq!(persisted[0].0, "daily-backup");
}

#[test]
fn adding_a_key_again_replaces_the_task_in_its_place() {
    let mut scheduler = scheduler_with(Vec::new());
    let now = local(2025, 1, 10, 8, 0, 0);
    scheduler.add_task_at("a".to_string(), &task_config("First", "0 6 * * *"), &now).unwrap();
    scheduler.add_task_at("b".to_string(), &task_config("Second", "0 7 * * *"), &now).unwrap();
    scheduler.add_task_at("a".to_string(), &task_config("Third", "0 8 * * *"), &now).unwrap();
    let all = scheduler.get_all_tasks();
    assert_eq!(all.len(), 2);
    assert_eq!(all[0].0, "a");
    assert_eq!(all[0].1.name, "Third");
    assert_eq!(all[0].1.next_run, Some(local(2025, 1, 11, 8, 0, 0)));
    assert_eq!(all[1].0, "b");
    assert_eq!(all[1].1.name, "Second");
    assert_eq!(scheduler.task_count(), 2);
}

#[test]
fn start_launches_one_loop_and_stop_ends_it() {
    let mut scheduler = scheduler_with(Vec::new());
    assert!(!scheduler.is_running());
    assert!(scheduler.start());
    assert!(scheduler.is_running());
    assert!(!scheduler.start());
    assert!(scheduler.is_running());
    scheduler.stop();
    assert!(!scheduler.is_running());
    scheduler.stop();
    assert!(!scheduler.is_running());
    assert!(scheduler.start());
}

#[test]
fn scheduler_keeps_its_path_and_state_file() {
    let scheduler = scheduler_with(Vec::new());
    assert_eq!(scheduler.path(), "/usr/bin:/bin");
    assert_eq!(scheduler.state_file(), &PathBuf::from("task_state.toml"));
    assert_eq!(POLL_INTERVAL_SECS, 30);
}

#[test]
fn update_next_run_with_the_clock_moves_the_task_ahead() {
    let now = local(2025, 1, 10, 8, 0, 0);
    let mut task = ScheduledTask::new_at(&task_config("T", "* * * * *"), None, &now).unwrap();
    let before = Local::now().timestamp();
    task.update_next_run();
    let last = task.last_run.unwrap();
    let next = task.next_run.unwrap();
    assert!(last.secs >= before);
    assert!(last.is_before(&next));
    assert!(next.secs - last.secs <= 60);
    assert_eq!(next.nanos, 0);
    assert_eq!(next.secs % 60, 0);
}

#[test]
fn execute_with_the_clock_reports_the_spawn_outcome() {
    let now = local(2025, 1, 10, 8, 0, 0);
    let mut task = ScheduledTask::new_at(&task_config("T", "* * * * *"), None, &now).unwrap();
    let mut failing = Dispatcher::new(Recorder::new(false));
    assert!(matches!(task.execute("/bin", &mut failing), Err(SchedulerError::SpawnFailed { .. })));
    assert_eq!(task.last_run, None);
    let mut working = Dispatcher::new(Recorder::new(true));
    assert!(task.execute("/bin", &mut working).is_ok());
    assert!(task.last_run.is_some());
    assert_eq!(working.spawner().spawned.borrow()[0].2, "/bin");
}

#[test]
fn record_run_sets_both_instants() {
    let now = local(2025, 1, 10, 8, 0, 0);
    let mut task = ScheduledTask::new_at(&task_config("T", "0 6 * * *"), None, &now).unwrap();
    task.record_run(Instant::new(100, 5), Some(Instant::new(200, 0)));
    assert_eq!(task.state(), TaskState { last_run: Some(Instant::new(100, 5)), next_run: Some(Instant::new(200, 0)) });
    task.record_run(Instant::new(300, 0), None);
    assert_eq!(task.state(), TaskState { last_run: Some(Instant::new(300, 0)), next_run: None });
}

#[test]
fn cloned_task_keeps_evaluating_its_schedule() {
    let now = local(2025, 1, 10, 8, 0, 0);
    let task = ScheduledTask::new_at(&task_config("T", "0 6 * * *"), None, &now).unwrap();
    let mut copy = task.clone();
    assert_eq!(copy.name, task.name);
    assert_eq!(copy.next_run, task.next_run);
    copy.update_next_run_at(&local(2025, 1, 11, 6, 0, 0));
    assert_eq!(copy.next_run, Some(local(2025, 1, 12, 6, 0, 0)));
    assert_eq!(task.next_run, Some(local(2025, 1, 11, 6, 0, 0)));
    assert_eq!(task.get_schedule_description(), "0 6 * * *");
}

#[test]
fn instants_are_ordered_by_seconds_then_nanoseconds() {
    let a = Instant::new(10, 500);
    let b = Instant::new(10, 501);
    let c = Instant::new(11, 0);
    assert!(a.is_before(&b));
    assert!(b.is_before(&c));
    assert!(a.is_before(&c));
    assert!(!b.is_before(&a));
    assert!(!a.is_before(&a));
    assert!(a.is_at_or_after(&a));
    assert!(c.is_at_or_after(&a));
    assert!(!a.is_at_or_after(&b));
    assert!(Instant::new(-5, 0).is_before(&Instant::new(0, 0)));
    assert!(Instant::new(0, 0).is_in_calendar_range());
    assert!(Instant::new(253_402_300_799, 0).is_in_calendar_range());
    assert!(!Instant::new(253_402_300_800, 0).is_in_calendar_range());
    assert!(Instant::new(-62_135_596_800, 0).is_in_calendar_range());
    assert!(!Instant::new(-62_135_596_801, 0).is_in_calendar_range());
}

#[test]
fn attempt_that_started_is_recorded_and_one_that_did_not_is_reported() {
    let now = local(2025, 1, 10, 8, 0, 0);
    let mut task = ScheduledTask::new_at(&task_config("Daily Backup", "0 6 * * *"), None, &now).unwrap();
    let line = task.command_line();
    assert_eq!(line.program, "echo");
    assert_eq!(line.args, vec!["Running daily backup...".to_string()]);

    let before = task.state();
    let failed = task.conclude_attempt(now, Err("permission denied".to_string()), Some(Instant::new(1, 0)));
    match failed {
        Err(SchedulerError::SpawnFailed { task: name, reason }) => {
            assert_eq!(name, "Daily Backup");
            assert_eq!(reason, "permission denied");
        }
        other => panic!("unexpected result: {other:?}"),
    }
    assert_eq!(task.state(), before);

    let next = local(2025, 1, 11, 6, 0, 0);
    assert!(task.conclude_attempt(now, Ok(()), Some(next)).is_ok());
    assert_eq!(task.state(), TaskState { last_run: Some(now), next_run: Some(next) });
    assert!(task.conclude_attempt(next, Ok(()), None).is_ok());
    assert_eq!(task.state(), TaskState { last_run: Some(next), next_run: None });
}

#[test]
fn odd_schedules_are_accepted_or_rejected_without_a_panic() {
    let now = local(2025, 1, 10, 8, 0, 0);
    let odd = [
        "+", "#", "L", "W", "?", "* * * * +", "* * * * #", "* * * * 1#", "* * * * #1", "* * L * *",
        "* * W * *", "* * 15W * *", "* * * * 5L", "0 0 30 2 *", "é é é é é", "＊ ＊ ＊ ＊ ＊",
        "@daily", "@nonsense", "@", "1-", "-1 * * * *", "*/0 * * * *", "*/ * * * *", "1,,2 * * * *",
        "99999999999999999999 * * * *", "* * * * * * * *", "\u{0}", "ß * * * *", "* * * jan-",
        "0 0 0 1 1 * 2020", "0 0 0 1 1 * 99999",
    ];
    for pattern in odd {
        let mut scheduler = scheduler_with(Vec::new());
        let res = scheduler.add_task_at("t".to_string(), &task_config("T", pattern), &now);
        match res {
            Ok(()) => {
                let task = scheduler.get_task("t").unwrap();
                if let Some(next) = task.next_run {
                    assert!(now.is_before(&next), "pattern {pattern:?}");
                }
                let _ = task.get_schedule_description();
            }
            Err(e) => assert!(matches!(e, SchedulerError::InvalidSchedule { .. }), "pattern {pattern:?}"),
        }
    }
}

#[test]
fn evaluation_at_the_ends_of_the_calendar_does_not_panic() {
    let ends = [
        Instant::new(-62_135_596_800, 0),
        Instant::new(-62_135_596_800 + 86_400, 999_999_999),
        Instant::new(253_402_300_799, 0),
        Instant::new(253_402_300_799, 999_999_999),
        Instant::new(253_402_300_799, 1_999_999_999),
        Instant::new(59, 1_500_000_000),
        Instant::new(60, 1_500_000_000),
        Instant::new(0, u32::MAX),
        Instant::new(i64::MIN, 0),
        Instant::new(i64::MAX, u32::MAX),
    ];
    for now in ends {
        for pattern in ["* * * * *", "0 6 * * *", "* * * * * *", "0 0 29 2 *"] {
            let task = ScheduledTask::new_at(&task_config("T", pattern), None, &now).unwrap();
            if let Some(next) = task.next_run {
                assert!(now.is_before(&next), "pattern {pattern:?} at {now:?}");
            }
        }
    }
}

#[test]
fn schedule_description_is_the_normalised_expression_of_the_task() {
    let mut scheduler = scheduler_with(Vec::new());
    let now = local(2025, 1, 10, 8, 0, 0);
    scheduler.add_task_at("a".to_string(), &task_config("A", "  30 12 * * mon  "), &now).unwrap();
    scheduler.add_task_at("b".to_string(), &task_config("B", "@daily"), &now).unwrap();
    let a = scheduler.get_task("a").unwrap();
    assert_eq!(a.cron_schedule, "  30 12 * * mon  ");
    assert_eq!(a.get_schedule_description(), "30 12 * * 1");
    assert_eq!(a.clone().get_schedule_description(), "30 12 * * 1");
    let all = scheduler.get_all_tasks();
    assert_eq!(all[0].1.get_schedule_description(), "30 12 * * 1");
    assert_eq!(all[1].1.get_schedule_description(), scheduler.get_task("b").unwrap().get_schedule_description());
    assert_ne!(all[1].1.get_schedule_description(), "@daily");
}

#[test]
fn evaluation_from_a_time_that_the_calendar_does_not_know_gives_no_next_run() {
    for now in [
        Instant::new(60, 1_500_000_000),
        Instant::new(0, 2_000_000_000),
        Instant::new(59, 2_000_000_000),
        Instant::new(253_402_300_800, 0),
        Instant::new(-62_135_596_801, 0),
    ] {
        let task = ScheduledTask::new_at(&task_config("T", "* * * * *"), None, &now).unwrap();
        assert_eq!(task.next_run, None, "{now:?}");
    }
    // A leap second is a time like any other.
    let leap = Instant::new(59, 1_500_000_000);
    let task = ScheduledTask::new_at(&task_config("T", "* * * * * *"), None, &leap).unwrap();
    assert_eq!(task.next_run, Some(Instant::new(60, 0)));
}
