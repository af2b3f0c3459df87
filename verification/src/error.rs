//! What the scheduler reports when it cannot do what it was asked.

use vstd::prelude::*;

verus! {

/// Why a request to the scheduler failed.
#[derive(Debug)]
pub enum SchedulerError {
    /// The cron expression of a task does not parse; the task was not added.
    InvalidSchedule { schedule: String, reason: String },
    /// No task is registered under the key.
    TaskNotFound { key: String },
    /// The operating system refused to start the task's command.
    SpawnFailed { task: String, reason: String },
}

impl SchedulerError {
    /// The error says that the cron expression `schedule` does not parse.
    pub open spec fn rejects_schedule(self, schedule: Seq<char>) -> bool {
        self matches SchedulerError::InvalidSchedule { schedule: s, .. } && s@ == schedule
    }

    /// The error says that no task is registered under `key`.
    pub open spec fn misses_task(self, key: Seq<char>) -> bool {
        self matches SchedulerError::TaskNotFound { key: k } && k@ == key
    }

    /// The error says that the command of the task named `task` did not start.
    pub open spec fn names_failed_task(self, task: Seq<char>) -> bool {
        self matches SchedulerError::SpawnFailed { task: t, .. } && t@ == task
    }

    /// The error says that the command of the task named `task` did not start,
    /// for the reason `reason`.
    pub open spec fn reports_failed_start(self, task: Seq<char>, reason: Seq<char>) -> bool {
        self matches SchedulerError::SpawnFailed { task: t, reason: r } && t@ == task && r@ == reason
    }

    /// The error as a sentence.
    pub open spec fn spec_message(&self) -> Seq<char> {
        match self {
            SchedulerError::InvalidSchedule { schedule, reason } => {
                "Failed to parse cron schedule '"@ + schedule@ + "': "@ + reason@
            },
            SchedulerError::TaskNotFound { key } => "Task '"@ + key@ + "' not found"@,
            SchedulerError::SpawnFailed { task, reason } => {
                "Failed to execute task '"@ + task@ + "': "@ + reason@
            },
        }
    }

    /// The error as a sentence, for a log line or a dialog.
    pub fn message(&self) -> (text: String)
        ensures
            text@ == self.spec_message(),
    {
        match self {
            SchedulerError::InvalidSchedule { schedule, reason } => {
                let mut text = String::from_str("Failed to parse cron schedule '");
                text.append(schedule.as_str());
                text.append("': ");
                text.append(reason.as_str());
                text
            },
            SchedulerError::TaskNotFound { key } => {
                let mut text = String::from_str("Task '");
                text.append(key.as_str());
                text.append("' not found");
                text
            },
            SchedulerError::SpawnFailed { task, reason } => {
                let mut text = String::from_str("Failed to execute task '");
                text.append(task.as_str());
                text.append("': ");
                text.append(reason.as_str());
                text
            },
        }
    }
}

} // verus!
