//! The task status summary behind the status-bar indicator: folds the
//! states of the open task tabs into the one color the indicator shows.

use vstd::prelude::*;

verus! {

/// One open task tab's state, as far as the summary cares.
#[derive(Debug, Clone, Copy, PartialEq, Eq, Structural)]
pub enum TaskState {
    Unscheduled,
    Running,
    Completed { success: bool },
}

/// The summary itself: a failure beats everything, a still-running task
/// beats success, and with no tasks open there is nothing to show.
#[derive(Debug, Clone, Copy, PartialEq, Eq, Structural)]
pub enum TaskStatus {
    Failed,
    Running,
    Succeeded,
}

/// The summary owed for a list of task states: `Failed` when any task
/// failed, else `Running` when any still runs, else `Succeeded` when any
/// finished well, else nothing.
pub open spec fn spec_current_status(states: Seq<TaskState>) -> Option<TaskStatus> {
    if exists|i: int|
        0 <= i < states.len() && #[trigger] states[i] == (TaskState::Completed {
            success: false,
        }) {
        Some(TaskStatus::Failed)
    } else if exists|i: int| 0 <= i < states.len() && #[trigger] states[i] == TaskState::Running {
        Some(TaskStatus::Running)
    } else if exists|i: int|
        0 <= i < states.len() && #[trigger] states[i] == (TaskState::Completed {
            success: true,
        }) {
        Some(TaskStatus::Succeeded)
    } else {
        None
    }
}

/// Fold the open task tabs' states into the summary.
#[verifier::loop_isolation(false)]
pub fn current_status(states: &Vec<TaskState>) -> (r: Option<TaskStatus>)
    ensures
        r == spec_current_status(states@),
{
    let mut status: Option<TaskStatus> = None;
    let mut i: usize = 0;
    while i < states.len()
        invariant
            i <= states@.len(),
            forall|k: int|
                0 <= k < i ==> #[trigger] states@[k] != (TaskState::Completed {
                    success: false,
                }),
            status == (if exists|k: int|
                0 <= k < i && #[trigger] states@[k] == TaskState::Running {
                Some(TaskStatus::Running)
            } else if exists|k: int|
                0 <= k < i && #[trigger] states@[k] == (TaskState::Completed {
                success: true,
            }) {
                Some(TaskStatus::Succeeded)
            } else {
                None::<TaskStatus>
            }),
        decreases states@.len() - i,
    {
        match states[i] {
            TaskState::Running => {
                status = Some(TaskStatus::Running);
            },
            TaskState::Completed { success } => {
                if !success {
                    proof {
                        assert(states@[i as int] == (TaskState::Completed { success: false }));
                    }
                    return Some(TaskStatus::Failed);
                }
                if status.is_none() {
                    status = Some(TaskStatus::Succeeded);
                }
            },
            TaskState::Unscheduled => {},
        }
        i += 1;
    }
    status
}

} // verus!
