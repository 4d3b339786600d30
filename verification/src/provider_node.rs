//! The provider node's bookkeeping: its execution statistics and the status
//! it reports.  Running the node's polling, health and statistics loops is
//! done by the application.

use vstd::prelude::*;
use crate::api_server::ProviderStatusInfo;
use crate::clock::{chrono_accepts, elapsed_from, seconds_since, utc_now, Timestamp};
use crate::types::ProviderStatus;

verus! {

/// Execution statistics of one node.
#[derive(Clone, Debug)]
pub struct NodeStats {
    pub node_id: String,
    pub total_tasks_completed: usize,
    pub successful_tasks: usize,
    pub failed_tasks: usize,
    pub total_execution_time_ms: u64,
    pub last_task_completed_at: Option<Timestamp>,
    pub started_at: Timestamp,
}

impl NodeStats {
    /// The counters agree: every completed task either succeeded or failed.
    pub open spec fn consistent(&self) -> bool {
        self.total_tasks_completed == self.successful_tasks + self.failed_tasks
    }

    /// Fresh statistics for a node started now.
    pub fn new(node_id: &str) -> (s: Self)
        ensures
            s.node_id@ == node_id@,
            s.total_tasks_completed == 0,
            s.successful_tasks == 0,
            s.failed_tasks == 0,
            s.total_execution_time_ms == 0,
            s.last_task_completed_at is None,
            s.consistent(),
    {
        NodeStats {
            node_id: String::from_str(node_id),
            total_tasks_completed: 0,
            successful_tasks: 0,
            failed_tasks: 0,
            total_execution_time_ms: 0,
            last_task_completed_at: None,
            started_at: utc_now(),
        }
    }

    /// Counts a completed task: one more completed task, one more success or
    /// failure, its execution time added, and the completion time set to now.
    /// The counters must not overflow.
    pub fn record_task_result(&mut self, success: bool, execution_time_ms: u64)
        requires
            old(self).total_tasks_completed < usize::MAX,
            old(self).successful_tasks < usize::MAX,
            old(self).failed_tasks < usize::MAX,
            old(self).total_execution_time_ms + execution_time_ms <= u64::MAX,
        ensures
            final(self).node_id == old(self).node_id,
            final(self).started_at == old(self).started_at,
            final(self).total_tasks_completed == old(self).total_tasks_completed + 1,
            final(self).successful_tasks == old(self).successful_tasks + if success { 1int } else { 0int },
            final(self).failed_tasks == old(self).failed_tasks + if success { 0int } else { 1int },
            final(self).total_execution_time_ms == old(self).total_execution_time_ms + execution_time_ms,
            final(self).last_task_completed_at is Some,
            old(self).consistent() ==> final(self).consistent(),
    {
        self.total_tasks_completed += 1;
        if success {
            self.successful_tasks += 1;
        } else {
            self.failed_tasks += 1;
        }
        self.total_execution_time_ms += execution_time_ms;
        self.last_task_completed_at = Some(utc_now());
    }
}

impl NodeStats {
    /// Whole seconds since the node started, read from the clock.
    pub fn uptime_seconds(&self) -> (r: i64)
        ensures
            exists|now: Timestamp| chrono_accepts(now@.0, now@.1) && r == elapsed_from(now, self.started_at),
    {
        seconds_since(self.started_at)
    }
}

/// The status a node reports: stopped when not running, busy while it has
/// active tasks, running otherwise.
pub open spec fn node_status_of(running: bool, active_tasks: usize) -> ProviderStatus {
    if !running {
        ProviderStatus::Stopped
    } else if active_tasks > 0 {
        ProviderStatus::Busy
    } else {
        ProviderStatus::Running
    }
}

/// The status a node reports for its running flag and number of active tasks.
pub fn node_status(running: bool, active_tasks: usize) -> (s: ProviderStatus)
    ensures
        s == node_status_of(running, active_tasks),
{
    if !running {
        ProviderStatus::Stopped
    } else if active_tasks > 0 {
        ProviderStatus::Busy
    } else {
        ProviderStatus::Running
    }
}

/// A node accepts new tasks exactly when it is running and idle.
pub proof fn lemma_node_accepts_tasks_when_idle(running: bool, active_tasks: usize)
    ensures
        (node_status_of(running, active_tasks) is Running) == (running && active_tasks == 0),
{
}

/// A node that is not running reports stopped, whatever its tasks; a
/// running node reports busy exactly while it has active tasks, and running
/// when it has none.
pub proof fn lemma_node_status_reports(running: bool, active_tasks: usize)
    ensures
        !running ==> node_status_of(running, active_tasks) is Stopped,
        running && active_tasks > 0 ==> node_status_of(running, active_tasks) is Busy,
        running && active_tasks == 0 ==> node_status_of(running, active_tasks) is Running,
{
}

/// Whether the polling loop may take another task: fewer tasks are active
/// than the node's limit.
pub fn can_take_task(active_tasks: usize, max_active_tasks: usize) -> (b: bool)
    ensures
        b == (active_tasks < max_active_tasks),
{
    active_tasks < max_active_tasks
}

/// The status a node publishes after finishing a task: running, with one
/// fewer active task than `active_tasks` (the finished one still counted,
/// never below zero), `total_completed_tasks` completed, no cheating
/// statistics, updated now.
pub fn status_after_task(
    node_id: &str,
    name: &str,
    active_tasks: usize,
    total_completed_tasks: usize,
    gpu_memory_gb: u64,
    cpu_cores: u32,
) -> (i: ProviderStatusInfo)
    ensures
        i.provider_id@ == node_id@,
        i.name@ == name@,
        i.status is Running,
        i.active_tasks == (if active_tasks > 0 { active_tasks - 1 } else { 0 }),
        i.total_completed_tasks == total_completed_tasks,
        i.cheating_stats is None,
        i.gpu_memory_gb == gpu_memory_gb,
        i.cpu_cores == cpu_cores,
{
    ProviderStatusInfo {
        provider_id: String::from_str(node_id),
        name: String::from_str(name),
        status: ProviderStatus::Running,
        active_tasks: if active_tasks > 0 { active_tasks - 1 } else { 0 },
        total_completed_tasks,
        cheating_stats: None,
        gpu_memory_gb,
        cpu_cores,
        last_updated: utc_now(),
    }
}

} // verus!
