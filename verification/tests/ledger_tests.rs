use consensus_provider::clock::Timestamp;
use consensus_provider::consensus_client::{activity_result, ClientLedger};
use consensus_provider::types::{ConsensusTask, ResourceUsage, TaskResult, TaskType};

fn task() -> ConsensusTask {
    ConsensusTask::new(TaskType::VectorAddition { size: 1 }, vec![0; 16], 300)
}

#[test]
fn polled_tasks_are_submitted_to_their_activity() {
    let mut ledger = ClientLedger::new();
    assert_eq!(ledger.pending_count(), 0);
    assert_eq!(ledger.completed_count(), 0);
    let t1 = task();
    let t2 = task();
    let id1 = t1.id.clone();
    let id2 = t2.id.clone();
    ledger.record_task("agreement-1".to_string(), "activity-1".to_string(), t1);
    ledger.record_task("agreement-2".to_string(), "activity-2".to_string(), t2);
    assert_eq!(ledger.pending_count(), 2);
    assert_eq!(ledger.activity_for_task(&id1), Some("activity-1".to_string()));
    assert_eq!(ledger.activity_for_task(&id2), Some("activity-2".to_string()));
    assert_eq!(ledger.activity_for_task("agreement-1"), None);
    let r = TaskResult::success(id1.clone(), "p".to_string(), vec![1, 2], 7, ResourceUsage::default());
    ledger.complete_task(&id1, r);
    assert_eq!(ledger.pending_count(), 1);
    assert_eq!(ledger.completed_count(), 1);
    assert_eq!(ledger.activity_for_task(&id1), Some("activity-1".to_string()));
    ledger.complete_task("unknown", TaskResult::success("unknown".to_string(), "p".to_string(), vec![], 1, ResourceUsage::default()));
    assert_eq!(ledger.pending_count(), 1);
    assert_eq!(ledger.completed_count(), 2);
}

#[test]
fn recording_a_task_again_replaces_its_activity() {
    let mut ledger = ClientLedger::new();
    let t = task();
    let id = t.id.clone();
    ledger.record_task("a".to_string(), "first".to_string(), t.clone());
    ledger.record_task("b".to_string(), "second".to_string(), t);
    assert_eq!(ledger.pending_count(), 1);
    assert_eq!(ledger.activity_for_task(&id), Some("second".to_string()));
}

#[test]
fn cleanup_keeps_results_completed_after_the_cutoff() {
    let mut ledger = ClientLedger::new();
    let old = TaskResult::success("old".to_string(), "p".to_string(), vec![], 1, ResourceUsage::default());
    ledger.complete_task("old", old);
    let future_cutoff = Timestamp::from_parts(4_000_000_000, 0).unwrap();
    let past_cutoff = Timestamp::from_parts(1_000, 0).unwrap();
    assert_eq!(ledger.cleanup_expired(&past_cutoff), 0);
    assert_eq!(ledger.completed_count(), 1);
    assert_eq!(ledger.cleanup_expired(&future_cutoff), 1);
    assert_eq!(ledger.completed_count(), 0);
}

#[test]
fn submissions_carry_the_result_text() {
    let ok = TaskResult::success("t".to_string(), "p".to_string(), vec![9, 8, 7], 150, ResourceUsage::default());
    let (bytes, stdout, stderr) = activity_result(&ok);
    assert_eq!(bytes, vec![9, 8, 7]);
    assert_eq!(stdout, "任务执行成功，耗时: 150ms");
    assert_eq!(stderr, None);
    let failed = TaskResult::failure("t".to_string(), "p".to_string(), "boom".to_string(), 0, ResourceUsage::default());
    let (bytes, stdout, stderr) = activity_result(&failed);
    assert!(bytes.is_empty());
    assert_eq!(stdout, "任务执行成功，耗时: 0ms");
    assert_eq!(stderr, Some("boom".to_string()));
    let mut silent = failed.clone();
    silent.error_message = None;
    assert_eq!(activity_result(&silent).2, Some(String::new()));
}
