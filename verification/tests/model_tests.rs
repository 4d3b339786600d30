use consensus_provider::api_server::{ProviderStatusInfo, ProviderUpdate, ServerState, MAX_TASK_HISTORY};
use consensus_provider::cheating::{CheatingMode, CheatingWeights, SmartCheatingConfig};
use consensus_provider::clock::{seconds_between, seconds_since, utc_now, Timestamp};
use consensus_provider::consensus_client::{extract_task_from_agreement, ClientConfig, ConsensusStats};
use consensus_provider::provider_node::{can_take_task, node_status, status_after_task, NodeStats};
use consensus_provider::types::{ConsensusTask, ProviderStatus, ResourceUsage, SystemStatus, TaskResult, TaskType};
use consensus_provider::version;

fn result(task: &str, provider: &str, ms: u64, ok: bool) -> TaskResult {
    if ok {
        TaskResult::success(task.to_string(), provider.to_string(), vec![], ms, ResourceUsage::default())
    } else {
        TaskResult::failure(task.to_string(), provider.to_string(), "boom".to_string(), ms, ResourceUsage::default())
    }
}

#[test]
fn test_provider_status_info() {
    let info = ProviderStatusInfo::new("test-provider", "Test Provider", 8.0f64.to_bits(), 4);

    assert_eq!(info.provider_id, "test-provider");
    assert_eq!(info.name, "Test Provider");
    assert_eq!(f64::from_bits(info.gpu_memory_gb), 8.0);
    assert_eq!(info.cpu_cores, 4);
    assert_eq!(info.active_tasks, 0);
    assert!(matches!(info.status, ProviderStatus::Starting));
}

#[test]
fn task_type_names_and_complexity() {
    let m = TaskType::MatrixMultiplication { size: 10 };
    let v = TaskType::VectorAddition { size: 10 };
    let s = TaskType::SimpleInference { model_size: 10 };
    assert_eq!(m.as_str(), "matrix_multiplication");
    assert_eq!(v.as_str(), "vector_addition");
    assert_eq!(s.as_str(), "simple_inference");
    assert_eq!(m.estimated_complexity(), 1000);
    assert_eq!(v.estimated_complexity(), 10);
    assert_eq!(s.estimated_complexity(), 100);
    assert_eq!(TaskType::MatrixMultiplication { size: 0 }.estimated_complexity(), 0);
}

#[test]
fn statuses_and_acceptance() {
    let all = [
        ProviderStatus::Starting,
        ProviderStatus::Running,
        ProviderStatus::Busy,
        ProviderStatus::Paused,
        ProviderStatus::Error { message: "x".to_string() },
        ProviderStatus::Stopped,
    ];
    let names: Vec<&str> = all.iter().map(|s| s.as_str()).collect();
    assert_eq!(names, vec!["starting", "running", "busy", "paused", "error", "stopped"]);
    for s in all.iter() {
        assert_eq!(s.can_accept_tasks(), s.as_str() == "running");
    }
    assert_eq!(SystemStatus::Healthy.as_str(), "healthy");
    assert_eq!(SystemStatus::Warning.as_str(), "warning");
    assert_eq!(SystemStatus::Error.as_str(), "error");
    assert_eq!(SystemStatus::Critical.as_str(), "critical");
}

#[test]
fn node_status_and_capacity() {
    assert!(matches!(node_status(false, 3), ProviderStatus::Stopped));
    assert!(matches!(node_status(true, 1), ProviderStatus::Busy));
    assert!(matches!(node_status(true, 0), ProviderStatus::Running));
    assert!(node_status(true, 0).can_accept_tasks());
    assert!(!node_status(true, 2).can_accept_tasks());
    assert!(can_take_task(2, 3));
    assert!(!can_take_task(3, 3));
    let info = status_after_task("p1", "Provider", 0, 7, 8.0f64.to_bits(), 4);
    assert_eq!(info.active_tasks, 0);
    assert_eq!(info.total_completed_tasks, 7);
    assert!(matches!(info.status, ProviderStatus::Running));
    assert_eq!(status_after_task("p1", "Provider", 3, 7, 0, 4).active_tasks, 2);
}

#[test]
fn node_stats_counting() {
    let mut stats = NodeStats::new("test-provider");
    assert_eq!(stats.node_id, "test-provider");
    assert_eq!(stats.total_tasks_completed, 0);
    assert!(stats.last_task_completed_at.is_none());
    stats.record_task_result(true, 100);
    stats.record_task_result(false, 250);
    stats.record_task_result(true, 50);
    assert_eq!(stats.total_tasks_completed, 3);
    assert_eq!(stats.successful_tasks, 2);
    assert_eq!(stats.failed_tasks, 1);
    assert_eq!(stats.total_execution_time_ms, 400);
    assert_eq!(stats.total_tasks_completed, stats.successful_tasks + stats.failed_tasks);
    assert!(stats.last_task_completed_at.is_some());
}

#[test]
fn server_state_read_after_write() {
    let mut state = ServerState::new(Timestamp::from_parts(1, 0).unwrap());
    assert!(state.get_provider("p1").is_none());
    state.update_provider_status("p1".to_string(), ProviderStatusInfo::new("p1", "One", 0, 1));
    state.update_provider_status("p2".to_string(), ProviderStatusInfo::new("p2", "Two", 0, 2));
    let mut replaced = ProviderStatusInfo::new("p1", "One again", 0, 8);
    replaced.status = ProviderStatus::Running;
    state.update_provider_status("p1".to_string(), replaced);
    assert_eq!(state.providers().len(), 2);
    assert_eq!(state.get_provider("p1").unwrap().name, "One again");
    assert_eq!(state.get_provider("p2").unwrap().cpu_cores, 2);
    let counts = state.count_providers_by_status();
    assert_eq!(counts, vec![("starting".to_string(), 1), ("running".to_string(), 1)]);
    let rename = ProviderUpdate {
        name: Some("Renamed".to_string()),
        status: Some(ProviderStatus::Paused),
        gpu_memory_gb: None,
        cpu_cores: None,
    };
    assert!(state.update_provider("p2", rename));
    assert_eq!(state.get_provider("p2").unwrap().name, "Renamed");
    assert!(matches!(state.get_provider("p2").unwrap().status, ProviderStatus::Paused));
    assert_eq!(state.get_provider("p2").unwrap().cpu_cores, 2);
    let resize = ProviderUpdate {
        name: Some("新名称".to_string()),
        status: None,
        gpu_memory_gb: Some(16.0f64.to_bits()),
        cpu_cores: Some(8),
    };
    assert!(state.update_provider("p2", resize));
    let p2 = state.get_provider("p2").unwrap();
    assert_eq!(p2.name, "新名称");
    assert_eq!(f64::from_bits(p2.gpu_memory_gb), 16.0);
    assert_eq!(p2.cpu_cores, 8);
    assert!(matches!(p2.status, ProviderStatus::Paused));
    assert_eq!(state.get_provider("p1").unwrap().cpu_cores, 8);
    assert_eq!(state.get_provider("p1").unwrap().name, "One again");
    let nothing = ProviderUpdate { name: None, status: None, gpu_memory_gb: Some(1), cpu_cores: Some(1) };
    assert!(!state.update_provider("p3", nothing));
    assert!(state.get_provider("p3").is_none());
    assert_eq!(state.start_time(), Timestamp::from_parts(1, 0).unwrap());
}

#[test]
fn history_keeps_the_latest_results() {
    let mut state = ServerState::new(utc_now());
    for k in 0..1005u64 {
        state.add_task_result(result(&format!("t{}", k), "p", k, true));
    }
    let history = state.task_history();
    assert_eq!(history.len(), MAX_TASK_HISTORY);
    assert_eq!(history[0].task_id, "t5");
    assert_eq!(history[MAX_TASK_HISTORY - 1].task_id, "t1004");
    for (i, r) in history.iter().enumerate() {
        assert_eq!(r.execution_time_ms, i as u64 + 5);
    }
    let mut small = ServerState::new(utc_now());
    for k in 0..3u64 {
        small.add_task_result(result(&format!("s{}", k), "p", k, false));
    }
    let ids: Vec<&str> = small.task_history().iter().map(|r| r.task_id.as_str()).collect();
    assert_eq!(ids, vec!["s0", "s1", "s2"]);
}

#[test]
fn server_state_history_is_bounded() {
    let mut state = ServerState::new(utc_now());
    for i in 0..(MAX_TASK_HISTORY + 5) {
        state.add_task_result(result(&format!("t{}", i), if i % 2 == 0 { "a" } else { "b" }, 1, i % 3 != 0));
    }
    assert_eq!(state.task_history().len(), MAX_TASK_HISTORY);
    assert_eq!(state.task_history()[0].task_id, "t5");
    assert_eq!(state.task_history()[MAX_TASK_HISTORY - 1].task_id, format!("t{}", MAX_TASK_HISTORY + 4));
    assert_eq!(state.total_execution_time_ms(), MAX_TASK_HISTORY as u64);
    let ok = state.count_tasks_with_outcome(true);
    let failed = state.count_tasks_with_outcome(false);
    assert_eq!(ok + failed, MAX_TASK_HISTORY);
    assert_eq!(state.provider_tasks("a").len() + state.provider_tasks("b").len(), MAX_TASK_HISTORY);
    assert!(state.provider_tasks("c").is_empty());
}

#[test]
fn server_state_stats_and_reset() {
    let mut state = ServerState::new(utc_now());
    state.add_task_result(result("t1", "p", 100, true));
    state.add_task_result(result("t2", "p", 200, true));
    state.add_task_result(result("t3", "p", 300, false));
    assert_eq!(state.total_execution_time_ms(), 600);
    let stats = ConsensusStats {
        total_providers: 10,
        active_providers: 8,
        total_tasks: 1000,
        completed_tasks: 950,
        consensus_success_rate: 0.92f64.to_bits(),
        avg_task_execution_time_ms: 2450.0f64.to_bits(),
        detected_cheating_events: 5,
        last_updated: utc_now(),
    };
    state.update_consensus_stats(&stats);
    assert_eq!(state.consensus_stats().unwrap().completed_tasks, 950);
    let mut info = ProviderStatusInfo::new("p", "P", 0, 1);
    info.active_tasks = 2;
    info.total_completed_tasks = 9;
    state.update_provider_status("p".to_string(), info);
    state.reset_stats();
    assert!(state.task_history().is_empty());
    assert!(state.consensus_stats().is_none());
    assert_eq!(state.get_provider("p").unwrap().active_tasks, 0);
    assert_eq!(state.get_provider("p").unwrap().total_completed_tasks, 0);
}

#[test]
fn tasks_from_agreements() {
    assert!(extract_task_from_agreement(None, Some(4), None).is_none());
    let t = extract_task_from_agreement(Some(Some("vector_addition")), None, None).unwrap();
    assert_eq!(t.task_type, TaskType::VectorAddition { size: 3 });
    assert_eq!(t.data.len(), 48);
    assert_eq!(f64::from_le_bytes(t.data[40..48].try_into().unwrap()), 6.0);
    assert_eq!(t.timeout_seconds, 300);
    assert_eq!(t.id.len(), 36);
    let t = extract_task_from_agreement(Some(None), None, None).unwrap();
    assert_eq!(t.task_type, TaskType::MatrixMultiplication { size: 2 });
    assert_eq!(t.data.len(), 64);
    let t = extract_task_from_agreement(Some(Some("simple_inference")), Some(9), Some(7)).unwrap();
    assert_eq!(t.task_type, TaskType::SimpleInference { model_size: 7 });
    assert_eq!(t.data.len(), 400);
    let t = extract_task_from_agreement(Some(Some("sorting")), Some(9), None).unwrap();
    assert_eq!(t.task_type, TaskType::MatrixMultiplication { size: 2 });
    let t = extract_task_from_agreement(Some(Some("matrix_multiplication")), Some(5), None).unwrap();
    assert_eq!(t.task_type, TaskType::MatrixMultiplication { size: 5 });
}

#[test]
fn tasks_expire_by_elapsed_time() {
    let task = ConsensusTask::new(TaskType::VectorAddition { size: 1 }, vec![], 60);
    assert_eq!(task.priority, 5);
    assert!(task.metadata.is_empty());
    assert!(!task.is_expired_after(59));
    assert!(task.is_expired_after(60));
    assert!(task.is_expired_after(-1));
    assert_eq!(task.remaining_seconds_after(10), 50);
    assert_eq!(task.remaining_seconds_after(70), 0);
    assert_eq!(task.remaining_seconds_after(-5), 65);
    let other = ConsensusTask::new(TaskType::VectorAddition { size: 1 }, vec![], 60);
    assert_ne!(task.id, other.id);
    assert!(task.created_at.secs() > 1_600_000_000);
    let id: Vec<char> = task.id.chars().collect();
    assert_eq!(id.len(), 36);
    for (i, c) in id.iter().enumerate() {
        if i == 8 || i == 13 || i == 18 || i == 23 {
            assert_eq!(*c, '-');
        } else {
            assert!(c.is_ascii_digit() || ('a'..='f').contains(c));
        }
    }
    assert_eq!(id[14], '4');
    assert!(matches!(id[19], '8' | '9' | 'a' | 'b'));
}

#[test]
fn clock_readings_and_elapsed_time() {
    let task = ConsensusTask::new(TaskType::VectorAddition { size: 1 }, vec![], 60);
    assert!(!task.is_expired());
    let left = task.remaining_seconds();
    assert!(left == 60 || left == 59);
    let expired = ConsensusTask::new(TaskType::VectorAddition { size: 1 }, vec![], 0);
    assert!(expired.is_expired());
    assert_eq!(expired.remaining_seconds(), 0);
    let stats = NodeStats::new("n1");
    assert!(stats.uptime_seconds() >= 0);
    let a = Timestamp::from_parts(100, 0).unwrap();
    let b = Timestamp::from_parts(40, 500_000_000).unwrap();
    assert_eq!(seconds_between(a, b), 59);
    assert_eq!(seconds_between(b, a), -59);
    assert_eq!(a.secs(), 100);
    assert_eq!(b.nanos(), 500_000_000);
    assert!(Timestamp::from_parts(0, 2_000_000_000).is_none());
    assert!(Timestamp::from_parts(i64::MAX, 0).is_none());
    assert!(seconds_since(utc_now()) >= 0);
    assert!(a.is_after(&b));
    assert!(!b.is_after(&a));
    assert!(!a.is_after(&a));
    let a_later = Timestamp::from_parts(100, 1).unwrap();
    assert!(a_later.is_after(&a));
}

#[test]
fn defaults_of_small_types() {
    assert_eq!(version(), "0.1.0");
    let c = ClientConfig::default();
    assert_eq!(c.server_endpoint, "http://localhost:7465");
    assert_eq!(c.max_retries, 3);
    let w = CheatingWeights::default();
    assert_eq!(f64::from_bits(w.delay), 1.0);
    assert_eq!(f64::from_bits(w.early_termination), 0.5);
    let s = SmartCheatingConfig::default();
    assert_eq!(f64::from_bits(s.cheating_probability), 0.7);
    assert_eq!(s.max_delay_ms, 8000);
    assert_eq!(CheatingMode::Mixed { weights: w }.description(), "混合作弊");
    assert_eq!(CheatingMode::Smart { config: s }.description(), "智能作弊");
    let u = ResourceUsage::default();
    assert_eq!(f64::from_bits(u.memory_usage_mb), 0.0);
    assert!(u.gpu_memory_usage_mb.is_none());
}
