use consensus_provider::cheating::{CheatingMode, CheatingSimulator};
use consensus_provider::task_executor::{finish_execution, ExecutionResult, PayloadError, TaskExecution, TaskExecutor};
use consensus_provider::types::{ConsensusTask, ResourceUsage, TaskResult, TaskType};

fn le(values: &[f64]) -> Vec<u8> {
    let mut data = Vec::new();
    for v in values {
        data.extend_from_slice(&v.to_le_bytes());
    }
    data
}

#[test]
fn test_data_parsing() {
    let executor = TaskExecutor::new();

    let mut data = Vec::new();
    data.extend_from_slice(&1.0f64.to_le_bytes());
    data.extend_from_slice(&2.0f64.to_le_bytes());
    data.extend_from_slice(&3.0f64.to_le_bytes());

    let vector = executor.parse_vector_from_bytes(&data).unwrap();
    assert_eq!(vector.len(), 3);
    assert_eq!(f64::from_bits(vector[0]), 1.0);
    assert_eq!(f64::from_bits(vector[1]), 2.0);
    assert_eq!(f64::from_bits(vector[2]), 3.0);
}

#[test]
fn test_generate_wrong_result() {
    let original = vec![1, 2, 3, 4, 5];
    let wrong = CheatingSimulator::generate_wrong_result(&original);
    assert_eq!(wrong.len(), original.len());
    // the result should differ
    assert_ne!(wrong, original);
}

#[test]
fn wrong_results_differ_in_at_most_three_bytes() {
    let correct: Vec<u8> = (0..64).collect();
    for _ in 0..50 {
        let wrong = CheatingSimulator::generate_wrong_result(&correct);
        assert_eq!(wrong.len(), 64);
        let changed = wrong.iter().zip(correct.iter()).filter(|(a, b)| a != b).count();
        assert!(changed >= 1 && changed <= 3);
    }
    assert!(CheatingSimulator::generate_wrong_result(&[]).is_empty());
    for _ in 0..200 {
        assert_ne!(CheatingSimulator::generate_wrong_result(&[7]), vec![7u8]);
        assert_ne!(CheatingSimulator::generate_wrong_result(&[255]), vec![255u8]);
    }
}

#[test]
fn cheating_results_are_corrupted_or_aborted() {
    let usage = ResourceUsage { cpu_usage_percent: 1, memory_usage_mb: 2, gpu_memory_usage_mb: Some(3), network_usage_kb: 4 };
    let honest = ExecutionResult { data: vec![1, 2, 3, 4], success: true, error: None, resource_usage: ResourceUsage::default() };
    let corrupted = honest.corrupted(usage);
    assert!(corrupted.success);
    assert!(corrupted.error.is_none());
    assert_eq!(corrupted.resource_usage, usage);
    assert_eq!(corrupted.data.len(), 4);
    assert_ne!(corrupted.data, honest.data);
    let aborted = TaskResult::early_termination("t1".to_string(), "p1".to_string(), 12);
    assert!(!aborted.success);
    assert!(aborted.result.is_empty());
    assert_eq!(aborted.error_message.as_deref(), Some("任务被提前终止（模拟作弊行为）"));
    assert_eq!(aborted.execution_time_ms, 12);
    assert_eq!(aborted.resource_usage, ResourceUsage::default());
}

#[test]
fn random_delay_stays_in_range() {
    for _ in 0..100 {
        let ms = CheatingSimulator::random_delay(10, 50);
        assert!((10..=50).contains(&ms));
    }
    assert_eq!(CheatingSimulator::random_delay(7, 7), 7);
}

#[test]
fn matrix_payload_is_split_into_two_row_major_operands() {
    let executor = TaskExecutor::new();
    let data = le(&[1.0, 2.0, 3.0, 4.0, 5.0, 6.0, 7.0, 8.0]);
    let (a, b) = executor.parse_matrices_from_bytes(&data, 2).unwrap();
    let a: Vec<f64> = a.into_iter().map(f64::from_bits).collect();
    let b: Vec<f64> = b.into_iter().map(f64::from_bits).collect();
    assert_eq!(a, vec![1.0, 2.0, 3.0, 4.0]);
    assert_eq!(b, vec![5.0, 6.0, 7.0, 8.0]);
    assert_eq!(
        executor.parse_matrices_from_bytes(&data[..63], 2).unwrap_err(),
        PayloadError::DataSizeMismatch { expected: 64, actual: 63 }
    );
    assert_eq!(
        executor.bytes_to_matrix(&data, 3).unwrap_err(),
        PayloadError::MatrixSizeMismatch { expected: 72, actual: 64 }
    );
    assert_eq!(executor.bytes_to_matrix(&data[..32], 2).unwrap().len(), 4);
}

#[test]
fn vector_payloads_and_errors() {
    let executor = TaskExecutor::new();
    let data = le(&[1.0, 2.0, 3.0, 4.0, 5.0, 6.0]);
    let (a, b) = executor.parse_vectors_from_bytes(&data, 3).unwrap();
    assert_eq!(a.into_iter().map(f64::from_bits).collect::<Vec<_>>(), vec![1.0, 2.0, 3.0]);
    assert_eq!(b.into_iter().map(f64::from_bits).collect::<Vec<_>>(), vec![4.0, 5.0, 6.0]);
    assert_eq!(
        executor.parse_vectors_from_bytes(&vec![0; 32], 3).unwrap_err(),
        PayloadError::DataSizeMismatch { expected: 48, actual: 32 }
    );
    assert_eq!(
        executor.bytes_to_vector(&[1, 2, 3]).unwrap_err(),
        PayloadError::VectorLengthNotMultipleOfEight { actual: 3 }
    );
    assert!(executor.bytes_to_vector(&[]).unwrap().is_empty());
}

#[test]
fn encoding_and_decoding_round_trip() {
    let executor = TaskExecutor::new();
    let words = vec![0u64, 1, 0x0102030405060708, u64::MAX, 19.0f64.to_bits()];
    let bytes = executor.serialize_vector_to_bytes(&words).unwrap();
    assert_eq!(bytes.len(), 40);
    assert_eq!(&bytes[16..24], &[8, 7, 6, 5, 4, 3, 2, 1]);
    assert_eq!(executor.bytes_to_vector(&bytes).unwrap(), words);
    let m = executor.serialize_matrix_to_bytes(&[19.0f64.to_bits(), 22.0f64.to_bits()]).unwrap();
    assert_eq!(m, le(&[19.0, 22.0]));
    let raw: Vec<u8> = (0..=255).collect();
    let again = executor.serialize_vector_to_bytes(&executor.bytes_to_vector(&raw).unwrap()).unwrap();
    assert_eq!(again, raw);
}

#[test]
fn execution_results_become_task_results() {
    let ok = ExecutionResult {
        data: vec![1, 2],
        success: true,
        error: None,
        resource_usage: ResourceUsage { cpu_usage_percent: 45.0f64.to_bits(), ..Default::default() },
    };
    let r = TaskResult::from_execution("t".to_string(), "p".to_string(), ok, 12);
    assert!(r.success);
    assert_eq!(r.result, vec![1, 2]);
    assert_eq!(r.execution_time_ms, 12);
    assert_eq!(f64::from_bits(r.resource_usage.cpu_usage_percent), 45.0);
    let failed = ExecutionResult { data: vec![9], success: false, error: None, resource_usage: ResourceUsage::default() };
    let r = TaskResult::from_execution("t".to_string(), "p".to_string(), failed, 3);
    assert!(!r.success);
    assert!(r.result.is_empty());
    assert_eq!(r.error_message.as_deref(), Some("未知执行错误"));
    let failed = ExecutionResult {
        data: vec![],
        success: false,
        error: Some("解析向量数据失败".to_string()),
        resource_usage: ResourceUsage::default(),
    };
    let r = TaskResult::from_execution("t".to_string(), "p".to_string(), failed, 3);
    assert_eq!(r.error_message.as_deref(), Some("解析向量数据失败"));
}

#[test]
fn task_execution_bundles_its_parts() {
    let task = ConsensusTask::new(TaskType::VectorAddition { size: 2 }, vec![0; 32], 60);
    let e = TaskExecution::new(task, "cheating-provider".to_string(), Some(CheatingMode::Delay { min_ms: 10, max_ms: 50 }));
    assert_eq!(e.provider_id, "cheating-provider");
    assert_eq!(e.task.timeout_seconds, 60);
    assert!(matches!(e.cheating_mode, Some(CheatingMode::Delay { min_ms: 10, max_ms: 50 })));
    let executor = TaskExecutor::new();
    assert_eq!(executor.config.max_execution_time_seconds, 300);
    assert!(executor.config.verbose_logging);
}

#[test]
fn drawn_bytes_are_applied_in_order() {
    let correct = [10u8, 20, 30, 40];
    assert_eq!(CheatingSimulator::apply_draws(&correct, &[(1, 99)]), vec![10, 99, 30, 40]);
    assert_eq!(CheatingSimulator::apply_draws(&correct, &[(2, 30)]), vec![10, 20, 31, 40]);
    assert_eq!(CheatingSimulator::apply_draws(&[255u8], &[(0, 255)]), vec![0]);
    assert_eq!(CheatingSimulator::apply_draws(&correct, &[(0, 1), (0, 2), (3, 7)]), vec![2, 20, 30, 7]);
    assert_eq!(CheatingSimulator::apply_draws(&correct, &[(0, 1), (0, 10)]), vec![11, 20, 30, 40]);
    assert_eq!(CheatingSimulator::apply_draws(&correct, &[]), correct.to_vec());
}

#[test]
fn finished_executions_report_abort_honest_or_corrupted() {
    let usage = ResourceUsage { cpu_usage_percent: 1, memory_usage_mb: 2, gpu_memory_usage_mb: None, network_usage_kb: 3 };
    let aborted = finish_execution("t".to_string(), "p".to_string(), None, Some(usage), 4);
    assert!(!aborted.success);
    assert_eq!(aborted.error_message.as_deref(), Some("任务被提前终止（模拟作弊行为）"));
    assert_eq!(aborted.execution_time_ms, 4);
    let computed = ExecutionResult { data: vec![5, 6, 7], success: true, error: None, resource_usage: ResourceUsage::default() };
    let honest = finish_execution("t".to_string(), "p".to_string(), Some(computed.clone()), None, 9);
    assert!(honest.success);
    assert_eq!(honest.result, vec![5, 6, 7]);
    assert_eq!(honest.resource_usage, ResourceUsage::default());
    let cheated = finish_execution("t".to_string(), "p".to_string(), Some(computed), Some(usage), 9);
    assert!(cheated.success);
    assert_eq!(cheated.result.len(), 3);
    assert_ne!(cheated.result, vec![5, 6, 7]);
    assert_eq!(cheated.resource_usage, usage);
    let failed = ExecutionResult { data: vec![], success: false, error: None, resource_usage: ResourceUsage::default() };
    let reported = finish_execution("t".to_string(), "p".to_string(), Some(failed), None, 1);
    assert_eq!(reported.error_message.as_deref(), Some("未知执行错误"));
}
