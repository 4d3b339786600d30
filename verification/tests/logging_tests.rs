use consensus_provider::logging::{
    log_consensus_event, log_error_with_context, log_performance, log_security_event, log_system_status,
    log_task_execution, logging_setup, parse_log_level, rotation_needed, rotation_steps, EntryLevel, LogConfig,
    LogFormat, LogLevel, LogRotationConfig, RotationStep, SecuritySeverity,
};

#[test]
fn test_parse_log_level() {
    assert_eq!(parse_log_level("error").unwrap(), LogLevel::Error);
    assert_eq!(parse_log_level("INFO").unwrap(), LogLevel::Info);
    assert_eq!(parse_log_level("debug").unwrap(), LogLevel::Debug);
    assert_eq!(parse_log_level("off").unwrap(), LogLevel::Off);
    assert!(parse_log_level("invalid").is_err());
}

#[test]
fn test_log_format_from_str() {
    assert!(matches!(LogFormat::from_str("simple").unwrap(), LogFormat::Simple));
    assert!(matches!(LogFormat::from_str("DETAILED").unwrap(), LogFormat::Detailed));
    assert!(matches!(LogFormat::from_str("json").unwrap(), LogFormat::Json));
    assert!(LogFormat::from_str("invalid").is_err());
}

#[test]
fn test_security_severity() {
    assert_eq!(SecuritySeverity::from_str("low").unwrap(), SecuritySeverity::Low);
    assert_eq!(SecuritySeverity::from_str("HIGH").unwrap(), SecuritySeverity::High);
    assert!(SecuritySeverity::from_str("invalid").is_err());
}

#[test]
fn test_log_config_default() {
    let config = LogConfig::default();
    assert_eq!(config.level, "info");
    assert!(config.file_enabled);
    assert!(config.console_enabled);
    assert!(matches!(config.format, LogFormat::Detailed));
}

#[test]
fn parse_errors_carry_the_input() {
    assert_eq!(parse_log_level("Verbose").unwrap_err(), "无效的日志级别: Verbose");
    assert_eq!(LogFormat::from_str("xml").unwrap_err(), "未知的日志格式: xml");
    assert_eq!(SecuritySeverity::from_str("Severe").unwrap_err(), "未知的安全严重程度: Severe");
}

#[test]
fn parsing_ignores_case_for_every_name() {
    assert_eq!(parse_log_level("WaRn").unwrap(), LogLevel::Warn);
    assert_eq!(parse_log_level("TRACE").unwrap(), LogLevel::Trace);
    assert_eq!(SecuritySeverity::from_str("Medium").unwrap(), SecuritySeverity::Medium);
    assert_eq!(SecuritySeverity::from_str("CRITICAL").unwrap(), SecuritySeverity::Critical);
    assert_eq!(LogFormat::from_str("Json").unwrap(), LogFormat::Json);
    assert!(parse_log_level("").is_err());
}

#[test]
fn performance_entries_choose_level_by_outcome() {
    let ok = log_performance("task_execution_1", 1234, true);
    assert_eq!(ok.level, EntryLevel::Info);
    assert_eq!(ok.message, "性能监控 - 操作: task_execution_1, 耗时: 1234ms, 状态: 成功");
    let bad = log_performance("op", 0, false);
    assert_eq!(bad.level, EntryLevel::Warn);
    assert_eq!(bad.message, "性能监控 - 操作: op, 耗时: 0ms, 状态: 失败");
}

#[test]
fn task_execution_entries() {
    let e = log_task_execution("t1", "p1", "vector_addition", false, 18446744073709551615);
    assert_eq!(e.level, EntryLevel::Error);
    assert_eq!(
        e.message,
        "任务执行 - ID: t1, Provider: p1, 类型: vector_addition, 耗时: 18446744073709551615ms, 状态: 失败"
    );
    let ok = log_task_execution("t2", "p2", "simple_inference", true, 7);
    assert_eq!(ok.level, EntryLevel::Info);
}

#[test]
fn consensus_and_security_entries() {
    let e = log_consensus_event("stats_update", "system", "共识达成率: 92.00%");
    assert_eq!(e.level, EntryLevel::Info);
    assert_eq!(e.message, "共识事件 - 类型: stats_update, 任务: system, 详情: 共识达成率: 92.00%");
    assert_eq!(log_security_event("a", "b", "c", SecuritySeverity::Low).level, EntryLevel::Info);
    assert_eq!(log_security_event("a", "b", "c", SecuritySeverity::Medium).level, EntryLevel::Warn);
    assert_eq!(log_security_event("a", "b", "c", SecuritySeverity::High).level, EntryLevel::Error);
    let c = log_security_event("cheating_detected", "provider-2", "x", SecuritySeverity::Critical);
    assert_eq!(c.level, EntryLevel::Error);
    assert_eq!(c.message, "安全事件 - 类型: cheating_detected, Provider: provider-2, 详情: x, 严重程度: 严重");
}

#[test]
fn error_chain_entries_are_numbered() {
    let causes = vec!["io failure".to_string(), "disk full".to_string()];
    let es = log_error_with_context("提交任务 t 结果失败", "request failed", &causes);
    assert_eq!(es.len(), 3);
    assert!(es.iter().all(|e| e.level == EntryLevel::Error));
    assert_eq!(es[0].message, "错误上下文: 提交任务 t 结果失败, 错误信息: request failed");
    assert_eq!(es[1].message, "  原因 1: io failure");
    assert_eq!(es[2].message, "  原因 2: disk full");
    assert_eq!(log_error_with_context("c", "e", &vec![]).len(), 1);
}

#[test]
fn system_status_levels() {
    assert_eq!(log_system_status("node", "running", None).level, EntryLevel::Info);
    assert_eq!(log_system_status("node", "degraded", None).level, EntryLevel::Warn);
    assert_eq!(log_system_status("node", "failed", None).level, EntryLevel::Error);
    assert_eq!(log_system_status("node", "stopped", None).level, EntryLevel::Info);
    assert_eq!(log_system_status("node", "Running", None).level, EntryLevel::Info);
    assert_eq!(log_system_status("node", "critical", Some("disk")).message, "系统状态 - 组件: node, 状态: critical, 详情: disk");
    assert_eq!(log_system_status("provider_node", "starting", None).message, "系统状态 - 组件: provider_node, 状态: starting");
}

#[test]
fn logging_setup_follows_the_configuration() {
    let setup = logging_setup(&LogConfig::default()).unwrap();
    assert_eq!(setup.level, LogLevel::Info);
    assert_eq!(setup.format, LogFormat::Detailed);
    assert_eq!(setup.log_file.as_deref(), Some("logs/consensus-provider.log"));
    assert_eq!(setup.announcements.len(), 4);
    assert_eq!(setup.announcements[2].message, "文件输出: logs/consensus-provider.log");
    assert_eq!(setup.announcements[3].message, "控制台输出: 启用");
    let mut quiet = LogConfig::default();
    quiet.file_enabled = false;
    quiet.console_enabled = false;
    quiet.level = "OFF".to_string();
    let setup = logging_setup(&quiet).unwrap();
    assert_eq!(setup.level, LogLevel::Off);
    assert!(setup.log_file.is_none());
    assert_eq!(setup.announcements[2].message, "文件输出: 禁用");
    assert_eq!(setup.announcements[3].message, "控制台输出: 禁用");
    quiet.level = "loud".to_string();
    assert_eq!(logging_setup(&quiet).unwrap_err(), "无效的日志级别: loud");
}

#[test]
fn rotation_decision_and_plan() {
    let config = LogConfig::default();
    let rotation = LogRotationConfig::default();
    assert_eq!(rotation.max_size_bytes, 10 * 1024 * 1024);
    assert!(rotation_needed(&config, &rotation, Some(10 * 1024 * 1024)));
    assert!(!rotation_needed(&config, &rotation, Some(10 * 1024 * 1024 - 1)));
    assert!(!rotation_needed(&config, &rotation, None));
    let mut off = LogConfig::default();
    off.file_enabled = false;
    assert!(!rotation_needed(&off, &rotation, Some(u64::MAX)));

    // backups .1, .2 and .4 exist out of max_files = 5
    let exists = vec![false, true, true, false, true];
    let steps = rotation_steps(5, &exists, true);
    assert_eq!(
        steps,
        vec![
            RotationStep::RemoveBackup { index: 4 },
            RotationStep::ShiftBackup { from: 2 },
            RotationStep::ShiftBackup { from: 1 },
            RotationStep::BackupCurrent,
        ]
    );
    assert_eq!(rotation_steps(1, &vec![true], true), vec![RotationStep::BackupCurrent]);
    assert!(rotation_steps(0, &vec![], false).is_empty());
}
