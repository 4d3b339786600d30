use consensus_provider::cheating::CheatingMode;
use consensus_provider::config::{
    can_derive_port, AppConfig, ConfigError, ConsensusConfig, LoggingConfig, ProviderConfig, TaskTypeConfig, TaskTypesConfig,
};

#[test]
fn test_default_config() {
    let config = AppConfig::default_config();
    assert_eq!(config.providers.len(), 4);
    assert!(config.consensus.validate().is_ok());
    assert!(config.task_types.validate().is_ok());
}

#[test]
fn test_provider_config_creation() {
    let honest = ProviderConfig::new_honest("test-1", "Test Honest", 8.0f64.to_bits(), 4);
    assert_eq!(honest.node_id, "test-1");
    assert!(honest.cheating_mode.is_none());

    let cheater = ProviderConfig::new_cheater("test-2", "Test Cheater", 8.0f64.to_bits(), 4);
    assert!(matches!(cheater.cheating_mode, Some(CheatingMode::WrongResult)));
    assert!(cheater.has_label("behavior", "cheater"));
}

#[test]
fn test_task_type_config_validation() {
    let valid_config = TaskTypeConfig { default_size: 100, max_size: 1000, min_size: 10, enabled: true };
    assert!(valid_config.validate("test").is_ok());

    let invalid_config = TaskTypeConfig {
        default_size: 50,
        max_size: 100,
        min_size: 75, // min > default
        enabled: true,
    };
    assert!(invalid_config.validate("test").is_err());
}

#[test]
fn test_config_validation() {
    let mut config = AppConfig::default_config();

    // a duplicate provider id
    config.providers.push(ProviderConfig::new_honest("provider-1", "Duplicate", 8.0f64.to_bits(), 4));
    assert!(config.validate().is_err());

    // a duplicate port
    let mut config = AppConfig::default_config();
    if let Some(provider) = config.providers.get_mut(1) {
        provider.api_port = 8081;
    }
    assert!(config.validate().is_err());
}

#[test]
fn default_config_passes_full_validation() {
    let config = AppConfig::default_config();
    assert!(config.validate().is_ok());
    let ports: Vec<u16> = config.providers.iter().map(|p| p.api_port).collect();
    assert_eq!(ports, vec![8081, 8082, 8083, 8084]);
    assert_eq!(f64::from_bits(config.providers[0].gpu_memory_gb), 8.0);
    assert_eq!(config.consensus.server_endpoint, "http://localhost:3000");
    assert!(matches!(
        config.providers[3].cheating_mode,
        Some(CheatingMode::EarlyTermination { probability }) if f64::from_bits(probability) == 0.3
    ));
    assert!(matches!(config.providers[2].cheating_mode, Some(CheatingMode::Delay { min_ms: 1000, max_ms: 5000 })));
}

#[test]
fn duplicate_errors_name_the_first_repeat() {
    let mut config = AppConfig::default_config();
    config.providers.push(ProviderConfig::new_honest("provider-3", "Again", 0, 1));
    match config.validate() {
        Err(ConfigError::DuplicateProviderId { node_id }) => assert_eq!(node_id, "provider-3"),
        other => panic!("unexpected {:?}", other),
    }
    let mut config = AppConfig::default_config();
    config.providers[3].api_port = 8082;
    match config.validate() {
        Err(ConfigError::DuplicateApiPort { port }) => assert_eq!(port, 8082),
        other => panic!("unexpected {:?}", other),
    }
}

#[test]
fn validation_order_and_error_variants() {
    let mut config = AppConfig::default_config();
    config.consensus.task_timeout_seconds = 0;
    config.task_types.vector_addition.min_size = 0;
    match config.validate() {
        Err(ConfigError::ZeroMinSize { task_type }) => assert_eq!(task_type, "vector_addition"),
        other => panic!("unexpected {:?}", other),
    }
    let mut c = ConsensusConfig::default();
    c.task_timeout_seconds = 0;
    assert!(matches!(c.validate(), Err(ConfigError::ZeroTaskTimeout)));
    let mut c = ConsensusConfig::default();
    c.max_concurrent_tasks = 0;
    assert!(matches!(c.validate(), Err(ConfigError::ZeroMaxConcurrentTasks)));
    let mut c = ConsensusConfig::default();
    c.result_submit_retries = 0;
    assert!(matches!(c.validate(), Err(ConfigError::ZeroSubmitRetries)));
    let t = TaskTypeConfig { default_size: 200, max_size: 100, min_size: 10, enabled: true };
    assert!(matches!(t.validate("m"), Err(ConfigError::DefaultAboveMax { .. })));
    let t = TaskTypeConfig { default_size: 10, max_size: 100, min_size: 20, enabled: true };
    match t.validate("matrix_multiplication") {
        Err(ConfigError::MinAboveDefault { task_type }) => assert_eq!(task_type, "matrix_multiplication"),
        other => panic!("unexpected {:?}", other),
    }
}

#[test]
fn parameter_bounds_are_inclusive() {
    let t = TaskTypeConfig { default_size: 100, max_size: 1000, min_size: 10, enabled: true };
    assert!(t.validate_parameter(10).is_ok());
    assert!(t.validate_parameter(1000).is_ok());
    assert!(matches!(t.validate_parameter(9), Err(ConfigError::BelowMinimum { value: 9, min: 10 })));
    assert!(matches!(t.validate_parameter(1001), Err(ConfigError::AboveMaximum { value: 1001, max: 1000 })));
}

#[test]
fn task_type_lookup_by_name() {
    let types = TaskTypesConfig::default();
    assert_eq!(types.get_config("vector_addition").unwrap().max_size, 10000);
    assert_eq!(types.get_config("simple_inference").unwrap().default_size, 50);
    assert_eq!(types.get_config("matrix_multiplication").unwrap().min_size, 10);
    assert!(types.get_config("Matrix_Multiplication").is_none());
    assert!(types.get_config("").is_none());
    for t in [
        consensus_provider::types::TaskType::MatrixMultiplication { size: 1 },
        consensus_provider::types::TaskType::VectorAddition { size: 1 },
        consensus_provider::types::TaskType::SimpleInference { model_size: 1 },
    ] {
        assert!(types.get_config(t.as_str()).is_some());
    }
}

#[test]
fn provider_lookup_labels_and_descriptions() {
    let config = AppConfig::default_config();
    assert_eq!(config.get_provider_config("provider-2").unwrap().name, "Dishonest Provider (Wrong Result)");
    assert!(config.get_provider_config("provider-9").is_none());
    let mut config = config;
    config.providers[1].enabled = false;
    let active: Vec<&str> = config.get_active_providers().iter().map(|p| p.node_id.as_str()).collect();
    assert_eq!(active, vec!["provider-1", "provider-3", "provider-4"]);
    assert_eq!(config.providers[0].cheating_mode_description(), "诚实节点");
    assert_eq!(config.providers[1].cheating_mode_description(), "返回错误结果");
    assert_eq!(config.providers[2].cheating_mode_description(), "延迟执行");
    assert_eq!(config.providers[3].cheating_mode_description(), "提前终止");
    assert!(config.providers[2].has_label("behavior", "delayer"));
    assert!(!config.providers[2].has_label("behavior", "cheater"));
    assert!(!config.providers[0].has_label("behavior", "cheater"));
    let d = ProviderConfig::new_delayer("x7", "d", 0, 2);
    assert_eq!(d.api_port, 8087);
    let e = ProviderConfig::new_terminator("", "empty", 0, 2);
    assert_eq!(e.api_port, 8080);
    assert_eq!(e.max_active_tasks, 3);
}

#[test]
fn logging_section_defaults() {
    let l = LoggingConfig::default();
    assert_eq!(l.level, "info");
    assert_eq!(l.format, "detailed");
    assert_eq!(l.file_path, "logs/consensus-provider.log");
    assert_eq!(l.rotation.max_files, 5);
    assert!(l.rotation.compress);
}

#[test]
fn port_derivation_check() {
    assert!(can_derive_port("provider-1"));
    assert!(can_derive_port("demo-honest"));
    assert!(can_derive_port(""));
    assert!(!can_derive_port("node-"));
    assert!(!can_derive_port("\u{ffff}"));
    assert_eq!(ProviderConfig::new_honest("", "Empty", 0, 1).api_port, 8080);
    assert_eq!(ProviderConfig::new_honest("demo-honest", "Demo", 0, 1).api_port, 8148);
}
