use payments_engine::config::ProcessorConfig;

#[test]
fn test_default_config() {
    let config = ProcessorConfig::default();
    assert!(config.skip_malformed);
    assert!(config.log_warnings);
    assert_eq!(config.decimal_precision, 4);
}

#[test]
fn test_builder_pattern() {
    let config = ProcessorConfig::new()
        .with_skip_malformed(false)
        .with_precision(2);

    assert!(!config.skip_malformed);
    assert_eq!(config.decimal_precision, 2);
}

#[test]
fn test_production_config() {
    let config = ProcessorConfig::production();
    assert!(config.skip_malformed);
    assert!(config.log_warnings);
}

#[test]
fn test_strict_config() {
    let config = ProcessorConfig::strict();
    assert!(!config.skip_malformed);
    assert!(!config.log_warnings);
}
