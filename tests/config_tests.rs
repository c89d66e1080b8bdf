use infera::config::{CacheEvictionStrategy, EnvSnapshot, InferaConfig, LogLevel};

#[test]
fn test_log_level_parsing() {
    assert_eq!(LogLevel::from_str("ERROR"), Some(LogLevel::Error));
    assert_eq!(LogLevel::from_str("warn"), Some(LogLevel::Warn));
    assert_eq!(LogLevel::from_str("INFO"), Some(LogLevel::Info));
    assert_eq!(LogLevel::from_str("debug"), Some(LogLevel::Debug));
    assert_eq!(LogLevel::from_str("invalid"), None);
}

#[test]
fn test_cache_eviction_strategy_parsing() {
    assert_eq!(
        CacheEvictionStrategy::from_str("LRU"),
        Some(CacheEvictionStrategy::LRU)
    );
    assert_eq!(
        CacheEvictionStrategy::from_str("lfu"),
        Some(CacheEvictionStrategy::LFU)
    );
    assert_eq!(
        CacheEvictionStrategy::from_str("FIFO"),
        Some(CacheEvictionStrategy::FIFO)
    );
    assert_eq!(CacheEvictionStrategy::from_str("invalid"), None);
}

#[test]
fn test_default_config() {
    let config = InferaConfig::defaults("/tmp");
    assert_eq!(config.cache_size_limit, 1024 * 1024 * 1024);
    assert!(!config.verbose_logging);
    assert_eq!(config.http_timeout_secs, 30);
    assert_eq!(config.http_retry_attempts, 3);
    assert_eq!(config.http_retry_delay_ms, 1000);
    assert_eq!(config.cache_eviction_strategy, CacheEvictionStrategy::LRU);
    assert_eq!(config.log_level, LogLevel::Warn);
}

#[test]
fn test_cache_dir_ends_with_infera_cache() {
    let config = InferaConfig::defaults("/tmp");
    assert!(config.cache_dir.ends_with("infera_cache"));
    assert_eq!(config.cache_dir, "/tmp/infera_cache");
    assert_eq!(InferaConfig::defaults("/tmp/").cache_dir, "/tmp/infera_cache");
}

#[test]
fn test_should_log() {
    let mut config = InferaConfig::defaults("/tmp");
    config.log_level = LogLevel::Info;

    assert!(config.should_log(LogLevel::Error));
    assert!(config.should_log(LogLevel::Warn));
    assert!(config.should_log(LogLevel::Info));
    assert!(!config.should_log(LogLevel::Debug));
}

#[test]
fn log_level_names_round_trip() {
    for l in [LogLevel::Error, LogLevel::Warn, LogLevel::Info, LogLevel::Debug] {
        assert_eq!(LogLevel::from_str(l.as_str()), Some(l));
    }
    assert_eq!(LogLevel::Warn.as_str(), "WARN");
    assert_eq!(LogLevel::from_str("Warning"), Some(LogLevel::Warn));
    assert_eq!(LogLevel::from_upper("warn"), None);
    assert_eq!(LogLevel::Debug.rank(), 3);
}

fn snapshot() -> EnvSnapshot {
    EnvSnapshot {
        temp_dir: "/var/tmp".to_string(),
        ..EnvSnapshot::default()
    }
}

#[test]
fn from_env_without_variables_gives_defaults() {
    let c = InferaConfig::from_env(&snapshot());
    assert_eq!(c.cache_dir, "/var/tmp/infera_cache");
    assert_eq!(c.cache_size_limit, 1073741824);
    assert_eq!(c.http_timeout_secs, 30);
    assert_eq!(c.http_retry_attempts, 3);
    assert_eq!(c.http_retry_delay_ms, 1000);
    assert!(!c.verbose_logging);
    assert_eq!(c.log_level, LogLevel::Warn);
    assert_eq!(c.cache_eviction_strategy, CacheEvictionStrategy::LRU);
}

#[test]
fn from_env_reads_each_variable() {
    let mut e = snapshot();
    e.cache_dir = Some("/data/models".to_string());
    e.cache_size_limit = Some("2048".to_string());
    e.verbose = Some("TRUE".to_string());
    e.http_timeout = Some("+5".to_string());
    e.http_retry_attempts = Some("7".to_string());
    e.http_retry_delay = Some("250".to_string());
    e.cache_eviction = Some("fifo".to_string());
    e.log_level = Some("debug".to_string());
    let c = InferaConfig::from_env(&e);
    assert_eq!(c.cache_dir, "/data/models");
    assert_eq!(c.cache_size_limit, 2048);
    assert!(c.verbose_logging);
    assert_eq!(c.http_timeout_secs, 5);
    assert_eq!(c.http_retry_attempts, 7);
    assert_eq!(c.http_retry_delay_ms, 250);
    assert_eq!(c.cache_eviction_strategy, CacheEvictionStrategy::FIFO);
    assert_eq!(c.log_level, LogLevel::Debug);
}

#[test]
fn from_env_falls_back_on_unparsable_values() {
    let mut e = snapshot();
    e.cache_size_limit = Some(" 12".to_string());
    e.verbose = Some("yes".to_string());
    e.http_timeout = Some("-1".to_string());
    e.http_retry_attempts = Some("4294967296".to_string());
    e.http_retry_delay = Some("18446744073709551616".to_string());
    e.cache_eviction = Some("random".to_string());
    e.log_level = Some("loud".to_string());
    let c = InferaConfig::from_env(&e);
    assert_eq!(c.cache_size_limit, 1073741824);
    assert!(!c.verbose_logging);
    assert_eq!(c.http_timeout_secs, 30);
    assert_eq!(c.http_retry_attempts, 3);
    assert_eq!(c.http_retry_delay_ms, 1000);
    assert_eq!(c.cache_eviction_strategy, CacheEvictionStrategy::LRU);
    assert_eq!(c.log_level, LogLevel::Warn);
}

#[test]
fn from_env_takes_largest_values() {
    let mut e = snapshot();
    e.http_retry_attempts = Some("4294967295".to_string());
    e.cache_size_limit = Some("18446744073709551615".to_string());
    e.verbose = Some("1".to_string());
    let c = InferaConfig::from_env(&e);
    assert_eq!(c.http_retry_attempts, u32::MAX);
    assert_eq!(c.cache_size_limit, u64::MAX);
    assert!(c.verbose_logging);
}
