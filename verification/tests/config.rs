use proxy_pool::config::{
    Config, ConfigError, DEFAULT_CONCURRENCY_LIMIT, DEFAULT_GROUP_SIZE, DEFAULT_MAX_POOL_SIZE,
    DEFAULT_PROBE_TIMEOUT_SECS, DEFAULT_REFRESH_INTERVAL_SECS,
};

#[test]
fn config_standard_holds_the_usual_values() {
    let config = Config::standard();
    assert_eq!(config.refresh_interval_secs(), 300);
    assert_eq!(config.probe_timeout_secs(), 5);
    assert_eq!(config.group_size(), 100);
    assert_eq!(config.concurrency_limit(), 100);
    assert_eq!(config.max_pool_size(), 100000);
}

#[test]
fn config_default_is_the_standard_one() {
    let config = Config::default();
    assert_eq!(config.refresh_interval_secs(), DEFAULT_REFRESH_INTERVAL_SECS);
    assert_eq!(config.probe_timeout_secs(), DEFAULT_PROBE_TIMEOUT_SECS);
    assert_eq!(config.group_size(), DEFAULT_GROUP_SIZE);
    assert_eq!(config.concurrency_limit(), DEFAULT_CONCURRENCY_LIMIT);
    assert_eq!(config.max_pool_size(), DEFAULT_MAX_POOL_SIZE);
}

#[test]
fn config_new_keeps_the_values_given() {
    let config = Config::new(10, 2, 7, 3, 50).unwrap();
    assert_eq!(config.refresh_interval_secs(), 10);
    assert_eq!(config.probe_timeout_secs(), 2);
    assert_eq!(config.group_size(), 7);
    assert_eq!(config.concurrency_limit(), 3);
    assert_eq!(config.max_pool_size(), 50);
}

#[test]
fn config_new_refuses_a_group_size_of_zero() {
    assert_eq!(Config::new(300, 5, 0, 10, 100).err(), Some(ConfigError::ZeroGroupSize));
    assert_eq!(Config::new(300, 5, 0, 0, 100).err(), Some(ConfigError::ZeroGroupSize));
}

#[test]
fn config_new_refuses_a_concurrency_limit_of_zero() {
    assert_eq!(Config::new(300, 5, 100, 0, 100).err(), Some(ConfigError::ZeroConcurrencyLimit));
}

#[test]
fn config_new_accepts_zero_for_the_other_values() {
    assert!(Config::new(0, 0, 1, 1, 0).is_ok());
}
