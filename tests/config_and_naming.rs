use database_tester::config::{check_identifier, ConfigError, PoolSpec, TestConfig};
use database_tester::naming::{check_suffix, database_name, database_prefix, NameError};

fn pool(variable: &str) -> PoolSpec {
    PoolSpec::new(variable.to_string())
}

fn config(pools: Vec<PoolSpec>) -> TestConfig {
    TestConfig { level: "warn".to_string(), pools }
}

#[test]
fn database_name_var_wraps_variable() {
    assert_eq!(pool("migrated_pool").database_name_var(), "__migrated_pool_db_name");
}

#[test]
fn migrations_dir_defaults() {
    assert_eq!(pool("p").migrations_dir(), "./migrations");
    let mut other = pool("p");
    other.migrations = Some("./other_dir_migrations".to_string());
    assert_eq!(other.migrations_dir(), "./other_dir_migrations");
}

#[test]
fn identifiers() {
    assert!(check_identifier("pool_1"));
    assert!(check_identifier("_x"));
    assert!(!check_identifier(""));
    assert!(!check_identifier("1pool"));
    assert!(!check_identifier("my-pool"));
}

#[test]
fn validate_accepts_three_pools() {
    let mut empty = pool("empty_db_pool");
    empty.transaction_variable = Some("empty_db_transaction".to_string());
    empty.skip_migrations = true;
    let c = config(vec![pool("default_migrated_pool"), pool("migrated_pool"), empty]);
    assert_eq!(c.validate(), Ok(()));
}

#[test]
fn validate_rejects_no_pools() {
    assert_eq!(config(vec![]).validate(), Err(ConfigError::NoPools));
}

#[test]
fn validate_rejects_bad_identifier() {
    let mut bad = pool("ok");
    bad.transaction_variable = Some("not ok".to_string());
    let c = config(vec![pool("a"), bad]);
    assert_eq!(c.validate(), Err(ConfigError::InvalidIdentifier { pool: 1 }));
}

#[test]
fn validate_rejects_duplicate_variable() {
    let c = config(vec![pool("a"), pool("b"), pool("a")]);
    assert_eq!(c.validate(), Err(ConfigError::DuplicateName { pool: 2 }));
}

#[test]
fn validate_rejects_transaction_named_like_pool() {
    let mut p = pool("a");
    p.transaction_variable = Some("a".to_string());
    assert_eq!(config(vec![p]).validate(), Err(ConfigError::DuplicateName { pool: 0 }));
}

#[test]
fn validate_rejects_transaction_named_like_other_pool() {
    let mut p = pool("b");
    p.transaction_variable = Some("a".to_string());
    assert_eq!(config(vec![pool("a"), p]).validate(), Err(ConfigError::DuplicateName { pool: 1 }));
}

#[test]
fn suffix_strength() {
    assert!(check_suffix("abcD1234"));
    assert!(!check_suffix("abc1234"));
    assert!(!check_suffix("abcd_1234"));
}

#[test]
fn database_name_joins_prefix_and_suffix() {
    assert_eq!(database_name("app", "x1y2z3w4"), Ok("app_x1y2z3w4".to_string()));
    assert_eq!(database_name("", "x1y2z3w4"), Ok("x1y2z3w4".to_string()));
    assert_eq!(database_name("app", "short"), Err(NameError::WeakSuffix));
}

#[test]
fn distinct_suffixes_give_distinct_names() {
    let a = database_name("app", "aaaaaaaa").unwrap();
    let b = database_name("app", "aaaaaaab").unwrap();
    assert_ne!(a, b);
}

#[test]
fn prefix_from_uri() {
    assert_eq!(
        database_prefix("postgres://user:pw@localhost:5432/mydb?sslmode=disable"),
        Ok(Some("mydb".to_string()))
    );
    assert_eq!(database_prefix("postgres://localhost/app"), Ok(Some("app".to_string())));
    assert_eq!(database_prefix("postgres://localhost"), Ok(None));
    assert_eq!(database_prefix("postgres://localhost/?x=1"), Ok(None));
    assert_eq!(database_prefix("localhost/app"), Err(NameError::MissingScheme));
}
