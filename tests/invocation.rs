use database_tester::config::{ConfigError, PoolSpec, TestConfig};
use database_tester::lifecycle::{Action, Event, Invocation, Outcome, Phase, SetupError};

fn config(pools: Vec<PoolSpec>) -> TestConfig {
    TestConfig { level: "warn".to_string(), pools }
}

fn three_pools() -> TestConfig {
    let mut other = PoolSpec::new("migrated_pool".to_string());
    other.migrations = Some("./other_dir_migrations".to_string());
    let mut empty = PoolSpec::new("empty_db_pool".to_string());
    empty.transaction_variable = Some("empty_db_transaction".to_string());
    empty.skip_migrations = true;
    config(vec![PoolSpec::new("default_migrated_pool".to_string()), other, empty])
}

fn suffixes(n: usize) -> Vec<String> {
    (0..n).map(|i| format!("abcdefg{}", i)).collect()
}

/// Runs an invocation to its end; `answer` says how each action ends.
fn run(inv: &mut Invocation, mut answer: impl FnMut(Action) -> Event) -> Vec<Action> {
    let mut actions = Vec::new();
    loop {
        let a = inv.pending();
        actions.push(a);
        if a == Action::Finish {
            return actions;
        }
        inv.report(answer(a));
    }
}

#[test]
fn plans_name_each_database() {
    let inv = Invocation::new(&three_pools(), "app", &suffixes(3)).unwrap();
    assert_eq!(inv.pool_count(), 3);
    assert_eq!(inv.plan(0).database, "app_abcdefg0");
    assert_eq!(inv.plan(2).database, "app_abcdefg2");
    assert_eq!(inv.plan(0).migrations, Some("./migrations".to_string()));
    assert_eq!(inv.plan(1).migrations, Some("./other_dir_migrations".to_string()));
    assert_eq!(inv.plan(2).migrations, None);
    assert_eq!(inv.plan(2).transaction_variable, Some("empty_db_transaction".to_string()));
    assert_ne!(inv.plan(0).database, inv.plan(1).database);
}

#[test]
fn setup_errors() {
    assert!(matches!(
        Invocation::new(&config(vec![]), "app", &vec![]),
        Err(SetupError::Config(ConfigError::NoPools))
    ));
    assert!(matches!(
        Invocation::new(&three_pools(), "app", &suffixes(2)),
        Err(SetupError::SuffixCount)
    ));
    let mut weak = suffixes(3);
    weak[1] = "abc".to_string();
    assert!(matches!(
        Invocation::new(&three_pools(), "app", &weak),
        Err(SetupError::WeakSuffix { pool: 1 })
    ));
}

#[test]
fn successful_run_drops_every_database() {
    let mut inv = Invocation::new(&three_pools(), "app", &suffixes(3)).unwrap();
    let actions = run(&mut inv, |_| Event::Succeeded);
    assert_eq!(
        actions,
        vec![
            Action::ConnectAdmin,
            Action::CreateDatabase { pool: 0 },
            Action::OpenPool { pool: 0 },
            Action::Migrate { pool: 0 },
            Action::CreateDatabase { pool: 1 },
            Action::OpenPool { pool: 1 },
            Action::Migrate { pool: 1 },
            Action::CreateDatabase { pool: 2 },
            Action::OpenPool { pool: 2 },
            Action::BeginTransaction { pool: 2 },
            Action::RunBody,
            Action::ClosePools,
            Action::ConnectAdmin,
            Action::DropDatabase { pool: 0 },
            Action::DropDatabase { pool: 1 },
            Action::DropDatabase { pool: 2 },
            Action::Finish,
        ]
    );
    assert_eq!(inv.phase(), Phase::Finished);
    assert_eq!(inv.outcome(), Outcome::Passed);
}

#[test]
fn panicking_body_is_cleaned_and_reraised() {
    let mut inv = Invocation::new(&three_pools(), "app", &suffixes(3)).unwrap();
    let actions = run(&mut inv, |a| if a == Action::RunBody { Event::Panicked } else { Event::Succeeded });
    let drops = actions.iter().filter(|a| matches!(a, Action::DropDatabase { .. })).count();
    assert_eq!(drops, 3);
    assert_eq!(inv.outcome(), Outcome::AbnormalTermination);
}

#[test]
fn panic_wins_over_teardown_failure() {
    let mut inv = Invocation::new(&three_pools(), "app", &suffixes(3)).unwrap();
    run(&mut inv, |a| match a {
        Action::RunBody => Event::Panicked,
        Action::DropDatabase { .. } => Event::Failed,
        _ => Event::Succeeded,
    });
    assert_eq!(inv.outcome(), Outcome::AbnormalTermination);
}

#[test]
fn failed_drop_is_reported_and_others_still_attempted() {
    let mut inv = Invocation::new(&three_pools(), "app", &suffixes(3)).unwrap();
    let actions = run(&mut inv, |a| {
        if a == (Action::DropDatabase { pool: 0 }) { Event::Failed } else { Event::Succeeded }
    });
    assert!(actions.contains(&Action::DropDatabase { pool: 2 }));
    assert_eq!(inv.outcome(), Outcome::TeardownError { failed: 1 });
}

#[test]
fn connection_failure_prevents_body() {
    let mut inv = Invocation::new(&three_pools(), "app", &suffixes(3)).unwrap();
    let actions = run(&mut inv, |_| Event::Failed);
    assert_eq!(actions, vec![Action::ConnectAdmin, Action::Finish]);
    assert_eq!(inv.outcome(), Outcome::ConnectionError);
}

#[test]
fn migration_failure_tears_down_what_was_created() {
    let mut inv = Invocation::new(&three_pools(), "app", &suffixes(3)).unwrap();
    let actions = run(&mut inv, |a| {
        if a == (Action::Migrate { pool: 1 }) { Event::Failed } else { Event::Succeeded }
    });
    assert!(!actions.contains(&Action::RunBody));
    assert!(!actions.contains(&Action::CreateDatabase { pool: 2 }));
    assert_eq!(
        actions[actions.len() - 4..].to_vec(),
        vec![
            Action::ConnectAdmin,
            Action::DropDatabase { pool: 0 },
            Action::DropDatabase { pool: 1 },
            Action::Finish,
        ]
    );
    assert_eq!(inv.outcome(), Outcome::ProvisioningError { pool: 1 });
}

#[test]
fn first_create_failure_needs_no_teardown() {
    let mut inv = Invocation::new(&three_pools(), "app", &suffixes(3)).unwrap();
    let actions = run(&mut inv, |a| {
        if a == (Action::CreateDatabase { pool: 0 }) { Event::Failed } else { Event::Succeeded }
    });
    assert_eq!(
        actions,
        vec![Action::ConnectAdmin, Action::CreateDatabase { pool: 0 }, Action::Finish]
    );
    assert_eq!(inv.outcome(), Outcome::ProvisioningError { pool: 0 });
}

#[test]
fn unreachable_teardown_is_a_teardown_error() {
    let mut inv = Invocation::new(&three_pools(), "app", &suffixes(3)).unwrap();
    let mut connects = 0;
    run(&mut inv, |a| {
        if a == Action::ConnectAdmin {
            connects += 1;
            if connects == 2 {
                return Event::Failed;
            }
        }
        Event::Succeeded
    });
    assert_eq!(inv.outcome(), Outcome::TeardownError { failed: 3 });
}

#[test]
fn skipped_migrations_are_not_applied() {
    let mut p = PoolSpec::new("empty_db_pool".to_string());
    p.skip_migrations = true;
    let mut inv = Invocation::new(&config(vec![p]), "", &suffixes(1)).unwrap();
    assert_eq!(inv.plan(0).database, "abcdefg0");
    let actions = run(&mut inv, |_| Event::Succeeded);
    assert!(!actions.iter().any(|a| matches!(a, Action::Migrate { .. })));
}

#[test]
fn transaction_exposed_under_its_own_name() {
    let mut p = PoolSpec::new("pool".to_string());
    p.transaction_variable = Some("tx".to_string());
    let mut inv = Invocation::new(&config(vec![p]), "app", &suffixes(1)).unwrap();
    assert_ne!(Some(inv.plan(0).variable.clone()), inv.plan(0).transaction_variable);
    let actions = run(&mut inv, |_| Event::Succeeded);
    let migrate = actions.iter().position(|a| *a == Action::Migrate { pool: 0 }).unwrap();
    let begin = actions.iter().position(|a| *a == Action::BeginTransaction { pool: 0 }).unwrap();
    let body = actions.iter().position(|a| *a == Action::RunBody).unwrap();
    assert!(migrate < begin && begin < body);
}
