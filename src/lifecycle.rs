use vstd::prelude::*;

use crate::config::{config_valid, db_name_var_of, exposed_apart, validation_result, migrations_dir_of, ConfigError, PoolSpec, TestConfig};
use crate::naming::{database_name, db_name_of, suffix_ok};

verus! {

/// One pool as the invocation runs it: its exposed names, its database, and
/// the migrations directory when migrations are applied.
pub struct PoolPlan {
    pub variable: String,
    pub transaction_variable: Option<String>,
    pub database: String,
    pub migrations: Option<String>,
}

/// Step of provisioning one pool.
#[derive(Debug, Clone, Copy, PartialEq, Eq, Structural)]
pub enum Stage {
    Create,
    OpenPool,
    Migrate,
    BeginTransaction,
}

#[derive(Debug, Clone, Copy, PartialEq, Eq, Structural)]
pub enum Phase {
    /// Opening the administrative connection used for creation.
    Connecting,
    /// Creating, opening and migrating the databases one pool at a time.
    Provisioning,
    /// The test body runs.
    Running,
    /// Every pool that was opened is closed.
    Closing,
    /// Opening the administrative connection used for destruction.
    ConnectingTeardown,
    /// Dropping the created databases, in declaration order.
    Dropping,
    Finished,
}

/// What the caller performs next; a pool is named by its index.
#[derive(Debug, Clone, Copy, PartialEq, Eq, Structural)]
pub enum Action {
    ConnectAdmin,
    CreateDatabase { pool: usize },
    OpenPool { pool: usize },
    Migrate { pool: usize },
    BeginTransaction { pool: usize },
    RunBody,
    ClosePools,
    DropDatabase { pool: usize },
    Finish,
}

/// How the last action ended.
#[derive(Debug, Clone, Copy, PartialEq, Eq, Structural)]
pub enum Event {
    Succeeded,
    Failed,
    /// The test body terminated abnormally.
    Panicked,
}

/// A failure before the test body ran.
#[derive(Debug, Clone, Copy, PartialEq, Eq, Structural)]
pub enum Failure {
    /// No administrative connection within the retry bound.
    Connection,
    /// Creating, opening, migrating or exposing this pool failed.
    Provisioning { pool: usize },
}

/// What the invocation finally yields.
#[derive(Debug, Clone, Copy, PartialEq, Eq, Structural)]
pub enum Outcome {
    Passed,
    ConnectionError,
    ProvisioningError { pool: usize },
    /// The test body terminated abnormally; the databases were cleaned up.
    AbnormalTermination,
    /// This many databases could not be dropped.
    TeardownError { failed: usize },
}

/// Why an invocation could not be set up.
#[derive(Debug, Clone, Copy, PartialEq, Eq, Structural)]
pub enum SetupError {
    Config(ConfigError),
    /// The number of random suffixes differs from the number of pools.
    SuffixCount,
    /// The random suffix of this pool is too weak.
    WeakSuffix { pool: usize },
}

/// The abstract state of one test invocation.
pub struct InvocationState {
    pub plans: Seq<PoolPlan>,
    pub phase: Phase,
    /// Pool being provisioned.
    pub pool: nat,
    pub stage: Stage,
    /// Databases created so far: those of pools `0..created`.
    pub created: nat,
    pub failure: Option<Failure>,
    /// Set once the body has run: whether it terminated abnormally.
    pub panicked: Option<bool>,
    /// Drop attempts made so far, for pools `0..dropped`.
    pub dropped: nat,
    pub drop_failures: nat,
    /// No administrative connection could be had for teardown.
    pub teardown_unreachable: bool,
}

pub open spec fn migrates(s: InvocationState, i: int) -> bool {
    s.plans[i].migrations is Some
}

pub open spec fn has_transaction(s: InvocationState, i: int) -> bool {
    s.plans[i].transaction_variable is Some
}

/// Exactly one of a failure before the body and the body's completion is recorded.
pub open spec fn one_cause(s: InvocationState) -> bool {
    (s.failure is Some) != (s.panicked is Some)
}

pub open spec fn state_wf(s: InvocationState) -> bool {
    let n = s.plans.len();
    &&& n > 0
    &&& s.created <= n
    &&& s.dropped <= s.created
    &&& s.drop_failures <= s.dropped
    &&& (s.teardown_unreachable ==> s.phase == Phase::Finished && s.dropped == 0)
    &&& (s.panicked is Some ==> s.failure is None && s.created == n)
    &&& match s.phase {
        Phase::Connecting => s.created == 0 && s.failure is None && s.panicked is None
            && s.dropped == 0,
        Phase::Provisioning => {
            &&& s.pool < n
            &&& s.failure is None
            &&& s.panicked is None
            &&& s.dropped == 0
            &&& s.created == if s.stage == Stage::Create {
                s.pool
            } else {
                s.pool + 1
            }
            &&& (s.stage == Stage::Migrate ==> migrates(s, s.pool as int))
            &&& (s.stage == Stage::BeginTransaction ==> has_transaction(s, s.pool as int))
        },
        Phase::Running => s.created == n && s.failure is None && s.panicked is None && s.dropped
            == 0,
        Phase::Closing => s.created > 0 && s.dropped == 0 && one_cause(s),
        Phase::ConnectingTeardown => s.created > 0 && s.dropped == 0 && one_cause(s),
        Phase::Dropping => s.dropped < s.created && one_cause(s),
        Phase::Finished => one_cause(s) && (s.teardown_unreachable || s.dropped == s.created),
    }
}

/// The action that a state asks for.
pub open spec fn pending_of(s: InvocationState) -> Action {
    match s.phase {
        Phase::Connecting => Action::ConnectAdmin,
        Phase::Provisioning => match s.stage {
            Stage::Create => Action::CreateDatabase { pool: s.pool as usize },
            Stage::OpenPool => Action::OpenPool { pool: s.pool as usize },
            Stage::Migrate => Action::Migrate { pool: s.pool as usize },
            Stage::BeginTransaction => Action::BeginTransaction { pool: s.pool as usize },
        },
        Phase::Running => Action::RunBody,
        Phase::Closing => Action::ClosePools,
        Phase::ConnectingTeardown => Action::ConnectAdmin,
        Phase::Dropping => Action::DropDatabase { pool: s.dropped as usize },
        Phase::Finished => Action::Finish,
    }
}

/// Provisioning moves on to the next pool, or to the body after the last one.
pub open spec fn next_pool(s: InvocationState) -> InvocationState {
    if s.pool + 1 < s.plans.len() {
        InvocationState { pool: s.pool + 1, stage: Stage::Create, ..s }
    } else {
        InvocationState { phase: Phase::Running, ..s }
    }
}

/// After the pool is open: migrate unless skipped, then expose a transaction if asked.
pub open spec fn after_open(s: InvocationState) -> InvocationState {
    if migrates(s, s.pool as int) {
        InvocationState { stage: Stage::Migrate, ..s }
    } else {
        after_migrate(s)
    }
}

pub open spec fn after_migrate(s: InvocationState) -> InvocationState {
    if has_transaction(s, s.pool as int) {
        InvocationState { stage: Stage::BeginTransaction, ..s }
    } else {
        next_pool(s)
    }
}

/// Teardown starts by closing the pools, unless no database was created.
pub open spec fn begin_teardown(s: InvocationState) -> InvocationState {
    if s.created == 0 {
        InvocationState { phase: Phase::Finished, ..s }
    } else {
        InvocationState { phase: Phase::Closing, ..s }
    }
}

/// The state after the pending action ended with `e`.
pub open spec fn next_of(s: InvocationState, e: Event) -> InvocationState {
    let ok = e == Event::Succeeded;
    match s.phase {
        Phase::Connecting => if ok {
            InvocationState { phase: Phase::Provisioning, pool: 0, stage: Stage::Create, ..s }
        } else {
            InvocationState { phase: Phase::Finished, failure: Some(Failure::Connection), ..s }
        },
        Phase::Provisioning => if !ok {
            begin_teardown(
                InvocationState {
                    failure: Some(Failure::Provisioning { pool: s.pool as usize }),
                    ..s
                },
            )
        } else {
            match s.stage {
                Stage::Create => InvocationState {
                    created: s.created + 1,
                    stage: Stage::OpenPool,
                    ..s
                },
                Stage::OpenPool => after_open(s),
                Stage::Migrate => after_migrate(s),
                Stage::BeginTransaction => next_pool(s),
            }
        },
        Phase::Running => InvocationState { phase: Phase::Closing, panicked: Some(!ok), ..s },
        Phase::Closing => InvocationState { phase: Phase::ConnectingTeardown, ..s },
        Phase::ConnectingTeardown => if ok {
            InvocationState { phase: Phase::Dropping, ..s }
        } else {
            InvocationState { phase: Phase::Finished, teardown_unreachable: true, ..s }
        },
        Phase::Dropping => {
            let failures = if ok {
                s.drop_failures
            } else {
                s.drop_failures + 1
            };
            let phase = if s.dropped + 1 == s.created {
                Phase::Finished
            } else {
                Phase::Dropping
            };
            InvocationState { phase, dropped: s.dropped + 1, drop_failures: failures, ..s }
        },
        Phase::Finished => s,
    }
}

/// Databases whose drop was not attempted or did not succeed.
pub open spec fn failed_drops(s: InvocationState) -> nat {
    s.drop_failures + (s.created - s.dropped) as nat
}

/// The result of a finished invocation: an abnormal termination of the body
/// first, then a failure before the body, then a failed teardown.
pub open spec fn outcome_of(s: InvocationState) -> Outcome {
    if s.panicked == Some(true) {
        Outcome::AbnormalTermination
    } else {
        match s.failure {
            Some(Failure::Connection) => Outcome::ConnectionError,
            Some(Failure::Provisioning { pool }) => Outcome::ProvisioningError { pool },
            None => if failed_drops(s) > 0 {
                Outcome::TeardownError { failed: failed_drops(s) as usize }
            } else {
                Outcome::Passed
            },
        }
    }
}

/// The plan that a pool spec and its database name give.
pub open spec fn plan_of(p: PoolSpec, database: Seq<char>, q: PoolPlan) -> bool {
    &&& q.variable@ == p.variable@
    &&& (q.transaction_variable matches Some(t) ==> p.transaction_variable matches Some(u)
        && t@ == u@)
    &&& (q.transaction_variable is None <==> p.transaction_variable is None)
    &&& q.database@ == database
    &&& (q.migrations is None <==> p.skip_migrations)
    &&& (q.migrations matches Some(d) ==> d@ == migrations_dir_of(p))
}

/// One test invocation: the decisions of the lifecycle, the caller performing
/// each action and reporting how it ended.
pub struct Invocation {
    plans: Vec<PoolPlan>,
    phase: Phase,
    pool: usize,
    stage: Stage,
    created: usize,
    failure: Option<Failure>,
    panicked: Option<bool>,
    dropped: usize,
    drop_failures: usize,
    teardown_unreachable: bool,
}

impl View for Invocation {
    type V = InvocationState;

    closed spec fn view(&self) -> InvocationState {
        InvocationState {
            plans: self.plans@,
            phase: self.phase,
            pool: self.pool as nat,
            stage: self.stage,
            created: self.created as nat,
            failure: self.failure,
            panicked: self.panicked,
            dropped: self.dropped as nat,
            drop_failures: self.drop_failures as nat,
            teardown_unreachable: self.teardown_unreachable,
        }
    }
}

fn clone_opt(o: &Option<String>) -> (r: Option<String>)
    ensures
        r is None <==> o is None,
        r matches Some(t) ==> o matches Some(u) && t@ == u@,
{
    match o {
        Some(s) => Some(s.clone()),
        None => None,
    }
}

fn plan_pool(p: &PoolSpec, database: String) -> (q: PoolPlan)
    ensures
        plan_of(*p, database@, q),
{
    let migrations = if p.skip_migrations {
        None
    } else {
        Some(p.migrations_dir())
    };
    PoolPlan {
        variable: p.variable.clone(),
        transaction_variable: clone_opt(&p.transaction_variable),
        database,
        migrations,
    }
}

impl Invocation {
    /// Sets up an invocation of a test: checks the configuration and names one
    /// database per pool from `prefix` and that pool's random suffix.
    pub fn new(config: &TestConfig, prefix: &str, suffixes: &Vec<String>) -> (r: Result<
        Invocation,
        SetupError,
    >)
        ensures
            r matches Err(SetupError::Config(e)) ==> validation_result(*config) == Err::<(), ConfigError>(e),
            r matches Err(SetupError::SuffixCount) ==> config_valid(*config) && suffixes@.len()
                != config.pools@.len(),
            r matches Err(SetupError::WeakSuffix { pool }) ==> config_valid(*config)
                && suffixes@.len() == config.pools@.len() && pool < suffixes@.len()
                && !suffix_ok(suffixes@[pool as int]@),
            r is Ok <==> config_valid(*config) && suffixes@.len() == config.pools@.len() && forall|
                i: int,
            | 0 <= i < suffixes@.len() ==> suffix_ok(#[trigger] suffixes@[i]@),
            r matches Ok(inv) ==> {
                &&& inv@.phase == Phase::Connecting
                &&& inv@.created == 0
                &&& inv@.failure is None
                &&& inv@.panicked is None
                &&& inv@.dropped == 0
                &&& inv@.drop_failures == 0
                &&& !inv@.teardown_unreachable
                &&& state_wf(inv@)
                &&& inv@.plans.len() == config.pools@.len()
                &&& forall|i: int|
                    0 <= i < inv@.plans.len() ==> plan_of(
                        config.pools@[i],
                        db_name_of(prefix@, suffixes@[i]@),
                        #[trigger] inv@.plans[i],
                    )
            },
    {
        match config.validate() {
            Err(e) => {
                return Err(SetupError::Config(e));
            },
            Ok(()) => {},
        }
        let n = config.pools.len();
        if suffixes.len() != n {
            return Err(SetupError::SuffixCount);
        }
        let mut plans: Vec<PoolPlan> = Vec::new();
        let mut i: usize = 0;
        while i < n
            invariant
                n == config.pools@.len(),
                n == suffixes@.len(),
                config_valid(*config),
                0 <= i <= n,
                plans@.len() == i,
                forall|k: int| 0 <= k < i ==> suffix_ok(#[trigger] suffixes@[k]@),
                forall|k: int|
                    0 <= k < i ==> plan_of(
                        config.pools@[k],
                        db_name_of(prefix@, suffixes@[k]@),
                        #[trigger] plans@[k],
                    ),
            decreases n - i,
        {
            let name = match database_name(prefix, suffixes[i].as_str()) {
                Ok(name) => name,
                Err(_) => {
                    return Err(SetupError::WeakSuffix { pool: i });
                },
            };
            plans.push(plan_pool(&config.pools[i], name));
            i = i + 1;
        }
        Ok(
            Invocation {
                plans,
                phase: Phase::Connecting,
                pool: 0,
                stage: Stage::Create,
                created: 0,
                failure: None,
                panicked: None,
                dropped: 0,
                drop_failures: 0,
                teardown_unreachable: false,
            },
        )
    }
    /// Well-formed: the state is one that the lifecycle can reach.
    pub open spec fn wf(&self) -> bool {
        state_wf(self@)
    }

    /// The action to perform next.
    pub fn pending(&self) -> (r: Action)
        ensures
            r == pending_of(self@),
    {
        match self.phase {
            Phase::Connecting => Action::ConnectAdmin,
            Phase::Provisioning => match self.stage {
                Stage::Create => Action::CreateDatabase { pool: self.pool },
                Stage::OpenPool => Action::OpenPool { pool: self.pool },
                Stage::Migrate => Action::Migrate { pool: self.pool },
                Stage::BeginTransaction => Action::BeginTransaction { pool: self.pool },
            },
            Phase::Running => Action::RunBody,
            Phase::Closing => Action::ClosePools,
            Phase::ConnectingTeardown => Action::ConnectAdmin,
            Phase::Dropping => Action::DropDatabase { pool: self.dropped },
            Phase::Finished => Action::Finish,
        }
    }

    fn advance_pool(&mut self)
        requires
            old(self).wf(),
            old(self)@.phase == Phase::Provisioning,
            old(self)@.stage != Stage::Create,
        ensures
            final(self)@ == next_pool(old(self)@),
    {
        if self.pool + 1 < self.plans.len() {
            self.pool = self.pool + 1;
            self.stage = Stage::Create;
        } else {
            self.phase = Phase::Running;
        }
    }

    fn after_migrate(&mut self)
        requires
            old(self).wf(),
            old(self)@.phase == Phase::Provisioning,
            old(self)@.stage != Stage::Create,
        ensures
            final(self)@ == after_migrate(old(self)@),
    {
        if self.plans[self.pool].transaction_variable.is_some() {
            self.stage = Stage::BeginTransaction;
        } else {
            self.advance_pool();
        }
    }

    /// Reports how the pending action ended and moves to the next state.
    pub fn report(&mut self, e: Event)
        requires
            old(self).wf(),
            old(self)@.phase != Phase::Finished,
        ensures
            final(self)@ == next_of(old(self)@, e),
            final(self).wf(),
    {
        proof {
            lemma_next_wf(self@, e);
        }
        let ok = e == Event::Succeeded;
        match self.phase {
            Phase::Connecting => {
                if ok {
                    self.phase = Phase::Provisioning;
                    self.pool = 0;
                    self.stage = Stage::Create;
                } else {
                    self.phase = Phase::Finished;
                    self.failure = Some(Failure::Connection);
                }
            },
            Phase::Provisioning => {
                if !ok {
                    self.failure = Some(Failure::Provisioning { pool: self.pool });
                    if self.created == 0 {
                        self.phase = Phase::Finished;
                    } else {
                        self.phase = Phase::Closing;
                    }
                } else {
                    match self.stage {
                        Stage::Create => {
                            let n = self.plans.len();
                            assert(self.created < n);
                            self.created = self.created + 1;
                            self.stage = Stage::OpenPool;
                        },
                        Stage::OpenPool => {
                            if self.plans[self.pool].migrations.is_some() {
                                self.stage = Stage::Migrate;
                            } else {
                                self.after_migrate();
                            }
                        },
                        Stage::Migrate => {
                            self.after_migrate();
                        },
                        Stage::BeginTransaction => {
                            self.advance_pool();
                        },
                    }
                }
            },
            Phase::Running => {
                self.phase = Phase::Closing;
                self.panicked = Some(!ok);
            },
            Phase::Closing => {
                self.phase = Phase::ConnectingTeardown;
            },
            Phase::ConnectingTeardown => {
                if ok {
                    self.phase = Phase::Dropping;
                } else {
                    self.phase = Phase::Finished;
                    self.teardown_unreachable = true;
                }
            },
            Phase::Dropping => {
                if !ok {
                    self.drop_failures = self.drop_failures + 1;
                }
                self.dropped = self.dropped + 1;
                if self.dropped == self.created {
                    self.phase = Phase::Finished;
                }
            },
            Phase::Finished => {},
        }
    }

    /// What the finished invocation yields.
    pub fn outcome(&self) -> (r: Outcome)
        requires
            self.wf(),
            self@.phase == Phase::Finished,
        ensures
            r == outcome_of(self@),
    {
        if self.panicked == Some(true) {
            return Outcome::AbnormalTermination;
        }
        match self.failure {
            Some(Failure::Connection) => Outcome::ConnectionError,
            Some(Failure::Provisioning { pool }) => Outcome::ProvisioningError { pool },
            None => {
                let failed = self.drop_failures + (self.created - self.dropped);
                if failed > 0 {
                    Outcome::TeardownError { failed }
                } else {
                    Outcome::Passed
                }
            },
        }
    }

    pub fn phase(&self) -> (r: Phase)
        ensures
            r == self@.phase,
    {
        self.phase
    }

    pub fn pool_count(&self) -> (r: usize)
        ensures
            r == self@.plans.len(),
    {
        self.plans.len()
    }

    /// The plan of pool `i`.
    pub fn plan(&self, i: usize) -> (r: &PoolPlan)
        requires
            i < self@.plans.len(),
        ensures
            *r == self@.plans[i as int],
    {
        &self.plans[i]
    }
}

/// Every step keeps the state one that the lifecycle can reach.
pub proof fn lemma_next_wf(s: InvocationState, e: Event)
    requires
        state_wf(s),
        s.phase != Phase::Finished,
    ensures
        state_wf(next_of(s, e)),
{
}

/// Upper bound on the steps left before the invocation finishes.
pub open spec fn steps_left(s: InvocationState) -> nat {
    let n = s.plans.len();
    let teardown = n + 3;
    match s.phase {
        Phase::Connecting => 4 * n + 1 + teardown,
        Phase::Provisioning => {
            let done: nat = match s.stage {
                Stage::Create => 0,
                Stage::OpenPool => 1,
                Stage::Migrate => 2,
                Stage::BeginTransaction => 3,
            };
            (4 * (n - s.pool) - done + teardown) as nat
        },
        Phase::Running => teardown,
        Phase::Closing => (n + 2) as nat,
        Phase::ConnectingTeardown => (n + 1) as nat,
        Phase::Dropping => (n - s.dropped) as nat,
        Phase::Finished => 0,
    }
}

/// Every step brings the invocation closer to its end, whatever the event:
/// teardown is always reached.
pub proof fn lemma_progress(s: InvocationState, e: Event)
    requires
        state_wf(s),
        s.phase != Phase::Finished,
    ensures
        steps_left(next_of(s, e)) < steps_left(s),
{
}

/// A finished invocation whose teardown could connect has attempted to drop
/// every database it created, in declaration order.
pub proof fn lemma_every_created_database_dropped(s: InvocationState)
    requires
        state_wf(s),
        s.phase == Phase::Finished,
        !s.teardown_unreachable,
    ensures
        s.dropped == s.created,
{
}

/// Drops are attempted pool by pool, each created database once: the pending
/// drop is that of the first pool not yet dropped, a created one.
pub proof fn lemma_drop_order(s: InvocationState)
    requires
        state_wf(s),
        s.phase == Phase::Dropping,
    ensures
        pending_of(s) == (Action::DropDatabase { pool: s.dropped as usize }),
        s.dropped < s.created,
{
}

/// An invocation that passed created one database per pool and dropped each
/// of them successfully: none is left on the server.
pub proof fn lemma_passed_leaves_nothing(s: InvocationState)
    requires
        state_wf(s),
        s.phase == Phase::Finished,
        outcome_of(s) == Outcome::Passed,
    ensures
        s.created == s.plans.len(),
        s.dropped == s.created,
        s.drop_failures == 0,
        s.panicked == Some(false),
{
}

/// When the body terminates abnormally, teardown still starts, with every
/// database created.
pub proof fn lemma_panic_starts_teardown(s: InvocationState)
    requires
        state_wf(s),
        s.phase == Phase::Running,
    ensures
        next_of(s, Event::Panicked).phase == Phase::Closing,
        next_of(s, Event::Panicked).panicked == Some(true),
        next_of(s, Event::Panicked).created == s.plans.len(),
{
}

/// A finished invocation whose body terminated abnormally yields that
/// termination, after attempting to drop every database unless teardown
/// could not connect.
pub proof fn lemma_panic_observed(s: InvocationState)
    requires
        state_wf(s),
        s.phase == Phase::Finished,
        s.panicked == Some(true),
    ensures
        outcome_of(s) == Outcome::AbnormalTermination,
        s.teardown_unreachable || s.dropped == s.created,
        s.created == s.plans.len(),
{
}

/// The body completes exactly once: running it records how it ended, and
/// nothing later changes that record.
pub proof fn lemma_body_completes_once(s: InvocationState, e: Event)
    requires
        state_wf(s),
        s.phase != Phase::Finished,
    ensures
        s.phase == Phase::Running ==> next_of(s, e).panicked == Some(e != Event::Succeeded),
        s.phase != Phase::Running ==> next_of(s, e).panicked == s.panicked,
        s.panicked is Some ==> pending_of(next_of(s, e)) != Action::RunBody,
{
}

/// The test body runs only once every database is provisioned.
pub proof fn lemma_body_after_provisioning(s: InvocationState)
    requires
        state_wf(s),
        pending_of(s) == Action::RunBody,
    ensures
        s.created == s.plans.len(),
        s.failure is None,
{
}

/// When no administrative connection can be had for creation, the invocation
/// ends with a connection error, the body never having run.
pub proof fn lemma_connection_failure_surfaces(s: InvocationState, e: Event)
    requires
        state_wf(s),
        s.phase == Phase::Connecting,
        e != Event::Succeeded,
    ensures
        next_of(s, e).phase == Phase::Finished,
        next_of(s, e).panicked is None,
        outcome_of(next_of(s, e)) == Outcome::ConnectionError,
{
}

/// After a failure before the body, the body never runs: the failure stays,
/// and no later state asks to run the body.
pub proof fn lemma_failure_blocks_body(s: InvocationState, e: Event)
    requires
        state_wf(s),
        s.failure is Some,
        s.phase != Phase::Finished,
    ensures
        next_of(s, e).failure == s.failure,
        pending_of(next_of(s, e)) != Action::RunBody,
        next_of(s, e).panicked is None,
{
}

/// Pools are closed before teardown connects, and teardown connects before
/// any drop.
pub proof fn lemma_close_before_drop(s: InvocationState, e: Event)
    requires
        state_wf(s),
        s.phase != Phase::Finished,
    ensures
        next_of(s, e).phase == Phase::ConnectingTeardown ==> s.phase == Phase::Closing,
        next_of(s, e).phase == Phase::Dropping ==> s.phase == Phase::ConnectingTeardown
            || s.phase == Phase::Dropping,
{
}

/// Migrations are applied to a pool exactly when its plan asks for them.
pub proof fn lemma_migrations_follow_plan(s: InvocationState)
    requires
        state_wf(s),
        s.phase == Phase::Provisioning,
    ensures
        pending_of(s) is Migrate ==> migrates(s, s.pool as int),
        s.stage == Stage::OpenPool ==> (pending_of(next_of(s, Event::Succeeded)) == (
        Action::Migrate { pool: s.pool as usize }) <==> migrates(s, s.pool as int)),
{
}

/// A transaction is begun on a pool only when its plan exposes one, and the
/// pool's plan then always begins it after opening and migrating.
pub proof fn lemma_transaction_follows_plan(s: InvocationState)
    requires
        state_wf(s),
        s.phase == Phase::Provisioning,
    ensures
        pending_of(s) is BeginTransaction ==> has_transaction(s, s.pool as int),
        s.stage == Stage::Migrate ==> (pending_of(next_of(s, Event::Succeeded)) == (
        Action::BeginTransaction { pool: s.pool as usize }) <==> has_transaction(
            s,
            s.pool as int,
        )),
{
}

/// The plan of a valid configuration exposes each transaction under a name
/// other than that of its pool.
pub proof fn lemma_transaction_name_distinct(c: TestConfig, i: int, database: Seq<char>, q: PoolPlan)
    requires
        config_valid(c),
        0 <= i < c.pools@.len(),
        plan_of(c.pools@[i], database, q),
    ensures
        q.transaction_variable matches Some(t) ==> t@ != q.variable@,
{
    assert(exposed_apart(c.pools@, i, i));
}

/// Two pools of a valid configuration whose random suffixes differ get
/// different variables, different database name variables and different
/// databases.
pub proof fn lemma_pools_independent(
    c: TestConfig,
    prefix: Seq<char>,
    suffixes: Seq<Seq<char>>,
    plans: Seq<PoolPlan>,
    i: int,
    j: int,
)
    requires
        config_valid(c),
        suffixes.len() == c.pools@.len(),
        plans.len() == c.pools@.len(),
        forall|k: int|
            0 <= k < plans.len() ==> plan_of(
                c.pools@[k],
                db_name_of(prefix, suffixes[k]),
                #[trigger] plans[k],
            ),
        0 <= i < plans.len(),
        0 <= j < plans.len(),
        i != j,
        suffixes[i] != suffixes[j],
    ensures
        plans[i].variable@ != plans[j].variable@,
        db_name_var_of(plans[i].variable@) != db_name_var_of(plans[j].variable@),
        plans[i].database@ != plans[j].database@,
{
    assert(exposed_apart(c.pools@, i, j));
    assert(plan_of(c.pools@[i], db_name_of(prefix, suffixes[i]), plans[i]));
    assert(plan_of(c.pools@[j], db_name_of(prefix, suffixes[j]), plans[j]));
    lemma_db_name_var_injective(plans[i].variable@, plans[j].variable@);
    lemma_db_name_injective(prefix, suffixes[i], suffixes[j]);
}

/// Different variables give different database name variables.
pub proof fn lemma_db_name_var_injective(a: Seq<char>, b: Seq<char>)
    ensures
        db_name_var_of(a) == db_name_var_of(b) ==> a == b,
{
    reveal_strlit("__");
    reveal_strlit("_db_name");
    let p = "__"@;
    let q = "_db_name"@;
    assert(p.len() == 2);
    assert(q.len() == 8);
    if db_name_var_of(a) == db_name_var_of(b) {
        assert((p + a + q).len() == a.len() + 10);
        assert((p + b + q).len() == b.len() + 10);
        assert(a.len() == b.len());
        assert(a =~= (p + a + q).subrange(2, 2 + a.len() as int));
        assert(b =~= (p + b + q).subrange(2, 2 + b.len() as int));
    }
}

/// With one prefix, different suffixes give different database names.
pub proof fn lemma_db_name_injective(prefix: Seq<char>, a: Seq<char>, b: Seq<char>)
    ensures
        db_name_of(prefix, a) == db_name_of(prefix, b) ==> a == b,
{
    if db_name_of(prefix, a) == db_name_of(prefix, b) && prefix.len() > 0 {
        let x = db_name_of(prefix, a);
        let k = prefix.len() + 1;
        assert("_"@.len() == 1) by {
            reveal_strlit("_");
        }
        assert(a =~= x.subrange(k as int, x.len() as int));
        assert(b =~= db_name_of(prefix, b).subrange(k as int, x.len() as int));
    }
}

} // verus!
