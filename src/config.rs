use vstd::prelude::*;
use vstd::string::StrSliceExecFns;
use vstd::string::StringExecFns;

verus! {

/// Migrations directory used when a pool names none.
pub const DEFAULT_MIGRATIONS_DIR: &'static str = "./migrations";

/// Configuration of one ephemeral database and the handles exposed for it.
pub struct PoolSpec {
    /// Name under which the connection pool is exposed to the test body.
    pub variable: String,
    /// Name under which a transaction on that pool is exposed, if any.
    pub transaction_variable: Option<String>,
    /// Directory holding the migrations; the default directory when absent.
    pub migrations: Option<String>,
    /// When set, the database is created but no migration is applied.
    pub skip_migrations: bool,
}

/// Configuration of one test: driver log level and the pools it asks for.
pub struct TestConfig {
    /// Driver log verbosity, handed to connection setup unchanged.
    pub level: String,
    /// One entry per ephemeral database, in declaration order.
    pub pools: Vec<PoolSpec>,
}

/// Why a test configuration was refused.
#[derive(Debug, Clone, Copy, PartialEq, Eq, Structural)]
pub enum ConfigError {
    /// The test declares no pool at all.
    NoPools,
    /// A variable or transaction variable of this pool is not an identifier.
    InvalidIdentifier { pool: usize },
    /// A name exposed by this pool is already exposed by it or by an earlier pool.
    DuplicateName { pool: usize },
}

pub open spec fn is_ident_start(c: char) -> bool {
    ('a' <= c && c <= 'z') || ('A' <= c && c <= 'Z') || c == '_'
}

pub open spec fn is_ident_continue(c: char) -> bool {
    is_ident_start(c) || ('0' <= c && c <= '9')
}

/// A plain ASCII identifier: a letter or `_`, then letters, digits or `_`.
pub open spec fn is_identifier(s: Seq<char>) -> bool {
    &&& s.len() > 0
    &&& is_ident_start(s[0])
    &&& forall|i: int| 0 < i < s.len() ==> is_ident_continue(#[trigger] s[i])
}

/// Name of the variable that holds the generated database name of a pool.
pub open spec fn db_name_var_of(variable: Seq<char>) -> Seq<char> {
    "__"@ + variable + "_db_name"@
}

/// Directory whose migrations are applied for a pool.
pub open spec fn migrations_dir_of(p: PoolSpec) -> Seq<char> {
    match p.migrations {
        Some(d) => d@,
        None => DEFAULT_MIGRATIONS_DIR@,
    }
}

/// Every name that a pool exposes is an identifier.
pub open spec fn pool_idents_ok(p: PoolSpec) -> bool {
    &&& is_identifier(p.variable@)
    &&& (p.transaction_variable matches Some(t) ==> is_identifier(t@))
}

/// Pool `j` exposes no name that pool `i` exposes (taking `i == j` to mean
/// that the pool's own two names differ).
pub open spec fn exposed_apart(pools: Seq<PoolSpec>, i: int, j: int) -> bool {
    let a = pools[i];
    let b = pools[j];
    if i == j {
        a.transaction_variable matches Some(t) ==> t@ != a.variable@
    } else {
        &&& a.variable@ != b.variable@
        &&& (a.transaction_variable matches Some(t) ==> t@ != b.variable@)
        &&& (b.transaction_variable matches Some(u) ==> u@ != a.variable@)
        &&& (a.transaction_variable matches Some(t) ==> (b.transaction_variable matches Some(u)
            ==> t@ != u@))
    }
}

/// All names exposed over all pools are pairwise different.
pub open spec fn exposed_names_distinct(pools: Seq<PoolSpec>) -> bool {
    forall|i: int, j: int|
        0 <= i < pools.len() && 0 <= j < pools.len() ==> #[trigger] exposed_apart(pools, i, j)
}

/// The pools `0..k` are free of errors of kind `InvalidIdentifier`.
pub open spec fn idents_ok_upto(pools: Seq<PoolSpec>, k: int) -> bool {
    forall|i: int| 0 <= i < k ==> #[trigger] pool_idents_ok(pools[i])
}

/// Among the pools `0..k`, names are pairwise different.
pub open spec fn distinct_upto(pools: Seq<PoolSpec>, k: int) -> bool {
    forall|i: int, j: int| 0 <= i < k && 0 <= j < k ==> #[trigger] exposed_apart(pools, i, j)
}

/// A configuration that can be run.
pub open spec fn config_valid(c: TestConfig) -> bool {
    &&& c.pools@.len() > 0
    &&& idents_ok_upto(c.pools@, c.pools@.len() as int)
    &&& exposed_names_distinct(c.pools@)
}

/// The error that validation reports: the first pool at fault, each pool being
/// checked for its own names before it is compared with the earlier pools.
pub open spec fn first_config_error(pools: Seq<PoolSpec>, k: int) -> Option<ConfigError>
    decreases k,
{
    if k <= 0 {
        None
    } else {
        match first_config_error(pools, k - 1) {
            Some(e) => Some(e),
            None => if !pool_idents_ok(pools[k - 1]) {
                Some(ConfigError::InvalidIdentifier { pool: (k - 1) as usize })
            } else if !(forall|j: int| 0 <= j < k ==> #[trigger] exposed_apart(pools, k - 1, j)) {
                Some(ConfigError::DuplicateName { pool: (k - 1) as usize })
            } else {
                None
            },
        }
    }
}

pub open spec fn validation_result(c: TestConfig) -> Result<(), ConfigError> {
    if c.pools@.len() == 0 {
        Err(ConfigError::NoPools)
    } else {
        match first_config_error(c.pools@, c.pools@.len() as int) {
            Some(e) => Err(e),
            None => Ok(()),
        }
    }
}

/// Whether `s` is a plain ASCII identifier.
pub fn check_identifier(s: &str) -> (r: bool)
    ensures
        r == is_identifier(s@),
{
    let n = s.unicode_len();
    if n == 0 {
        return false;
    }
    let c0 = s.get_char(0);
    if !(('a' <= c0 && c0 <= 'z') || ('A' <= c0 && c0 <= 'Z') || c0 == '_') {
        return false;
    }
    let mut i: usize = 1;
    while i < n
        invariant
            n == s@.len(),
            1 <= i <= n,
            is_ident_start(s@[0]),
            forall|k: int| 0 < k < i ==> is_ident_continue(#[trigger] s@[k]),
        decreases n - i,
    {
        let c = s.get_char(i);
        if !(('a' <= c && c <= 'z') || ('A' <= c && c <= 'Z') || c == '_' || ('0' <= c && c
            <= '9')) {
            return false;
        }
        i = i + 1;
    }
    true
}

impl PoolSpec {
    /// A pool exposed under `variable`, with default migrations and no transaction.
    pub fn new(variable: String) -> (r: PoolSpec)
        ensures
            r.variable@ == variable@,
            r.transaction_variable is None,
            r.migrations is None,
            !r.skip_migrations,
    {
        PoolSpec { variable, transaction_variable: None, migrations: None, skip_migrations: false }
    }

    /// Name of the variable that holds this pool's generated database name.
    pub fn database_name_var(&self) -> (r: String)
        ensures
            r@ == db_name_var_of(self.variable@),
    {
        String::from_str("__").concat(self.variable.as_str()).concat("_db_name")
    }

    /// The directory whose migrations are applied to this pool's database.
    pub fn migrations_dir(&self) -> (r: String)
        ensures
            r@ == migrations_dir_of(*self),
    {
        match &self.migrations {
            Some(d) => d.clone(),
            None => String::from_str(DEFAULT_MIGRATIONS_DIR),
        }
    }

    fn idents_ok(&self) -> (r: bool)
        ensures
            r == pool_idents_ok(*self),
    {
        if !check_identifier(self.variable.as_str()) {
            return false;
        }
        match &self.transaction_variable {
            Some(t) => check_identifier(t.as_str()),
            None => true,
        }
    }
}

/// Whether two optional names are both present and equal.
fn same_name(a: &Option<String>, b: &String) -> (r: bool)
    ensures
        r == (a matches Some(t) && t@ == b@),
{
    match a {
        Some(t) => t.eq(b),
        None => false,
    }
}

/// Whether pools `i` and `j` expose no common name.
fn apart(pools: &Vec<PoolSpec>, i: usize, j: usize) -> (r: bool)
    requires
        i < pools@.len(),
        j < pools@.len(),
    ensures
        r == exposed_apart(pools@, i as int, j as int),
{
    let a = &pools[i];
    let b = &pools[j];
    if i == j {
        return !same_name(&a.transaction_variable, &a.variable);
    }
    if a.variable.eq(&b.variable) {
        return false;
    }
    if same_name(&a.transaction_variable, &b.variable) {
        return false;
    }
    if same_name(&b.transaction_variable, &a.variable) {
        return false;
    }
    match (&a.transaction_variable, &b.transaction_variable) {
        (Some(t), Some(u)) => !t.eq(u),
        _ => true,
    }
}

impl TestConfig {
    /// Checks that the configuration can be run: at least one pool, every
    /// exposed name an identifier, and no name exposed twice.
    pub fn validate(&self) -> (r: Result<(), ConfigError>)
        ensures
            r == validation_result(*self),
            r is Ok <==> config_valid(*self),
    {
        let n = self.pools.len();
        if n == 0 {
            return Err(ConfigError::NoPools);
        }
        let mut k: usize = 0;
        while k < n
            invariant
                n == self.pools@.len(),
                0 <= k <= n,
                first_config_error(self.pools@, k as int) is None,
                idents_ok_upto(self.pools@, k as int),
                distinct_upto(self.pools@, k as int),
            decreases n - k,
        {
            if !self.pools[k].idents_ok() {
                proof {
                    lemma_first_error_stable(self.pools@, k + 1, n as int);
                }
                return Err(ConfigError::InvalidIdentifier { pool: k });
            }
            let mut j: usize = 0;
            while j <= k
                invariant
                    n == self.pools@.len(),
                    k < n,
                    0 <= j <= k + 1,
                    first_config_error(self.pools@, k as int) is None,
                    pool_idents_ok(self.pools@[k as int]),
                    forall|m: int| 0 <= m < j ==> #[trigger] exposed_apart(self.pools@, k as int, m),
                decreases k + 1 - j,
            {
                if !apart(&self.pools, k, j) {
                    proof {
                        lemma_first_error_stable(self.pools@, k + 1, n as int);
                    }
                    return Err(ConfigError::DuplicateName { pool: k });
                }
                j = j + 1;
            }
            proof {
                lemma_apart_symmetric(self.pools@, k as int);
                assert(idents_ok_upto(self.pools@, k + 1));
                assert forall|a: int, b: int| 0 <= a < k + 1 && 0 <= b < k + 1 implies
                    #[trigger] exposed_apart(self.pools@, a, b) by {
                    if a == k {
                    } else if b == k {
                        assert(exposed_apart(self.pools@, k as int, a));
                    } else {
                    }
                }
            }
            k = k + 1;
        }
        Ok(())
    }
}

/// Once some pool is at fault, looking at more pools reports the same error.
proof fn lemma_first_error_stable(pools: Seq<PoolSpec>, k: int, m: int)
    requires
        0 < k <= m,
        first_config_error(pools, k) is Some,
    ensures
        first_config_error(pools, m) == first_config_error(pools, k),
    decreases m - k,
{
    if m > k {
        lemma_first_error_stable(pools, k, m - 1);
    }
}

proof fn lemma_apart_symmetric(pools: Seq<PoolSpec>, k: int)
    requires
        0 <= k < pools.len(),
    ensures
        forall|m: int|
            0 <= m < pools.len() ==> (exposed_apart(pools, k, m) <==> #[trigger] exposed_apart(
                pools,
                m,
                k,
            )),
{
}

} // verus!
