use vstd::prelude::*;
use vstd::string::StrSliceExecFns;
use vstd::string::StringExecFns;

verus! {

/// Fewest random characters that a database name suffix must hold.
pub const MIN_SUFFIX_LEN: usize = 8;

/// Why no database name could be derived.
#[derive(Debug, Clone, Copy, PartialEq, Eq, Structural)]
pub enum NameError {
    /// The random suffix is too short or holds a character other than an
    /// ASCII letter or digit.
    WeakSuffix,
    /// The connection URI has no `scheme://` part.
    MissingScheme,
}

pub open spec fn is_ascii_alnum(c: char) -> bool {
    ('a' <= c && c <= 'z') || ('A' <= c && c <= 'Z') || ('0' <= c && c <= '9')
}

/// A suffix of enough random ASCII letters and digits.
pub open spec fn suffix_ok(s: Seq<char>) -> bool {
    &&& s.len() >= MIN_SUFFIX_LEN
    &&& forall|i: int| 0 <= i < s.len() ==> is_ascii_alnum(#[trigger] s[i])
}

/// The ephemeral database name made of a prefix and a random suffix.
pub open spec fn db_name_of(prefix: Seq<char>, suffix: Seq<char>) -> Seq<char> {
    if prefix.len() == 0 {
        suffix
    } else {
        prefix + "_"@ + suffix
    }
}

/// First index at or after `from` that holds `c`, or the length when none does.
pub open spec fn index_of_from(s: Seq<char>, c: char, from: int) -> int
    decreases s.len() - from,
{
    if from >= s.len() {
        s.len() as int
    } else if s[from] == c {
        from
    } else {
        index_of_from(s, c, from + 1)
    }
}

pub open spec fn sep_at(s: Seq<char>, i: int) -> bool {
    0 <= i && i + 3 <= s.len() && s[i] == ':' && s[i + 1] == '/' && s[i + 2] == '/'
}

/// First index at or after `from` where `://` starts.
pub open spec fn scheme_sep_from(s: Seq<char>, from: int) -> Option<int>
    decreases s.len() - from,
{
    if from < 0 || from + 3 > s.len() {
        None
    } else if sep_at(s, from) {
        Some(from)
    } else {
        scheme_sep_from(s, from + 1)
    }
}

/// The database named in a connection URI `scheme://authority/database?query`,
/// when it names one: the characters between the first `/` after the authority
/// and the first `?` after that.
pub open spec fn database_prefix_of(uri: Seq<char>) -> Result<Option<Seq<char>>, NameError> {
    match scheme_sep_from(uri, 0) {
        None => Err(NameError::MissingScheme),
        Some(k) => {
            let slash = index_of_from(uri, '/', k + 3);
            if slash >= uri.len() {
                Ok(None)
            } else {
                let q = index_of_from(uri, '?', slash + 1);
                if q == slash + 1 {
                    Ok(None)
                } else {
                    Ok(Some(uri.subrange(slash + 1, q)))
                }
            }
        }
    }
}

proof fn lemma_index_of_bounds(s: Seq<char>, c: char, from: int)
    requires
        0 <= from <= s.len(),
    ensures
        from <= index_of_from(s, c, from) <= s.len(),
    decreases s.len() - from,
{
    if from < s.len() && s[from] != c {
        lemma_index_of_bounds(s, c, from + 1);
    }
}

/// First index at or after `from` holding `c`, or the length when none does.
fn index_of(s: &str, n: usize, c: char, from: usize) -> (r: usize)
    requires
        n == s@.len(),
        from <= n,
    ensures
        r == index_of_from(s@, c, from as int),
        from <= r <= n,
{
    proof {
        lemma_index_of_bounds(s@, c, from as int);
    }
    let mut i = from;
    while i < n
        invariant
            n == s@.len(),
            from <= i <= n,
            index_of_from(s@, c, i as int) == index_of_from(s@, c, from as int),
        decreases n - i,
    {
        if s.get_char(i) == c {
            return i;
        }
        i = i + 1;
    }
    i
}

/// Index where the first `://` of `s` starts.
fn scheme_sep(s: &str, n: usize) -> (r: Option<usize>)
    requires
        n == s@.len(),
    ensures
        r matches Some(k) ==> scheme_sep_from(s@, 0) == Some(k as int) && k + 3 <= n,
        r is None ==> scheme_sep_from(s@, 0) is None,
{
    let mut k: usize = 0;
    while n >= 3 && k <= n - 3
        invariant
            n == s@.len(),
            scheme_sep_from(s@, k as int) == scheme_sep_from(s@, 0),
        decreases n - k,
    {
        if s.get_char(k) == ':' && s.get_char(k + 1) == '/' && s.get_char(k + 2) == '/' {
            return Some(k);
        }
        k = k + 1;
    }
    None
}

/// Derives the database name prefix from a connection URI: the database that
/// the URI names, or `None` when it names none.
pub fn database_prefix(uri: &str) -> (r: Result<Option<String>, NameError>)
    ensures
        r matches Err(e) ==> database_prefix_of(uri@) == Err::<Option<Seq<char>>, NameError>(e),
        r matches Ok(None) ==> database_prefix_of(uri@) == Ok::<Option<Seq<char>>, NameError>(
            None,
        ),
        r matches Ok(Some(p)) ==> database_prefix_of(uri@) == Ok::<Option<Seq<char>>, NameError>(
            Some(p@),
        ),
{
    let n = uri.unicode_len();
    let k = match scheme_sep(uri, n) {
        Some(k) => k,
        None => {
            return Err(NameError::MissingScheme);
        },
    };
    let slash = index_of(uri, n, '/', k + 3);
    if slash >= n {
        return Ok(None);
    }
    let q = index_of(uri, n, '?', slash + 1);
    if q == slash + 1 {
        return Ok(None);
    }
    Ok(Some(String::from_str(uri.substring_char(slash + 1, q))))
}

/// Checks that a suffix has enough ASCII letters and digits.
pub fn check_suffix(suffix: &str) -> (r: bool)
    ensures
        r == suffix_ok(suffix@),
{
    let n = suffix.unicode_len();
    if n < MIN_SUFFIX_LEN {
        return false;
    }
    let mut i: usize = 0;
    while i < n
        invariant
            n == suffix@.len(),
            0 <= i <= n,
            forall|k: int| 0 <= k < i ==> is_ascii_alnum(#[trigger] suffix@[k]),
        decreases n - i,
    {
        let c = suffix.get_char(i);
        if !(('a' <= c && c <= 'z') || ('A' <= c && c <= 'Z') || ('0' <= c && c <= '9')) {
            return false;
        }
        i = i + 1;
    }
    true
}

/// Makes the name of an ephemeral database from a prefix and a random suffix.
pub fn database_name(prefix: &str, suffix: &str) -> (r: Result<String, NameError>)
    ensures
        r is Ok <==> suffix_ok(suffix@),
        r matches Ok(name) ==> name@ == db_name_of(prefix@, suffix@),
        r matches Err(e) ==> e == NameError::WeakSuffix,
{
    if !check_suffix(suffix) {
        return Err(NameError::WeakSuffix);
    }
    if prefix.unicode_len() == 0 {
        Ok(String::from_str(suffix))
    } else {
        Ok(String::from_str(prefix).concat("_").concat(suffix))
    }
}

} // verus!
