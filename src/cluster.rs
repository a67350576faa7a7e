//! The decisions behind controlling a cluster: reading `pg_ctl status`,
//! choosing a runtime, building the arguments, environment and SQL that the
//! subprocesses and connections get.

use vstd::prelude::*;
use vstd::string::*;

use crate::config::{sql_identifier, value_text, Parameter, Value};
use crate::coordinate::State;
use crate::runtime::{Constraint, Runtime, Strategy};
use crate::text::{concat, is_word_char, str_eq};
use crate::version::{PartialVersion, Version};

verus! {

/// What can go wrong in the decisions about a cluster.
#[derive(Debug)]
pub enum ClusterError {
    /// `pg_ctl status` gave an answer this version's rules do not explain.
    UnsupportedVersion(Version),
    /// No runtime is compatible with the cluster's version.
    RuntimeNotFound(PartialVersion),
    /// No runtime at all is available for a new cluster.
    RuntimeDefaultNotFound,
    /// A subprocess was terminated by a signal.
    Terminated,
    /// Text could not be quoted for the shell.
    ShellQuote(String),
    /// A connection URL could not be built.
    Url(String),
}

/// Shell-quoted text, as `sh` would read it back; `None` where the quoted
/// bytes are not UTF-8.
pub uninterp spec fn sh_quoted(s: Seq<char>) -> Option<Seq<char>>;

/// Relies on `shell_quote::Sh::quote_vec`, which quotes text for `/bin/sh`
/// (an empty string becomes `''`); its bytes are read back as UTF-8.
#[verifier::external_body]
pub(crate) fn quote_sh(s: &str) -> (r: Option<String>)
    ensures
        r is Some <==> sh_quoted(s@) is Some,
        r matches Some(x) ==> sh_quoted(s@) == Some(x@),
        s@.len() == 0 ==> r is Some && r->Some_0@ == seq!['\'', '\''],
{
    String::from_utf8(shell_quote::Sh::quote_vec(s)).ok()
}

/// The URL `base` with the query pairs appended, form-encoded.
pub uninterp spec fn url_with_query(base: Seq<char>, pairs: Seq<(Seq<char>, Seq<char>)>) -> Option<
    Seq<char>,
>;

pub open spec fn pairs_view(pairs: Seq<(String, String)>) -> Seq<(Seq<char>, Seq<char>)> {
    pairs.map_values(|p: (String, String)| (p.0@, p.1@))
}

/// Relies on `url::Url::parse_with_params`, which parses `base` and appends
/// the pairs to its query; the URL is handed back as text.
#[verifier::external_body]
fn url_with_params(base: &str, pairs: &Vec<(String, String)>) -> (r: Option<String>)
    ensures
        r is Some <==> url_with_query(base@, pairs_view(pairs@)) is Some,
        r matches Some(x) ==> url_with_query(base@, pairs_view(pairs@)) == Some(x@),
{
    url::Url::parse_with_params(base, pairs.iter()).ok().map(|u| u.to_string())
}

/// The simple (32 lowercase hex digits) form of the version-5 UUID of
/// `name` under `namespace`.
pub uninterp spec fn uuid_v5_simple(namespace: u128, name: Seq<u8>) -> Seq<char>;

/// Relies on `uuid::Uuid::new_v5` and its simple text form, which is 32
/// lowercase hexadecimal digits.
#[verifier::external_body]
fn uuid_v5_text(namespace: u128, name: &[u8]) -> (r: String)
    ensures
        r@ == uuid_v5_simple(namespace, name@),
        r@.len() == 32,
{
    uuid::Uuid::new_v5(&uuid::Uuid::from_u128(namespace), name).simple().to_string()
}

/// The namespace under which lock file names are derived from data
/// directory paths.
pub const LOCK_NAMESPACE: u128 = 93875103436633470414348750305797058811;

/// The lock file name for a cluster whose canonical data directory is
/// `path`: `.pgdo.` followed by the version-5 UUID of the path.
pub fn lock_file_name(path: &str) -> (r: String)
    ensures
        r@ == ".pgdo."@ + uuid_v5_simple(LOCK_NAMESPACE, path.spec_bytes()),
{
    let id = uuid_v5_text(LOCK_NAMESPACE, path.as_bytes());
    concat(".pgdo.", id.as_str())
}

/// What an exit code of `pg_ctl status` says about whether the server runs,
/// under the rules of the runtime's version; `None` where it says nothing
/// certain. `has_version_file` tells whether the data directory holds
/// `PG_VERSION`.
pub open spec fn status_running(version: Version, code: i32, has_version_file: bool) -> Option<
    bool,
> {
    if code == 0 {
        Some(true)
    } else {
        match version {
            Version::Post10(_, _) => if code == 3 || (code == 4 && !has_version_file) {
                Some(false)
            } else {
                None
            },
            Version::Pre10(major, point, _) => if major != 9 {
                None
            } else if point >= 4 {
                if code == 3 || (code == 4 && !has_version_file) {
                    Some(false)
                } else {
                    None
                }
            } else if point >= 2 {
                if code == 3 {
                    Some(false)
                } else {
                    None
                }
            } else if code == 1 {
                Some(false)
            } else {
                None
            },
        }
    }
}

/// Interpret the exit of `pg_ctl status`: `code` is `None` when it was
/// killed by a signal.
pub fn running_from_status(version: Version, code: Option<i32>, has_version_file: bool) -> (r:
    Result<bool, ClusterError>)
    ensures
        code is None ==> r matches Err(ClusterError::Terminated),
        code matches Some(c) ==> match status_running(version, c, has_version_file) {
            Some(b) => r == Ok::<bool, ClusterError>(b),
            None => r matches Err(ClusterError::UnsupportedVersion(v)) && v == version,
        },
{
    let code = match code {
        None => return Err(ClusterError::Terminated),
        Some(c) => c,
    };
    if code == 0 {
        return Ok(true);
    }
    let running = match version {
        Version::Post10(_, _) => if code == 3 || (code == 4 && !has_version_file) {
            Some(false)
        } else {
            None
        },
        Version::Pre10(major, point, _) => if major != 9 {
            None
        } else if point >= 4 {
            if code == 3 || (code == 4 && !has_version_file) {
                Some(false)
            } else {
                None
            }
        } else if point >= 2 {
            if code == 3 {
                Some(false)
            } else {
                None
            }
        } else if code == 1 {
            Some(false)
        } else {
            None
        },
    };
    match running {
        Some(b) => Ok(b),
        None => Err(ClusterError::UnsupportedVersion(version)),
    }
}

/// The states of a cluster, as seen from the filesystem and the server.
#[derive(Debug, Clone, Copy, PartialEq, Eq, Structural)]
pub enum ClusterState {
    /// No `PG_VERSION` in the data directory.
    Absent,
    /// Created, with no server running.
    Stopped,
    /// The server is running.
    Running,
}

/// The lifecycle transitions of a cluster.
#[derive(Debug, Clone, Copy, PartialEq, Eq, Structural)]
pub enum Transition {
    Create,
    /// Start, creating first when needed.
    Start,
    Stop,
    /// Stop when needed, then delete.
    Destroy,
}

/// Where a transition leads from `s`, and whether it has anything to do
/// there: a transition into the state already held does nothing.
pub open spec fn lifecycle_next(s: ClusterState, t: Transition) -> (ClusterState, State) {
    match t {
        Transition::Create => if s is Absent {
            (ClusterState::Stopped, State::Modified)
        } else {
            (s, State::Unmodified)
        },
        Transition::Start => if s is Running {
            (s, State::Unmodified)
        } else {
            (ClusterState::Running, State::Modified)
        },
        Transition::Stop => if s is Running {
            (ClusterState::Stopped, State::Modified)
        } else {
            (s, State::Unmodified)
        },
        Transition::Destroy => if s is Absent {
            (s, State::Unmodified)
        } else {
            (ClusterState::Absent, State::Modified)
        },
    }
}

/// Decide what transition `t` does from the observed state `s`.
pub fn lifecycle(s: ClusterState, t: Transition) -> (r: (ClusterState, State))
    ensures
        r == lifecycle_next(s, t),
{
    match t {
        Transition::Create => match s {
            ClusterState::Absent => (ClusterState::Stopped, State::Modified),
            _ => (s, State::Unmodified),
        },
        Transition::Start => match s {
            ClusterState::Running => (s, State::Unmodified),
            _ => (ClusterState::Running, State::Modified),
        },
        Transition::Stop => match s {
            ClusterState::Running => (ClusterState::Stopped, State::Modified),
            _ => (s, State::Unmodified),
        },
        Transition::Destroy => match s {
            ClusterState::Absent => (s, State::Unmodified),
            _ => (ClusterState::Absent, State::Modified),
        },
    }
}

/// Every transition is idempotent: doing it a second time does nothing and
/// reports `Unmodified`. From the states where it has work to do (create
/// from absent, start from absent or stopped, stop from running, destroy
/// from stopped or running) the first time reports `Modified`.
pub proof fn lemma_lifecycle_idempotent(s: ClusterState, t: Transition)
    ensures
        ({
            let (s1, _) = lifecycle_next(s, t);
            lifecycle_next(s1, t) == (s1, State::Unmodified)
        }),
        (t is Create && s is Absent) ==> lifecycle_next(s, t).1 == State::Modified,
        (t is Start && !(s is Running)) ==> lifecycle_next(s, t).1 == State::Modified,
        (t is Stop && s is Running) ==> lifecycle_next(s, t).1 == State::Modified,
        (t is Destroy && !(s is Absent)) ==> lifecycle_next(s, t).1 == State::Modified,
{
}

/// Starting twice gives `Modified`, then `Unmodified`; so does stopping a
/// running cluster twice, creating an absent one twice, and destroying an
/// existing one twice.
pub proof fn lemma_lifecycle_twice(s: ClusterState)
    ensures
        !(s is Running) ==> {
            let (s1, first) = lifecycle_next(s, Transition::Start);
            first == State::Modified && lifecycle_next(s1, Transition::Start).1 == State::Unmodified
        },
        s is Running ==> {
            let (s1, first) = lifecycle_next(s, Transition::Stop);
            first == State::Modified && lifecycle_next(s1, Transition::Stop).1 == State::Unmodified
        },
        s is Absent ==> {
            let (s1, first) = lifecycle_next(s, Transition::Create);
            first == State::Modified && lifecycle_next(s1, Transition::Create).1 == State::Unmodified
        },
        !(s is Absent) ==> {
            let (s1, first) = lifecycle_next(s, Transition::Destroy);
            first == State::Modified && lifecycle_next(s1, Transition::Destroy).1 == State::Unmodified
        },
{
}

/// The runtime for a cluster: one compatible with the version on disk when
/// there is one, else the strategy's fallback.
pub fn choose_runtime(strategy: &Strategy, on_disk: Option<PartialVersion>) -> (r: Result<
    Runtime,
    ClusterError,
>)
    requires
        strategy.wf(),
    ensures
        match on_disk {
            None => match strategy.selection(Constraint::Anything) {
                Some(rt) => r == Ok::<Runtime, ClusterError>(rt),
                None => r matches Err(ClusterError::RuntimeDefaultNotFound),
            },
            Some(v) => match strategy.selection(Constraint::Version(v)) {
                Some(rt) => r == Ok::<Runtime, ClusterError>(rt),
                None => r matches Err(ClusterError::RuntimeNotFound(w)) && w == v,
            },
        },
{
    match on_disk {
        None => match strategy.fallback() {
            Some(rt) => Ok(rt),
            None => Err(ClusterError::RuntimeDefaultNotFound),
        },
        Some(v) => match strategy.select(&Constraint::Version(v)) {
            Some(rt) => Ok(rt),
            None => Err(ClusterError::RuntimeNotFound(v)),
        },
    }
}

/// The database used when none is named.
pub const DATABASE_POSTGRES: &'static str = "postgres";

/// The shell-quoted words that follow `-o` when `pg_ctl` starts the server:
/// listen on no TCP address, put the socket in the data directory, and set
/// each option with `-c name=value`.
pub open spec fn postgres_args(datadir: Seq<char>, options: Seq<(Parameter, Value)>) -> Option<
    Seq<char>,
>
    decreases options.len(),
{
    if options.len() == 0 {
        match sh_quoted(datadir) {
            Some(q) => Some("-h '' -k "@ + q),
            None => None,
        }
    } else {
        let (p, v) = options.last();
        match (postgres_args(datadir, options.drop_last()), sh_quoted(p.0@ + "="@ + value_text(v@))) {
            (Some(init), Some(q)) => Some(init + " -c "@ + q),
            _ => None,
        }
    }
}

/// Once some prefix of the options cannot be quoted, neither can the whole.
proof fn lemma_args_unquotable(datadir: Seq<char>, options: Seq<(Parameter, Value)>, k: int)
    requires
        0 <= k <= options.len(),
        postgres_args(datadir, options.subrange(0, k)) is None,
    ensures
        postgres_args(datadir, options) is None,
    decreases options.len() - k,
{
    if k < options.len() {
        assert(options.subrange(0, k + 1).drop_last() == options.subrange(0, k));
        lemma_args_unquotable(datadir, options, k + 1);
    } else {
        assert(options.subrange(0, k) == options);
    }
}

/// Build the arguments `pg_ctl start` hands to the server.
pub fn start_arguments(datadir: &str, options: &Vec<(Parameter, Value)>) -> (r: Result<
    String,
    ClusterError,
>)
    ensures
        match postgres_args(datadir@, options@) {
            Some(a) => r matches Ok(x) && x@ == a,
            None => r is Err,
        },
{
    let q = match quote_sh(datadir) {
        Some(q) => q,
        None => {
            proof {
                lemma_args_unquotable(datadir@, options@, 0);
            }
            return Err(ClusterError::ShellQuote(datadir.to_owned()));
        },
    };
    let mut out = concat("-h '' -k ", q.as_str());
    let mut i: usize = 0;
    while i < options.len()
        invariant
            i <= options@.len(),
            postgres_args(datadir@, options@.subrange(0, i as int)) == Some(out@),
        decreases options@.len() - i,
    {
        let (p, v) = &options[i];
        let mut setting = concat(p.0, "=");
        setting.append(v.to_string().as_str());
        assert(options@.subrange(0, i + 1).drop_last() == options@.subrange(0, i as int));
        match quote_sh(setting.as_str()) {
            Some(q) => {
                out.append(" -c ");
                out.append(q.as_str());
            },
            None => {
                proof {
                    lemma_args_unquotable(datadir@, options@, i + 1);
                }
                return Err(ClusterError::ShellQuote(setting));
            },
        }
        i = i + 1;
    }
    assert(options@.subrange(0, options@.len() as int) == options@);
    Ok(out)
}

/// The environment of a subprocess or connection that works on the cluster
/// in `datadir`, using `database` (`postgres` by default): `PGDATA`,
/// `PGHOST` (the socket directory), `PGDATABASE` and `DATABASE_URL`.
pub open spec fn cluster_env(datadir: Seq<char>, database: Seq<char>, url: Seq<char>) -> Seq<
    (Seq<char>, Seq<char>),
> {
    seq![
        ("PGDATA"@, datadir),
        ("PGHOST"@, datadir),
        ("PGDATABASE"@, database),
        ("DATABASE_URL"@, url),
    ]
}

pub open spec fn database_or_default(database: Option<&str>) -> Seq<char> {
    match database {
        Some(d) => d@,
        None => DATABASE_POSTGRES@,
    }
}

/// Build that environment.
pub fn environment(datadir: &str, database: Option<&str>) -> (r: Result<
    Vec<(String, String)>,
    ClusterError,
>)
    ensures
        match url_with_query(
            "postgresql://"@,
            seq![("host"@, datadir@), ("dbname"@, database_or_default(database))],
        ) {
            Some(u) => r matches Ok(env) && pairs_view(env@) == cluster_env(
                datadir@,
                database_or_default(database),
                u,
            ),
            None => r is Err,
        },
{
    let database = match database {
        Some(d) => d,
        None => DATABASE_POSTGRES,
    };
    let mut query: Vec<(String, String)> = Vec::new();
    query.push(("host".to_owned(), datadir.to_owned()));
    query.push(("dbname".to_owned(), database.to_owned()));
    assert(pairs_view(query@) =~= seq![("host"@, datadir@), ("dbname"@, database@)]);
    let url = match url_with_params("postgresql://", &query) {
        Some(u) => u,
        None => return Err(ClusterError::Url(datadir.to_owned())),
    };
    let mut env: Vec<(String, String)> = Vec::new();
    env.push(("PGDATA".to_owned(), datadir.to_owned()));
    env.push(("PGHOST".to_owned(), datadir.to_owned()));
    env.push(("PGDATABASE".to_owned(), database.to_owned()));
    env.push(("DATABASE_URL".to_owned(), url));
    assert(pairs_view(env@) =~= cluster_env(datadir@, database@, url@));
    Ok(env)
}

/// The statement that creates the named database.
pub fn create_database_sql(name: &str) -> (r: String)
    ensures
        r@ == "CREATE DATABASE "@ + sql_identifier(name@),
{
    concat("CREATE DATABASE ", Parameter(name).as_sql().as_str())
}

/// The statement that drops the named database.
pub fn drop_database_sql(name: &str) -> (r: String)
    ensures
        r@ == "DROP DATABASE "@ + sql_identifier(name@),
{
    concat("DROP DATABASE ", Parameter(name).as_sql().as_str())
}

/// SQLSTATE of `CREATE DATABASE` for a database that already exists.
pub const DUPLICATE_DATABASE: &'static str = "42P04";

/// SQLSTATE of `DROP DATABASE` for a database that does not exist.
pub const UNDEFINED_DATABASE: &'static str = "3D000";

/// SQLSTATE for an unknown object, such as a parameter an old server lacks.
pub const UNDEFINED_OBJECT: &'static str = "42704";

/// What a statement that changes the cluster came to. `failure` is `None`
/// when it succeeded, else the SQLSTATE of the error, if it had one; an
/// error whose SQLSTATE is `tolerated` means the change was already in
/// place. `None` means the error must be passed on.
pub fn change_outcome(failure: Option<Option<&str>>, tolerated: &str) -> (r: Option<State>)
    ensures
        failure is None ==> r == Some(State::Modified),
        failure matches Some(Some(code)) ==> (code@ == tolerated@ ==> r == Some(State::Unmodified)),
        failure matches Some(Some(code)) ==> (code@ != tolerated@ ==> r is None),
        failure matches Some(None) ==> r is None,
{
    match failure {
        None => Some(State::Modified),
        Some(Some(code)) => if str_eq(code, tolerated) {
            Some(State::Unmodified)
        } else {
            None
        },
        Some(None) => None,
    }
}

/// The process exit code that passes on a subprocess's: `None` when it was
/// terminated by a signal; codes outside `0..=255` become 1.
pub fn exit_code(code: Option<i32>) -> (r: Option<u8>)
    ensures
        code is None ==> r is None,
        code matches Some(c) ==> (0 <= c <= 255 ==> r == Some(c as u8)),
        code matches Some(c) ==> (!(0 <= c <= 255) ==> r == Some(1u8)),
{
    match code {
        None => None,
        Some(c) => if 0 <= c && c <= 255 {
            Some(c as u8)
        } else {
            Some(1)
        },
    }
}

pub open spec fn is_space(c: char) -> bool {
    c == ' ' || c == '\t' || c == '\n' || c == '\r' || c == '\x0B' || c == '\x0C'
}

/// The first index at or after `i` that does not hold white space.
pub open spec fn skip_space(s: Seq<char>, i: int) -> int
    decreases s.len() - i,
{
    if 0 <= i < s.len() && is_space(s[i]) {
        skip_space(s, i + 1)
    } else {
        i
    }
}

/// The end of the line that position `i` is on.
pub open spec fn line_end(s: Seq<char>, i: int) -> int
    decreases s.len() - i,
{
    if 0 <= i < s.len() && s[i] != '\n' {
        line_end(s, i + 1)
    } else {
        i
    }
}

/// The last double quote in `s[lo + 1..hi]`.
pub open spec fn last_quote(s: Seq<char>, lo: int, hi: int) -> Option<int>
    decreases hi - lo,
{
    if hi <= lo + 1 {
        None
    } else if s[hi - 1] == '"' {
        Some(hi - 1)
    } else {
        last_quote(s, lo, hi - 1)
    }
}

/// A role name printed by a single-user server, `rolname = "name"`, starts
/// at `i`: the name is `s[lo..q]`, and what follows starts at `q + 1`. The
/// name runs to the last double quote on its line.
pub open spec fn role_at(s: Seq<char>, i: int) -> Option<(int, int)> {
    let j = skip_space(s, i + 7);
    let k = skip_space(s, j + 1);
    let lo = k + 1;
    if 0 <= i && i + 7 <= s.len() && (i == 0 || !is_word_char(s[i - 1])) && s.subrange(i, i + 7)
        == seq!['r', 'o', 'l', 'n', 'a', 'm', 'e'] && j < s.len() && s[j] == '=' && k < s.len()
        && s[k] == '"' {
        match last_quote(s, lo, line_end(s, lo)) {
            Some(q) => Some((lo, q)),
            None => None,
        }
    } else {
        None
    }
}

/// Every role name printed in `s` from position `p` on, in order.
pub open spec fn roles_from(s: Seq<char>, p: int) -> Seq<Seq<char>>
    decreases s.len() - p,
{
    if p < 0 || p >= s.len() {
        Seq::empty()
    } else {
        match role_at(s, p) {
            Some((lo, q)) => if p < q + 1 <= s.len() {
                seq![s.subrange(lo, q)] + roles_from(s, q + 1)
            } else {
                Seq::empty()
            },
            None => roles_from(s, p + 1),
        }
    }
}

proof fn lemma_skip_space(s: Seq<char>, i: int)
    requires
        0 <= i <= s.len(),
    ensures
        i <= skip_space(s, i) <= s.len(),
    decreases s.len() - i,
{
    if i < s.len() && is_space(s[i]) {
        lemma_skip_space(s, i + 1);
    }
}

proof fn lemma_line_end(s: Seq<char>, i: int)
    requires
        0 <= i <= s.len(),
    ensures
        i <= line_end(s, i) <= s.len(),
    decreases s.len() - i,
{
    if i < s.len() && s[i] != '\n' {
        lemma_line_end(s, i + 1);
    }
}

proof fn lemma_last_quote(s: Seq<char>, lo: int, hi: int)
    ensures
        last_quote(s, lo, hi) matches Some(q) ==> lo < q < hi,
    decreases hi - lo,
{
    if hi > lo + 1 && s[hi - 1] != '"' {
        lemma_last_quote(s, lo, hi - 1);
    }
}

fn space_end(cs: &Vec<char>, i: usize) -> (r: usize)
    requires
        i <= cs@.len(),
    ensures
        r == skip_space(cs@, i as int),
        i <= r <= cs@.len(),
{
    let mut j = i;
    while j < cs.len() && (cs[j] == ' ' || cs[j] == '\t' || cs[j] == '\n' || cs[j] == '\r' || cs[j]
        == '\x0B' || cs[j] == '\x0C')
        invariant
            i <= j <= cs@.len(),
            skip_space(cs@, i as int) == skip_space(cs@, j as int),
        decreases cs@.len() - j,
    {
        j = j + 1;
    }
    j
}

fn role_at_exec(cs: &Vec<char>, i: usize) -> (r: Option<(usize, usize)>)
    requires
        i < cs@.len(),
    ensures
        match role_at(cs@, i as int) {
            Some((lo, q)) => r matches Some((a, b)) && a == lo && b == q,
            None => r is None,
        },
        r matches Some((a, b)) ==> i < a < b < cs@.len(),
{
    let n = cs.len();
    if !(n >= 7 && i <= n - 7 && (i == 0 || !crate::text::char_is_word(cs[i - 1]))) {
        return None;
    }
    if !(cs[i] == 'r' && cs[i + 1] == 'o' && cs[i + 2] == 'l' && cs[i + 3] == 'n' && cs[i + 4] == 'a'
        && cs[i + 5] == 'm' && cs[i + 6] == 'e') {
        assert(cs@.subrange(i as int, i + 7) != seq!['r', 'o', 'l', 'n', 'a', 'm', 'e']) by {
            let t = cs@.subrange(i as int, i + 7);
            assert(t[0] == cs@[i as int] && t[1] == cs@[i + 1] && t[2] == cs@[i + 2] && t[3]
                == cs@[i + 3] && t[4] == cs@[i + 4] && t[5] == cs@[i + 5] && t[6] == cs@[i + 6]);
        }
        return None;
    }
    assert(cs@.subrange(i as int, i + 7) =~= seq!['r', 'o', 'l', 'n', 'a', 'm', 'e']);
    let j = space_end(cs, i + 7);
    if !(j < n && cs[j] == '=') {
        return None;
    }
    let k = space_end(cs, j + 1);
    if !(k < n && cs[k] == '"') {
        return None;
    }
    let lo = k + 1;
    let mut end = lo;
    while end < n && cs[end] != '\n'
        invariant
            lo <= end <= n == cs@.len(),
            line_end(cs@, lo as int) == line_end(cs@, end as int),
        decreases n - end,
    {
        end = end + 1;
    }
    let mut hi = end;
    while hi > lo && hi - 1 > lo && cs[hi - 1] != '"'
        invariant
            lo <= hi <= end <= n == cs@.len(),
            hi >= lo + 1 || hi == end,
            last_quote(cs@, lo as int, end as int) == last_quote(cs@, lo as int, hi as int),
        decreases hi,
    {
        hi = hi - 1;
    }
    if hi > lo && hi - 1 > lo {
        Some((lo, hi - 1))
    } else {
        None
    }
}

/// The names a single-user server printed for the query of superuser roles
/// (lines such as `1: rolname = "postgres"`), in order.
pub fn superuser_role_names(output: &str) -> (r: Vec<String>)
    ensures
        crate::util::views(r@) == roles_from(output@, 0),
{
    let cs = crate::text::chars_of(output);
    let n = cs.len();
    let mut out: Vec<String> = Vec::new();
    let mut p: usize = 0;
    while p < n
        invariant
            cs@ == output@,
            n == cs@.len(),
            p <= n,
            crate::util::views(out@) + roles_from(cs@, p as int) == roles_from(cs@, 0),
        decreases n - p,
    {
        match role_at_exec(&cs, p) {
            Some((lo, q)) => {
                proof {
                    lemma_last_quote(cs@, lo as int, line_end(cs@, lo as int));
                    lemma_line_end(cs@, lo as int);
                }
                assert(role_at(cs@, p as int) == Some((lo as int, q as int)));
                assert(roles_from(cs@, p as int) == seq![cs@.subrange(lo as int, q as int)]
                    + roles_from(cs@, q + 1));
                let name = output.substring_char(lo, q);
                let ghost before = crate::util::views(out@);
                out.push(name.to_owned());
                assert(crate::util::views(out@) =~= before.push(cs@.subrange(lo as int, q as int)));
                assert(crate::util::views(out@) + roles_from(cs@, q + 1) =~= before + roles_from(
                    cs@,
                    p as int,
                ));
                p = q + 1;
            },
            None => {
                p = p + 1;
            },
        }
    }
    assert(roles_from(cs@, n as int) == Seq::<Seq<char>>::empty());
    assert(crate::util::views(out@) =~= crate::util::views(out@) + Seq::<Seq<char>>::empty());
    out
}

} // verus!
