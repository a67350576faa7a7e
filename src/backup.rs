//! The decisions behind backup and restore: how to configure continuous
//! archiving, how to name a new base backup, which backup to restore, and
//! what to tell the user afterwards.

use vstd::prelude::*;
use vstd::string::*;

use crate::cluster::{quote_sh, sh_quoted};
use crate::config::{Parameter, Value, ValueModel};
use crate::text::{
    all_digits, chars_of, concat, digits_value, lemma_padded_decimal, padded_decimal,
    padded_decimal_of, parse_digits, str_eq,
};

verus! {

/// What can go wrong in backing up or restoring.
#[derive(Debug)]
pub enum BackupError {
    /// The cluster's configuration stands in the way; resolve it by hand.
    ConfigError(String),
    /// Anything else: the message says what.
    GeneralError(String),
}

/// Successful base backups are directories named with this prefix and a
/// zero-padded number.
pub const BACKUP_DATA_PREFIX: &'static str = "data.";

/// The number of digits in a base backup's directory name.
pub const BACKUP_NUMBER_WIDTH: usize = 10;

/// In-progress base backups are directories named with this prefix.
pub const BACKUP_DATA_PREFIX_TMP: &'static str = ".tmp.data.";

/// The coordinating lock file inside a backup directory.
pub const BACKUP_LOCK_NAME: &'static str = ".lock";

/// The WAL archive's directory inside a backup directory.
pub const BACKUP_WAL_DIR_NAME: &'static str = "wal";

/// Where backups go: the backup directory and, inside it, the WAL archive.
#[derive(Debug)]
pub struct Backup {
    pub backup_dir: String,
    pub backup_wal_dir: String,
}

impl Backup {
    /// The backup layout under `backup_dir` (a canonical path).
    pub fn new(backup_dir: &str) -> (r: Backup)
        ensures
            r.backup_dir@ == backup_dir@,
            r.backup_wal_dir@ == backup_dir@ + "/"@ + BACKUP_WAL_DIR_NAME@,
    {
        let mut wal = concat(backup_dir, "/");
        wal.append(BACKUP_WAL_DIR_NAME);
        Backup { backup_dir: backup_dir.to_owned(), backup_wal_dir: wal }
    }
}

/// The number of a base backup's directory name: `data.` followed by
/// decimal digits that fit in a `u32`.
pub open spec fn backup_number(name: Seq<char>) -> Option<nat> {
    if name.len() > 5 && name.subrange(0, 5) == BACKUP_DATA_PREFIX@ && all_digits(
        name,
        5,
        name.len() as int,
    ) && digits_value(name, 5, name.len() as int) <= u32::MAX {
        Some(digits_value(name, 5, name.len() as int))
    } else {
        None
    }
}

/// The highest backup number among the first `n` names, or 0.
pub open spec fn max_backup_number(names: Seq<String>, n: int) -> nat
    decreases n,
{
    if n <= 0 {
        0
    } else {
        let m = max_backup_number(names, n - 1);
        match backup_number(names[n - 1]@) {
            Some(k) => if k > m {
                k
            } else {
                m
            },
            None => m,
        }
    }
}

/// The number of the directory entry called `name`, if it is a base backup.
pub fn parse_backup_number(name: &str) -> (r: Option<u32>)
    ensures
        match backup_number(name@) {
            Some(k) => r == Some(k as u32),
            None => r is None,
        },
{
    let cs = chars_of(name);
    let n = cs.len();
    if n <= 5 {
        return None;
    }
    let prefix = name.substring_char(0, 5);
    if !str_eq(prefix, BACKUP_DATA_PREFIX) {
        return None;
    }
    let mut k: usize = 5;
    while k < n
        invariant
            5 <= k <= n == cs@.len(),
            cs@ == name@,
            all_digits(cs@, 5, k as int),
        decreases n - k,
    {
        if !('0' <= cs[k] && cs[k] <= '9') {
            return None;
        }
        k = k + 1;
    }
    parse_digits(&cs, 5, n)
}

/// The name for the next base backup among the directory entries `names`:
/// `data.` and the highest number found plus one, zero-padded to ten digits.
/// `None` when the highest number is already `u32::MAX`.
pub fn next_backup_name(names: &Vec<String>) -> (r: Option<String>)
    ensures
        max_backup_number(names@, names@.len() as int) < u32::MAX ==> (r matches Some(x) && x@
            == BACKUP_DATA_PREFIX@ + padded_decimal_of(
            max_backup_number(names@, names@.len() as int) + 1,
            BACKUP_NUMBER_WIDTH as nat,
        )),
        max_backup_number(names@, names@.len() as int) >= u32::MAX ==> r is None,
{
    let mut max: u32 = 0;
    let mut i: usize = 0;
    while i < names.len()
        invariant
            i <= names@.len(),
            max as nat == max_backup_number(names@, i as int),
        decreases names@.len() - i,
    {
        match parse_backup_number(names[i].as_str()) {
            Some(k) => if k > max {
                max = k;
            },
            None => {},
        }
        i = i + 1;
    }
    if max == u32::MAX {
        return None;
    }
    let digits = padded_decimal(max + 1, BACKUP_NUMBER_WIDTH);
    Some(concat(BACKUP_DATA_PREFIX, digits.as_str()))
}

/// Every backup number found is at most the highest one.
pub proof fn lemma_max_backup_number(names: Seq<String>, n: int)
    requires
        0 <= n <= names.len(),
    ensures
        max_backup_number(names, n) <= u32::MAX,
        forall|i: int| 0 <= i < n ==> match backup_number(#[trigger] names[i]@) {
            Some(k) => k <= max_backup_number(names, n),
            None => true,
        },
    decreases n,
{
    if n > 0 {
        lemma_max_backup_number(names, n - 1);
    }
}

/// A new base backup gets a name whose number is higher than that of every
/// base backup already there: names are never reused, and successive backups
/// into one place are numbered upwards from 1.
pub proof fn lemma_next_backup_is_fresh(names: Seq<String>)
    requires
        max_backup_number(names, names.len() as int) < u32::MAX,
    ensures
        ({
            let m = max_backup_number(names, names.len() as int);
            let next = BACKUP_DATA_PREFIX@ + padded_decimal_of(m + 1, BACKUP_NUMBER_WIDTH as nat);
            &&& backup_number(next) == Some((m + 1) as nat)
            &&& forall|i: int| 0 <= i < names.len() ==> match backup_number(#[trigger] names[i]@) {
                Some(k) => k < m + 1,
                None => true,
            }
        }),
{
    let m = max_backup_number(names, names.len() as int);
    let p = padded_decimal_of(m + 1, BACKUP_NUMBER_WIDTH as nat);
    let next = BACKUP_DATA_PREFIX@ + p;
    lemma_padded_decimal(m + 1, BACKUP_NUMBER_WIDTH as nat);
    lemma_max_backup_number(names, names.len() as int);
    reveal_strlit("data.");
    assert(next.subrange(0, 5) == BACKUP_DATA_PREFIX@);
    assert forall|k: int| 5 <= k < next.len() implies crate::text::is_digit(#[trigger] next[k]) by {
        assert(next[k] == p[k - 5]);
    }
    crate::text::lemma_digits_value_shift(p, next, 5, p.len() as int);
}

/// The ten-digit numerals of backup numbers 1, 2 and 3, as they stand in
/// the names `data.0000000001` to `data.0000000003` that
/// [`next_backup_name`] gives into a directory with no base backup, then one,
/// then two.
pub proof fn lemma_first_backup_names()
    ensures
        padded_decimal_of(1, 10) == seq!['0', '0', '0', '0', '0', '0', '0', '0', '0', '1'],
        padded_decimal_of(2, 10) == seq!['0', '0', '0', '0', '0', '0', '0', '0', '0', '2'],
        padded_decimal_of(3, 10) == seq!['0', '0', '0', '0', '0', '0', '0', '0', '0', '3'],
{
    reveal_with_fuel(padded_decimal_of, 11);
    assert(padded_decimal_of(1, 10) =~= seq!['0', '0', '0', '0', '0', '0', '0', '0', '0', '1']);
    assert(padded_decimal_of(2, 10) =~= seq!['0', '0', '0', '0', '0', '0', '0', '0', '0', '2']);
    assert(padded_decimal_of(3, 10) =~= seq!['0', '0', '0', '0', '0', '0', '0', '0', '0', '3']);
}

/// The base backup to restore: the entry of `names` with the highest
/// number, the last such one when several share it; `None` when no entry is
/// a base backup.
pub fn latest_backup(names: &Vec<String>) -> (r: Option<usize>)
    ensures
        r is None <==> forall|i: int| 0 <= i < names@.len() ==> backup_number(
            #[trigger] names@[i]@,
        ) is None,
        r matches Some(i) ==> i < names@.len() && backup_number(names@[i as int]@) is Some
            && forall|j: int|
            0 <= j < names@.len() && backup_number(#[trigger] names@[j]@) is Some ==> backup_number(
                names@[j]@,
            )->Some_0 <= backup_number(names@[i as int]@)->Some_0,
{
    let mut best: Option<(usize, u32)> = None;
    let mut i: usize = 0;
    while i < names.len()
        invariant
            i <= names@.len(),
            best is None <==> forall|j: int| 0 <= j < i ==> backup_number(#[trigger] names@[j]@) is None,
            best matches Some((b, k)) ==> b < i && backup_number(names@[b as int]@) == Some(k as nat)
                && forall|j: int|
                0 <= j < i && backup_number(#[trigger] names@[j]@) is Some ==> backup_number(
                    names@[j]@,
                )->Some_0 <= k,
        decreases names@.len() - i,
    {
        match parse_backup_number(names[i].as_str()) {
            Some(k) => {
                let take = match best {
                    None => true,
                    Some((_, m)) => k >= m,
                };
                if take {
                    best = Some((i, k));
                }
            },
            None => {},
        }
        i = i + 1;
    }
    match best {
        Some((b, _)) => Some(b),
        None => None,
    }
}

/// What the cluster's archiving settings need.
#[derive(Debug, Clone, Copy, PartialEq, Eq, Structural)]
pub struct ArchivingPlan {
    /// Set `wal_level` to `replica`.
    pub set_wal_level: bool,
    /// Set `archive_mode` to `on`.
    pub set_archive_mode: bool,
    /// Set `archive_command` to the desired command.
    pub set_archive_command: bool,
}

pub open spec fn is_string_in(v: Option<Value>, a: Seq<char>, b: Seq<char>) -> bool {
    v matches Some(Value::String(s)) && (s@ == a || s@ == b)
}

/// Whether backups can go ahead with these settings, read from the running
/// server (`None` where the server does not know the parameter).
pub open spec fn archiving_possible(
    wal_level: Option<Value>,
    archive_mode: Option<Value>,
    archive_library: Option<Value>,
    archive_command: Option<Value>,
    desired: Seq<char>,
) -> bool {
    &&& wal_level is Some
    &&& archive_mode is Some
    &&& (archive_library is None || (archive_library matches Some(Value::String(l)) && l@.len()
        == 0))
    &&& archive_command matches Some(Value::String(c)) && (c@ == desired || c@.len() == 0 || c@
        == "(disabled)"@)
}

impl ArchivingPlan {
    /// Whether the server must restart for the plan to take effect.
    pub open spec fn spec_restart_needed(self) -> bool {
        self.set_wal_level || self.set_archive_mode
    }

    pub fn restart_needed(&self) -> (r: bool)
        ensures
            r == self.spec_restart_needed(),
    {
        self.set_wal_level || self.set_archive_mode
    }

    /// Decide how to configure continuous archiving: `wal_level` must be
    /// `replica` or `logical` (else set it to `replica`); `archive_mode` must
    /// be `on` or `always` (else set it to `on`); `archive_library` must be
    /// unset or empty; `archive_command` must be the desired command already,
    /// or be empty or `(disabled)`, in which case it is set.
    pub fn decide(
        wal_level: &Option<Value>,
        archive_mode: &Option<Value>,
        archive_library: &Option<Value>,
        archive_command: &Option<Value>,
        desired: &str,
    ) -> (r: Result<ArchivingPlan, BackupError>)
        ensures
            r is Ok <==> archiving_possible(
                *wal_level,
                *archive_mode,
                *archive_library,
                *archive_command,
                desired@,
            ),
            r matches Ok(plan) ==> {
                &&& plan.set_wal_level == !is_string_in(*wal_level, "replica"@, "logical"@)
                &&& plan.set_archive_mode == !is_string_in(*archive_mode, "on"@, "always"@)
                &&& plan.set_archive_command == !(archive_command matches Some(Value::String(c))
                    && c@ == desired@)
            },
            r matches Err(e) ==> e is ConfigError,
    {
        let set_wal_level = match wal_level {
            None => {
                return Err(BackupError::ConfigError("WAL is not supported; cannot proceed".to_owned()))
            },
            Some(Value::String(level)) => !(str_eq(level.as_str(), "replica") || str_eq(
                level.as_str(),
                "logical",
            )),
            Some(_) => true,
        };
        let set_archive_mode = match archive_mode {
            None => {
                return Err(
                    BackupError::ConfigError("Archiving is not supported; cannot proceed".to_owned()),
                )
            },
            Some(Value::String(mode)) => !(str_eq(mode.as_str(), "on") || str_eq(
                mode.as_str(),
                "always",
            )),
            Some(_) => true,
        };
        match archive_library {
            None => {},
            Some(Value::String(library)) if library.as_str().is_empty() => {},
            Some(_) => {
                return Err(
                    BackupError::ConfigError(
                        "archive_library is already set; cannot proceed".to_owned(),
                    ),
                )
            },
        }
        let set_archive_command = match archive_command {
            Some(Value::String(command)) => if str_eq(command.as_str(), desired) {
                false
            } else if command.as_str().is_empty() || str_eq(command.as_str(), "(disabled)") {
                true
            } else {
                return Err(
                    BackupError::ConfigError(
                        "archive_command is already set; cannot proceed".to_owned(),
                    ),
                );
            },
            Some(_) => {
                return Err(
                    BackupError::ConfigError(
                        "archive_command is already set; cannot proceed".to_owned(),
                    ),
                )
            },
            None => {
                return Err(
                    BackupError::ConfigError("Archiving is not supported; cannot proceed".to_owned()),
                )
            },
        };
        Ok(ArchivingPlan { set_wal_level, set_archive_mode, set_archive_command })
    }

    /// Whether to restart the server now: only when the plan needs it, and
    /// only under the exclusive lock; under a shared lock that is an error
    /// that asks the user to restart the server by hand.
    pub fn restart(&self, exclusive: bool) -> (r: Result<bool, BackupError>)
        ensures
            !self.spec_restart_needed() ==> r == Ok::<bool, BackupError>(false),
            self.spec_restart_needed() && exclusive ==> r == Ok::<bool, BackupError>(true),
            self.spec_restart_needed() && !exclusive ==> r matches Err(BackupError::GeneralError(_)),
    {
        if !self.restart_needed() {
            Ok(false)
        } else if exclusive {
            Ok(true)
        } else {
            Err(
                BackupError::GeneralError(
                    "The cluster is in use, and so cannot be restarted automatically. Please restart the cluster manually then try this backup again.".to_owned(),
                ),
            )
        }
    }
}

/// The archive command: the program `exe`, invoked with its WAL-copy
/// operation, `%p` (the segment's path) and the archive directory joined
/// with `%f` (the segment's name).
pub open spec fn archive_command_text(exe: Seq<char>, wal_dir: Seq<char>) -> Option<Seq<char>> {
    match (sh_quoted(exe), sh_quoted(wal_dir)) {
        (Some(e), Some(w)) => Some(e + " backup:tools wal:archive %p "@ + w + "/%f"@),
        _ => None,
    }
}

/// Build the archive command.
pub fn archive_command(exe: &str, wal_dir: &str) -> (r: Result<String, BackupError>)
    ensures
        match archive_command_text(exe@, wal_dir@) {
            Some(c) => r matches Ok(x) && x@ == c,
            None => r matches Err(BackupError::GeneralError(_)),
        },
{
    let e = match quote_sh(exe) {
        Some(e) => e,
        None => return Err(BackupError::GeneralError(concat("Cannot shell escape: ", exe))),
    };
    let w = match quote_sh(wal_dir) {
        Some(w) => w,
        None => return Err(BackupError::GeneralError(concat("Cannot shell escape: ", wal_dir))),
    };
    let mut c = e;
    c.append(" backup:tools wal:archive %p ");
    c.append(w.as_str());
    c.append("/%f");
    Ok(c)
}

/// The restore command: copy a segment out of the archive directory.
pub open spec fn restore_command_text(wal_dir: Seq<char>) -> Option<Seq<char>> {
    match sh_quoted(wal_dir) {
        Some(w) => Some("cp "@ + w + "/%f %p"@),
        None => None,
    }
}

/// Build the restore command.
pub fn restore_command(wal_dir: &str) -> (r: Result<String, BackupError>)
    ensures
        match restore_command_text(wal_dir@) {
            Some(c) => r matches Ok(x) && x@ == c,
            None => r matches Err(BackupError::GeneralError(_)),
        },
{
    match quote_sh(wal_dir) {
        Some(w) => {
            let mut c = concat("cp ", w.as_str());
            c.append("/%f %p");
            Ok(c)
        },
        None => Err(BackupError::GeneralError(concat("Cannot shell escape: ", wal_dir))),
    }
}

/// The settings for the recovery run: no archiving, fetch segments with
/// `restore_command`, recover to the first consistent point, then shut
/// down.
pub fn recovery_settings(restore_command: String) -> (r: Vec<(Parameter<'static>, Value)>)
    ensures
        r@.len() == 4,
        r@[0].0.0@ == "archive_mode"@ && r@[0].1@ == ValueModel::String("off"@),
        r@[1].0.0@ == "restore_command"@ && r@[1].1@ == ValueModel::String(restore_command@),
        r@[2].0.0@ == "recovery_target"@ && r@[2].1@ == ValueModel::String("immediate"@),
        r@[3].0.0@ == "recovery_target_action"@ && r@[3].1@ == ValueModel::String("shutdown"@),
{
    let mut v: Vec<(Parameter<'static>, Value)> = Vec::new();
    v.push((Parameter("archive_mode"), Value::String("off".to_owned())));
    v.push((Parameter("restore_command"), Value::String(restore_command)));
    v.push((Parameter("recovery_target"), Value::String("immediate".to_owned())));
    v.push((Parameter("recovery_target_action"), Value::String("shutdown".to_owned())));
    v
}

/// The setting for runs of a restored cluster before archiving is reset.
pub fn archiving_off() -> (r: Vec<(Parameter<'static>, Value)>)
    ensures
        r@.len() == 1,
        r@[0].0.0@ == "archive_mode"@ && r@[0].1@ == ValueModel::String("off"@),
{
    let mut v: Vec<(Parameter<'static>, Value)> = Vec::new();
    v.push((Parameter("archive_mode"), Value::String("off".to_owned())));
    v
}

/// Lexicographic order on text, by character code.
pub open spec fn text_le(a: Seq<char>, b: Seq<char>) -> bool
    decreases a.len(),
{
    if a.len() == 0 {
        true
    } else if b.len() == 0 {
        false
    } else if a[0] != b[0] {
        a[0] < b[0]
    } else {
        text_le(a.drop_first(), b.drop_first())
    }
}

pub proof fn lemma_text_le_total(a: Seq<char>, b: Seq<char>)
    ensures
        text_le(a, b) || text_le(b, a),
    decreases a.len(),
{
    if a.len() > 0 && b.len() > 0 && a[0] == b[0] {
        lemma_text_le_total(a.drop_first(), b.drop_first());
    }
}

pub proof fn lemma_text_le_transitive(a: Seq<char>, b: Seq<char>, c: Seq<char>)
    requires
        text_le(a, b),
        text_le(b, c),
    ensures
        text_le(a, c),
    decreases a.len(),
{
    if a.len() > 0 && b.len() > 0 && c.len() > 0 && a[0] == b[0] && b[0] == c[0] {
        lemma_text_le_transitive(a.drop_first(), b.drop_first(), c.drop_first());
    }
}

fn text_le_exec(a: &Vec<char>, b: &Vec<char>) -> (r: bool)
    ensures
        r == text_le(a@, b@),
{
    let mut i: usize = 0;
    assert(a@.subrange(0, a@.len() as int) == a@);
    assert(b@.subrange(0, b@.len() as int) == b@);
    while i < a.len() && i < b.len() && a[i] == b[i]
        invariant
            i <= a@.len(),
            i <= b@.len(),
            text_le(a@, b@) == text_le(a@.subrange(i as int, a@.len() as int), b@.subrange(
                i as int,
                b@.len() as int,
            )),
        decreases a@.len() - i,
    {
        assert(a@.subrange(i as int, a@.len() as int).drop_first() == a@.subrange(
            i + 1,
            a@.len() as int,
        ));
        assert(b@.subrange(i as int, b@.len() as int).drop_first() == b@.subrange(
            i + 1,
            b@.len() as int,
        ));
        i = i + 1;
    }
    if i == a.len() {
        true
    } else if i == b.len() {
        false
    } else {
        a[i] < b[i]
    }
}

/// What to tell the user once a restore is complete.
#[derive(Debug, PartialEq)]
pub enum RestoreAdvice {
    /// The current user is a superuser of the restored cluster: run it
    /// directly.
    RunDirectly,
    /// Run it with `PGUSER` set to this superuser (the least by name).
    RunAs(String),
    /// No superuser was found; run it directly, with a warning.
    NoSuperuser,
}

pub open spec fn names_contain(names: Seq<String>, u: Seq<char>) -> bool {
    exists|i: int| 0 <= i < names.len() && (#[trigger] names[i])@ == u
}

pub open spec fn user_is_superuser(names: Seq<String>, user: Option<&str>) -> bool {
    match user {
        Some(u) => names_contain(names, u@),
        None => false,
    }
}

/// Choose the advice, from the superuser roles of the restored cluster and
/// the current user (when known).
pub fn restore_advice(superusers: &Vec<String>, current_user: Option<&str>) -> (r: RestoreAdvice)
    ensures
        user_is_superuser(superusers@, current_user) ==> r is RunDirectly,
        !user_is_superuser(superusers@, current_user) ==> {
            &&& superusers@.len() == 0 ==> r is NoSuperuser
            &&& superusers@.len() > 0 ==> (r matches RestoreAdvice::RunAs(name) && (exists|i: int|
                0 <= i < superusers@.len() && (#[trigger] superusers@[i])@ == name@) && forall|
                i: int,
            |
                0 <= i < superusers@.len() ==> text_le(name@, (#[trigger] superusers@[i])@))
        },
{
    if let Some(user) = current_user {
        let mut i: usize = 0;
        while i < superusers.len()
            invariant
                i <= superusers@.len(),
                current_user == Some(user),
                forall|j: int| 0 <= j < i ==> (#[trigger] superusers@[j])@ != user@,
            decreases superusers@.len() - i,
        {
            if str_eq(superusers[i].as_str(), user) {
                assert(superusers@[i as int]@ == user@);
                assert(names_contain(superusers@, user@));
                return RestoreAdvice::RunDirectly;
            }
            i = i + 1;
        }
    }
    if superusers.len() == 0 {
        return RestoreAdvice::NoSuperuser;
    }
    let mut best: usize = 0;
    let mut best_chars = chars_of(superusers[0].as_str());
    let mut i: usize = 1;
    proof {
        lemma_text_le_reflexive(best_chars@);
    }
    while i < superusers.len()
        invariant
            1 <= i <= superusers@.len(),
            best < superusers@.len(),
            best_chars@ == superusers@[best as int]@,
            forall|j: int| 0 <= j < i ==> text_le(best_chars@, (#[trigger] superusers@[j])@),
        decreases superusers@.len() - i,
    {
        let cs = chars_of(superusers[i].as_str());
        if !text_le_exec(&best_chars, &cs) {
            proof {
                lemma_text_le_total(best_chars@, cs@);
                assert forall|j: int| 0 <= j < i + 1 implies text_le(
                    cs@,
                    (#[trigger] superusers@[j])@,
                ) by {
                    if j < i {
                        lemma_text_le_transitive(cs@, best_chars@, superusers@[j]@);
                    } else {
                        lemma_text_le_reflexive(cs@);
                    }
                }
            }
            best = i;
            best_chars = cs;
        } else {
            proof {
                assert(text_le(best_chars@, superusers@[i as int]@));
            }
        }
        i = i + 1;
    }
    RestoreAdvice::RunAs(superusers[best].clone())
}

pub proof fn lemma_text_le_reflexive(a: Seq<char>)
    ensures
        text_le(a, a),
    decreases a.len(),
{
    if a.len() > 0 {
        lemma_text_le_reflexive(a.drop_first());
    }
}

/// The verdict on one pair of buffered chunks when an archived WAL segment
/// is compared with its source, byte by byte.
#[derive(Debug, Clone, Copy, PartialEq, Eq, Structural)]
pub enum ChunkVerdict {
    /// Both files ended together: they are the same.
    Same,
    /// The contents differ: archiving must fail and leave the target alone.
    Differ,
    /// The chunks agree as far as both go; consume this many bytes from each
    /// and go on.
    Advance(usize),
}

/// Compare the chunks next read from the source and from the target. The
/// chunks may differ in length (a short read): only the bytes both hold are
/// compared, and an empty chunk means that file has ended.
pub fn compare_chunks(source: &[u8], target: &[u8]) -> (r: ChunkVerdict)
    ensures
        source@.len() == 0 && target@.len() == 0 ==> r is Same,
        (source@.len() == 0) != (target@.len() == 0) ==> r is Differ,
        source@.len() > 0 && target@.len() > 0 ==> {
            let n = if source@.len() <= target@.len() {
                source@.len()
            } else {
                target@.len()
            };
            if source@.subrange(0, n as int) == target@.subrange(0, n as int) {
                r == ChunkVerdict::Advance(n as usize)
            } else {
                r is Differ
            }
        },
{
    if source.len() == 0 && target.len() == 0 {
        return ChunkVerdict::Same;
    }
    if source.len() == 0 || target.len() == 0 {
        return ChunkVerdict::Differ;
    }
    let n = if source.len() <= target.len() {
        source.len()
    } else {
        target.len()
    };
    let mut i: usize = 0;
    while i < n
        invariant
            n <= source@.len(),
            n <= target@.len(),
            i <= n,
            forall|k: int| 0 <= k < i ==> source@[k] == target@[k],
        decreases n - i,
    {
        if source[i] != target[i] {
            assert(source@.subrange(0, n as int)[i as int] != target@.subrange(0, n as int)[i as int]);
            return ChunkVerdict::Differ;
        }
        i = i + 1;
    }
    assert(source@.subrange(0, n as int) =~= target@.subrange(0, n as int));
    ChunkVerdict::Advance(n)
}

/// Comparing a file with itself never finds a difference, however the two
/// reads are chunked: chunks taken from the same place of equal contents
/// agree on the bytes both hold.
pub proof fn lemma_equal_contents_never_differ(data: Seq<u8>, at: int, a: int, b: int)
    requires
        0 <= at,
        0 < a,
        0 < b,
        at + a <= data.len(),
        at + b <= data.len(),
    ensures
        ({
            let n = if a <= b { a } else { b };
            data.subrange(at, at + a).subrange(0, n) == data.subrange(at, at + b).subrange(0, n)
        }),
{
    let n = if a <= b { a } else { b };
    assert(data.subrange(at, at + a).subrange(0, n) =~= data.subrange(at, at + b).subrange(0, n));
}

} // verus!
