//! PostgreSQL runtimes, constraints over them, and strategies that select
//! one.

use vstd::prelude::*;
use vstd::string::*;

use crate::text::str_contains_char;
use crate::version::{version_le, PartialVersion, Version, VersionError};

verus! {

/// A set of PostgreSQL executables for one version, found in `bindir`.
#[derive(Debug)]
pub struct Runtime {
    pub bindir: String,
    pub version: Version,
}

impl Clone for Runtime {
    fn clone(&self) -> (r: Runtime)
        ensures
            r == *self,
    {
        Runtime { bindir: self.bindir.clone(), version: self.version }
    }
}

impl PartialEq for Runtime {
    /// Runtimes are equal when their versions are.
    fn eq(&self, other: &Runtime) -> (r: bool) {
        self.version == other.version
    }
}

impl vstd::std_specs::cmp::PartialEqSpecImpl for Runtime {
    open spec fn obeys_eq_spec() -> bool {
        true
    }

    open spec fn eq_spec(&self, other: &Runtime) -> bool {
        self.version == other.version
    }
}

/// Whether a one-glob matcher set for `pattern`, under the rules
/// [`Constraint::path`] uses, builds without error.
pub uninterp spec fn glob_is_valid(pattern: Seq<char>) -> bool;

/// Whether `path` matches the glob `pattern` under those rules.
pub uninterp spec fn glob_matches(pattern: Seq<char>, path: Seq<char>) -> bool;

/// Relies on `globset::GlobBuilder::build` (with `literal_separator` and
/// `empty_alternates` set) and `globset::GlobSetBuilder::build`, which both
/// report a pattern they cannot compile as an error; the error is handed
/// back as text.
#[verifier::external_body]
fn glob_check(pattern: &str) -> (r: Result<(), String>)
    ensures
        r is Ok <==> glob_is_valid(pattern@),
{
    let glob = globset::GlobBuilder::new(pattern)
        .literal_separator(true)
        .empty_alternates(true)
        .build()
        .map_err(|err| err.to_string())?;
    globset::GlobSetBuilder::new().add(glob).build().map(|_| ()).map_err(|err| err.to_string())
}

/// Relies on `globset::GlobSet::is_match` for the one-glob set built as in
/// [`glob_check`].
#[verifier::external_body]
fn glob_match(pattern: &str, path: &str) -> (r: bool)
    requires
        glob_is_valid(pattern@),
    ensures
        r == glob_matches(pattern@, path@),
{
    match globset::GlobBuilder::new(pattern).literal_separator(true).empty_alternates(true).build() {
        Ok(glob) => match globset::GlobSetBuilder::new().add(glob).build() {
            Ok(set) => set.is_match(path),
            Err(_) => false,
        },
        Err(_) => false,
    }
}

/// Error building a [`Constraint`] from text.
#[derive(Debug)]
pub enum ConstraintError {
    GlobError(String),
    VersionError(VersionError),
}

/// A constraint used when selecting a PostgreSQL runtime.
#[derive(Debug)]
pub enum Constraint {
    /// Match the runtime's `bindir` against a glob pattern.
    BinDir(String),
    /// Match the given version.
    Version(PartialVersion),
    /// Either constraint can be satisfied.
    Either(Box<Constraint>, Box<Constraint>),
    /// Both constraints must be satisfied.
    Both(Box<Constraint>, Box<Constraint>),
    /// Invert the given constraint.
    Not(Box<Constraint>),
    /// Match any runtime.
    Anything,
    /// Match no runtimes at all.
    Nothing,
}

impl Constraint {
    /// Every glob pattern in the constraint is valid.
    pub open spec fn wf(self) -> bool
        decreases self,
    {
        match self {
            Constraint::BinDir(p) => glob_is_valid(p@),
            Constraint::Either(a, b) => a.wf() && b.wf(),
            Constraint::Both(a, b) => a.wf() && b.wf(),
            Constraint::Not(a) => a.wf(),
            _ => true,
        }
    }

    /// Does `rt` satisfy this constraint?
    pub open spec fn accepts(self, rt: Runtime) -> bool
        decreases self,
    {
        match self {
            Constraint::BinDir(p) => glob_matches(p@, rt.bindir@),
            Constraint::Version(v) => v.compatible_spec(rt.version),
            Constraint::Either(a, b) => a.accepts(rt) || b.accepts(rt),
            Constraint::Both(a, b) => a.accepts(rt) && b.accepts(rt),
            Constraint::Not(a) => !a.accepts(rt),
            Constraint::Anything => true,
            Constraint::Nothing => false,
        }
    }

    /// Match a runtime's `bindir` against this glob pattern. `*` and `?` do
    /// not match `/` (use `**` for that) and empty alternates are allowed.
    pub fn path(pattern: &str) -> (r: Result<Constraint, String>)
        ensures
            r is Ok <==> glob_is_valid(pattern@),
            r matches Ok(c) ==> (c.wf() && (c matches Constraint::BinDir(p) && p@ == pattern@)),
    {
        match glob_check(pattern) {
            Ok(()) => Ok(Constraint::BinDir(pattern.to_owned())),
            Err(e) => Err(e),
        }
    }

    /// Match a runtime against a version such as `14` or `9.6`.
    pub fn version(version: &str) -> (r: Result<Constraint, VersionError>)
        ensures
            r matches Ok(c) ==> (c.wf() && c is Version),
            r is Ok <==> PartialVersion::parse_ok(version@),
    {
        match PartialVersion::parse(version) {
            Ok(v) => Ok(Constraint::Version(v)),
            Err(e) => Err(e),
        }
    }

    /// Parse a constraint: text with a `/` is a glob over `bindir`, anything
    /// else a version.
    pub fn parse(s: &str) -> (r: Result<Constraint, ConstraintError>)
        ensures
            s@.contains('/') ==> (r is Ok <==> glob_is_valid(s@)),
            !s@.contains('/') ==> (r is Ok <==> PartialVersion::parse_ok(s@)),
            r matches Ok(c) ==> c.wf(),
    {
        if str_contains_char(s, '/') {
            match Constraint::path(s) {
                Ok(c) => Ok(c),
                Err(e) => Err(ConstraintError::GlobError(e)),
            }
        } else {
            match Constraint::version(s) {
                Ok(c) => Ok(c),
                Err(e) => Err(ConstraintError::VersionError(e)),
            }
        }
    }

    /// Does the given runtime match this constraint?
    pub fn matches(&self, runtime: &Runtime) -> (r: bool)
        requires
            self.wf(),
        ensures
            r == self.accepts(*runtime),
        decreases self,
    {
        match self {
            Constraint::BinDir(p) => glob_match(p.as_str(), runtime.bindir.as_str()),
            Constraint::Version(v) => v.compatible(runtime.version),
            Constraint::Either(a, b) => a.matches(runtime) || b.matches(runtime),
            Constraint::Both(a, b) => a.matches(runtime) && b.matches(runtime),
            Constraint::Not(a) => !a.matches(runtime),
            Constraint::Anything => true,
            Constraint::Nothing => false,
        }
    }

    /// The inverse of this constraint, simplified where that is possible.
    pub open spec fn negated(self) -> Constraint {
        match self {
            Constraint::Anything => Constraint::Nothing,
            Constraint::Nothing => Constraint::Anything,
            Constraint::Not(c) => *c,
            other => Constraint::Not(Box::new(other)),
        }
    }

    /// Either constraint, simplified around `Anything` and `Nothing`.
    pub open spec fn either(self, rhs: Constraint) -> Constraint {
        match (self, rhs) {
            (Constraint::Anything, _) => Constraint::Anything,
            (_, Constraint::Anything) => Constraint::Anything,
            (Constraint::Nothing, c) => c,
            (c, Constraint::Nothing) => c,
            (a, b) => Constraint::Either(Box::new(a), Box::new(b)),
        }
    }

    /// Both constraints, simplified around `Anything` and `Nothing`.
    pub open spec fn both(self, rhs: Constraint) -> Constraint {
        match (self, rhs) {
            (Constraint::Anything, c) => c,
            (c, Constraint::Anything) => c,
            (Constraint::Nothing, _) => Constraint::Nothing,
            (_, Constraint::Nothing) => Constraint::Nothing,
            (a, b) => Constraint::Both(Box::new(a), Box::new(b)),
        }
    }

    /// Invert this constraint, simplifying where that is possible.
    pub fn negate(self) -> (r: Constraint)
        ensures
            r == self.negated(),
            self.wf() ==> r.wf(),
            forall|rt: Runtime| #[trigger] r.accepts(rt) == !self.accepts(rt),
    {
        match self {
            Constraint::Anything => Constraint::Nothing,
            Constraint::Nothing => Constraint::Anything,
            Constraint::Not(c) => *c,
            other => Constraint::Not(Box::new(other)),
        }
    }

    /// Match either of the constraints, simplifying around `Anything` and
    /// `Nothing`.
    pub fn or(self, rhs: Constraint) -> (r: Constraint)
        ensures
            r == self.either(rhs),
            self.wf() && rhs.wf() ==> r.wf(),
            forall|rt: Runtime| #[trigger] r.accepts(rt) == (self.accepts(rt) || rhs.accepts(rt)),
    {
        match (self, rhs) {
            (Constraint::Anything, _) => Constraint::Anything,
            (_, Constraint::Anything) => Constraint::Anything,
            (Constraint::Nothing, c) => c,
            (c, Constraint::Nothing) => c,
            (a, b) => Constraint::Either(Box::new(a), Box::new(b)),
        }
    }

    /// Match both of the constraints, simplifying around `Anything` and
    /// `Nothing`.
    pub fn and(self, rhs: Constraint) -> (r: Constraint)
        ensures
            r == self.both(rhs),
            self.wf() && rhs.wf() ==> r.wf(),
            forall|rt: Runtime| #[trigger] r.accepts(rt) == (self.accepts(rt) && rhs.accepts(rt)),
    {
        match (self, rhs) {
            (Constraint::Anything, c) => c,
            (c, Constraint::Anything) => c,
            (Constraint::Nothing, _) => Constraint::Nothing,
            (_, Constraint::Nothing) => Constraint::Nothing,
            (a, b) => Constraint::Both(Box::new(a), Box::new(b)),
        }
    }

    /// Match any of the given constraints; `Nothing` when there are none.
    pub fn any(constraints: Vec<Constraint>) -> (r: Constraint)
        ensures
            (forall|i: int| 0 <= i < constraints@.len() ==> (#[trigger] constraints@[i]).wf())
                ==> r.wf(),
            forall|rt: Runtime| #[trigger]
                r.accepts(rt) <==> exists|i: int|
                    0 <= i < constraints@.len() && (#[trigger] constraints@[i]).accepts(rt),
            constraints@.len() == 0 ==> r is Nothing,
    {
        let ghost all = constraints@;
        let mut rest = constraints;
        let total = rest.len();
        let mut acc = Constraint::Nothing;
        let mut k: usize = 0;
        while rest.len() > 0
            invariant
                k + rest@.len() == all.len(),
                all.len() == total,
                rest@ == all.subrange(k as int, all.len() as int),
                k == 0 ==> acc is Nothing,
                (forall|i: int| 0 <= i < all.len() ==> (#[trigger] all[i]).wf()) ==> acc.wf(),
                forall|rt: Runtime| #[trigger]
                    acc.accepts(rt) <==> exists|i: int| 0 <= i < k && (#[trigger] all[i]).accepts(rt),
            decreases rest@.len(),
        {
            let c = rest.remove(0);
            assert(c == all[k as int]);
            acc = acc.or(c);
            k = k + 1;
            assert forall|rt: Runtime| #[trigger]
                acc.accepts(rt) <==> exists|i: int| 0 <= i < k && (#[trigger] all[i]).accepts(rt) by {
                if all[k - 1].accepts(rt) {
                    assert(exists|i: int| 0 <= i < k && (#[trigger] all[i]).accepts(rt));
                }
                if exists|i: int| 0 <= i < k && (#[trigger] all[i]).accepts(rt) {
                    let i = choose|i: int| 0 <= i < k && (#[trigger] all[i]).accepts(rt);
                    if i < k - 1 {
                    }
                }
            }
            assert(rest@ == all.subrange(k as int, all.len() as int));
        }
        acc
    }

    /// Match all of the given constraints; `Anything` when there are none.
    pub fn all(constraints: Vec<Constraint>) -> (r: Constraint)
        ensures
            (forall|i: int| 0 <= i < constraints@.len() ==> (#[trigger] constraints@[i]).wf())
                ==> r.wf(),
            forall|rt: Runtime| #[trigger]
                r.accepts(rt) <==> forall|i: int|
                    0 <= i < constraints@.len() ==> (#[trigger] constraints@[i]).accepts(rt),
            constraints@.len() == 0 ==> r is Anything,
    {
        let ghost all = constraints@;
        let mut rest = constraints;
        let total = rest.len();
        let mut acc = Constraint::Anything;
        let mut k: usize = 0;
        while rest.len() > 0
            invariant
                k + rest@.len() == all.len(),
                all.len() == total,
                rest@ == all.subrange(k as int, all.len() as int),
                k == 0 ==> acc is Anything,
                (forall|i: int| 0 <= i < all.len() ==> (#[trigger] all[i]).wf()) ==> acc.wf(),
                forall|rt: Runtime| #[trigger]
                    acc.accepts(rt) <==> forall|i: int| 0 <= i < k ==> (#[trigger] all[i]).accepts(rt),
            decreases rest@.len(),
        {
            let c = rest.remove(0);
            assert(c == all[k as int]);
            acc = acc.and(c);
            k = k + 1;
            assert forall|rt: Runtime| #[trigger]
                acc.accepts(rt) <==> forall|i: int| 0 <= i < k ==> (#[trigger] all[i]).accepts(rt) by {
                if forall|i: int| 0 <= i < k ==> (#[trigger] all[i]).accepts(rt) {
                    assert(all[k - 1].accepts(rt));
                }
            }
            assert(rest@ == all.subrange(k as int, all.len() as int));
        }
        acc
    }
}

impl std::ops::Not for Constraint {
    type Output = Constraint;

    fn not(self) -> Constraint {
        self.negate()
    }
}

impl vstd::std_specs::ops::NotSpecImpl for Constraint {
    open spec fn obeys_not_spec() -> bool {
        true
    }

    open spec fn not_req(self) -> bool {
        true
    }

    open spec fn not_spec(self) -> Constraint {
        self.negated()
    }
}

impl std::ops::BitOr for Constraint {
    type Output = Constraint;

    fn bitor(self, rhs: Constraint) -> Constraint {
        self.or(rhs)
    }
}

impl vstd::std_specs::ops::BitOrSpecImpl for Constraint {
    open spec fn obeys_bitor_spec() -> bool {
        true
    }

    open spec fn bitor_req(self, rhs: Constraint) -> bool {
        true
    }

    open spec fn bitor_spec(self, rhs: Constraint) -> Constraint {
        self.either(rhs)
    }
}

impl std::ops::BitAnd for Constraint {
    type Output = Constraint;

    fn bitand(self, rhs: Constraint) -> Constraint {
        self.and(rhs)
    }
}

impl vstd::std_specs::ops::BitAndSpecImpl for Constraint {
    open spec fn obeys_bitand_spec() -> bool {
        true
    }

    open spec fn bitand_req(self, rhs: Constraint) -> bool {
        true
    }

    open spec fn bitand_spec(self, rhs: Constraint) -> Constraint {
        self.both(rhs)
    }
}

impl From<PartialVersion> for Constraint {
    fn from(version: PartialVersion) -> (r: Constraint) {
        Constraint::Version(version)
    }
}

impl vstd::std_specs::convert::FromSpecImpl<PartialVersion> for Constraint {
    open spec fn obeys_from_spec() -> bool {
        true
    }

    open spec fn from_spec(version: PartialVersion) -> Constraint {
        Constraint::Version(version)
    }
}

/// `Anything` and `Nothing` are the identities of `and` and `or`, and each
/// absorbs the other operation; `or` and `and` distribute over each other;
/// negating twice changes nothing. All of this is about which runtimes a
/// constraint accepts.
pub proof fn lemma_constraint_lattice(a: Constraint, b: Constraint, c: Constraint, rt: Runtime)
    ensures
        Constraint::Either(Box::new(a), Box::new(Constraint::Nothing)).accepts(rt) == a.accepts(rt),
        Constraint::Both(Box::new(a), Box::new(Constraint::Anything)).accepts(rt) == a.accepts(rt),
        Constraint::Either(Box::new(a), Box::new(Constraint::Anything)).accepts(rt),
        !Constraint::Both(Box::new(a), Box::new(Constraint::Nothing)).accepts(rt),
        Constraint::Both(
            Box::new(a),
            Box::new(Constraint::Either(Box::new(b), Box::new(c))),
        ).accepts(rt) == Constraint::Either(
            Box::new(Constraint::Both(Box::new(a), Box::new(b))),
            Box::new(Constraint::Both(Box::new(a), Box::new(c))),
        ).accepts(rt),
        Constraint::Either(
            Box::new(a),
            Box::new(Constraint::Both(Box::new(b), Box::new(c))),
        ).accepts(rt) == Constraint::Both(
            Box::new(Constraint::Either(Box::new(a), Box::new(b))),
            Box::new(Constraint::Either(Box::new(a), Box::new(c))),
        ).accepts(rt),
        Constraint::Not(Box::new(Constraint::Not(Box::new(a)))).accepts(rt) == a.accepts(rt),
{
    reveal_with_fuel(Constraint::accepts, 3);
}

/// Ways of finding PostgreSQL runtimes, and of choosing among them.
///
/// A chain holds no chains: [`Strategy::push_front`] and
/// [`Strategy::push_back`] splice one chain into another, which keeps every
/// answer the same.
#[derive(Debug)]
pub enum Strategy {
    /// Each strategy is consulted in turn.
    Chain(Vec<Strategy>),
    /// The runtimes one discovery source found (on `PATH`, in the platform's
    /// usual places, on a given path), in the order it found them.
    Delegated(Vec<Runtime>),
    /// A single runtime; it always picks itself.
    Single(Runtime),
}

/// Among the first `n` runtimes of `v` that `c` accepts, the one with the
/// highest version; of several with that version, the last.
pub open spec fn best_of(v: Seq<Runtime>, c: Constraint, n: int) -> Option<Runtime>
    decreases n,
{
    if n <= 0 {
        None
    } else {
        let prev = best_of(v, c, n - 1);
        if c.accepts(v[n - 1]) && (prev is None || version_le(prev->Some_0.version, v[n - 1].version)) {
            Some(v[n - 1])
        } else {
            prev
        }
    }
}

/// The answer of a strategy that is not a chain.
pub open spec fn member_select(m: Strategy, c: Constraint) -> Option<Runtime> {
    match m {
        Strategy::Delegated(v) => best_of(v@, c, v@.len() as int),
        Strategy::Single(rt) => if c.accepts(rt) {
            Some(rt)
        } else {
            None
        },
        Strategy::Chain(_) => None,
    }
}

/// The first answer among `ms[i..]`.
pub open spec fn first_select(ms: Seq<Strategy>, c: Constraint, i: int) -> Option<Runtime>
    decreases ms.len() - i,
{
    if i < 0 || i >= ms.len() {
        None
    } else {
        match member_select(ms[i], c) {
            Some(r) => Some(r),
            None => first_select(ms, c, i + 1),
        }
    }
}

/// The runtimes of `v`, keeping only the first of each version.
pub open spec fn dedup_versions(v: Seq<Runtime>) -> Seq<Runtime>
    decreases v.len(),
{
    if v.len() == 0 {
        Seq::empty()
    } else {
        let d = dedup_versions(v.drop_last());
        if exists|k: int| 0 <= k < d.len() && d[k].version == v.last().version {
            d
        } else {
            d.push(v.last())
        }
    }
}

/// Everything the members of a chain know about, in order.
pub open spec fn chain_runtimes(ms: Seq<Strategy>) -> Seq<Runtime>
    decreases ms.len(),
{
    if ms.len() == 0 {
        Seq::empty()
    } else {
        chain_runtimes(ms.drop_last()) + match ms.last() {
            Strategy::Delegated(v) => v@,
            Strategy::Single(rt) => seq![rt],
            Strategy::Chain(_) => Seq::empty(),
        }
    }
}

/// Of the `n` first runtimes of `v`, the one with the highest version that
/// `c` accepts is what [`best_of`] picks.
pub proof fn lemma_best_of(v: Seq<Runtime>, c: Constraint, n: int)
    requires
        0 <= n <= v.len(),
    ensures
        best_of(v, c, n) is None <==> forall|i: int| 0 <= i < n ==> !c.accepts(#[trigger] v[i]),
        best_of(v, c, n) matches Some(r) ==> c.accepts(r) && exists|i: int|
            0 <= i < n && v[i] == r,
        best_of(v, c, n) matches Some(r) ==> forall|i: int|
            0 <= i < n && c.accepts(#[trigger] v[i]) ==> version_le(v[i].version, r.version),
    decreases n,
{
    if n > 0 {
        lemma_best_of(v, c, n - 1);
        let prev = best_of(v, c, n - 1);
        if let Some(p) = prev {
            crate::version::lemma_version_order_total(p.version, v[n - 1].version);
            crate::version::lemma_version_order_total(v[n - 1].version, v[n - 1].version);
            let taken = c.accepts(v[n - 1]) && version_le(p.version, v[n - 1].version);
            assert forall|i: int| 0 <= i < n && c.accepts(#[trigger] v[i]) implies version_le(
                v[i].version,
                best_of(v, c, n)->Some_0.version,
            ) by {
                if taken && i < n - 1 {
                    crate::version::lemma_version_order_transitive(
                        v[i].version,
                        p.version,
                        v[n - 1].version,
                    );
                }
            }
        } else {
            crate::version::lemma_version_order_total(v[n - 1].version, v[n - 1].version);
        }
    }
}

fn best_runtime(v: &Vec<Runtime>, c: &Constraint) -> (r: Option<Runtime>)
    requires
        c.wf(),
    ensures
        r == best_of(v@, *c, v@.len() as int),
{
    let mut best: Option<Runtime> = None;
    let mut i: usize = 0;
    while i < v.len()
        invariant
            c.wf(),
            i <= v@.len(),
            best == best_of(v@, *c, i as int),
        decreases v@.len() - i,
    {
        let accepted = c.matches(&v[i]);
        let higher = match &best {
            None => true,
            Some(b) => match b.version.compare(&v[i].version) {
                std::cmp::Ordering::Greater => false,
                _ => true,
            },
        };
        if accepted && higher {
            best = Some(v[i].clone());
        }
        i = i + 1;
    }
    best
}

impl Strategy {
    /// A chain holds no chains.
    pub open spec fn wf(self) -> bool {
        match self {
            Strategy::Chain(ms) => forall|i: int| 0 <= i < ms@.len() ==> !(#[trigger] ms@[i] is Chain),
            _ => true,
        }
    }

    /// The runtime selected for constraint `c`.
    pub open spec fn selection(self, c: Constraint) -> Option<Runtime> {
        match self {
            Strategy::Chain(ms) => first_select(ms@, c, 0),
            _ => member_select(self, c),
        }
    }

    /// The runtimes known to this strategy, the first of each version only.
    pub open spec fn known(self) -> Seq<Runtime> {
        match self {
            Strategy::Chain(ms) => dedup_versions(chain_runtimes(ms@)),
            Strategy::Delegated(v) => dedup_versions(v@),
            Strategy::Single(rt) => seq![rt],
        }
    }

    /// Determine the most appropriate runtime for the given constraint: the
    /// members of a chain are asked in order and the first answer wins; a
    /// discovery source answers with the highest version that matches; a
    /// single runtime answers with itself when it matches.
    pub fn select(&self, constraint: &Constraint) -> (r: Option<Runtime>)
        requires
            self.wf(),
            constraint.wf(),
        ensures
            r == self.selection(*constraint),
    {
        match self {
            Strategy::Chain(ms) => {
                let mut i: usize = 0;
                while i < ms.len()
                    invariant
                        self.wf(),
                        *self == Strategy::Chain(*ms),
                        constraint.wf(),
                        i <= ms@.len(),
                        first_select(ms@, *constraint, 0) == first_select(ms@, *constraint, i as int),
                    decreases ms@.len() - i,
                {
                    let answer = match &ms[i] {
                        Strategy::Delegated(v) => best_runtime(v, constraint),
                        Strategy::Single(rt) => if constraint.matches(rt) {
                            Some(rt.clone())
                        } else {
                            None
                        },
                        Strategy::Chain(_) => None,
                    };
                    if answer.is_some() {
                        return answer;
                    }
                    i = i + 1;
                }
                None
            },
            Strategy::Delegated(v) => best_runtime(v, constraint),
            Strategy::Single(rt) => if constraint.matches(rt) {
                Some(rt.clone())
            } else {
                None
            },
        }
    }

    /// The runtime to use when there are no constraints, e.g. when creating
    /// a new cluster: the selection for `Anything`.
    pub fn fallback(&self) -> (r: Option<Runtime>)
        requires
            self.wf(),
        ensures
            r == self.selection(Constraint::Anything),
    {
        self.select(&Constraint::Anything)
    }

    /// All runtimes this strategy knows about, in order, keeping only the
    /// first runtime of each version.
    pub fn runtimes(&self) -> (r: Vec<Runtime>)
        requires
            self.wf(),
        ensures
            r@ == self.known(),
    {
        match self {
            Strategy::Chain(ms) => {
                let mut all: Vec<Runtime> = Vec::new();
                let mut i: usize = 0;
                while i < ms.len()
                    invariant
                        i <= ms@.len(),
                        all@ == chain_runtimes(ms@.subrange(0, i as int)),
                    decreases ms@.len() - i,
                {
                    match &ms[i] {
                        Strategy::Delegated(v) => {
                            let mut j: usize = 0;
                            let ghost before = all@;
                            while j < v.len()
                                invariant
                                    j <= v@.len(),
                                    all@ == before + v@.subrange(0, j as int),
                                decreases v@.len() - j,
                            {
                                all.push(v[j].clone());
                                j = j + 1;
                            }
                            assert(v@.subrange(0, v@.len() as int) == v@);
                        },
                        Strategy::Single(rt) => {
                            all.push(rt.clone());
                        },
                        Strategy::Chain(_) => {},
                    }
                    assert(ms@.subrange(0, i + 1).drop_last() == ms@.subrange(0, i as int));
                    i = i + 1;
                }
                assert(ms@.subrange(0, ms@.len() as int) == ms@);
                dedup(&all)
            },
            Strategy::Delegated(v) => dedup(v),
            Strategy::Single(rt) => vec![rt.clone()],
        }
    }

    /// Put `strategy` at the front of the chain; a strategy that is not a
    /// chain becomes one.
    pub fn push_front(self, strategy: Strategy) -> (r: Strategy)
        requires
            self.wf(),
            strategy.wf(),
        ensures
            r.wf(),
            r is Chain,
            r->Chain_0@ == members(strategy) + members(self),
    {
        let mut front = into_members(strategy);
        let mut back = into_members(self);
        front.append(&mut back);
        Strategy::Chain(front)
    }

    /// Put `strategy` at the back of the chain; a strategy that is not a
    /// chain becomes one.
    pub fn push_back(self, strategy: Strategy) -> (r: Strategy)
        requires
            self.wf(),
            strategy.wf(),
        ensures
            r.wf(),
            r is Chain,
            r->Chain_0@ == members(self) + members(strategy),
    {
        strategy.push_front_of(self)
    }

    fn push_front_of(self, front: Strategy) -> (r: Strategy)
        requires
            self.wf(),
            front.wf(),
        ensures
            r.wf(),
            r is Chain,
            r->Chain_0@ == members(front) + members(self),
    {
        self.push_front(front)
    }

}

/// The members a strategy contributes to a chain.
pub open spec fn members(s: Strategy) -> Seq<Strategy> {
    match s {
        Strategy::Chain(ms) => ms@,
        _ => seq![s],
    }
}

fn into_members(s: Strategy) -> (r: Vec<Strategy>)
    requires
        s.wf(),
    ensures
        r@ == members(s),
        forall|k: int| 0 <= k < r@.len() ==> !(#[trigger] r@[k] is Chain),
{
    match s {
        Strategy::Chain(ms) => ms,
        other => vec![other],
    }
}

fn dedup(v: &Vec<Runtime>) -> (r: Vec<Runtime>)
    ensures
        r@ == dedup_versions(v@),
{
    let mut out: Vec<Runtime> = Vec::new();
    let mut i: usize = 0;
    while i < v.len()
        invariant
            i <= v@.len(),
            out@ == dedup_versions(v@.subrange(0, i as int)),
        decreases v@.len() - i,
    {
        let mut seen = false;
        let mut k: usize = 0;
        while k < out.len()
            invariant
                i < v@.len(),
                k <= out@.len(),
                seen <==> exists|j: int| 0 <= j < k && out@[j].version == v@[i as int].version,
            decreases out@.len() - k,
        {
            if out[k].version == v[i].version {
                seen = true;
            }
            k = k + 1;
        }
        assert(v@.subrange(0, i + 1).drop_last() == v@.subrange(0, i as int));
        if !seen {
            out.push(v[i].clone());
        }
        i = i + 1;
    }
    assert(v@.subrange(0, v@.len() as int) == v@);
    out
}

impl From<Runtime> for Strategy {
    fn from(runtime: Runtime) -> (r: Strategy) {
        Strategy::Single(runtime)
    }
}

impl vstd::std_specs::convert::FromSpecImpl<Runtime> for Strategy {
    open spec fn obeys_from_spec() -> bool {
        true
    }

    open spec fn from_spec(runtime: Runtime) -> Strategy {
        Strategy::Single(runtime)
    }
}

/// What can go wrong in finding a runtime.
#[derive(Debug)]
pub enum RuntimeError {
    /// Input/output failed; the message says how.
    IoError(String),
    /// The version a runtime reported could not be understood.
    VersionError(VersionError),
}

impl Runtime {
    /// The runtime in `bindir`, from what its `pg_ctl --version` printed.
    pub fn from_version_output(bindir: String, output: &str) -> (r: Result<Runtime, RuntimeError>)
        ensures
            r is Ok <==> crate::version::parse_spec(output@) matches Some(Some(_)),
            r matches Ok(rt) ==> rt.bindir == bindir && crate::version::parse_spec(output@) == Some(
                Some(rt.version),
            ),
    {
        match Version::parse(output) {
            Ok(version) => Ok(Runtime { bindir, version }),
            Err(e) => Err(RuntimeError::VersionError(e)),
        }
    }
}

/// The entries of a search path: the pieces between colons, empty ones
/// included.
pub open spec fn path_entries(s: Seq<char>) -> Seq<Seq<char>>
    decreases s.len(),
{
    if s.len() == 0 {
        seq![Seq::empty()]
    } else {
        let init = path_entries(s.drop_last());
        if s.last() == ':' {
            init.push(Seq::empty())
        } else {
            init.update(init.len() - 1, init.last().push(s.last()))
        }
    }
}

proof fn lemma_path_entries_nonempty(s: Seq<char>)
    ensures
        path_entries(s).len() >= 1,
    decreases s.len(),
{
    if s.len() > 0 {
        lemma_path_entries_nonempty(s.drop_last());
    }
}

/// Split a search path such as the value of `PATH` into its entries.
pub fn split_path(path: &str) -> (r: Vec<String>)
    ensures
        crate::util::views(r@) == path_entries(path@),
{
    let cs = crate::text::chars_of(path);
    let mut out: Vec<String> = Vec::new();
    let mut current: Vec<char> = Vec::new();
    let mut start: usize = 0;
    let mut i: usize = 0;
    assert(path@.subrange(0, 0) =~= Seq::<char>::empty());
    while i < cs.len()
        invariant
            cs@ == path@,
            start <= i <= cs@.len(),
            current@ == cs@.subrange(start as int, i as int),
            crate::util::views(out@).push(current@) == path_entries(cs@.subrange(0, i as int)),
        decreases cs@.len() - i,
    {
        let ghost before = cs@.subrange(0, i as int);
        assert(cs@.subrange(0, i + 1).drop_last() == before);
        assert(cs@.subrange(0, i + 1).last() == cs@[i as int]);
        proof {
            lemma_path_entries_nonempty(before);
        }
        if cs[i] == ':' {
            let piece = path.substring_char(start, i);
            assert(piece@ == current@);
            out.push(piece.to_owned());
            current = Vec::new();
            start = i + 1;
            assert(crate::util::views(out@).push(current@) =~= path_entries(cs@.subrange(0, i + 1)));
        } else {
            current.push(cs[i]);
            assert(crate::util::views(out@).push(current@) =~= path_entries(cs@.subrange(0, i + 1)));
        }
        i = i + 1;
    }
    let last = path.substring_char(start, cs.len());
    out.push(last.to_owned());
    assert(cs@.subrange(0, cs@.len() as int) == cs@);
    assert(crate::util::views(out@) =~= path_entries(cs@));
    out
}

/// Find runtimes in the directories of a given search path.
#[derive(Clone, Debug)]
pub struct RuntimesOnPath(pub String);

/// Find runtimes in the directories of `PATH`, from the environment.
#[derive(Clone, Debug)]
pub struct RuntimesOnPathEnv;

/// Find runtimes where the platform usually installs them (on Debian and
/// Ubuntu, under `/usr/lib/postgresql`).
#[derive(Clone, Debug)]
pub struct RuntimesOnPlatform;

impl RuntimesOnPath {
    /// The directories to look in for `pg_ctl`.
    pub fn candidates(&self) -> (r: Vec<String>)
        ensures
            crate::util::views(r@) == path_entries(self.0@),
    {
        split_path(self.0.as_str())
    }
}

impl RuntimesOnPathEnv {
    /// The directories to look in for `pg_ctl`, given the value of `PATH`
    /// (none when it is not set).
    pub fn candidates(&self, path: Option<&str>) -> (r: Vec<String>)
        ensures
            match path {
                Some(p) => crate::util::views(r@) == path_entries(p@),
                None => r@.len() == 0,
            },
    {
        match path {
            Some(p) => split_path(p),
            None => Vec::new(),
        }
    }
}

impl RuntimesOnPlatform {
    /// The glob that matches the `pg_ctl` of each installed runtime.
    pub fn pattern(&self) -> (r: &'static str)
        ensures
            r@ == "/usr/lib/postgresql/*/bin/pg_ctl"@,
    {
        "/usr/lib/postgresql/*/bin/pg_ctl"
    }
}

} // verus!
