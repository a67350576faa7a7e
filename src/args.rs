//! The options a command line gives about a cluster, and what the cluster
//! mode means for its configuration.

use vstd::prelude::*;

use crate::config::{Parameter, Value, ValueModel};
use crate::runtime::{Constraint, Strategy};

verus! {

/// Where the cluster lives.
#[derive(Debug, Default)]
pub struct ClusterArgs {
    /// The data directory.
    pub dir: String,
}

/// How the cluster trades safety for speed, if the user chose.
#[derive(Debug, Default)]
pub struct ClusterModeArgs {
    pub mode: Option<ClusterMode>,
}

/// The database to connect to.
#[derive(Debug, Default)]
pub struct DatabaseArgs {
    pub name: String,
}

/// What happens to the cluster after use.
#[derive(Debug, Default)]
pub struct LifecycleArgs {
    /// Destroy the cluster (deleting its data directory) after use.
    pub destroy: bool,
}

/// Run the cluster in a safer or in a faster mode. The mode is sticky: it
/// reconfigures the cluster.
#[derive(Clone, Copy, Debug, PartialEq, Eq, Structural)]
pub enum ClusterMode {
    /// Reset `fsync`, `full_page_writes` and `synchronous_commit` to their
    /// defaults.
    Slow,
    /// Turn `fsync`, `full_page_writes` and `synchronous_commit` off. Data can
    /// be lost for good if the machine crashes.
    Fast,
}

impl Default for ClusterMode {
    fn default() -> (r: ClusterMode)
        ensures
            r == ClusterMode::Slow,
    {
        ClusterMode::Slow
    }
}

impl ClusterMode {
    /// The changes this mode makes: each parameter with the value to set,
    /// or `None` to reset it to its default.
    pub fn changes(&self) -> (r: Vec<(Parameter<'static>, Option<Value>)>)
        ensures
            r@.len() == 3,
            r@[0].0.0@ == "fsync"@,
            r@[1].0.0@ == "full_page_writes"@,
            r@[2].0.0@ == "synchronous_commit"@,
            forall|i: int|
                0 <= i < 3 ==> match *self {
                    ClusterMode::Fast => (#[trigger] r@[i]).1 matches Some(v) && v@
                        == ValueModel::Boolean(false),
                    ClusterMode::Slow => (#[trigger] r@[i]).1 is None,
                },
    {
        let value = match self {
            ClusterMode::Fast => true,
            ClusterMode::Slow => false,
        };
        let mut v: Vec<(Parameter<'static>, Option<Value>)> = Vec::new();
        v.push((Parameter("fsync"), if value { Some(Value::Boolean(false)) } else { None }));
        v.push((Parameter("full_page_writes"), if value { Some(Value::Boolean(false)) } else { None }));
        v.push((Parameter("synchronous_commit"), if value { Some(Value::Boolean(false)) } else { None }));
        v
    }
}

/// The strategy to use, given the user's choice of default runtime: that
/// runtime, when the strategy has one matching the constraint, goes in front
/// of the strategy; no match is an error that hands the constraint back.
pub fn determine_strategy(strategy: Strategy, fallback: Option<Constraint>) -> (r: Result<
    Strategy,
    Constraint,
>)
    requires
        strategy.wf(),
        fallback matches Some(c) ==> c.wf(),
    ensures
        fallback is None ==> r == Ok::<Strategy, Constraint>(strategy),
        fallback matches Some(c) ==> match strategy.selection(c) {
            Some(rt) => r matches Ok(s) && s.wf() && s->Chain_0@ == crate::runtime::members(
                Strategy::Single(rt),
            ) + crate::runtime::members(strategy),
            None => r == Err::<Strategy, Constraint>(c),
        },
{
    match fallback {
        None => Ok(strategy),
        Some(c) => match strategy.select(&c) {
            Some(rt) => Ok(strategy.push_front(Strategy::Single(rt))),
            None => Err(c),
        },
    }
}

} // verus!
