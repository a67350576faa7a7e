use pgdo::args::determine_strategy;
use pgdo::runtime::{
    split_path, Constraint, Runtime, RuntimesOnPath, RuntimesOnPathEnv, RuntimesOnPlatform, Strategy,
};
use pgdo::version::{PartialVersion, Version};

/// An example constraint.
fn constraint() -> Constraint {
    Constraint::Version(PartialVersion::Post10m(13))
}

fn runtime(bindir: &str, version: Version) -> Runtime {
    Runtime { bindir: bindir.into(), version }
}

#[test]
fn test_not() {
    let c1 = Constraint::Version(PartialVersion::Post10m(13));
    assert!(matches!(c1, Constraint::Version(_)));
    let c2 = !c1;
    assert!(matches!(c2, Constraint::Not(_)));
    let c3 = !c2;
    assert!(matches!(c3, Constraint::Version(_)));
}

#[test]
fn test_not_anything_and_nothing() {
    let c1 = Constraint::Anything;
    let c2 = !c1;
    assert!(matches!(c2, Constraint::Nothing));
    let c3 = !c2;
    assert!(matches!(c3, Constraint::Anything));
}

#[test]
fn test_or() {
    assert!(matches!(Constraint::Anything | constraint(), Constraint::Anything));
    assert!(matches!(constraint() | Constraint::Anything, Constraint::Anything));
    assert!(matches!(Constraint::Nothing | constraint(), Constraint::Version(_)));
    assert!(matches!(constraint() | Constraint::Nothing, Constraint::Version(_)));
}

#[test]
fn test_or_anything_and_nothing() {
    assert!(matches!(Constraint::Anything | Constraint::Anything, Constraint::Anything));
    assert!(matches!(Constraint::Nothing | Constraint::Anything, Constraint::Anything));
    assert!(matches!(Constraint::Anything | Constraint::Nothing, Constraint::Anything));
}

#[test]
fn test_and() {
    assert!(matches!(Constraint::Anything & constraint(), Constraint::Version(_)));
    assert!(matches!(constraint() & Constraint::Anything, Constraint::Version(_)));
    assert!(matches!(Constraint::Nothing & constraint(), Constraint::Nothing));
    assert!(matches!(constraint() & Constraint::Nothing, Constraint::Nothing));
}

#[test]
fn test_and_anything_and_nothing() {
    assert!(matches!(Constraint::Anything & Constraint::Anything, Constraint::Anything));
    assert!(matches!(Constraint::Nothing & Constraint::Anything, Constraint::Nothing));
    assert!(matches!(Constraint::Anything & Constraint::Nothing, Constraint::Nothing));
}

#[test]
fn test_any() {
    assert!(matches!(Constraint::any(vec![]), Constraint::Nothing));
    assert!(matches!(
        Constraint::any(vec![Constraint::Anything, Constraint::Nothing, Constraint::Nothing]),
        Constraint::Anything
    ));
    assert!(matches!(
        Constraint::any(vec![Constraint::Nothing, constraint(), Constraint::Nothing]),
        Constraint::Version(_)
    ));
    assert!(matches!(
        Constraint::any(vec![Constraint::Anything, constraint(), Constraint::Nothing]),
        Constraint::Anything
    ));
    assert!(matches!(
        Constraint::any(vec![constraint(), constraint()]),
        Constraint::Either(ca, cb)
            if matches!(*ca, Constraint::Version(_))
            && matches!(*cb, Constraint::Version(_))
    ));
}

#[test]
fn test_all() {
    assert!(matches!(Constraint::all(vec![]), Constraint::Anything));
    assert!(matches!(
        Constraint::all(vec![Constraint::Anything, Constraint::Anything, Constraint::Anything]),
        Constraint::Anything
    ));
    assert!(matches!(
        Constraint::all(vec![Constraint::Anything, constraint(), Constraint::Anything]),
        Constraint::Version(_),
    ));
    assert!(matches!(
        Constraint::all(vec![Constraint::Anything, constraint(), Constraint::Nothing]),
        Constraint::Nothing,
    ));
    assert!(matches!(
        Constraint::all(vec![constraint(), constraint()]),
        Constraint::Both(ca, cb)
            if matches!(*ca, Constraint::Version(_))
            && matches!(*cb, Constraint::Version(_))
    ));
}

#[test]
fn constraint_matches_versions_and_paths() {
    let r13 = runtime("/usr/lib/postgresql/13/bin", Version::Post10(13, 4));
    let r14 = runtime("/opt/pg14/bin", Version::Post10(14, 1));
    assert!(constraint().matches(&r13));
    assert!(!constraint().matches(&r14));
    let path = Constraint::path("/usr/lib/postgresql/*/bin").unwrap();
    assert!(path.matches(&r13));
    assert!(!path.matches(&r14));
    // `*` does not match a path separator.
    let shallow = Constraint::path("/usr/*/bin").unwrap();
    assert!(!shallow.matches(&r13));
    let deep = Constraint::path("/usr/**/bin").unwrap();
    assert!(deep.matches(&r13));
    assert!(Constraint::path("/usr/[lib").is_err());
    let neither = !(constraint() | Constraint::path("/opt/**").unwrap());
    assert!(!neither.matches(&r13));
    assert!(!neither.matches(&r14));
}

#[test]
fn constraint_parse_chooses_glob_or_version() {
    assert!(matches!(Constraint::parse("14"), Ok(Constraint::Version(PartialVersion::Post10m(14)))));
    assert!(matches!(Constraint::parse("/opt/*/bin"), Ok(Constraint::BinDir(_))));
    assert!(Constraint::parse("fourteen").is_err());
    assert!(matches!(Constraint::version("9.6"), Ok(Constraint::Version(PartialVersion::Pre10mm(9, 6)))));
}

fn sample() -> Strategy {
    Strategy::Delegated(vec![
        runtime("/a/13", Version::Post10(13, 4)),
        runtime("/a/15", Version::Post10(15, 2)),
        runtime("/a/14", Version::Post10(14, 1)),
        runtime("/b/15", Version::Post10(15, 2)),
    ])
}

#[test]
fn strategy_selects_highest_matching_version() {
    let strategy = sample();
    let any = strategy.select(&Constraint::Anything).unwrap();
    assert_eq!(Version::Post10(15, 2), any.version);
    // Of two runtimes with the highest version, the last one wins.
    assert_eq!("/b/15", any.bindir);
    let r13 = strategy.select(&constraint()).unwrap();
    assert_eq!("/a/13", r13.bindir);
    assert!(strategy.select(&Constraint::Nothing).is_none());
    assert_eq!("/b/15", strategy.fallback().unwrap().bindir);
}

#[test]
fn strategy_chain_asks_members_in_order() {
    let single = Strategy::Single(runtime("/s/12", Version::Post10(12, 9)));
    let chain = sample().push_front(single);
    assert_eq!("/s/12", chain.fallback().unwrap().bindir);
    assert_eq!("/a/13", chain.select(&constraint()).unwrap().bindir);
    let chain = Strategy::Single(runtime("/s/12", Version::Post10(12, 9))).push_back(sample());
    assert_eq!("/s/12", chain.fallback().unwrap().bindir);
    let empty = Strategy::Chain(vec![]);
    assert!(empty.fallback().is_none());
}

#[test]
fn strategy_runtimes_deduplicates_by_version() {
    let chain = sample().push_front(Strategy::Single(runtime("/s/14", Version::Post10(14, 1))));
    let found: Vec<String> = chain.runtimes().into_iter().map(|r| r.bindir).collect();
    assert_eq!(vec!["/s/14", "/a/13", "/a/15"], found);
    assert_eq!(runtime("/x", Version::Post10(14, 1)), runtime("/y", Version::Post10(14, 1)));
}

#[test]
fn determine_strategy_puts_the_chosen_runtime_first() {
    let chosen = determine_strategy(sample(), Some(constraint())).unwrap();
    assert_eq!("/a/13", chosen.fallback().unwrap().bindir);
    let unchanged = determine_strategy(sample(), None).unwrap();
    assert_eq!("/b/15", unchanged.fallback().unwrap().bindir);
    let missing = determine_strategy(sample(), Some(Constraint::version("11").unwrap()));
    assert!(matches!(missing, Err(Constraint::Version(PartialVersion::Post10m(11)))));
}

#[test]
fn search_paths_split_on_colons() {
    assert_eq!(vec!["/a", "/b/c", ""], split_path("/a:/b/c:"));
    assert_eq!(vec![""], split_path(""));
    assert_eq!(vec!["/usr/bin"], RuntimesOnPath("/usr/bin".into()).candidates());
    assert_eq!(vec!["/x", "/y"], RuntimesOnPathEnv.candidates(Some("/x:/y")));
    assert!(RuntimesOnPathEnv.candidates(None).is_empty());
    assert_eq!("/usr/lib/postgresql/*/bin/pg_ctl", RuntimesOnPlatform.pattern());
}

#[test]
fn runtime_from_pg_ctl_version_output() {
    let rt = Runtime::from_version_output("/opt/bin".into(), "pg_ctl (PostgreSQL) 14.2\n").unwrap();
    assert_eq!("/opt/bin", rt.bindir);
    assert_eq!(Version::Post10(14, 2), rt.version);
    assert!(Runtime::from_version_output("/opt/bin".into(), "pg_ctl").is_err());
}
