use pgdo::args::ClusterMode;
use pgdo::cluster::{
    lifecycle, ClusterState, Transition,
    change_outcome, choose_runtime, create_database_sql, drop_database_sql, environment, exit_code,
    lock_file_name, running_from_status, start_arguments, ClusterError, DUPLICATE_DATABASE,
    UNDEFINED_DATABASE,
};
use pgdo::config::{Parameter, Value};
use pgdo::coordinate::State;
use pgdo::runtime::{Runtime, Strategy};
use pgdo::version::{PartialVersion, Version};

#[test]
fn status_codes_of_post10_servers() {
    let v = Version::Post10(14, 2);
    assert_eq!(Some(true), running_from_status(v, Some(0), true).ok());
    assert_eq!(Some(false), running_from_status(v, Some(3), true).ok());
    assert_eq!(Some(false), running_from_status(v, Some(4), false).ok());
    assert!(matches!(running_from_status(v, Some(4), true), Err(ClusterError::UnsupportedVersion(w)) if w == v));
    assert!(matches!(running_from_status(v, Some(1), false), Err(ClusterError::UnsupportedVersion(_))));
    assert!(matches!(running_from_status(v, None, false), Err(ClusterError::Terminated)));
}

#[test]
fn status_codes_of_pre10_servers() {
    assert_eq!(Some(false), running_from_status(Version::Pre10(9, 6, 1), Some(4), false).ok());
    assert_eq!(Some(false), running_from_status(Version::Pre10(9, 3, 1), Some(3), true).ok());
    assert!(running_from_status(Version::Pre10(9, 3, 1), Some(4), false).is_err());
    assert_eq!(Some(false), running_from_status(Version::Pre10(9, 1, 1), Some(1), true).ok());
    assert!(running_from_status(Version::Pre10(9, 1, 1), Some(3), true).is_err());
    assert!(running_from_status(Version::Pre10(8, 4, 1), Some(3), true).is_err());
    assert_eq!(Some(true), running_from_status(Version::Pre10(8, 4, 1), Some(0), true).ok());
}

#[test]
fn server_arguments_listen_on_the_socket_only() {
    let none: Vec<(Parameter, Value)> = vec![];
    assert_eq!("-h '' -k /tmp/c1", start_arguments("/tmp/c1", &none).unwrap());
    let options = vec![(Parameter("fsync"), Value::Boolean(false))];
    assert_eq!("-h '' -k /tmp/c1 -c fsync'=false'", start_arguments("/tmp/c1", &options).unwrap());
    assert_eq!("-h '' -k foo' bar'", start_arguments("foo bar", &none).unwrap());
}

#[test]
fn environment_points_at_the_cluster() {
    let env = environment("/tmp/c1", None).unwrap();
    assert_eq!(4, env.len());
    assert_eq!(("PGDATA".to_string(), "/tmp/c1".to_string()), env[0]);
    assert_eq!(("PGHOST".to_string(), "/tmp/c1".to_string()), env[1]);
    assert_eq!(("PGDATABASE".to_string(), "postgres".to_string()), env[2]);
    assert_eq!("DATABASE_URL", env[3].0);
    assert_eq!("postgresql://?host=%2Ftmp%2Fc1&dbname=postgres", env[3].1);
    let env = environment("/tmp/c1", Some("Foo-BAR")).unwrap();
    assert_eq!("Foo-BAR", env[2].1);
}

#[test]
fn database_statements_escape_names() {
    assert_eq!("CREATE DATABASE \"Foo-BAR\"", create_database_sql("Foo-BAR"));
    assert_eq!("DROP DATABASE \"a\"\"b\"", drop_database_sql("a\"b"));
}

#[test]
fn database_changes_already_in_place_are_unmodified() {
    assert_eq!(Some(State::Modified), change_outcome(None, DUPLICATE_DATABASE));
    assert_eq!(Some(State::Unmodified), change_outcome(Some(Some("42P04")), DUPLICATE_DATABASE));
    assert_eq!(Some(State::Unmodified), change_outcome(Some(Some("3D000")), UNDEFINED_DATABASE));
    assert_eq!(None, change_outcome(Some(Some("3D000")), DUPLICATE_DATABASE));
    assert_eq!(None, change_outcome(Some(None), DUPLICATE_DATABASE));
}

#[test]
fn exit_codes_pass_through() {
    assert_eq!(Some(0), exit_code(Some(0)));
    assert_eq!(Some(3), exit_code(Some(3)));
    assert_eq!(Some(1), exit_code(Some(300)));
    assert_eq!(Some(1), exit_code(Some(-1)));
    assert_eq!(None, exit_code(None));
}

#[test]
fn lock_file_names_are_stable_per_path() {
    let a = lock_file_name("/tmp/c1");
    assert!(a.starts_with(".pgdo."));
    assert_eq!(6 + 32, a.len());
    assert_eq!(a, lock_file_name("/tmp/c1"));
    assert_ne!(a, lock_file_name("/tmp/c2"));
}

#[test]
fn runtime_for_existing_and_new_clusters() {
    let strategy = Strategy::Delegated(vec![
        Runtime { bindir: "/a/13".into(), version: Version::Post10(13, 4) },
        Runtime { bindir: "/a/15".into(), version: Version::Post10(15, 2) },
    ]);
    assert_eq!("/a/15", choose_runtime(&strategy, None).unwrap().bindir);
    assert_eq!("/a/13", choose_runtime(&strategy, Some(PartialVersion::Post10m(13))).unwrap().bindir);
    assert!(matches!(
        choose_runtime(&strategy, Some(PartialVersion::Post10m(11))),
        Err(ClusterError::RuntimeNotFound(PartialVersion::Post10m(11)))
    ));
    assert!(matches!(
        choose_runtime(&Strategy::Chain(vec![]), None),
        Err(ClusterError::RuntimeDefaultNotFound)
    ));
}

#[test]
fn cluster_modes() {
    let fast = ClusterMode::Fast.changes();
    assert_eq!(3, fast.len());
    assert_eq!("fsync", fast[0].0 .0);
    assert_eq!(Some(Value::Boolean(false)), fast[2].1);
    let slow = ClusterMode::Slow.changes();
    assert_eq!("synchronous_commit", slow[2].0 .0);
    assert!(slow.iter().all(|(_, v)| v.is_none()));
    assert_eq!(ClusterMode::Slow, ClusterMode::default());
}

#[test]
fn superuser_names_from_single_user_output() {
    let output = "PostgreSQL stand-alone backend 14.2\nbackend> \t 1: rolname\t(typeid = 19, len = 64, typmod = -1, byval = f)\n\t----\n\t 1: rolname = \"postgres\"\t(typeid = 19, len = 64, typmod = -1, byval = f)\n\t----\n\t 1: rolname = \"the \"boss\"\"\t(typeid = 19)\n\t----\nbackend> \n";
    assert_eq!(
        vec!["postgres".to_string(), "the \"boss\"".to_string()],
        pgdo::cluster::superuser_role_names(output)
    );
    assert!(pgdo::cluster::superuser_role_names("myrolname = \"x\"").is_empty());
    assert!(pgdo::cluster::superuser_role_names("rolname = \"\"").is_empty());
}

#[test]
fn lifecycle_transitions_are_idempotent() {
    let (s, first) = lifecycle(ClusterState::Absent, Transition::Create);
    let (s, second) = lifecycle(s, Transition::Create);
    assert_eq!((ClusterState::Stopped, State::Modified, State::Unmodified), (s, first, second));
    let (s, first) = lifecycle(s, Transition::Start);
    let (s, second) = lifecycle(s, Transition::Start);
    assert_eq!((ClusterState::Running, State::Modified, State::Unmodified), (s, first, second));
    let (s, first) = lifecycle(s, Transition::Stop);
    let (s, second) = lifecycle(s, Transition::Stop);
    assert_eq!((ClusterState::Stopped, State::Modified, State::Unmodified), (s, first, second));
    let (s, first) = lifecycle(s, Transition::Destroy);
    let (s, second) = lifecycle(s, Transition::Destroy);
    assert_eq!((ClusterState::Absent, State::Modified, State::Unmodified), (s, first, second));
}
