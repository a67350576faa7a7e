use pgdo::util::{choose_user, percent, prepend_to_path};

#[test]
fn percent_examples() {
    assert_eq!(percent(100, 1000), Some(10));
    assert_eq!(percent(104, 1000), Some(10));
    assert_eq!(percent(105, 1000), Some(11)); // Rounds.
    assert_eq!(percent(u64::MAX, 1), None); // Overflow.
    assert_eq!(percent(0, u64::MAX), Some(0));
    assert_eq!(percent(1, u64::MAX), Some(0));
    assert_eq!(percent(u64::MAX, u64::MAX), Some(100));
    assert_eq!(percent(u64::MAX / 100, u64::MAX), Some(1));
    assert_eq!(percent(u64::MAX >> 1, u64::MAX), Some(50));
    assert_eq!(percent(5, 0), None);
    assert_eq!(percent(3, 1), Some(300));
}

fn strings(list: &[&str]) -> Vec<String> {
    list.iter().map(|s| s.to_string()).collect()
}

#[test]
fn prepend_to_path_prepends_or_moves() {
    assert_eq!(strings(&["/x", "/a", "/b"]), prepend_to_path("/x", &strings(&["/a", "/b"])));
    assert_eq!(strings(&["/x", "/a", "/b"]), prepend_to_path("/x", &strings(&["/a", "/x", "/b", "/x"])));
    assert_eq!(strings(&["/x"]), prepend_to_path("/x", &strings(&[])));
}

#[test]
fn user_from_environment() {
    assert_eq!(Some("pg".to_string()), choose_user(Some("pg".into()), Some("me".into())));
    assert_eq!(Some("me".to_string()), choose_user(Some("  ".into()), Some("me".into())));
    assert_eq!(Some("me".to_string()), choose_user(None, Some("me".into())));
    assert_eq!(None, choose_user(None, Some("\t".into())));
    assert_eq!(None, choose_user(None, None));
}

#[test]
fn test_prepend_to_path_prepends_given_dir_to_path() {
    let path = strings(&["/tmp/one", "/tmp/two"]);
    let expected = strings(&["/tmp/given", "/tmp/one", "/tmp/two"]);
    assert_eq!(expected, prepend_to_path("/tmp/given", &path));
}

#[test]
fn test_prepend_to_path_moves_dir_to_front_of_path() {
    let path = strings(&["/tmp/one", "/tmp/two", "/tmp/given"]);
    let expected = strings(&["/tmp/given", "/tmp/one", "/tmp/two"]);
    assert_eq!(expected, prepend_to_path("/tmp/given", &path));
}

#[test]
fn test_prepend_to_path_returns_given_dir_if_path_is_empty() {
    assert_eq!(strings(&["/tmp/given"]), prepend_to_path("/tmp/given", &Vec::new()));
}
