use bifrost::error::BifrostError;
use bifrost::path_guard::{get_path_or_empty, handle_bad_path, BifrostPath};

fn name(s: &str) -> String {
    String::from(s)
}

#[test]
fn create_succeeds_only_for_a_free_valid_name() {
    let p = BifrostPath::new("/home/u", Some(&name("proj")), false).unwrap();
    assert_eq!(p.path(), "/home/u/.bifrost/container/bifrost/proj");
    assert_eq!(
        BifrostPath::new("/home/u", Some(&name("proj")), true).unwrap_err(),
        BifrostError::AlreadyExists
    );
    for bad in ["", ".bifrost", ".bifrost_config", "container", "bifrost", "tmp", ".hidden", "Bifrost.toml"] {
        assert_eq!(
            BifrostPath::new("/home/u", Some(&name(bad)), false).unwrap_err(),
            BifrostError::InvalidName,
            "{}",
            bad
        );
    }
    assert_eq!(BifrostPath::new("/home/u", None, false).unwrap_err(), BifrostError::InvalidName);
}

#[test]
fn existing_succeeds_only_when_the_entry_is_there() {
    let p = BifrostPath::try_from_existing("/home/u/", Some(&name("proj")), true).unwrap();
    assert_eq!(p.path(), "/home/u/.bifrost/container/bifrost/proj");
    assert_eq!(
        BifrostPath::try_from_existing("/home/u", Some(&name("proj")), false).unwrap_err(),
        BifrostError::NotFound
    );
    assert_eq!(
        BifrostPath::try_from_existing("/home/u", None, true).unwrap_err(),
        BifrostError::InvalidName
    );
}

#[test]
fn create_and_existing_agree_on_the_path() {
    let created = BifrostPath::new("/h", Some(&name("realm")), false).unwrap();
    let found = BifrostPath::try_from_existing("/h", Some(&name("realm")), true).unwrap();
    assert_eq!(created.path(), found.path());
    assert_eq!(BifrostPath::candidate("/h", "realm"), *created.path());
    assert_eq!(BifrostPath::container("/h"), "/h/.bifrost/container/bifrost");
}

#[test]
fn check_rejects_blacklisted_names() {
    assert!(BifrostPath::check(Some(&name("proj"))).is_ok());
    assert_eq!(BifrostPath::check(Some(&name("tmp"))).unwrap_err(), BifrostError::InvalidName);
    assert_eq!(BifrostPath::check(None).unwrap_err(), BifrostError::InvalidName);
}

#[test]
fn bad_paths_are_described() {
    assert_eq!(get_path_or_empty(None), "");
    let p = BifrostPath::new("/h", Some(&name("r")), false).unwrap();
    assert_eq!(get_path_or_empty(Some(p)), "/h/.bifrost/container/bifrost/r");
    assert_eq!(handle_bad_path(String::new()), "empty path");
    assert_eq!(handle_bad_path(String::from("/x")), "bad string");
}

#[test]
fn every_error_has_a_message() {
    assert_eq!(BifrostError::IncompleteLoad.message(), "could not load all contents");
    assert!(!BifrostError::NoContent.message().is_empty());
}

#[test]
fn names_cannot_leave_the_container_root() {
    for bad in ["/home/u", "a/../..", "..", ".", "a\\b", "x/"] {
        assert_eq!(
            BifrostPath::new("/home/u", Some(&name(bad)), false).unwrap_err(),
            BifrostError::InvalidName,
            "{}",
            bad
        );
        assert_eq!(
            BifrostPath::try_from_existing("/home/u", Some(&name(bad)), true).unwrap_err(),
            BifrostError::InvalidName,
            "{}",
            bad
        );
    }
    let p = BifrostPath::try_from_existing("/home/u", Some(&name("tmp")), true).unwrap();
    assert_eq!(p.path(), "/home/u/.bifrost/container/bifrost/tmp");
}
