use generator::git::{choose_fetch, CloneError, Fetch, OpenError, PullError, Repo};

#[test]
fn uncached_repository_is_cloned_then_pulled() {
    assert_eq!(choose_fetch(false, false), Fetch::Clone);
    assert_eq!(choose_fetch(false, true), Fetch::Pull);
}

#[test]
fn local_path_needs_no_repository() {
    assert_eq!(choose_fetch(true, false), Fetch::Local);
    assert_eq!(choose_fetch(true, true), Fetch::Local);
}

#[test]
fn clone_command_names_remote_and_destination() {
    let args = Repo::clone_command("user/template", "/cache/user/template");
    assert_eq!(args, vec!["clone", "user/template", "/cache/user/template"]);
}

#[test]
fn open_and_pull_commands_run_inside_the_repository() {
    assert_eq!(Repo::open_command("/cache/t"), vec!["-C", "/cache/t", "status"]);
    let repo = Repo::open("/cache/t", Some(true)).unwrap();
    assert_eq!(repo.path(), "/cache/t");
    assert_eq!(repo.pull_command(), vec!["-C", "/cache/t", "pull"]);
}

#[test]
fn clone_succeeds_only_on_a_successful_exit() {
    let repo = Repo::clone("r", "/d", Some(true)).unwrap();
    assert_eq!(repo.path(), "/d");
    let failed: CloneError = Repo::clone("r", "/d", Some(false)).err().unwrap();
    assert_eq!(failed.remote, "r");
    assert_eq!(failed.destination, "/d");
    assert_eq!(failed.message(), "Failed to clone repo r to /d");
    assert_eq!(failed, CloneError { remote: "r".to_string(), destination: "/d".to_string() });
    assert!(Repo::clone("r", "/d", None).is_err());
}

#[test]
fn open_fails_with_the_location() {
    let failed: OpenError = Repo::open("/x", Some(false)).err().unwrap();
    assert_eq!(failed.location, "/x");
    assert_eq!(failed.message(), "Failed to open repo at /x");
    assert_eq!(failed, OpenError { location: "/x".to_string() });
    assert!(Repo::open("/x", None).is_err());
}

#[test]
fn pull_fails_with_the_location() {
    let mut repo = Repo::open("/x", Some(true)).unwrap();
    assert!(repo.pull(Some(true)).is_ok());
    let failed: PullError = repo.pull(Some(false)).err().unwrap();
    assert_eq!(failed.location, "/x");
    assert_eq!(failed.message(), "Failed to pull from remote in repo /x");
    assert_eq!(failed, PullError { location: "/x".to_string() });
    assert!(repo.pull(None).is_err());
    assert_eq!(repo.path(), "/x");
}
