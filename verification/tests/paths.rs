use updater::paths::{join_path, log_file_path, parent_of};

#[test]
fn parent_of_a_nested_path() {
    assert_eq!(parent_of("dir/app.exe"), Some(String::from("dir")));
    assert_eq!(parent_of("a/b/c"), Some(String::from("a/b")));
}

#[test]
fn parent_of_a_bare_name_is_none() {
    assert_eq!(parent_of("app.exe"), None);
    assert_eq!(parent_of(""), None);
}

#[test]
fn parent_of_a_root_anchored_path_is_the_root() {
    assert_eq!(parent_of("/app.exe"), Some(String::from("/")));
}

#[test]
fn parent_of_takes_backslashes_too() {
    assert_eq!(
        parent_of("C:\\prog\\app.exe"),
        Some(String::from("C:\\prog"))
    );
}

#[test]
fn join_inserts_a_separator_only_when_needed() {
    assert_eq!(join_path("dir", "updater.log"), "dir/updater.log");
    assert_eq!(join_path("dir/", "updater.log"), "dir/updater.log");
    assert_eq!(join_path("C:\\prog\\", "updater.log"), "C:\\prog\\updater.log");
}

#[test]
fn log_file_sits_beside_the_executable() {
    assert_eq!(
        log_file_path(Some("/opt/app/updater")),
        "/opt/app/updater.log"
    );
}

#[test]
fn log_file_falls_back_to_the_current_directory() {
    assert_eq!(log_file_path(Some("updater")), "updater.log");
    assert_eq!(log_file_path(None), "updater.log");
}
