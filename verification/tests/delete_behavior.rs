use node_modules_cleaner::delete::{delete_folders, removal_outcome};
use node_modules_cleaner::paths::get_parent_project;

#[test]
fn every_attempted_path_gets_exactly_one_outcome() {
    let attempts = vec![
        ("/tmp/a/node_modules".to_string(), None),
        ("/tmp/b/node_modules".to_string(), Some("No such file or directory".to_string())),
        ("/tmp/c/node_modules".to_string(), None),
    ];
    let out = delete_folders(attempts);
    assert_eq!(out.len(), 3);
    for path in ["/tmp/a/node_modules", "/tmp/b/node_modules", "/tmp/c/node_modules"] {
        assert_eq!(out.iter().filter(|r| r.path == path).count(), 1);
    }
    let b = out.iter().find(|r| r.path == "/tmp/b/node_modules").unwrap();
    assert!(!b.success);
    assert!(!b.error.as_ref().unwrap().is_empty());
    let a = out.iter().find(|r| r.path == "/tmp/a/node_modules").unwrap();
    assert!(a.success && a.error.is_none());
    let c = out.iter().find(|r| r.path == "/tmp/c/node_modules").unwrap();
    assert!(c.success && c.error.is_none());
}

#[test]
fn a_failure_never_hides_the_other_outcomes() {
    let attempts = vec![
        ("/x".to_string(), Some("Permission denied".to_string())),
        ("/y".to_string(), Some("Permission denied".to_string())),
    ];
    let out = delete_folders(attempts);
    assert_eq!(out.len(), 2);
    assert!(out.iter().all(|r| !r.success));
}

#[test]
fn deleting_an_already_deleted_path_reports_failure_not_a_crash() {
    // First round: the path still exists and the removal succeeds.
    let first = delete_folders(vec![("/tmp/p/node_modules".to_string(), None)]);
    assert!(first[0].success);
    // Second round: the file system reports the path as gone.
    let second = delete_folders(vec![(
        "/tmp/p/node_modules".to_string(),
        Some("No such file or directory".to_string()),
    )]);
    assert_eq!(second.len(), 1);
    assert!(!second[0].success);
    assert_eq!(second[0].error.as_deref(), Some("No such file or directory"));
}

#[test]
fn outcomes_carry_the_platform_error_verbatim() {
    let r = removal_outcome("/p".to_string(), Some("Is a directory".to_string()));
    assert!(!r.success);
    assert_eq!(r.path, "/p");
    assert_eq!(r.error.as_deref(), Some("Is a directory"));
    let ok = removal_outcome("/q".to_string(), None);
    assert!(ok.success);
    assert_eq!(ok.error, None);
}

#[test]
fn empty_request_list_yields_empty_report() {
    assert_eq!(delete_folders(vec![]).len(), 0);
}

#[test]
fn parent_project_is_the_containing_directory_name() {
    assert_eq!(get_parent_project("/home/me/app/node_modules"), "app");
    assert_eq!(get_parent_project("a/node_modules"), "a");
}

#[test]
fn parent_project_reads_paths_as_the_platform_does() {
    // A trailing separator does not change the object a path names.
    assert_eq!(get_parent_project("/a/b/"), "a");
    assert_eq!(get_parent_project("/x/node_modules/"), "x");
    // A run of separators counts as one.
    assert_eq!(get_parent_project("a//b"), "a");
    // A `.` step names no directory of its own.
    assert_eq!(get_parent_project("a/./b"), "a");
    assert_eq!(get_parent_project("./b"), "Unknown");
    // The directory a `..` step lands in has no name the path shows.
    assert_eq!(get_parent_project("a/../b"), "Unknown");
    assert_eq!(get_parent_project("a/b/.."), "b");
    assert_eq!(get_parent_project("a/.."), "a");
}

#[test]
fn parent_project_falls_back_to_the_sentinel() {
    assert_eq!(get_parent_project("node_modules"), "Unknown");
    assert_eq!(get_parent_project("node_modules/"), "Unknown");
    assert_eq!(get_parent_project("/node_modules"), "Unknown");
    assert_eq!(get_parent_project(""), "Unknown");
    assert_eq!(get_parent_project("/"), "Unknown");
}
