use node_modules_cleaner::scan::{get_folder_size, scan_for_node_modules, NodeModulesFolder};
use node_modules_cleaner::tree::{calculate_dir_size, FsTree};

fn file(name: &str, size: u64) -> FsTree {
    FsTree::File { name: name.to_string(), size }
}

fn dir(name: &str, entries: Vec<FsTree>) -> FsTree {
    FsTree::Dir { name: name.to_string(), entries }
}

fn find<'a>(folders: &'a [NodeModulesFolder], path: &str) -> &'a NodeModulesFolder {
    folders
        .iter()
        .find(|f| f.path == path)
        .unwrap_or_else(|| panic!("no folder with path {path}"))
}

#[test]
fn size_of_empty_directory_is_zero() {
    let t = dir("empty", vec![]);
    assert_eq!(get_folder_size(Some(&t)), Ok(0));
}

#[test]
fn size_of_flat_directory_sums_file_lengths() {
    let t = dir("d", vec![file("a", 10), file("b", 20), file("c", 30)]);
    assert_eq!(get_folder_size(Some(&t)), Ok(60));
}

#[test]
fn size_of_missing_path_is_an_error() {
    assert_eq!(get_folder_size(None), Err("Path does not exist".to_string()));
}

#[test]
fn size_of_single_file_is_its_length() {
    let t = file("lone.txt", 42);
    assert_eq!(get_folder_size(Some(&t)), Ok(42));
}

#[test]
fn size_includes_nested_and_hidden_entries() {
    let t = dir(
        "top",
        vec![
            file("a", 1),
            dir(".hidden", vec![file("h", 100)]),
            dir("sub", vec![file("b", 2), dir("deeper", vec![file("c", 4)])]),
            FsTree::Other { name: "link".to_string() },
        ],
    );
    assert_eq!(calculate_dir_size(&t), 107);
}

#[test]
fn size_accumulator_wraps_instead_of_panicking() {
    let t = dir("big", vec![file("a", u64::MAX), file("b", 3)]);
    assert_eq!(calculate_dir_size(&t), 2);
}

#[test]
fn scan_of_missing_root_is_an_error() {
    let r = scan_for_node_modules(None, "/nope".to_string());
    assert_eq!(r.unwrap_err(), "Path does not exist");
}

#[test]
fn scan_of_a_file_root_is_an_error() {
    let t = file("data.bin", 9);
    let r = scan_for_node_modules(Some(&t), "/data.bin".to_string());
    assert_eq!(r.unwrap_err(), "Path is not a directory");
}

#[test]
fn scan_reports_each_project_with_size_and_parent() {
    let t = dir(
        "proj",
        vec![
            dir("a", vec![dir("node_modules", vec![file("x.txt", 5), file("y.txt", 7)])]),
            dir("b", vec![dir("node_modules", vec![file("z.txt", 3)])]),
        ],
    );
    let r = scan_for_node_modules(Some(&t), "/proj".to_string()).unwrap();
    assert_eq!(r.scan_path, "/proj");
    assert_eq!(r.folders.len(), 2);
    assert_eq!(r.total_size, 15);
    let a = find(&r.folders, "/proj/a/node_modules");
    assert_eq!(a.size, 12);
    assert_eq!(a.parent_project, "a");
    let b = find(&r.folders, "/proj/b/node_modules");
    assert_eq!(b.size, 3);
    assert_eq!(b.parent_project, "b");
}

#[test]
fn total_size_is_the_sum_of_folder_sizes() {
    let t = dir(
        "root",
        vec![
            dir("one", vec![dir("node_modules", vec![file("a", 11)])]),
            dir("two", vec![dir("node_modules", vec![file("b", 22)])]),
            dir("three", vec![dir("node_modules", vec![])]),
        ],
    );
    let r = scan_for_node_modules(Some(&t), "/root".to_string()).unwrap();
    let sum: u64 = r.folders.iter().map(|f| f.size).sum();
    assert_eq!(r.total_size, sum);
    assert_eq!(r.total_size, 33);
}

#[test]
fn nested_marker_directories_are_reported_once() {
    let inner = dir("node_modules", vec![file("deep", 8)]);
    let outer = dir("node_modules", vec![file("top", 2), dir("pkg", vec![inner])]);
    let t = dir("proj", vec![dir("app", vec![outer])]);
    let r = scan_for_node_modules(Some(&t), "/proj".to_string()).unwrap();
    assert_eq!(r.folders.len(), 1);
    let m = &r.folders[0];
    assert_eq!(m.path, "/proj/app/node_modules");
    // Sizing is a full sub-walk: the nested occurrence's bytes still count.
    assert_eq!(m.size, 10);
    assert_eq!(m.parent_project, "app");
}

#[test]
fn sibling_markers_are_reported_separately() {
    let t = dir(
        "ws",
        vec![
            dir("p1", vec![dir("node_modules", vec![])]),
            dir("p2", vec![dir("node_modules", vec![])]),
        ],
    );
    let r = scan_for_node_modules(Some(&t), "/ws".to_string()).unwrap();
    assert_eq!(r.folders.len(), 2);
}

#[test]
fn hidden_directories_hide_matches_beneath_them() {
    let t = dir(
        "proj",
        vec![
            dir(".cache", vec![dir("node_modules", vec![file("big", 999)])]),
            dir("src", vec![dir("node_modules", vec![file("a", 1)])]),
        ],
    );
    let r = scan_for_node_modules(Some(&t), "/proj".to_string()).unwrap();
    assert_eq!(r.folders.len(), 1);
    assert_eq!(r.folders[0].path, "/proj/src/node_modules");
    assert_eq!(r.total_size, 1);
}

#[test]
fn a_hidden_root_is_still_scanned() {
    let t = dir(".proj", vec![dir("node_modules", vec![file("a", 6)])]);
    let r = scan_for_node_modules(Some(&t), "/home/.proj".to_string()).unwrap();
    assert_eq!(r.folders.len(), 1);
    assert_eq!(r.folders[0].path, "/home/.proj/node_modules");
    assert_eq!(r.folders[0].parent_project, ".proj");
    assert_eq!(r.total_size, 6);
}

#[test]
fn hidden_files_inside_a_match_still_count_toward_its_size() {
    let t = dir("proj", vec![dir("node_modules", vec![file(".bin", 5), file("a", 2)])]);
    let r = scan_for_node_modules(Some(&t), "/proj".to_string()).unwrap();
    assert_eq!(r.folders.len(), 1);
    assert_eq!(r.folders[0].size, 7);
}

#[test]
fn a_marker_root_is_itself_the_single_match() {
    let t = dir("node_modules", vec![file("a", 4)]);
    let r = scan_for_node_modules(Some(&t), "/x/node_modules".to_string()).unwrap();
    assert_eq!(r.folders.len(), 1);
    assert_eq!(r.folders[0].path, "/x/node_modules");
    assert_eq!(r.folders[0].parent_project, "x");
    assert_eq!(r.folders[0].size, 4);
    assert_eq!(r.total_size, 4);
}

#[test]
fn a_marker_root_with_a_trailing_separator_is_still_matched() {
    let t = dir("node_modules", vec![file("a", 4)]);
    let r = scan_for_node_modules(Some(&t), "/x/node_modules/".to_string()).unwrap();
    assert_eq!(r.folders.len(), 1);
    assert_eq!(r.folders[0].path, "/x/node_modules/");
    assert_eq!(r.folders[0].parent_project, "x");
    assert_eq!(r.total_size, 4);
}

#[test]
fn a_root_inside_a_marker_directory_yields_nothing() {
    let t = dir("sub", vec![dir("node_modules", vec![file("a", 4)])]);
    let r = scan_for_node_modules(Some(&t), "/x/node_modules/sub".to_string()).unwrap();
    assert_eq!(r.folders.len(), 0);
    assert_eq!(r.total_size, 0);
}

#[test]
fn a_file_named_like_the_marker_is_not_a_match() {
    let t = dir("proj", vec![file("node_modules", 10)]);
    let r = scan_for_node_modules(Some(&t), "/proj".to_string()).unwrap();
    assert_eq!(r.folders.len(), 0);
    assert_eq!(r.total_size, 0);
}

#[test]
fn an_empty_scan_reports_no_folders() {
    let t = dir("proj", vec![dir("src", vec![file("main.rs", 100)])]);
    let r = scan_for_node_modules(Some(&t), "/proj".to_string()).unwrap();
    assert_eq!(r.folders.len(), 0);
    assert_eq!(r.total_size, 0);
}
