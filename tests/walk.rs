use bifrost::error::BifrostError;
use bifrost::materializer::copied_bytes;
use bifrost::path_guard::BifrostPath;
use bifrost::text::parent_of;
use bifrost::working_dir::{ignorable, Entry, EntryKind, WorkingDir};
use std::collections::HashSet;

fn entry(names: &[&str], kind: EntryKind, size: u64) -> Entry {
    Entry {
        names: names.iter().map(|n| n.to_string()).collect(),
        kind,
        size,
    }
}

fn dir(names: &[&str]) -> Entry {
    entry(names, EntryKind::Dir, 4096)
}

fn file(names: &[&str], size: u64) -> Entry {
    entry(names, EntryKind::File, size)
}

/// The tree under `./tests/test_dir`, in the order a walk lists it.
fn test_dir_listing() -> Vec<Entry> {
    vec![
        dir(&["test_dir"]),
        file(&["test_dir", "file.txt"], 10),
        file(&["test_dir", "file.cpp"], 20),
        dir(&["test_dir", "test_dir_nested"]),
        file(&["test_dir", "test_dir_nested", "test_nested_ignore.md"], 30),
        file(&["test_dir", "test_dir_nested", "nested_file.txt"], 40),
        dir(&["test_dir", "test_ignore_dir"]),
        file(&["test_dir", "test_ignore_dir", "ignored.txt"], 50),
        file(&["test_dir", "test_ignore_file.txt"], 60),
        file(&["test_dir", "file.c"], 70),
        file(&["test_dir", "file.rs"], 80),
    ]
}

fn walked_paths(wd: &WorkingDir) -> Vec<String> {
    wd.file_paths()
}

fn check_walk_all(expected: &[&str]) {
    let test_set: HashSet<&str> = expected.iter().cloned().collect();
    if let Ok(wd) = WorkingDir::new("./tests/test_dir").walk(&test_dir_listing()) {
        for path in walked_paths(&wd).iter() {
            assert!(test_set.contains(path.as_str()), "{}", path);
        }
    } else {
        panic!("walk failed");
    }
}

fn check_walk_ignoring(expected: &[&str], list: &Vec<String>) {
    let test_set: HashSet<&str> = expected.iter().cloned().collect();
    if let Ok(wd) = WorkingDir::new("./tests/test_dir").ignore(list).walk(&test_dir_listing()) {
        for path in walked_paths(&wd).iter() {
            assert!(test_set.contains(path.as_str()), "{}", path);
        }
    } else {
        panic!("walk failed");
    }
}

const ALL_FILES: [&str; 8] = [
    "./tests/test_dir/file.txt",
    "./tests/test_dir/file.cpp",
    "./tests/test_dir/test_dir_nested/test_nested_ignore.md",
    "./tests/test_dir/test_dir_nested/nested_file.txt",
    "./tests/test_dir/test_ignore_file.txt",
    "./tests/test_dir/file.c",
    "./tests/test_dir/file.rs",
    "./tests/test_dir/test_ignore_dir/ignored.txt",
];

const KEPT_FILES: [&str; 5] = [
    "./tests/test_dir/file.txt",
    "./tests/test_dir/file.cpp",
    "./tests/test_dir/test_dir_nested/nested_file.txt",
    "./tests/test_dir/file.c",
    "./tests/test_dir/file.rs",
];

fn ignore_names() -> Vec<String> {
    vec![
        String::from("test_nested_ignore.md"),
        String::from("test_ignore_file.txt"),
        String::from("test_ignore_dir"),
    ]
}

#[test]
fn working_dir_test_walk_dirs() {
    check_walk_all(&ALL_FILES);
}

#[test]
fn working_dir_test_walk_dirs_with_ignores() {
    check_walk_ignoring(&KEPT_FILES, &ignore_names());
}

#[test]
fn workingdir_test_walk_dirs() {
    check_walk_all(&ALL_FILES);
}

#[test]
fn workingdir_test_walk_dirs_with_ignores() {
    check_walk_ignoring(&KEPT_FILES, &ignore_names());
}

#[test]
fn walk_with_ignores_keeps_exactly_the_rest() {
    let wd = WorkingDir::new("./tests/test_dir")
        .ignore(&ignore_names())
        .walk(&test_dir_listing())
        .unwrap();
    assert_eq!(walked_paths(&wd), KEPT_FILES.iter().map(|s| s.to_string()).collect::<Vec<_>>());
    assert_eq!(wd.size(), 10 + 20 + 40 + 70 + 80);
    let dirs: Vec<Vec<String>> = wd.dirs().iter().map(|d| d.names.clone()).collect();
    assert_eq!(
        dirs,
        vec![
            vec![String::from("test_dir")],
            vec![String::from("test_dir"), String::from("test_dir_nested")],
        ]
    );
}

#[test]
fn walk_without_ignores_counts_every_file() {
    let wd = WorkingDir::new("./tests/test_dir").walk(&test_dir_listing()).unwrap();
    assert_eq!(wd.files().len(), 8);
    assert_eq!(wd.size(), 360);
    assert_eq!(wd.dirs().len(), 3);
}

#[test]
fn pruning_is_by_prefix() {
    // An ignored `target` also prunes `targetdir`, and all beneath it.
    let listing = vec![
        dir(&["proj"]),
        dir(&["proj", "targetdir"]),
        file(&["proj", "targetdir", "file.txt"], 7),
        file(&["proj", "main.rs"], 3),
    ];
    let wd = WorkingDir::new("/home/u/proj")
        .ignore(&vec![String::from("target")])
        .walk(&listing)
        .unwrap();
    assert_eq!(walked_paths(&wd), vec![String::from("/home/u/proj/main.rs")]);
    assert_eq!(wd.dirs().len(), 1);
    assert_eq!(wd.dirs()[0].names, vec![String::from("proj")]);
    assert_eq!(wd.size(), 3);
}

#[test]
fn pruned_root_yields_nothing() {
    let listing = vec![dir(&[".git"]), file(&[".git", "HEAD"], 21)];
    let wd = WorkingDir::new(".git")
        .ignore(&vec![String::from(".git")])
        .walk(&listing)
        .unwrap();
    assert!(wd.dirs().is_empty());
    assert!(wd.files().is_empty());
    assert_eq!(wd.size(), 0);
}

#[test]
fn ignorable_matches_prefixes_only() {
    let list = vec![String::from("target"), String::from(".git")];
    assert!(ignorable("target", &list));
    assert!(ignorable("targetdir", &list));
    assert!(ignorable(".gitignore", &list));
    assert!(!ignorable("my_target", &list));
    assert!(!ignorable("src", &list));
    assert!(!ignorable("src", &vec![]));
}

#[test]
fn directories_come_out_shallowest_first() {
    let listing = vec![
        dir(&["r"]),
        dir(&["r", "a"]),
        dir(&["r", "a", "b"]),
        dir(&["r", "a", "b", "c"]),
        dir(&["r", "z"]),
        dir(&["r", "z", "y"]),
        file(&["r", "z", "y", "f"], 1),
    ];
    let wd = WorkingDir::new("r").walk(&listing).unwrap();
    let depths: Vec<usize> = wd.dirs().iter().map(|d| d.names.len()).collect();
    assert_eq!(depths, vec![1, 2, 2, 3, 3, 4]);
    let order: Vec<String> = wd.dirs().iter().map(|d| d.names.join("/")).collect();
    assert_eq!(order, vec!["r", "r/a", "r/z", "r/a/b", "r/z/y", "r/a/b/c"]);
}

#[test]
fn walking_twice_gives_the_same_result() {
    let listing = test_dir_listing();
    let first = WorkingDir::new("./tests/test_dir").ignore(&ignore_names()).walk(&listing).unwrap();
    let second = WorkingDir::new("./tests/test_dir").ignore(&ignore_names()).walk(&listing).unwrap();
    assert_eq!(walked_paths(&first), walked_paths(&second));
    let d1: Vec<Vec<String>> = first.dirs().iter().map(|d| d.names.clone()).collect();
    let d2: Vec<Vec<String>> = second.dirs().iter().map(|d| d.names.clone()).collect();
    assert_eq!(d1, d2);
    assert_eq!(first.size(), second.size());
}

#[test]
fn walk_fails_when_the_total_overflows() {
    let listing = vec![
        dir(&["r"]),
        file(&["r", "a"], u64::MAX),
        file(&["r", "b"], 1),
    ];
    assert_eq!(WorkingDir::new("r").walk(&listing).unwrap_err(), BifrostError::TooLarge);
    let fits = vec![dir(&["r"]), file(&["r", "a"], u64::MAX)];
    assert_eq!(WorkingDir::new("r").walk(&fits).unwrap().size(), u64::MAX);
}

#[test]
fn plan_orders_directories_parent_first() {
    let listing = vec![
        dir(&["src"]),
        file(&["src", "a.txt"], 3),
        dir(&["src", "sub"]),
        file(&["src", "sub", "b.txt"], 5),
    ];
    let wd = WorkingDir::new("/home/u/proj/src").walk(&listing).unwrap();
    let to = BifrostPath::new("/home/u", Some(&String::from("proj")), false).unwrap();
    let plan = wd.plan(&to);
    assert_eq!(
        plan.dirs,
        vec![
            String::from("/home/u/.bifrost/container/bifrost/proj/src"),
            String::from("/home/u/.bifrost/container/bifrost/proj/src/sub"),
        ]
    );
    assert_eq!(plan.files.len(), 2);
    assert_eq!(plan.files[0].from, "/home/u/proj/src/a.txt");
    assert_eq!(plan.files[0].to, "/home/u/.bifrost/container/bifrost/proj/src/a.txt");
    assert_eq!(plan.files[1].from, "/home/u/proj/src/sub/b.txt");
    assert_eq!(plan.files[1].to, "/home/u/.bifrost/container/bifrost/proj/src/sub/b.txt");
}

#[test]
fn plan_for_a_bare_file_creates_the_target() {
    let listing = vec![file(&["notes.md"], 12)];
    let wd = WorkingDir::new("/home/u/proj/notes.md").walk(&listing).unwrap();
    let to = BifrostPath::new("/home/u", Some(&String::from("proj")), false).unwrap();
    let plan = wd.plan(&to);
    assert_eq!(plan.dirs, vec![String::from("/home/u/.bifrost/container/bifrost/proj")]);
    assert_eq!(plan.files[0].from, "/home/u/proj/notes.md");
    assert_eq!(plan.files[0].to, "/home/u/.bifrost/container/bifrost/proj/notes.md");
}

#[test]
fn test_propose_target_suffix() {
    let listing = vec![dir(&["src"]), file(&["src", "main.rs"], 1)];
    let wd = WorkingDir::new("/Users/username/project/src").walk(&listing).unwrap();
    let to = BifrostPath::new("/Users/username", Some(&String::from("project")), false).unwrap();
    let target = bifrost::materializer::target_dir(&to, &wd.dirs()[0]);
    assert_eq!(target, "/Users/username/.bifrost/container/bifrost/project/src");
}

#[test]
fn load_checks_the_byte_count() {
    let listing = vec![dir(&["src"]), file(&["src", "a.txt"], 3), file(&["src", "b.txt"], 5)];
    let mut wd = WorkingDir::new("/p/src").walk(&listing).unwrap();
    let info = wd.load(&vec![3, 5]).unwrap();
    assert_eq!(info.bytes, Some(8));
    assert_eq!(info.name, "default");
    assert!(wd.dirs().is_empty());
    let mut wd = WorkingDir::new("/p/src").walk(&listing).unwrap();
    assert_eq!(wd.load(&vec![3, 4]).unwrap_err(), BifrostError::IncompleteLoad);
    let mut wd = WorkingDir::new("/p/src").walk(&listing).unwrap();
    assert_eq!(wd.load(&vec![u64::MAX, 9]).unwrap_err(), BifrostError::IncompleteLoad);
}

#[test]
fn copied_bytes_sums_or_overflows() {
    assert_eq!(copied_bytes(&vec![]), Some(0));
    assert_eq!(copied_bytes(&vec![1, 2, 3]), Some(6));
    assert_eq!(copied_bytes(&vec![u64::MAX, 1]), None);
}

#[test]
fn working_dir_knows_its_parent() {
    let wd = WorkingDir::new("./tests/test_dir");
    assert_eq!(wd.root(), "./tests/test_dir");
    assert_eq!(wd.parent(), Some(&String::from("./tests")));
    assert!(wd.dirs().is_empty() && wd.files().is_empty() && wd.ignore_list().is_empty());
    assert_eq!(WorkingDir::new("/").parent(), None);
}

#[test]
fn parents_of_paths() {
    use_parent("/home/u/proj", Some("/home/u"));
    use_parent("a/b/", Some("a"));
    use_parent("a", Some(""));
    use_parent("/a", Some("/"));
    use_parent("//a", Some("/"));
    use_parent("/", None);
    use_parent("", None);
}

fn use_parent(path: &str, expected: Option<&str>) {
    assert_eq!(parent_of(path), expected.map(String::from), "{}", path);
}
