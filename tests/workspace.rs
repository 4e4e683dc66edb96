use bifrost::args::{ArgMatches, MatchedArg};
use bifrost::config::{BifrostManifest, Config, WorkSpaceConfig};
use bifrost::operation_info::OperationInfo;
use bifrost::options::BifrostOptions;
use bifrost::process_builder::{ImageBuilder, ProcessBuilder};
use bifrost::text::file_name;
use bifrost::workspace::{is_loadable, strip, strip_trailing_slash, to_abs_paths, Mode, WorkSpaceBuilder};

fn strings(items: &[&str]) -> Vec<String> {
    items.iter().map(|s| s.to_string()).collect()
}

fn args(pairs: &[(&str, &[&str])]) -> ArgMatches {
    ArgMatches {
        args: pairs
            .iter()
            .map(|(n, v)| MatchedArg { name: n.to_string(), vals: strings(v) })
            .collect(),
    }
}

#[test]
fn test_strip_trailing_slash() {
    let n0 = "";
    assert_eq!(n0, strip_trailing_slash(n0));

    let n1 = "/";
    assert_eq!(n1, strip_trailing_slash(n1));

    let n2 = "src/";
    assert_eq!("src", strip_trailing_slash(n2));

    let n3 = r#"src\"#;
    assert_eq!("src", strip_trailing_slash(n3));
}

#[test]
fn test_strip() {
    let left: Vec<String> = vec![
        String::from(""),
        String::from("/"),
        String::from("src/"),
        String::from(r#"src\"#),
    ];

    let right = strip(&left);
    assert_eq!(left.len(), right.len());
    assert_eq!(right, strings(&["", "/", "src", "src"]));
}

#[test]
fn test_to_abs_paths() {
    let names: Vec<String> = vec![
        String::from("file.txt"),
        String::from("file.cpp"),
        String::from("test_dir_nested"),
        String::from("test_ignore_file.txt"),
        String::from("file.c"),
        String::from("file.rs"),
        // Not valid
        String::from("random"),
        // Not valid
        String::from("not in dir"),
    ];
    let entries = strings(&[
        "file.txt",
        "file.cpp",
        "test_dir_nested",
        "test_ignore_file.txt",
        "file.c",
        "file.rs",
    ]);

    const LEFT: usize = 6;
    let abs_paths = to_abs_paths("tests/test_dir", names, &entries);
    assert_eq!(LEFT, abs_paths.len());
    assert_eq!(abs_paths[0], "tests/test_dir/file.txt");

    let abs_paths = to_abs_paths("tests/test_dir", vec![], &entries);
    assert!(abs_paths.is_empty());
}

#[test]
fn loadable_names_exist_and_avoid_the_container() {
    let c = Config::new(String::from("/home/u"), String::from("/home/u/p")).unwrap();
    let entries = strings(&["src", "container_stuff", ".bifrost", "/home/u"]);
    assert!(is_loadable(&c, "src", &entries));
    assert!(!is_loadable(&c, "lib", &entries));
    assert!(!is_loadable(&c, "container_stuff", &entries));
    assert!(!is_loadable(&c, ".bifrost", &entries));
    assert!(!is_loadable(&c, "/home/u", &entries));
    let paths = WorkSpaceBuilder::args_to_paths(&c, strings(&["src/", "lib"]), &entries);
    assert_eq!(paths, strings(&["/home/u/p/src"]));
}

#[test]
fn builder_reads_mode_and_options() {
    assert_eq!(WorkSpaceBuilder::get_mode(&args(&[("auto", &[])])), Mode::Auto);
    assert_eq!(WorkSpaceBuilder::get_mode(&args(&[("modified", &[])])), Mode::Modified);
    assert_eq!(WorkSpaceBuilder::get_mode(&ArgMatches::new()), Mode::Normal);
    assert_eq!(WorkSpaceBuilder::get_opts(&ArgMatches::new()), None);
    let all = WorkSpaceBuilder::get_opts(&args(&[("all", &[]), ("diff", &[])])).unwrap();
    assert!(all.verbose && !all.diff);
    let diff = WorkSpaceBuilder::get_opts(&args(&[("diff", &[])])).unwrap();
    assert!(diff.diff && !diff.verbose);
    assert_eq!(WorkSpaceBuilder::get_opts(&args(&[("x", &[])])), None);
    assert_eq!(BifrostOptions::default(), BifrostOptions { verbose: false, diff: false, max_depth: 0 });
}

#[test]
fn builder_names_the_realm() {
    let c = Config::new(String::from("/home/u"), String::from("/home/u/proj/")).unwrap();
    assert_eq!(WorkSpaceBuilder::get_name(&c), "proj");
    assert!(WorkSpaceBuilder::get_ignore_list(&c).is_empty());
    let named = BifrostManifest {
        workspace: Some(WorkSpaceConfig::new("realm", strings(&["target"]))),
        container: None,
        command: None,
    };
    let c = c.config_manifest(&ArgMatches::new(), Some(named));
    assert_eq!(WorkSpaceBuilder::get_name(&c), "realm");
    assert_eq!(WorkSpaceBuilder::get_ignore_list(&c), strings(&["target"]));
    let placeholder = BifrostManifest {
        workspace: Some(WorkSpaceConfig::new("workspace name", vec![])),
        container: None,
        command: None,
    };
    let c = Config::new(String::from("/home/u"), String::from("/home/u/proj"))
        .unwrap()
        .config_manifest(&ArgMatches::new(), Some(placeholder));
    assert_eq!(WorkSpaceBuilder::get_name(&c), "proj");
    let mut c = c;
    assert!(WorkSpaceBuilder::take_command_config(&mut c).is_none());
}

#[test]
fn file_names_are_last_components() {
    assert_eq!(file_name("/home/u/proj"), Some(String::from("proj")));
    assert_eq!(file_name("proj//"), Some(String::from("proj")));
    assert_eq!(file_name("/"), None);
    assert_eq!(file_name(""), None);
    assert_eq!(file_name("/a/.."), None);
}

#[test]
fn process_builder_records_its_parts() {
    let mut p = ProcessBuilder { program: String::new(), args: vec![], cwd: None };
    p.program("ls").arg("-l").arg("-a").cwd("/tmp");
    assert_eq!(p.get_program(), "ls");
    assert_eq!(p.get_args(), &strings(&["-l", "-a"])[..]);
    assert_eq!(p.get_cwd(), Some(&String::from("/tmp")));
    let image = ImageBuilder {
        name: String::from("docker"),
        tag: String::from("bifrost:0.1"),
        path: String::from("/h/.bifrost/container/bifrost"),
    };
    let b = image.process();
    assert_eq!(b.program, "docker");
    assert_eq!(b.args, strings(&["build", "-t", "bifrost:0.1", "/h/.bifrost/container/bifrost"]));
    assert!(b.cwd.is_none());
}

#[test]
fn operation_info_starts_empty() {
    let i = OperationInfo::new();
    assert!(i.name.is_empty() && i.bytes.is_none() && i.text.is_none());
    let d = OperationInfo::default();
    assert!(d.name.is_empty());
}
