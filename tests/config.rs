use bifrost::args::{ArgMatches, MatchedArg};
use bifrost::config::{value_of, values_of, BifrostManifest, CommandConfig, Config, WorkSpaceConfig};
use bifrost::dir::path_builder;
use bifrost::dotconfig;
use bifrost::error::BifrostError;
use bifrost::init::{create_toml_with, default_toml};

fn strings(items: &[&str]) -> Vec<String> {
    items.iter().map(|s| s.to_string()).collect()
}

fn args(pairs: &[(&str, &[&str])]) -> ArgMatches {
    ArgMatches {
        args: pairs
            .iter()
            .map(|(n, v)| MatchedArg { name: n.to_string(), vals: strings(v) })
            .collect(),
    }
}

/// The settings file the realm tests start from.
const TEST_CONFIG: &str = "AUTO=false\nIGNORE_ON_SHOW=false\nIGNORE_ON_LOAD=false\nMODIFIED=false\n";

#[test]
fn test_default_config() {
    // A configuration for an ordinary working directory can be made.
    let c = Config::new(String::from("/home/user"), String::from("/home/user/project"));
    assert!(c.is_ok());
}

#[test]
fn config_in_home_refuses_the_root() {
    assert!(Config::in_home(String::from("/")).is_err());
    assert!(Config::in_home(String::from("/a/..")).is_err());
}

#[test]
fn config_refuses_root_directories() {
    for cwd in ["/home/u", "/", "/home/u/.bifrost", "/home/u/.bifrost/container", "/home/u/.."] {
        assert_eq!(
            Config::new(String::from("/home/u"), String::from(cwd)).unwrap_err(),
            BifrostError::InvalidName,
            "{}",
            cwd
        );
    }
}

#[test]
fn test_default_manifest() {
    let m = BifrostManifest::default();
    let ws = m.get_workspace_config().unwrap();
    assert_eq!(ws.name(), Some("name of current workspace"));
    assert_eq!(ws.ignore(), Some(&strings(&["target", ".git", ".gitignore"])));
    assert_eq!(m.container.as_ref().unwrap().name, Some(String::from("docker")));
    assert_eq!(m.get_command_config().unwrap().get_cmds(), Some(&strings(&["default-arg"])));
}

#[test]
fn manifest_without_arguments_is_the_default() {
    let m = BifrostManifest::new(&ArgMatches::new());
    assert_eq!(m.get_workspace_config().unwrap().name(), Some("name of current workspace"));
}

#[test]
fn combine_replaces_what_the_command_line_gives() {
    let a = args(&[
        ("container", &["podman"]),
        ("workspace", &["realm"]),
        ("commands", &["make"]),
    ]);
    let m = BifrostManifest::default().combine_with(&a);
    assert_eq!(m.container.as_ref().unwrap().name, Some(String::from("podman")));
    let ws = m.get_workspace_config().unwrap();
    assert_eq!(ws.name(), Some("realm"));
    assert_eq!(ws.ignore(), Some(&strings(&["target", ".git", ".gitignore"])));
    assert_eq!(m.get_command_config().unwrap().get_cmds(), Some(&strings(&["make", "default-arg"])));
}

#[test]
fn combine_with_only_an_ignore_list_names_the_workspace() {
    let a = args(&[("ignore", &["build", "dist"])]);
    let m = BifrostManifest::default().combine_with(&a);
    let ws = m.get_workspace_config().unwrap();
    assert_eq!(ws.name(), Some("name of workspace"));
    assert_eq!(ws.ignore(), Some(&strings(&["build", "dist"])));
}

#[test]
fn command_config_combines_and_clones() {
    let c = CommandConfig { cmds: None }.combine_with(&args(&[("commands", &["ls"])]));
    assert_eq!(c.get_cmds(), Some(&strings(&["ls"])));
    let d = CommandConfig::default();
    assert_eq!(d.get_cmds(), Some(&strings(&["ls"])));
    assert_eq!(d.clone().get_cmds(), d.get_cmds());
    let unchanged = CommandConfig { cmds: Some(strings(&["a"])) }.combine_with(&ArgMatches::new());
    assert_eq!(unchanged.get_cmds(), Some(&strings(&["a"])));
}

#[test]
fn config_manifest_layers_the_sources() {
    let c = Config::new(String::from("/h"), String::from("/h/p")).unwrap();
    assert!(c.manifest().is_none());
    let c = c.config_manifest(&ArgMatches::new(), None);
    assert_eq!(
        c.manifest().unwrap().get_workspace_config().unwrap().name(),
        Some("name of current workspace")
    );
    let c = c.config_manifest(&args(&[("workspace", &["w"])]), None);
    assert_eq!(c.manifest().unwrap().get_workspace_config().unwrap().name(), Some("w"));
    assert_eq!(c.init_manifest(&ArgMatches::new()).unwrap_err(), BifrostError::OutOfOrder);

    let file = BifrostManifest {
        workspace: Some(WorkSpaceConfig::new("from file", vec![])),
        container: None,
        command: None,
    };
    let c = Config::new(String::from("/h"), String::from("/h/p")).unwrap();
    let mut c = c.config_manifest(&ArgMatches::new(), Some(file));
    assert_eq!(c.manifest().unwrap().get_workspace_config().unwrap().name(), Some("from file"));
    assert_eq!(c.home_path(), "/h");
    assert_eq!(c.cwd(), "/h/p");
    assert!(c.manifest_mut().is_some());
    assert!(c.take_command_config().is_none());
}

#[test]
fn value_lookups_follow_the_arguments() {
    let a = args(&[("contents", &["a", "b"]), ("auto", &[])]);
    assert_eq!(value_of("contents", &a), Some(String::from("a")));
    assert_eq!(values_of("contents", &a), Some(strings(&["a", "b"])));
    assert_eq!(value_of("auto", &a), None);
    assert_eq!(values_of("auto", &a), Some(vec![]));
    assert_eq!(value_of("missing", &a), None);
    assert_eq!(values_of("missing", &a), None);
    assert!(a.is_present("auto"));
    assert!(!a.is_empty());
}

#[test]
fn test_init_config() {
    let path = path_builder(Some(String::from("tests/test_user")), "test_app_dir/.test_config");
    assert_eq!(path, Some(String::from("tests/test_user/test_app_dir/.test_config")));
    // The .test_config file begins with each variable set to false;
    // ensure `Config` is initialized accordingly.
    let c = dotconfig::Config::init(path, Some(String::from(TEST_CONFIG)));
    assert!(!c.auto && !c.ignore_on_show && !c.ignore_on_load && !c.modified);
}

#[test]
fn test_config_parse() {
    let settings = dotconfig::Config::parse(TEST_CONFIG);
    let test_map = vec![
        ("AUTO", false),
        ("IGNORE_ON_SHOW", false),
        ("IGNORE_ON_LOAD", false),
        ("MODIFIED", false),
    ];
    for (k, v) in test_map {
        let found = settings.iter().find(|(key, _)| key == k).unwrap();
        assert_eq!(v, found.1);
    }
}

#[test]
fn settings_take_the_last_line_of_each_key() {
    let text = "AUTO=true\nIGNORE_ON_SHOW=true\nMODIFIED=yes\nAUTO=false\nIGNORE_ON_LOAD=true=x\nbroken\n";
    let c = dotconfig::Config::init(None, Some(String::from(text)));
    assert!(!c.auto);
    assert!(c.ignore_on_show);
    assert!(c.ignore_on_load);
    assert!(!c.modified);
    assert!(c.path.is_none());
    let none = dotconfig::Config::init(None, None);
    assert!(!none.auto && !none.ignore_on_show && !none.ignore_on_load && !none.modified);
}

#[test]
fn split_terminator_drops_only_a_final_empty_piece() {
    assert_eq!(dotconfig::split_terminator("a\nb\n", '\n'), strings(&["a", "b"]));
    assert_eq!(dotconfig::split_terminator("a\n\nb", '\n'), strings(&["a", "", "b"]));
    assert_eq!(dotconfig::split_terminator("", '\n'), Vec::<String>::new());
    assert_eq!(dotconfig::split_terminator("k=", '='), strings(&["k"]));
}

#[test]
fn path_builder_needs_a_prefix() {
    assert_eq!(path_builder(None, "x"), None);
    assert_eq!(path_builder(Some(String::from("/a/")), "b"), Some(String::from("/a/b")));
    assert_eq!(path_builder(Some(String::from("/a")), "/abs"), Some(String::from("/abs")));
}

#[test]
fn new_realm_manifest_names_the_workspace() {
    let t = create_toml_with("proj");
    assert!(t.starts_with("[project]\nname = \"project name\"\n"));
    assert!(t.contains("[workspace]\nname = \"proj\"\nignore = [\"target\", \".git\", \".gitignore\"]\n"));
    assert!(t.ends_with("[command]\ncmd = [\"command string(s)\"]\n"));
    assert!(default_toml().contains("name = \"name of workspace\""));
}
