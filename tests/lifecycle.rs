use bifrost::args::{ArgMatches, MatchedArg};
use bifrost::config::{BifrostManifest, CommandConfig, Config};
use bifrost::error::BifrostError;
use bifrost::lifecycle::{RunOutcome, Stage};
use bifrost::working_dir::{Entry, EntryKind};
use bifrost::workspace::WorkSpace;

fn entry(names: &[&str], kind: EntryKind, size: u64) -> Entry {
    Entry {
        names: names.iter().map(|n| n.to_string()).collect(),
        kind,
        size,
    }
}

fn strings(items: &[&str]) -> Vec<String> {
    items.iter().map(|s| s.to_string()).collect()
}

fn args(pairs: &[(&str, &[&str])]) -> ArgMatches {
    ArgMatches {
        args: pairs
            .iter()
            .map(|(n, v)| MatchedArg { name: n.to_string(), vals: strings(v) })
            .collect(),
    }
}

fn config() -> Config {
    Config::new(String::from("/home/u"), String::from("/home/u/proj")).unwrap()
}

const TARGET: &str = "/home/u/.bifrost/container/bifrost/proj";

fn src_tree_listing() -> Vec<Entry> {
    vec![
        entry(&["src"], EntryKind::Dir, 4096),
        entry(&["src", "a.txt"], EntryKind::File, 3),
        entry(&["src", "sub"], EntryKind::Dir, 4096),
        entry(&["src", "sub", "b.txt"], EntryKind::File, 5),
    ]
}

#[test]
fn load_of_a_fresh_tree_copies_every_byte() {
    let a = args(&[("contents", &["src/"])]);
    let mut space = WorkSpace::to_load_space(config(), &a, &strings(&["src", "README.md"])).unwrap();
    assert_eq!(space.proposed_target(), Some(String::from(TARGET)));
    space.prep(false).unwrap();
    assert_eq!(space.target().unwrap().path(), TARGET);
    space.build(&vec![src_tree_listing()]).unwrap();
    assert_eq!(space.current_stage(), Stage::Built);
    let plans = space.plan();
    assert_eq!(plans.len(), 1);
    assert_eq!(
        plans[0].dirs,
        vec![format!("{}/src", TARGET), format!("{}/src/sub", TARGET)]
    );
    let copied: Vec<Vec<u64>> = vec![vec![3, 5]];
    let info = space.exec(&copied).unwrap();
    assert_eq!(info.bytes, Some(8));
    assert_eq!(info.name, "proj");
    assert_eq!(space.current_stage(), Stage::Executed);
}

#[test]
fn load_with_a_short_copy_is_incomplete() {
    let a = args(&[("contents", &["src"])]);
    let mut space = WorkSpace::to_load_space(config(), &a, &strings(&["src"])).unwrap();
    space.prep(false).unwrap();
    space.build(&vec![src_tree_listing()]).unwrap();
    assert_eq!(space.load(&vec![vec![3, 4]]).unwrap_err(), BifrostError::IncompleteLoad);
    // Nothing was executed: the right count still succeeds.
    assert_eq!(space.load(&vec![vec![3, 5]]).unwrap().bytes, Some(8));
}

#[test]
fn second_load_of_a_realm_is_refused() {
    let a = args(&[("contents", &["src"])]);
    let mut first = WorkSpace::to_load_space(config(), &a, &strings(&["src"])).unwrap();
    first.prep(false).unwrap();
    first.build(&vec![src_tree_listing()]).unwrap();
    first.exec(&vec![vec![3, 5]]).unwrap();
    let mut second = WorkSpace::to_load_space(config(), &a, &strings(&["src"])).unwrap();
    assert_eq!(second.prep(true).unwrap_err(), BifrostError::AlreadyExists);
    assert!(second.target().is_none());
    // Still unprepared: nothing can be built, planned or written.
    assert_eq!(second.current_stage(), Stage::Unprepared);
}

#[test]
fn load_prepared_twice_fails() {
    let mut space = WorkSpace::to_load_space(config(), &ArgMatches::new(), &vec![]).unwrap();
    space.prep(false).unwrap();
    assert_eq!(space.prep(false).unwrap_err(), BifrostError::OutOfOrder);
}

#[test]
fn load_without_contents_walks_the_working_directory() {
    let space = WorkSpace::to_load_space(config(), &ArgMatches::new(), &vec![]).unwrap();
    let roots: Vec<String> = space
        .workspace()
        .contents()
        .unwrap()
        .iter()
        .map(|w| w.root().clone())
        .collect();
    assert_eq!(roots, vec![String::from("/home/u/proj")]);
}

#[test]
fn load_of_unknown_contents_has_nothing_to_load() {
    let a = args(&[("contents", &["missing", "container"])]);
    let r = WorkSpace::to_load_space(config(), &a, &strings(&["src", "container"]));
    assert_eq!(r.unwrap_err(), BifrostError::NoContent);
}

#[test]
fn load_of_a_blacklisted_name_is_refused() {
    let cfg = Config::new(String::from("/home/u"), String::from("/home/u/tmp")).unwrap();
    let mut space = WorkSpace::to_load_space(cfg, &ArgMatches::new(), &vec![]).unwrap();
    assert_eq!(space.prep(false).unwrap_err(), BifrostError::InvalidName);
}

#[test]
fn load_build_reports_overflow() {
    let mut space = WorkSpace::to_load_space(config(), &ArgMatches::new(), &vec![]).unwrap();
    space.prep(false).unwrap();
    let listing = vec![
        entry(&["proj"], EntryKind::Dir, 0),
        entry(&["proj", "a"], EntryKind::File, u64::MAX),
        entry(&["proj", "b"], EntryKind::File, u64::MAX),
    ];
    assert_eq!(space.build(&vec![listing]).unwrap_err(), BifrostError::TooLarge);
}

#[test]
fn unload_of_a_realm_never_loaded_is_not_found() {
    let mut space = WorkSpace::to_unload_space(config(), &ArgMatches::new());
    assert_eq!(space.proposed_target(), Some(String::from(TARGET)));
    assert_eq!(space.prep(false).unwrap_err(), BifrostError::NotFound);
    assert!(space.target().is_none());
    assert!(!space.ready());
    assert_eq!(space.current_stage(), Stage::Unprepared);
}

#[test]
fn unload_of_a_loaded_realm() {
    let mut space = WorkSpace::to_unload_space(config(), &ArgMatches::new());
    space.prep(true).unwrap();
    assert_eq!(space.target().unwrap().path(), TARGET);
    space.build();
    assert!(space.ready());
    assert_eq!(space.unload(false).unwrap_err(), BifrostError::IoFailure);
    let info = space.exec(true).unwrap();
    assert_eq!(info.name, "proj");
    assert!(info.bytes.is_none() && info.text.is_none());
    assert_eq!(space.current_stage(), Stage::Executed);
}

#[test]
fn show_lists_with_the_chosen_flags() {
    let mut space = WorkSpace::to_show_space(config(), &args(&[("all", &[])]));
    assert_eq!(space.listing_flags(), "-laR");
    space.prep(true).unwrap();
    space.build();
    assert_eq!(space.show(None).unwrap_err(), BifrostError::IoFailure);
    let info = space.exec(Some(b"file.txt\n".to_vec())).unwrap();
    assert_eq!(info.text, Some(b"file.txt\n".to_vec()));
    assert_eq!(info.name, "proj");

    let plain = WorkSpace::to_show_space(config(), &ArgMatches::new());
    assert_eq!(plain.listing_flags(), "-lr");
    let mut missing = WorkSpace::to_show_space(config(), &ArgMatches::new());
    assert_eq!(missing.prep(false).unwrap_err(), BifrostError::NotFound);
}

#[test]
fn run_feeds_the_commands_to_the_engine() {
    let mut manifest = BifrostManifest::default();
    manifest.workspace = None;
    manifest.command = Some(CommandConfig { cmds: Some(strings(&["cargo build", "cargo test"])) });
    let cfg = config().config_manifest(&ArgMatches::new(), Some(manifest));
    let mut space = WorkSpace::to_run_space(cfg, &ArgMatches::new());
    assert_eq!(space.current_stage(), Stage::Unprepared);
    space.prep(true).unwrap();
    space.build();
    let req = space.request().unwrap();
    assert_eq!(
        req.argv,
        strings(&[
            "docker",
            "run",
            "--rm",
            "-i",
            "--volume",
            "/home/u/.bifrost/container:/bifrost",
            "bifrost:0.1"
        ])
    );
    assert_eq!(
        req.input,
        "bash -c \"cd /bifrost/bifrost; cd proj; cargo build && cargo test; \""
    );
    assert_eq!(space.run(None).unwrap_err(), BifrostError::ProcessFailure);
    let failed = RunOutcome { stdout: None, stderr: Some(String::from("boom")), success: false };
    assert_eq!(space.run(Some(failed)).unwrap_err(), BifrostError::ProcessFailure);
    let ok = RunOutcome {
        stdout: Some(String::from("ok\n")),
        stderr: Some(String::from("warn\n")),
        success: true,
    };
    let info = space.exec(Some(ok)).unwrap();
    assert_eq!(info.text, Some(b"ok\nwarn\n".to_vec()));
    assert_eq!(info.name, "proj");
}

#[test]
fn run_without_commands_fails() {
    let mut manifest = BifrostManifest::default();
    manifest.command = None;
    let cfg = config().config_manifest(&ArgMatches::new(), Some(manifest));
    let mut space = WorkSpace::to_run_space(cfg, &ArgMatches::new());
    space.prep(true).unwrap();
    space.build();
    assert_eq!(space.request().unwrap_err(), BifrostError::ProcessFailure);
    let ok = RunOutcome { stdout: Some(String::from("x")), stderr: None, success: true };
    assert_eq!(space.run(Some(ok)).unwrap_err(), BifrostError::ProcessFailure);
}
