//! Turning a configuration and the command line into the workspace that an
//! operation acts on.
use vstd::prelude::*;
use crate::args::ArgMatches;
use crate::config::{BifrostManifest, CommandConfig, Config};
use crate::error::{BifrostError, BifrostResult};
use crate::lifecycle::{LoadSpace, RunSpace, ShowSpace, UnloadSpace};
use crate::options::BifrostOptions;
use crate::text::{
    contains_spec,
    contains_text,
    file_name,
    file_name_spec,
    join,
    join_spec,
    parent_spec,
    same_text,
};
use crate::working_dir::{WorkingDir, copy_names, views_of};

verus! {

/// How the contents of a workspace are handled.
#[derive(Clone, Copy, Debug, PartialEq, Eq, Structural)]
pub enum Mode {
    /// Changed sources are detected and reloaded on their own.
    Auto,
    /// Only modified files are loaded.
    Modified,
    /// Loading happens when asked for.
    Normal,
}

/// The unit an operation acts on: a named realm, its mode and configuration,
/// and (for a load) the working directories to copy.
#[derive(Debug)]
pub struct WorkSpace {
    pub(crate) name: Option<String>,
    pub(crate) mode: Mode,
    pub(crate) config: Config,
    pub(crate) contents: Option<Vec<WorkingDir>>,
    pub(crate) size: u64,
}

impl WorkSpace {
    pub open(crate) spec fn name_view(&self) -> Option<Seq<char>> {
        match self.name {
            Some(n) => Some(n@),
            None => None,
        }
    }

    pub open(crate) spec fn mode_view(&self) -> Mode {
        self.mode
    }

    pub open(crate) spec fn config_view(&self) -> Config {
        self.config
    }

    pub open(crate) spec fn contents_view(&self) -> Option<Seq<WorkingDir>> {
        match self.contents {
            Some(c) => Some(c@),
            None => None,
        }
    }

    pub open(crate) spec fn size_view(&self) -> u64 {
        self.size
    }

    /// The realm name.
    pub fn name(&self) -> (r: Option<&String>)
        ensures
            match r {
                Some(n) => self.name_view() == Some(n@),
                None => self.name_view() is None,
            },
    {
        self.name.as_ref()
    }

    /// The mode.
    pub fn mode(&self) -> (r: Mode)
        ensures
            r == self.mode_view(),
    {
        self.mode
    }

    /// The configuration.
    pub fn config(&self) -> (r: &Config)
        ensures
            *r == self.config_view(),
    {
        &self.config
    }

    /// The working directories.
    pub fn contents(&self) -> (r: Option<&Vec<WorkingDir>>)
        ensures
            match r {
                Some(c) => self.contents_view() == Some(c@),
                None => self.contents_view() is None,
            },
    {
        self.contents.as_ref()
    }

    /// The workspace a load acts on. `cwd_entries` holds the names of the
    /// entries of the configured working directory.
    pub fn to_load_space(config: Config, args: &ArgMatches, cwd_entries: &Vec<String>) -> (r:
        BifrostResult<LoadSpace>)
        requires
            config.wf(),
        ensures
            r is Err <==> load_contents_missing(config, *args, views_of(cwd_entries@)),
            r is Err ==> r == Err::<LoadSpace, _>(BifrostError::NoContent),
            r matches Ok(s) ==> {
                &&& s.is_fresh()
                &&& s.workspace_view().name_view() == Some(name_spec(config))
                &&& s.workspace_view().mode_view() == mode_spec(*args)
                &&& s.workspace_view().config_view() == config
                &&& s.roots() == load_roots(config, *args, views_of(cwd_entries@))
                &&& forall|i: int|
                    0 <= i < s.dirs().len() ==> {
                        &&& (#[trigger] s.dirs()[i]).ignore_view() == ignore_list_spec(config)
                        &&& s.dirs()[i].dirs_view().len() == 0
                        &&& s.dirs()[i].files_view().len() == 0
                        &&& s.dirs()[i].size_view() == 0
                        &&& s.dirs()[i].parent_view() == parent_spec(s.dirs()[i].root_view())
                    }
                &&& s.workspace_view().size_view() == 0
            },
    {
        WorkSpaceArgs::parse_load(config, args).to_load_space(cwd_entries)
    }

    /// The workspace a show acts on.
    pub fn to_show_space(config: Config, args: &ArgMatches) -> (r: ShowSpace)
        requires
            config.wf(),
        ensures
            r.is_fresh(),
            r.workspace_view().name_view() == Some(name_spec(config)),
            r.workspace_view().mode_view() == mode_spec(*args),
            r.workspace_view().config_view() == config,
            r.opts_view() == opts_spec(*args),
    {
        WorkSpaceArgs::parse_show(config, args).to_show_space()
    }

    /// The workspace an unload acts on.
    pub fn to_unload_space(config: Config, args: &ArgMatches) -> (r: UnloadSpace)
        requires
            config.wf(),
        ensures
            r.is_fresh(),
            r.workspace_view().name_view() == Some(name_spec(config)),
            r.workspace_view().mode_view() == Mode::Normal,
            r.workspace_view().config_view() == config,
    {
        WorkSpaceArgs::parse_unload(config, args).to_unload_space()
    }

    /// The workspace a run acts on.
    pub fn to_run_space(config: Config, args: &ArgMatches) -> (r: RunSpace)
        requires
            config.wf(),
        ensures
            r.is_fresh(),
            r.workspace_view().name_view() == Some(name_spec(config)),
            r.workspace_view().mode_view() == Mode::Normal,
            r.workspace_view().config_view() == config,
    {
        WorkSpaceArgs::parse_run(config, args).to_run_space()
    }
}

/// The realm name: the manifest's workspace name, unless it is missing or
/// the placeholder `workspace name`, in which case the working directory's
/// last component.
pub open spec fn name_spec(config: Config) -> Seq<char> {
    let from_cwd = file_name_spec(config.cwd_view()).unwrap();
    match config.manifest_opt() {
        Some(m) => match m@.workspace {
            Some(w) => match w.name {
                Some(n) => if n == "workspace name"@ {
                    from_cwd
                } else {
                    n
                },
                None => from_cwd,
            },
            None => from_cwd,
        },
        None => from_cwd,
    }
}

/// The names the manifest says to ignore, or none.
pub open spec fn ignore_list_spec(config: Config) -> Seq<Seq<char>> {
    match config.manifest_opt() {
        Some(m) => match m@.workspace {
            Some(w) => match w.ignore {
                Some(i) => i,
                None => Seq::empty(),
            },
            None => Seq::empty(),
        },
        None => Seq::empty(),
    }
}

/// The mode the flags ask for; `auto` wins over `modified`.
pub open spec fn mode_spec(args: ArgMatches) -> Mode {
    if args.present("auto"@) {
        Mode::Auto
    } else if args.present("modified"@) {
        Mode::Modified
    } else {
        Mode::Normal
    }
}

/// The show options the flags ask for; `all` wins over `diff`.
pub open spec fn opts_spec(args: ArgMatches) -> Option<BifrostOptions> {
    if args.args@.len() == 0 {
        None
    } else if args.present("all"@) {
        Some(BifrostOptions { verbose: true, diff: false, max_depth: 0 })
    } else if args.present("diff"@) {
        Some(BifrostOptions { verbose: false, diff: true, max_depth: 0 })
    } else {
        None
    }
}

/// `name` without one trailing `/` or `\\`, unless it is a single character.
pub open spec fn stripped(name: Seq<char>) -> Seq<char> {
    if name.len() > 1 && (name.last() == '/' || name.last() == '\\') {
        name.drop_last()
    } else {
        name
    }
}

/// A name can be loaded when it is not the home directory, does not mention
/// `.bifrost` or `container`, and is an entry of the working directory.
pub open spec fn loadable(config: Config, name: Seq<char>, cwd_entries: Seq<Seq<char>>) -> bool {
    &&& name != config.home_view()
    &&& !contains_spec(name, ".bifrost"@)
    &&& !contains_spec(name, "container"@)
    &&& cwd_entries.contains(name)
}

/// The names of `names` that can be loaded, in order.
pub open spec fn checked(config: Config, names: Seq<Seq<char>>, cwd_entries: Seq<Seq<char>>) -> Seq<
    Seq<char>,
>
    decreases names.len(),
{
    if names.len() == 0 {
        Seq::empty()
    } else {
        let r = checked(config, names.drop_last(), cwd_entries);
        if loadable(config, names.last(), cwd_entries) {
            r.push(names.last())
        } else {
            r
        }
    }
}

/// How many of `names` are `e`.
pub open spec fn count_of(names: Seq<Seq<char>>, e: Seq<char>) -> nat
    decreases names.len(),
{
    if names.len() == 0 {
        0
    } else {
        count_of(names.drop_last(), e) + if names.last() == e {
            1nat
        } else {
            0nat
        }
    }
}

/// For each entry of the working directory, in order, its path once for
/// every time `names` holds it.
pub open spec fn abs_paths(cwd: Seq<char>, entries: Seq<Seq<char>>, names: Seq<Seq<char>>) -> Seq<
    Seq<char>,
>
    decreases entries.len(),
{
    if entries.len() == 0 {
        Seq::empty()
    } else {
        abs_paths(cwd, entries.drop_last(), names) + Seq::new(
            count_of(names, entries.last()),
            |k: int| join_spec(cwd, entries.last()),
        )
    }
}

/// The paths a load's arguments name.
pub open spec fn paths_of_args(config: Config, args: Seq<Seq<char>>, cwd_entries: Seq<Seq<char>>) -> Seq<
    Seq<char>,
> {
    let names = checked(config, args.map_values(|a: Seq<char>| stripped(a)), cwd_entries);
    if names.len() == 0 {
        Seq::empty()
    } else {
        abs_paths(config.cwd_view(), cwd_entries, names)
    }
}

/// The contents named on the command line for a load.
pub open spec fn contents_arg(args: ArgMatches) -> Seq<Seq<char>> {
    match args.values_spec("contents"@) {
        Some(v) => v,
        None => Seq::empty(),
    }
}

/// Contents were named, yet none of them is loadable.
pub open spec fn load_contents_missing(
    config: Config,
    args: ArgMatches,
    cwd_entries: Seq<Seq<char>>,
) -> bool {
    contents_arg(args).len() > 0 && paths_of_args(config, contents_arg(args), cwd_entries).len() == 0
}

/// The roots a load walks: the working directory when no contents were
/// named, else the paths of the loadable ones.
pub open spec fn load_roots(config: Config, args: ArgMatches, cwd_entries: Seq<Seq<char>>) -> Seq<
    Seq<char>,
> {
    if contents_arg(args).len() == 0 {
        seq![config.cwd_view()]
    } else {
        paths_of_args(config, contents_arg(args), cwd_entries)
    }
}

/// Helpers that read what a workspace needs from the configuration and the
/// command line.
pub struct WorkSpaceBuilder;

impl WorkSpaceBuilder {
    /// The names the manifest says to ignore, or none.
    pub fn get_ignore_list(config: &Config) -> (r: Vec<String>)
        ensures
            views_of(r@) == ignore_list_spec(*config),
    {
        match config.manifest() {
            Some(m) => match m.get_workspace_config() {
                Some(ws) => match ws.ignore() {
                    Some(list) => copy_names(list),
                    None => Vec::new(),
                },
                None => Vec::new(),
            },
            None => Vec::new(),
        }
    }

    /// The realm name.
    pub fn get_name(config: &Config) -> (r: String)
        requires
            config.wf(),
        ensures
            r@ == name_spec(*config),
    {
        let from_manifest: Option<&str> = match config.manifest() {
            Some(m) => match m.get_workspace_config() {
                Some(ws) => ws.name(),
                None => None,
            },
            None => None,
        };
        match from_manifest {
            Some(name) => {
                if !same_text(name, "workspace name") {
                    return String::from_str(name);
                }
            },
            None => {},
        }
        file_name(config.cwd().as_str()).unwrap()
    }

    /// The show options the flags ask for.
    pub fn get_opts(args: &ArgMatches) -> (r: Option<BifrostOptions>)
        ensures
            r == opts_spec(*args),
    {
        if args.is_empty() {
            return None;
        }
        if args.is_present("all") {
            Some(BifrostOptions { verbose: true, diff: false, max_depth: 0 })
        } else if args.is_present("diff") {
            Some(BifrostOptions { verbose: false, diff: true, max_depth: 0 })
        } else {
            None
        }
    }

    /// Takes the command section out of the configuration's manifest.
    pub fn take_command_config(config: &mut Config) -> (r: Option<CommandConfig>)
        ensures
            final(config).home_view() == old(config).home_view(),
            final(config).cwd_view() == old(config).cwd_view(),
            r == match old(config).manifest_opt() {
                Some(m) => m.command,
                None => None,
            },
            final(config).manifest_opt() == match old(config).manifest_opt() {
                Some(m) => Some(
                    (BifrostManifest { workspace: m.workspace, container: m.container, command: None }),
                ),
                None => None,
            },
    {
        config.take_command_config()
    }

    /// The mode the flags ask for.
    pub fn get_mode(args: &ArgMatches) -> (r: Mode)
        ensures
            r == mode_spec(*args),
    {
        if args.is_present("auto") {
            Mode::Auto
        } else if args.is_present("modified") {
            Mode::Modified
        } else {
            Mode::Normal
        }
    }

    /// The paths of the loadable names among `args`, with trailing slashes
    /// stripped first.
    pub fn args_to_paths(config: &Config, args: Vec<String>, cwd_entries: &Vec<String>) -> (r: Vec<
        String,
    >)
        ensures
            views_of(r@) == paths_of_args(*config, views_of(args@), views_of(cwd_entries@)),
    {
        let names = strip(&args);
        assert(views_of(names@) =~= views_of(args@).map_values(|a: Seq<char>| stripped(a)));
        let paths = check(config, names, cwd_entries);
        to_abs_paths(config.cwd().as_str(), paths, cwd_entries)
    }
}

/// Whether `name` can be loaded.
pub fn is_loadable(config: &Config, name: &str, cwd_entries: &Vec<String>) -> (r: bool)
    ensures
        r == loadable(*config, name@, views_of(cwd_entries@)),
{
    if same_text(config.home_path().as_str(), name) {
        return false;
    }
    if contains_text(name, ".bifrost") || contains_text(name, "container") {
        return false;
    }
    let ghost ev = views_of(cwd_entries@);
    let mut i: usize = 0;
    while i < cwd_entries.len()
        invariant
            i <= cwd_entries.len(),
            ev == views_of(cwd_entries@),
            name@ != config.home_view(),
            !contains_spec(name@, ".bifrost"@),
            !contains_spec(name@, "container"@),
            forall|k: int| 0 <= k < i ==> ev[k] != name@,
        decreases cwd_entries.len() - i,
    {
        if same_text(cwd_entries[i].as_str(), name) {
            assert(ev[i as int] == name@);
            assert(ev.contains(name@));
            return true;
        }
        i = i + 1;
    }
    false
}

/// The loadable names of `names`, in order.
pub fn check(config: &Config, names: Vec<String>, cwd_entries: &Vec<String>) -> (r: Vec<String>)
    ensures
        views_of(r@) == checked(*config, views_of(names@), views_of(cwd_entries@)),
{
    let ghost nv = views_of(names@);
    let mut r: Vec<String> = Vec::new();
    let mut i: usize = 0;
    while i < names.len()
        invariant
            i <= names.len(),
            nv == views_of(names@),
            views_of(r@) == checked(*config, nv.subrange(0, i as int), views_of(cwd_entries@)),
        decreases names.len() - i,
    {
        assert(nv.subrange(0, i + 1).drop_last() == nv.subrange(0, i as int));
        assert(nv.subrange(0, i + 1).last() == names@[i as int]@);
        if is_loadable(config, names[i].as_str(), cwd_entries) {
            let ghost before = views_of(r@);
            r.push(names[i].clone());
            assert(views_of(r@) =~= before.push(names@[i as int]@));
        }
        i = i + 1;
    }
    assert(nv.subrange(0, names.len() as int) == nv);
    r
}

/// `names` with trailing slashes stripped.
pub fn strip(names: &Vec<String>) -> (r: Vec<String>)
    ensures
        views_of(r@) == views_of(names@).map_values(|a: Seq<char>| stripped(a)),
{
    let ghost target = views_of(names@).map_values(|a: Seq<char>| stripped(a));
    let mut r: Vec<String> = Vec::new();
    let mut i: usize = 0;
    while i < names.len()
        invariant
            i <= names.len(),
            target == views_of(names@).map_values(|a: Seq<char>| stripped(a)),
            views_of(r@) == target.subrange(0, i as int),
        decreases names.len() - i,
    {
        let s = String::from_str(strip_trailing_slash(names[i].as_str()));
        let ghost before = views_of(r@);
        r.push(s);
        assert(views_of(r@) =~= before.push(s@));
        assert(views_of(r@) =~= target.subrange(0, i + 1));
        i = i + 1;
    }
    assert(target.subrange(0, names.len() as int) == target);
    r
}

/// `name` without one trailing `/` or `\\`, unless it is a single character.
pub fn strip_trailing_slash(name: &str) -> (r: &str)
    ensures
        r@ == stripped(name@),
{
    let n = name.unicode_len();
    if n > 1 {
        let c = name.get_char(n - 1);
        if c == '/' || c == '\\' {
            return name.substring_char(0, n - 1);
        }
    }
    name
}

/// For each entry of the working directory `cwd`, in order, its path once
/// for every time `paths` names it.
pub fn to_abs_paths(cwd: &str, paths: Vec<String>, cwd_entries: &Vec<String>) -> (r: Vec<String>)
    ensures
        views_of(r@) == if paths@.len() == 0 {
            Seq::empty()
        } else {
            abs_paths(cwd@, views_of(cwd_entries@), views_of(paths@))
        },
{
    let mut abs: Vec<String> = Vec::new();
    if paths.len() == 0 {
        assert(views_of(abs@) =~= Seq::<Seq<char>>::empty());
        return abs;
    }
    let ghost ev = views_of(cwd_entries@);
    let ghost pv = views_of(paths@);
    let mut i: usize = 0;
    while i < cwd_entries.len()
        invariant
            i <= cwd_entries.len(),
            ev == views_of(cwd_entries@),
            pv == views_of(paths@),
            views_of(abs@) == abs_paths(cwd@, ev.subrange(0, i as int), pv),
        decreases cwd_entries.len() - i,
    {
        let entry = cwd_entries[i].as_str();
        let ghost base = views_of(abs@);
        let ghost p = join_spec(cwd@, entry@);
        let mut j: usize = 0;
        while j < paths.len()
            invariant
                j <= paths.len(),
                pv == views_of(paths@),
                p == join_spec(cwd@, entry@),
                views_of(abs@) == base + Seq::new(count_of(pv.subrange(0, j as int), entry@), |k: int| p),
            decreases paths.len() - j,
        {
            assert(pv.subrange(0, j + 1).drop_last() == pv.subrange(0, j as int));
            let ghost before = views_of(abs@);
            let ghost c = count_of(pv.subrange(0, j as int), entry@);
            if same_text(paths[j].as_str(), entry) {
                let q = join(cwd, entry);
                abs.push(q);
                assert(count_of(pv.subrange(0, j + 1), entry@) == c + 1);
                assert(views_of(abs@) =~= before.push(p));
                assert(views_of(abs@) =~= base + Seq::new(
                    count_of(pv.subrange(0, j + 1), entry@),
                    |k: int| p,
                ));
            } else {
                assert(views_of(abs@) =~= base + Seq::new(
                    count_of(pv.subrange(0, j + 1), entry@),
                    |k: int| p,
                ));
            }
            j = j + 1;
        }
        assert(pv.subrange(0, paths.len() as int) == pv);
        assert(ev.subrange(0, i + 1).drop_last() == ev.subrange(0, i as int));
        assert(ev.subrange(0, i + 1).last() == entry@);
        i = i + 1;
    }
    assert(ev.subrange(0, cwd_entries.len() as int) == ev);
    abs
}

/// What the command line and configuration give an operation, before the
/// contents of a load are checked.
struct WorkSpaceArgs {
    name: Option<String>,
    mode: Mode,
    config: Config,
    contents: Option<Vec<String>>,
    ignore_list: Vec<String>,
    opts: Option<BifrostOptions>,
}

impl WorkSpaceArgs {
    fn parse_load(config: Config, args: &ArgMatches) -> (r: Self)
        requires
            config.wf(),
        ensures
            r.name matches Some(n) && n@ == name_spec(config),
            r.mode == mode_spec(*args),
            r.config == config,
            r.contents matches Some(c) && views_of(c@) == contents_arg(*args),
            views_of(r.ignore_list@) == ignore_list_spec(config),
    {
        let ws_mode = WorkSpaceBuilder::get_mode(args);
        let ws_name = WorkSpaceBuilder::get_name(&config);
        let ws_ignore_list = WorkSpaceBuilder::get_ignore_list(&config);
        let ws_contents = match crate::config::values_of("contents", args) {
            Some(v) => v,
            None => Vec::new(),
        };
        proof {
            if args.values_spec("contents"@) is None {
                assert(views_of(ws_contents@) =~= Seq::<Seq<char>>::empty());
            }
        }
        WorkSpaceArgs {
            name: Some(ws_name),
            mode: ws_mode,
            config,
            contents: Some(ws_contents),
            ignore_list: ws_ignore_list,
            opts: None,
        }
    }

    fn parse_show(config: Config, args: &ArgMatches) -> (r: Self)
        requires
            config.wf(),
        ensures
            r.name matches Some(n) && n@ == name_spec(config),
            r.config == config,
            r.opts == opts_spec(*args),
            r.mode == mode_spec(*args),
    {
        let ws_mode = WorkSpaceBuilder::get_mode(args);
        let ws_opts = WorkSpaceBuilder::get_opts(args);
        let ws_name = WorkSpaceBuilder::get_name(&config);
        WorkSpaceArgs {
            name: Some(ws_name),
            mode: ws_mode,
            config,
            contents: None,
            ignore_list: Vec::new(),
            opts: ws_opts,
        }
    }

    fn parse_unload(config: Config, _args: &ArgMatches) -> (r: Self)
        requires
            config.wf(),
        ensures
            r.name matches Some(n) && n@ == name_spec(config),
            r.config == config,
            r.mode == Mode::Normal,
    {
        let ws_name = WorkSpaceBuilder::get_name(&config);
        WorkSpaceArgs {
            name: Some(ws_name),
            mode: Mode::Normal,
            config,
            contents: None,
            ignore_list: Vec::new(),
            opts: Some(BifrostOptions::default()),
        }
    }

    fn parse_run(config: Config, _args: &ArgMatches) -> (r: Self)
        requires
            config.wf(),
        ensures
            r.name matches Some(n) && n@ == name_spec(config),
            r.config == config,
            r.mode == Mode::Normal,
    {
        let ws_name = WorkSpaceBuilder::get_name(&config);
        WorkSpaceArgs {
            name: Some(ws_name),
            mode: Mode::Normal,
            config,
            contents: None,
            ignore_list: Vec::new(),
            opts: None,
        }
    }

    fn to_load_space(self, cwd_entries: &Vec<String>) -> (r: BifrostResult<LoadSpace>)
        requires
            self.contents is Some,
        ensures
            r is Err <==> views_of(self.contents.unwrap()@).len() > 0 && paths_of_args(
                self.config,
                views_of(self.contents.unwrap()@),
                views_of(cwd_entries@),
            ).len() == 0,
            r is Err ==> r == Err::<LoadSpace, _>(BifrostError::NoContent),
            r matches Ok(s) ==> {
                &&& s.is_fresh()
                &&& s.workspace_view().name_view() == match self.name {
                    Some(n) => Some(n@),
                    None => None,
                }
                &&& s.workspace_view().mode_view() == self.mode
                &&& s.workspace_view().config_view() == self.config
                &&& forall|i: int|
                    0 <= i < s.dirs().len() ==> {
                        &&& (#[trigger] s.dirs()[i]).ignore_view() == views_of(self.ignore_list@)
                        &&& s.dirs()[i].dirs_view().len() == 0
                        &&& s.dirs()[i].files_view().len() == 0
                        &&& s.dirs()[i].size_view() == 0
                        &&& s.dirs()[i].parent_view() == parent_spec(s.dirs()[i].root_view())
                    }
                &&& s.workspace_view().size_view() == 0
                &&& s.roots() == if self.contents.unwrap()@.len() == 0 {
                    seq![self.config.cwd_view()]
                } else {
                    paths_of_args(
                        self.config,
                        views_of(self.contents.unwrap()@),
                        views_of(cwd_entries@),
                    )
                }
            },
    {
        let mut working_dirs: Vec<WorkingDir> = Vec::new();
        let contents = self.contents.unwrap();
        if contents.len() == 0 {
            let wd = WorkingDir::new(self.config.cwd().as_str()).ignore(&self.ignore_list);
            working_dirs.push(wd);
        } else {
            let paths = WorkSpaceBuilder::args_to_paths(&self.config, contents, cwd_entries);
            if paths.len() == 0 {
                return Err(BifrostError::NoContent);
            }
            let mut i: usize = 0;
            while i < paths.len()
                invariant
                    i <= paths.len(),
                    working_dirs@.len() == i,
                    forall|k: int|
                        0 <= k < i ==> {
                            &&& (#[trigger] working_dirs@[k]).root_view() == paths@[k]@
                            &&& working_dirs@[k].ignore_view() == views_of(self.ignore_list@)
                            &&& working_dirs@[k].dirs_view().len() == 0
                            &&& working_dirs@[k].files_view().len() == 0
                            &&& working_dirs@[k].size_view() == 0
                            &&& working_dirs@[k].parent_view() == parent_spec(
                                working_dirs@[k].root_view(),
                            )
                        },
                decreases paths.len() - i,
            {
                let wd = WorkingDir::new(paths[i].as_str()).ignore(&self.ignore_list);
                working_dirs.push(wd);
                i = i + 1;
            }
        }
        let space = LoadSpace::new(
            WorkSpace {
                name: self.name,
                mode: self.mode,
                config: self.config,
                contents: Some(working_dirs),
                size: 0,
            },
        );
        Ok(space)
    }

    fn to_show_space(self) -> (r: ShowSpace)
        ensures
            r.is_fresh(),
            r.workspace_view().name_view() == match self.name {
                Some(n) => Some(n@),
                None => None,
            },
            r.workspace_view().mode_view() == self.mode,
            r.workspace_view().config_view() == self.config,
            r.opts_view() == self.opts,
    {
        ShowSpace::new(
            WorkSpace { name: self.name, mode: self.mode, config: self.config, contents: None, size: 0 },
            self.opts,
        )
    }

    fn to_unload_space(self) -> (r: UnloadSpace)
        ensures
            r.is_fresh(),
            r.workspace_view().name_view() == match self.name {
                Some(n) => Some(n@),
                None => None,
            },
            r.workspace_view().mode_view() == self.mode,
            r.workspace_view().config_view() == self.config,
    {
        UnloadSpace::new(
            WorkSpace { name: self.name, mode: self.mode, config: self.config, contents: None, size: 0 },
        )
    }

    fn to_run_space(self) -> (r: RunSpace)
        ensures
            r.is_fresh(),
            r.workspace_view().name_view() == match self.name {
                Some(n) => Some(n@),
                None => None,
            },
            r.workspace_view().mode_view() == self.mode,
            r.workspace_view().config_view() == self.config,
    {
        RunSpace::new(
            WorkSpace { name: self.name, mode: self.mode, config: self.config, contents: None, size: 0 },
        )
    }
}

} // verus!
