//! A realm's configuration: where home and the working directory are, and
//! the manifest that names the workspace, what it ignores and what it runs.
use vstd::prelude::*;
use crate::args::ArgMatches;
use crate::error::{BifrostError, BifrostResult};
use crate::text::{file_name, file_name_spec, join, join_spec, same_text};
use crate::working_dir::views_of;

verus! {

pub open spec fn opt_view(o: Option<String>) -> Option<Seq<char>> {
    match o {
        Some(s) => Some(s@),
        None => None,
    }
}

pub open spec fn opt_views(o: Option<Vec<String>>) -> Option<Seq<Seq<char>>> {
    match o {
        Some(v) => Some(views_of(v@)),
        None => None,
    }
}

/// The container engine section of a manifest.
#[derive(Debug)]
pub struct ContainerConfig {
    pub name: Option<String>,
}

impl View for ContainerConfig {
    type V = Option<Seq<char>>;

    open spec fn view(&self) -> Option<Seq<char>> {
        opt_view(self.name)
    }
}

/// The workspace section of a manifest: its name and the names to ignore.
#[derive(Debug)]
pub struct WorkSpaceConfig {
    pub name: Option<String>,
    pub ignore: Option<Vec<String>>,
}

pub struct WorkSpaceView {
    pub name: Option<Seq<char>>,
    pub ignore: Option<Seq<Seq<char>>>,
}

impl View for WorkSpaceConfig {
    type V = WorkSpaceView;

    open spec fn view(&self) -> WorkSpaceView {
        WorkSpaceView { name: opt_view(self.name), ignore: opt_views(self.ignore) }
    }
}

/// The command section of a manifest: the commands a run executes.
#[derive(Debug)]
pub struct CommandConfig {
    pub cmds: Option<Vec<String>>,
}

impl View for CommandConfig {
    type V = Option<Seq<Seq<char>>>;

    open spec fn view(&self) -> Option<Seq<Seq<char>>> {
        opt_views(self.cmds)
    }
}

/// A realm's manifest.
#[derive(Debug)]
pub struct BifrostManifest {
    pub workspace: Option<WorkSpaceConfig>,
    pub container: Option<ContainerConfig>,
    pub command: Option<CommandConfig>,
}

pub struct ManifestView {
    pub workspace: Option<WorkSpaceView>,
    pub container: Option<Option<Seq<char>>>,
    pub command: Option<Option<Seq<Seq<char>>>>,
}

impl View for BifrostManifest {
    type V = ManifestView;

    open spec fn view(&self) -> ManifestView {
        ManifestView {
            workspace: match self.workspace {
                Some(w) => Some(w@),
                None => None,
            },
            container: match self.container {
                Some(c) => Some(c@),
                None => None,
            },
            command: match self.command {
                Some(c) => Some(c@),
                None => None,
            },
        }
    }
}

/// Commands given on the command line come first, then those the manifest had.
pub open spec fn commands_combined(cmds: Option<Seq<Seq<char>>>, args: ArgMatches) -> Option<
    Seq<Seq<char>>,
> {
    if args.args@.len() == 0 {
        cmds
    } else {
        match args.values_spec("commands"@) {
            Some(a) => match cmds {
                Some(c) => Some(a + c),
                None => Some(a),
            },
            None => cmds,
        }
    }
}

/// A manifest with the sections that the command line overrides replaced.
pub open spec fn manifest_combined(m: ManifestView, args: ArgMatches) -> ManifestView {
    ManifestView {
        container: match args.value_spec("container"@) {
            None => m.container,
            Some(c) => Some(Some(c)),
        },
        workspace: match args.value_spec("workspace"@) {
            None => match args.values_spec("ignore"@) {
                None => m.workspace,
                Some(ig) => Some(WorkSpaceView { name: Some("name of workspace"@), ignore: Some(ig) }),
            },
            Some(ws) => Some(
                WorkSpaceView {
                    name: Some(ws),
                    ignore: match args.values_spec("ignore"@) {
                        None => match m.workspace {
                            Some(w) => w.ignore,
                            None => None,
                        },
                        Some(ig) => Some(ig),
                    },
                },
            ),
        },
        command: match m.command {
            Some(c) => Some(commands_combined(c, args)),
            None => None,
        },
    }
}

/// The manifest a realm has before anything configures it.
pub open spec fn default_manifest() -> ManifestView {
    ManifestView {
        workspace: Some(
            WorkSpaceView {
                name: Some("name of current workspace"@),
                ignore: Some(seq!["target"@, ".git"@, ".gitignore"@]),
            },
        ),
        container: Some(Some("docker"@)),
        command: Some(Some(seq!["default-arg"@])),
    }
}

/// The manifest made from the default one and the command line.
pub open spec fn new_manifest(args: ArgMatches) -> ManifestView {
    if args.args@.len() == 0 {
        default_manifest()
    } else {
        manifest_combined(default_manifest(), args)
    }
}

/// The first value given to `arg`, when it occurred.
pub fn value_of(arg: &str, from_args: &ArgMatches) -> (r: Option<String>)
    ensures
        opt_view(r) == from_args.value_spec(arg@),
{
    if from_args.is_present(arg) {
        return from_args.value_of(arg);
    }
    None
}

/// All values given to `arg`, when it occurred.
pub fn values_of(arg: &str, from_args: &ArgMatches) -> (r: Option<Vec<String>>)
    ensures
        opt_views(r) == from_args.values_spec(arg@),
{
    if from_args.is_present(arg) {
        return from_args.values_of(arg);
    }
    None
}

fn strings_of(items: &Vec<&str>) -> (r: Vec<String>)
    ensures
        views_of(r@) == items@.map_values(|s: &str| s@),
{
    let mut r: Vec<String> = Vec::new();
    let mut i: usize = 0;
    while i < items.len()
        invariant
            i <= items.len(),
            views_of(r@) == items@.subrange(0, i as int).map_values(|s: &str| s@),
        decreases items.len() - i,
    {
        let ghost before = views_of(r@);
        r.push(String::from_str(items[i]));
        assert(views_of(r@) =~= before.push(items@[i as int]@));
        assert(views_of(r@) =~= items@.subrange(0, i + 1).map_values(|s: &str| s@));
        i = i + 1;
    }
    assert(items@.subrange(0, items.len() as int) == items@);
    r
}

impl WorkSpaceConfig {
    /// A workspace section naming `name` and ignoring `ignore`.
    pub fn new(name: &str, ignore: Vec<String>) -> (r: Self)
        ensures
            r@.name == Some(name@),
            r@.ignore == Some(views_of(ignore@)),
    {
        WorkSpaceConfig { name: Some(String::from_str(name)), ignore: Some(ignore) }
    }

    /// The workspace name, when the manifest gives one.
    pub fn name(&self) -> (r: Option<&str>)
        ensures
            match r {
                Some(s) => self@.name == Some(s@),
                None => self@.name is None,
            },
    {
        match &self.name {
            Some(n) => Some(n.as_str()),
            None => None,
        }
    }

    /// The names to ignore, when the manifest gives them.
    pub fn ignore(&self) -> (r: Option<&Vec<String>>)
        ensures
            match r {
                Some(v) => self@.ignore == Some(views_of(v@)),
                None => self@.ignore is None,
            },
    {
        self.ignore.as_ref()
    }
}

impl CommandConfig {
    /// The commands, when the manifest gives them.
    pub fn get_cmds(&self) -> (r: Option<&Vec<String>>)
        ensures
            match r {
                Some(v) => self@ == Some(views_of(v@)),
                None => self@ is None,
            },
    {
        self.cmds.as_ref()
    }

    /// Puts the commands given on the command line in front of these.
    pub fn combine_with(self, arg_matches: &ArgMatches) -> (r: Self)
        ensures
            r@ == commands_combined(self@, *arg_matches),
    {
        if arg_matches.is_empty() {
            return self;
        }
        match values_of("commands", arg_matches) {
            Some(arg_cmds) => {
                match self.cmds {
                    Some(cmds) => {
                        let mut all = arg_cmds;
                        let ghost front = all@;
                        let mut i: usize = 0;
                        while i < cmds.len()
                            invariant
                                i <= cmds.len(),
                                all@ == front + cmds@.subrange(0, i as int),
                            decreases cmds.len() - i,
                        {
                            all.push(cmds[i].clone());
                            assert(all@ =~= front + cmds@.subrange(0, i + 1));
                            i = i + 1;
                        }
                        assert(cmds@.subrange(0, cmds.len() as int) == cmds@);
                        assert(views_of(all@) =~= views_of(front) + views_of(cmds@));
                        CommandConfig { cmds: Some(all) }
                    },
                    None => CommandConfig { cmds: Some(arg_cmds) },
                }
            },
            None => self,
        }
    }
}

impl Clone for CommandConfig {
    fn clone(&self) -> (r: Self)
        ensures
            r@ == self@,
    {
        match &self.cmds {
            Some(c) => CommandConfig { cmds: Some(c.clone()) },
            None => CommandConfig { cmds: None },
        }
    }
}

impl Default for CommandConfig {
    fn default() -> (r: Self)
        ensures
            r@ == Some(seq!["ls"@]),
    {
        let v: Vec<&str> = vec!["ls"];
        let r = CommandConfig { cmds: Some(strings_of(&v)) };
        assert(v@.map_values(|s: &str| s@) =~= seq!["ls"@]);
        r
    }
}

impl Default for BifrostManifest {
    fn default() -> (r: Self)
        ensures
            r@ == default_manifest(),
    {
        let ignore: Vec<&str> = vec!["target", ".git", ".gitignore"];
        let cmds: Vec<&str> = vec!["default-arg"];
        let r = BifrostManifest {
            workspace: Some(WorkSpaceConfig::new("name of current workspace", strings_of(&ignore))),
            container: Some(ContainerConfig { name: Some(String::from_str("docker")) }),
            command: Some(CommandConfig { cmds: Some(strings_of(&cmds)) }),
        };
        assert(ignore@.map_values(|s: &str| s@) =~= seq!["target"@, ".git"@, ".gitignore"@]);
        assert(cmds@.map_values(|s: &str| s@) =~= seq!["default-arg"@]);
        r
    }
}

impl BifrostManifest {
    /// The default manifest, with what the command line gives laid over it.
    pub fn new(args: &ArgMatches) -> (r: Self)
        ensures
            r@ == new_manifest(*args),
    {
        if args.is_empty() {
            return BifrostManifest::default();
        }
        BifrostManifest::default().combine_with(args)
    }

    /// The manifest read from the realm (`from_file`, when it could be read
    /// and parsed) with the command line laid over it, or the default one.
    pub fn manifest_or_bust(from_file: Option<BifrostManifest>, args: &ArgMatches) -> (r: Self)
        ensures
            r@ == match from_file {
                Some(m) => if args.args@.len() == 0 {
                    m@
                } else {
                    manifest_combined(m@, *args)
                },
                None => default_manifest(),
            },
    {
        match from_file {
            Some(manifest) => {
                if args.is_empty() {
                    manifest
                } else {
                    manifest.combine_with(args)
                }
            },
            None => BifrostManifest::default(),
        }
    }

    /// Replaces the sections that the command line overrides: the container
    /// name, the workspace name and ignore list, and (in front of the
    /// existing ones) the commands.
    pub fn combine_with(self, args: &ArgMatches) -> (r: Self)
        ensures
            r@ == manifest_combined(self@, *args),
    {
        let container = match value_of("container", args) {
            None => self.container,
            Some(c) => Some(ContainerConfig { name: Some(c) }),
        };
        let workspace = match value_of("workspace", args) {
            None => match values_of("ignore", args) {
                None => self.workspace,
                Some(ig) => Some(WorkSpaceConfig::new("name of workspace", ig)),
            },
            Some(ws) => {
                let ignore = match values_of("ignore", args) {
                    None => match self.workspace {
                        Some(w) => w.ignore,
                        None => None,
                    },
                    Some(ig) => Some(ig),
                };
                Some(WorkSpaceConfig { name: Some(ws), ignore })
            },
        };
        let command = match self.command {
            Some(c) => Some(c.combine_with(args)),
            None => None,
        };
        BifrostManifest { workspace, container, command }
    }

    /// The workspace section.
    pub fn get_workspace_config(&self) -> (r: Option<&WorkSpaceConfig>)
        ensures
            match r {
                Some(x) => self.workspace == Some(*x),
                None => self.workspace is None,
            },
    {
        self.workspace.as_ref()
    }

    /// The command section.
    pub fn get_command_config(&self) -> (r: Option<&CommandConfig>)
        ensures
            match r {
                Some(x) => self.command == Some(*x),
                None => self.command is None,
            },
    {
        self.command.as_ref()
    }

    /// Takes the command section out, leaving none.
    pub fn take_command_config(&mut self) -> (r: Option<CommandConfig>)
        ensures
            r == old(self).command,
            final(self).command is None,
            final(self).workspace == old(self).workspace,
            final(self).container == old(self).container,
    {
        self.command.take()
    }
}

/// The `.bifrost` directory under a home directory.
pub open spec fn dot_bifrost_spec(home: Seq<char>) -> Seq<char> {
    join_spec(home, ".bifrost"@)
}

/// Directories that cannot be configured as a realm: home, the filesystem
/// root, the two directories above the container root, and any directory
/// whose path has no last component to name the realm after.
pub open spec fn forbidden_cwd(home: Seq<char>, cwd: Seq<char>) -> bool {
    ||| file_name_spec(cwd) is None
    ||| cwd == home
    ||| cwd == "/"@
    ||| cwd == dot_bifrost_spec(home)
    ||| cwd == join_spec(dot_bifrost_spec(home), "container"@)
}

/// Relies on dirs::home_dir: the current user's home directory, when one
/// can be found. What it returns depends on the environment.
#[verifier::external_body]
fn home_dir() -> (r: Option<String>) {
    dirs::home_dir().map(|p| p.to_string_lossy().into_owned())
}

/// The configuration of a realm.
#[derive(Debug)]
pub struct Config {
    pub(crate) home_path: String,
    pub(crate) cwd: String,
    pub(crate) manifest: Option<BifrostManifest>,
}

impl Config {
    pub open(crate) spec fn home_view(&self) -> Seq<char> {
        self.home_path@
    }

    pub open(crate) spec fn cwd_view(&self) -> Seq<char> {
        self.cwd@
    }

    pub open(crate) spec fn manifest_opt(&self) -> Option<BifrostManifest> {
        self.manifest
    }

    /// The working directory has a last component, which names the realm
    /// when the manifest does not.
    pub open spec fn wf(&self) -> bool {
        file_name_spec(self.cwd_view()) is Some
    }

    /// A configuration with no manifest yet, for a realm at `cwd`; refused
    /// for home, `/`, and the `.bifrost` and container directories.
    pub fn new(home_path: String, cwd: String) -> (r: BifrostResult<Config>)
        ensures
            r is Err <==> forbidden_cwd(home_path@, cwd@),
            r is Err ==> r == Err::<Config, _>(BifrostError::InvalidName),
            r matches Ok(c) ==> c.home_view() == home_path@ && c.cwd_view() == cwd@
                && c.manifest_opt() is None && c.wf(),
    {
        if file_name(cwd.as_str()).is_none() {
            return Err(BifrostError::InvalidName);
        }
        let bifrost_path = join(home_path.as_str(), ".bifrost");
        let container_path = join(bifrost_path.as_str(), "container");
        if same_text(cwd.as_str(), home_path.as_str()) || same_text(cwd.as_str(), "/")
            || same_text(cwd.as_str(), bifrost_path.as_str()) || same_text(
            cwd.as_str(),
            container_path.as_str(),
        ) {
            return Err(BifrostError::InvalidName);
        }
        Ok(Config { home_path, cwd, manifest: None })
    }

    /// A configuration for a realm at `cwd` under the current user's home
    /// directory; fails when no home directory can be found, or as `new`
    /// does for that home.
    pub fn in_home(cwd: String) -> (r: BifrostResult<Config>)
        ensures
            r matches Ok(c) ==> {
                &&& c.cwd_view() == cwd@
                &&& !forbidden_cwd(c.home_view(), cwd@)
                &&& c.manifest_opt() is None
                &&& c.wf()
            },
            r matches Err(e) ==> e == BifrostError::IoFailure || e == BifrostError::InvalidName,
            file_name_spec(cwd@) is None || cwd@ == "/"@ ==> r is Err,
    {
        match home_dir() {
            Some(home) => Config::new(home, cwd),
            None => Err(BifrostError::IoFailure),
        }
    }

    /// Gives a configuration without a manifest the one made from the
    /// default and the command line; one that has a manifest is refused.
    pub fn init_manifest(self, args: &ArgMatches) -> (r: BifrostResult<Self>)
        ensures
            r is Ok <==> self.manifest_opt() is None,
            r is Err ==> r == Err::<Self, _>(BifrostError::OutOfOrder),
            r matches Ok(c) ==> {
                &&& c.home_view() == self.home_view()
                &&& c.cwd_view() == self.cwd_view()
                &&& c.manifest_opt() matches Some(m) && m@ == new_manifest(*args)
            },
    {
        match self.manifest {
            None => Ok(
                Config {
                    home_path: self.home_path,
                    cwd: self.cwd,
                    manifest: Some(BifrostManifest::new(args)),
                },
            ),
            Some(_) => Err(BifrostError::OutOfOrder),
        }
    }

    /// Configures the manifest: an existing one gets the command line laid
    /// over it; otherwise the one read from the realm (`from_file`) is used
    /// that way, or the default when there is none.
    pub fn config_manifest(self, args: &ArgMatches, from_file: Option<BifrostManifest>) -> (r:
        Self)
        ensures
            r.home_view() == self.home_view(),
            r.cwd_view() == self.cwd_view(),
            r.manifest_opt() matches Some(m) && (m@ == match self.manifest_opt() {
                Some(old) => manifest_combined(old@, *args),
                None => match from_file {
                    Some(f) => if args.args@.len() == 0 {
                        f@
                    } else {
                        manifest_combined(f@, *args)
                    },
                    None => default_manifest(),
                },
            }),
    {
        let manifest = match self.manifest {
            None => BifrostManifest::manifest_or_bust(from_file, args),
            Some(m) => m.combine_with(args),
        };
        Config { home_path: self.home_path, cwd: self.cwd, manifest: Some(manifest) }
    }

    /// The home directory.
    pub fn home_path(&self) -> (r: &String)
        ensures
            r@ == self.home_view(),
    {
        &self.home_path
    }

    /// The realm's working directory.
    pub fn cwd(&self) -> (r: &String)
        ensures
            r@ == self.cwd_view(),
    {
        &self.cwd
    }

    /// The manifest, when configured.
    pub fn manifest(&self) -> (r: Option<&BifrostManifest>)
        ensures
            match r {
                Some(x) => self.manifest_opt() == Some(*x),
                None => self.manifest_opt() is None,
            },
    {
        self.manifest.as_ref()
    }

    /// The manifest, mutably, when configured.
    pub fn manifest_mut(&mut self) -> (r: Option<&mut BifrostManifest>)
        ensures
            final(self).home_view() == old(self).home_view(),
            final(self).cwd_view() == old(self).cwd_view(),
            match old(self).manifest_opt() {
                None => final(self).manifest_opt() is None && r is None,
                Some(m) => r is Some && *r.unwrap() == m && final(self).manifest_opt() == Some(
                    *final(r.unwrap()),
                ),
            },
    {
        self.manifest.as_mut()
    }

    /// Takes the command section out of the manifest.
    pub fn take_command_config(&mut self) -> (r: Option<CommandConfig>)
        ensures
            final(self).home_view() == old(self).home_view(),
            final(self).cwd_view() == old(self).cwd_view(),
            r == match old(self).manifest_opt() {
                Some(m) => m.command,
                None => None,
            },
            final(self).manifest_opt() == match old(self).manifest_opt() {
                Some(m) => Some(
                    (BifrostManifest { workspace: m.workspace, container: m.container, command: None }),
                ),
                None => None,
            },
    {
        match &mut self.manifest {
            Some(m) => m.take_command_config(),
            None => None,
        }
    }
}

} // verus!
