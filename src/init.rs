//! The manifest written when a directory is made a realm.
use vstd::prelude::*;

verus! {

/// The text before the workspace name in a new manifest.
pub open spec fn toml_head() -> Seq<char> {
    "[project]\nname = \"project name\"\n\n[container]\nname = \"docker\"\n\n[workspace]\nname = \""@
}

/// The text after the workspace name in a new manifest.
pub open spec fn toml_tail() -> Seq<char> {
    "\"\nignore = [\"target\", \".git\", \".gitignore\"]\n\n[command]\ncmd = [\"command string(s)\"]\n"@
}

/// A new realm's manifest, naming its workspace `name`.
pub fn create_toml_with(name: &str) -> (r: String)
    ensures
        r@ == toml_head() + name@ + toml_tail(),
{
    let mut r = String::from_str(
        "[project]\nname = \"project name\"\n\n[container]\nname = \"docker\"\n\n[workspace]\nname = \"",
    );
    r.append(name);
    r.append(
        "\"\nignore = [\"target\", \".git\", \".gitignore\"]\n\n[command]\ncmd = [\"command string(s)\"]\n",
    );
    r
}

/// The manifest used when one cannot be made from the configuration.
pub fn default_toml() -> (r: String)
    ensures
        r@ == toml_head() + "name of workspace"@ + toml_tail(),
{
    create_toml_with("name of workspace")
}

} // verus!
