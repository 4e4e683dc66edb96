//! The only constructor of paths that operations may write to or delete.
use vstd::prelude::*;
use crate::error::{BifrostError, BifrostResult};
use crate::text::{contains_separator, has_separator, join, join_spec, same_text};

verus! {

/// Names that would not stay one component right below the container root:
/// empty, `.`, `..`, or holding a path separator.
pub open spec fn unsafe_name(name: Seq<char>) -> bool {
    ||| name.len() == 0
    ||| name == "."@
    ||| name == ".."@
    ||| has_separator(name)
}

/// Names that can never be a realm: unsafe ones, hidden ones (leading `.`,
/// which covers `.bifrost` and `.bifrost_config`), a directory of the
/// container layout, or the manifest's file name.
pub open spec fn blacklisted(name: Seq<char>) -> bool {
    ||| unsafe_name(name)
    ||| name[0] == '.'
    ||| name == "container"@
    ||| name == "bifrost"@
    ||| name == "tmp"@
    ||| name == "Bifrost.toml"@
}

/// The container root under a home directory.
pub open spec fn container_spec(home: Seq<char>) -> Seq<char> {
    join_spec(join_spec(join_spec(home, ".bifrost"@), "container"@), "bifrost"@)
}

/// `<home>/.bifrost/container/bifrost/<name>`.
pub open spec fn candidate_spec(home: Seq<char>, name: Seq<char>) -> Seq<char> {
    join_spec(container_spec(home), name)
}

pub open spec fn name_view(name: Option<&String>) -> Option<Seq<char>> {
    match name {
        Some(n) => Some(n@),
        None => None,
    }
}

/// What preparing a new realm yields: the candidate path, unless the name is
/// missing or blacklisted, or an entry is already at the candidate path.
pub open spec fn create_outcome(home: Seq<char>, name: Option<Seq<char>>, exists: bool) -> Result<
    Seq<char>,
    BifrostError,
> {
    match name {
        None => Err(BifrostError::InvalidName),
        Some(n) => if blacklisted(n) {
            Err(BifrostError::InvalidName)
        } else if exists {
            Err(BifrostError::AlreadyExists)
        } else {
            Ok(candidate_spec(home, n))
        },
    }
}

/// What looking up a loaded realm yields: the candidate path when the name
/// is safe and an entry is there.
pub open spec fn existing_outcome(home: Seq<char>, name: Option<Seq<char>>, exists: bool) -> Result<
    Seq<char>,
    BifrostError,
> {
    match name {
        None => Err(BifrostError::InvalidName),
        Some(n) => if unsafe_name(n) {
            Err(BifrostError::InvalidName)
        } else if exists {
            Ok(candidate_spec(home, n))
        } else {
            Err(BifrostError::NotFound)
        },
    }
}

/// A safe name lands exactly one component below the container root.
pub proof fn lemma_candidate_below_container(home: Seq<char>, name: Seq<char>)
    requires
        !unsafe_name(name),
    ensures
        candidate_spec(home, name) == container_spec(home) + seq!['/'] + name,
{
    reveal_strlit("bifrost");
    let c = container_spec(home);
    assert(c.len() > 0 && c.last() == 't');
    assert(name[0] != '/');
}

/// Whether `name` is unsafe as a realm name.
fn is_unsafe(name: &str) -> (r: bool)
    ensures
        r == unsafe_name(name@),
{
    name.unicode_len() == 0 || same_text(name, ".") || same_text(name, "..") || contains_separator(
        name,
    )
}

/// A validated target path under the container root.
#[derive(Debug)]
pub struct BifrostPath {
    path: String,
}

impl View for BifrostPath {
    type V = Seq<char>;

    closed spec fn view(&self) -> Seq<char> {
        self.path@
    }
}

pub open spec fn path_outcome(r: BifrostResult<BifrostPath>) -> Result<Seq<char>, BifrostError> {
    match r {
        Ok(p) => Ok(p@),
        Err(e) => Err(e),
    }
}

impl Clone for BifrostPath {
    fn clone(&self) -> (r: Self)
        ensures
            r@ == self@,
    {
        BifrostPath { path: self.path.clone() }
    }
}

impl BifrostPath {
    /// The container root, `<home>/.bifrost/container/bifrost`.
    pub fn container(home_path: &str) -> (r: String)
        ensures
            r@ == container_spec(home_path@),
    {
        let a = join(home_path, ".bifrost");
        let b = join(a.as_str(), "container");
        join(b.as_str(), "bifrost")
    }

    /// The path a realm called `name` has under `home_path`; this is the path
    /// whose existence `new` and `try_from_existing` are told about.
    pub fn candidate(home_path: &str, name: &str) -> (r: String)
        ensures
            r@ == candidate_spec(home_path@, name@),
    {
        let c = BifrostPath::container(home_path);
        join(c.as_str(), name)
    }

    /// The underlying path.
    pub fn path(&self) -> (r: &String)
        ensures
            r@ == self@,
    {
        &self.path
    }

    /// Checks that the proposed name is present and not blacklisted.
    pub fn check(proposed_name: Option<&String>) -> (r: BifrostResult<()>)
        ensures
            r is Ok <==> (proposed_name is Some && !blacklisted(proposed_name.unwrap()@)),
            r is Err ==> r == Err::<(), _>(BifrostError::InvalidName),
    {
        match proposed_name {
            None => Err(BifrostError::InvalidName),
            Some(name) => {
                let s = name.as_str();
                if is_unsafe(s) || s.get_char(0) == '.' || same_text(s, "container") || same_text(
                    s,
                    "bifrost",
                ) || same_text(s, "tmp") || same_text(s, "Bifrost.toml") {
                    Err(BifrostError::InvalidName)
                } else {
                    Ok(())
                }
            },
        }
    }

    /// The target for loading a new realm. `exists` tells whether metadata
    /// can be read for `candidate(home_path, name)`.
    pub fn new(home_path: &str, name: Option<&String>, exists: bool) -> (r: BifrostResult<Self>)
        ensures
            path_outcome(r) == create_outcome(home_path@, name_view(name), exists),
            r matches Ok(p) ==> !unsafe_name(name.unwrap()@) && p@ == container_spec(home_path@)
                + seq!['/'] + name.unwrap()@,
    {
        BifrostPath::check(name)?;
        let name = name.unwrap();
        proof {
            lemma_candidate_below_container(home_path@, name@);
        }
        if exists {
            return Err(BifrostError::AlreadyExists);
        }
        Ok(BifrostPath { path: BifrostPath::candidate(home_path, name.as_str()) })
    }

    /// The target of a realm that was loaded before. `exists` tells whether
    /// metadata can be read for `candidate(home_path, name)`.
    pub fn try_from_existing(home_path: &str, name: Option<&String>, exists: bool) -> (r:
        BifrostResult<Self>)
        ensures
            path_outcome(r) == existing_outcome(home_path@, name_view(name), exists),
            r matches Ok(p) ==> !unsafe_name(name.unwrap()@) && p@ == container_spec(home_path@)
                + seq!['/'] + name.unwrap()@,
    {
        match name {
            None => Err(BifrostError::InvalidName),
            Some(n) => {
                if is_unsafe(n.as_str()) {
                    return Err(BifrostError::InvalidName);
                }
                proof {
                    lemma_candidate_below_container(home_path@, n@);
                }
                if !exists {
                    return Err(BifrostError::NotFound);
                }
                Ok(BifrostPath { path: BifrostPath::candidate(home_path, n.as_str()) })
            },
        }
    }
}

/// Preparing a new realm succeeds exactly when the name is present, not
/// blacklisted, and nothing is at the candidate path; looking up a loaded
/// realm by a name that stays below the container root succeeds exactly
/// when something is there. Both yield the same path, one component below
/// the container root.
pub proof fn lemma_guard_symmetry(home: Seq<char>, name: Seq<char>, exists: bool)
    requires
        !unsafe_name(name),
    ensures
        create_outcome(home, Some(name), exists) is Ok <==> (!exists && !blacklisted(name)),
        existing_outcome(home, Some(name), exists) is Ok <==> exists,
        create_outcome(home, Some(name), false) is Ok ==> create_outcome(home, Some(name), false)
            == existing_outcome(home, Some(name), true),
        existing_outcome(home, Some(name), true) == Ok::<Seq<char>, BifrostError>(
            container_spec(home) + seq!['/'] + name,
        ),
{
    lemma_candidate_below_container(home, name);
}

/// The path held by `maybe_path`, or the empty path.
pub fn get_path_or_empty(maybe_path: Option<BifrostPath>) -> (r: String)
    ensures
        r@ == match maybe_path {
            Some(p) => p@,
            None => Seq::<char>::empty(),
        },
{
    match maybe_path {
        Some(b) => b.path,
        None => String::new(),
    }
}

/// A short description of a path that could not be used.
pub fn handle_bad_path(path: String) -> (r: String)
    ensures
        path@.len() == 0 ==> r@ == "empty path"@,
        path@.len() != 0 ==> r@ == "bad string"@,
{
    if path.as_str().unicode_len() == 0 {
        String::from_str("empty path")
    } else {
        String::from_str("bad string")
    }
}

} // verus!
