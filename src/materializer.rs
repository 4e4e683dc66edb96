//! Recreating a walked tree under a target path, and checking afterwards
//! that every byte found by the walk was copied.
//!
//! The directories to create and the files to copy are planned here, in an
//! order where each directory comes after the one above it; the copying is
//! done by the caller, which reports back the bytes copied per file.
use vstd::prelude::*;
use crate::error::{BifrostError, BifrostResult};
use crate::operation_info::OperationInfo;
use crate::path_guard::BifrostPath;
use crate::text::{join_all, join_all_spec};
use crate::working_dir::{
    Entry,
    EntryKind,
    EntryView,
    WorkingDir,
    entry_views,
    lemma_walk_depth_ordered,
    lemma_walk_starts_at_root,
    pruned,
    rooted_at,
    strictly_above,
    total_size,
    views_of,
    walked_dirs,
};

verus! {

/// The components below the walked root: all names but the root's own.
pub open spec fn below_root(names: Seq<Seq<char>>) -> Seq<Seq<char>> {
    if names.len() == 0 {
        names
    } else {
        names.drop_first()
    }
}

/// Where an entry lands: the target joined with the entry's path from the
/// root's parent, that is with all its names.
pub open spec fn target_of(to: Seq<char>, e: EntryView) -> Seq<char> {
    join_all_spec(to, e.names)
}

/// Where an entry is read from: the walked root joined with the names below it.
pub open spec fn source_of(root: Seq<char>, e: EntryView) -> Seq<char> {
    join_all_spec(root, below_root(e.names))
}

/// The directories to create, in order: the target of each walked directory,
/// or the target itself when no directory was walked (a bare file).
pub open spec fn planned_dirs(to: Seq<char>, dirs: Seq<EntryView>) -> Seq<Seq<char>> {
    if dirs.len() == 0 {
        seq![to]
    } else {
        dirs.map_values(|e: EntryView| target_of(to, e))
    }
}

/// One file to copy.
#[derive(Debug)]
pub struct CopyStep {
    pub from: String,
    pub to: String,
}

/// The filesystem work of a load, in the order it is to be done.
#[derive(Debug)]
pub struct LoadPlan {
    /// Directories to create (with their missing parents), in order.
    pub dirs: Vec<String>,
    /// Files to copy, after all the directories exist.
    pub files: Vec<CopyStep>,
}

/// The sum of `s`.
pub open spec fn sum_of(s: Seq<u64>) -> int
    decreases s.len(),
{
    if s.len() == 0 {
        0
    } else {
        sum_of(s.drop_last()) + s.last()
    }
}

/// The names of `e` below the walked root.
fn names_below_root(e: &Entry) -> (r: Vec<String>)
    ensures
        views_of(r@) == below_root(e@.names),
{
    let mut r: Vec<String> = Vec::new();
    if e.names.len() == 0 {
        assert(views_of(r@) =~= below_root(e@.names));
        return r;
    }
    let mut i: usize = 1;
    while i < e.names.len()
        invariant
            1 <= i <= e.names.len(),
            r@ == e.names@.subrange(1, i as int),
        decreases e.names.len() - i,
    {
        r.push(e.names[i].clone());
        assert(r@ =~= e.names@.subrange(1, i + 1));
        i = i + 1;
    }
    assert(views_of(r@) =~= below_root(e@.names));
    r
}

/// The target directory of a walked directory.
pub fn target_dir(to: &BifrostPath, e: &Entry) -> (r: String)
    ensures
        r@ == target_of(to@, e@),
{
    join_all(to.path().as_str(), &e.names)
}

impl WorkingDir {
    /// The source path of each walked file, in order.
    pub fn file_paths(&self) -> (r: Vec<String>)
        ensures
            views_of(r@) == self.files_view().map_values(|e: EntryView| source_of(self.root_view(), e)),
    {
        let files_in = self.files();
        let ghost fv = self.files_view();
        let mut r: Vec<String> = Vec::new();
        let mut j: usize = 0;
        while j < files_in.len()
            invariant
                j <= files_in.len(),
                fv == entry_views(files_in@),
                views_of(r@) == fv.subrange(0, j as int).map_values(
                    |e: EntryView| source_of(self.root_view(), e),
                ),
            decreases files_in.len() - j,
        {
            let below = names_below_root(&files_in[j]);
            let from = join_all(self.root().as_str(), &below);
            assert(fv[j as int] == files_in@[j as int]@);
            let ghost before = views_of(r@);
            r.push(from);
            assert(views_of(r@) =~= before.push(from@));
            assert(views_of(r@) =~= fv.subrange(0, j + 1).map_values(
                |e: EntryView| source_of(self.root_view(), e),
            ));
            j = j + 1;
        }
        assert(fv.subrange(0, files_in.len() as int) == fv);
        r
    }

    /// Plans loading this walked tree into `to`.
    pub fn plan(&self, to: &BifrostPath) -> (r: LoadPlan)
        ensures
            views_of(r.dirs@) == planned_dirs(to@, self.dirs_view()),
            r.files@.len() == self.files_view().len(),
            forall|i: int|
                0 <= i < r.files@.len() ==> {
                    &&& (#[trigger] r.files@[i]).from@ == source_of(
                        self.root_view(),
                        self.files_view()[i],
                    )
                    &&& r.files@[i].to@ == target_of(to@, self.files_view()[i])
                },
    {
        let dirs_in = self.dirs();
        let files_in = self.files();
        let mut dirs: Vec<String> = Vec::new();
        if dirs_in.len() == 0 {
            dirs.push(to.path().clone());
            assert(views_of(dirs@) =~= planned_dirs(to@, self.dirs_view()));
        } else {
            let ghost dv = self.dirs_view();
            let mut i: usize = 0;
            while i < dirs_in.len()
                invariant
                    i <= dirs_in.len(),
                    dv == entry_views(dirs_in@),
                    dv.len() > 0,
                    views_of(dirs@) == dv.subrange(0, i as int).map_values(
                        |e: EntryView| target_of(to@, e),
                    ),
                decreases dirs_in.len() - i,
            {
                let t = target_dir(to, &dirs_in[i]);
                assert(dv[i as int] == dirs_in@[i as int]@);
                let ghost before = views_of(dirs@);
                dirs.push(t);
                assert(views_of(dirs@) =~= before.push(t@));
                assert(views_of(dirs@) =~= dv.subrange(0, i + 1).map_values(
                    |e: EntryView| target_of(to@, e),
                ));
                i = i + 1;
            }
            assert(dv.subrange(0, dirs_in.len() as int) == dv);
        }
        let ghost fv = self.files_view();
        let mut files: Vec<CopyStep> = Vec::new();
        let mut j: usize = 0;
        while j < files_in.len()
            invariant
                j <= files_in.len(),
                fv == entry_views(files_in@),
                files@.len() == j,
                forall|i: int|
                    0 <= i < j ==> {
                        &&& (#[trigger] files@[i]).from@ == source_of(self.root_view(), fv[i])
                        &&& files@[i].to@ == target_of(to@, fv[i])
                    },
            decreases files_in.len() - j,
        {
            let e = &files_in[j];
            let below = names_below_root(e);
            let from = join_all(self.root().as_str(), &below);
            let dest = target_dir(to, e);
            files.push(CopyStep { from, to: dest });
            j = j + 1;
        }
        LoadPlan { dirs, files }
    }
}

/// The bytes in `copied`, or `None` when the sum does not fit in 64 bits.
pub fn copied_bytes(copied: &Vec<u64>) -> (r: Option<u64>)
    ensures
        r is Some <==> sum_of(copied@) <= u64::MAX,
        r matches Some(n) ==> n == sum_of(copied@),
{
    let mut n: u64 = 0;
    let mut i: usize = 0;
    while i < copied.len()
        invariant
            i <= copied.len(),
            n == sum_of(copied@.subrange(0, i as int)),
        decreases copied.len() - i,
    {
        assert(copied@.subrange(0, i + 1).drop_last() == copied@.subrange(0, i as int));
        match n.checked_add(copied[i]) {
            Some(t) => n = t,
            None => {
                proof {
                    lemma_sum_prefix(copied@, i + 1);
                }
                return None;
            },
        }
        i = i + 1;
    }
    assert(copied@.subrange(0, copied.len() as int) == copied@);
    Some(n)
}

/// A prefix never sums to more than the whole.
pub proof fn lemma_sum_prefix(s: Seq<u64>, j: int)
    requires
        0 <= j <= s.len(),
    ensures
        sum_of(s.subrange(0, j)) <= sum_of(s),
    decreases s.len() - j,
{
    if j < s.len() {
        lemma_sum_prefix(s, j + 1);
        assert(s.subrange(0, j + 1).drop_last() == s.subrange(0, j));
    } else {
        assert(s.subrange(0, j) == s);
    }
}

/// Compares the bytes copied with the bytes walked.
pub fn try_load(walked: u64, copied: &Vec<u64>) -> (r: BifrostResult<OperationInfo>)
    ensures
        r is Ok <==> sum_of(copied@) == walked,
        r is Err ==> r == Err::<OperationInfo, _>(BifrostError::IncompleteLoad),
        r matches Ok(info) ==> info.bytes == Some(walked) && info.name@ == "default"@
            && info.text is None,
{
    match copied_bytes(copied) {
        Some(n) => {
            if n != walked {
                return Err(BifrostError::IncompleteLoad);
            }
            Ok(OperationInfo { name: String::from_str("default"), bytes: Some(n), text: None })
        },
        None => Err(BifrostError::IncompleteLoad),
    }
}

/// The sizes of `files`, in order.
pub open spec fn sizes_of(files: Seq<EntryView>) -> Seq<u64> {
    files.map_values(|e: EntryView| e.size)
}

/// Byte-count invariant: when every file is copied in full, the bytes copied
/// add up to the walked size, so the load succeeds; any other count is a
/// mismatch that the load reports as incomplete.
pub proof fn lemma_full_copy_sums(files: Seq<EntryView>, copied: Seq<u64>)
    requires
        copied == sizes_of(files),
    ensures
        sum_of(copied) == total_size(files),
    decreases files.len(),
{
    if files.len() > 0 {
        assert(sizes_of(files.drop_last()) =~= copied.drop_last());
        lemma_full_copy_sums(files.drop_last(), copied.drop_last());
    }
}

/// Directories are created parent first: for a walk that lists its root,
/// the plan creates the root's target first, each planned directory is the
/// target of the walked directory at the same place, and no directory is
/// planned after one that lies below it.
pub proof fn lemma_plan_creates_parents_first(
    to: Seq<char>,
    listing: Seq<EntryView>,
    ignore: Seq<Seq<char>>,
    root: EntryView,
)
    requires
        rooted_at(listing, root.names[0]),
        listing.contains(root),
        root.kind == EntryKind::Dir,
        root.names.len() == 1,
        !pruned(root, ignore),
    ensures
        planned_dirs(to, walked_dirs(listing, ignore)).len() == walked_dirs(listing, ignore).len(),
        planned_dirs(to, walked_dirs(listing, ignore))[0] == target_of(to, root),
        forall|i: int|
            0 <= i < walked_dirs(listing, ignore).len() ==> #[trigger] planned_dirs(
                to,
                walked_dirs(listing, ignore),
            )[i] == target_of(to, walked_dirs(listing, ignore)[i]),
        forall|i: int, j: int|
            0 <= i < j < walked_dirs(listing, ignore).len() ==> !strictly_above(
                #[trigger] walked_dirs(listing, ignore)[j].names,
                #[trigger] walked_dirs(listing, ignore)[i].names,
            ),
{
    lemma_walk_starts_at_root(listing, ignore, root);
    lemma_walk_depth_ordered(listing, ignore);
}

} // verus!
