//! Walking a project tree: pruning ignored names, ordering directories by
//! depth, and totalling the bytes that a load has to copy.
//!
//! The tree arrives as a listing: one `Entry` per filesystem entry under the
//! root (the root included), each naming its path components from the root
//! down. Which entries survive, and in what order, is decided here.
use vstd::prelude::*;
use crate::error::{BifrostError, BifrostResult};
use crate::materializer::{sum_of, try_load};
use crate::operation_info::OperationInfo;
use crate::text::{is_prefix_of, opt_text, parent_of, parent_spec, starts_with};

verus! {

/// What kind of filesystem object an entry is.
#[derive(Clone, Copy, Debug, PartialEq, Eq, Structural)]
pub enum EntryKind {
    Dir,
    File,
    /// Neither a directory nor a regular file (a dangling link, a socket).
    Other,
}

/// One entry of a listing.
#[derive(Debug)]
pub struct Entry {
    /// Path components from the walked root down to this entry; the root's
    /// own name comes first, so the depth is `names.len() - 1`.
    pub names: Vec<String>,
    pub kind: EntryKind,
    /// Size in bytes, as read from the entry's metadata.
    pub size: u64,
}

/// An entry as a mathematical value.
pub struct EntryView {
    pub names: Seq<Seq<char>>,
    pub kind: EntryKind,
    pub size: u64,
}

pub open spec fn views_of(v: Seq<String>) -> Seq<Seq<char>> {
    v.map_values(|s: String| s@)
}

impl View for Entry {
    type V = EntryView;

    open spec fn view(&self) -> EntryView {
        EntryView { names: views_of(self.names@), kind: self.kind, size: self.size }
    }
}

pub open spec fn entry_views(v: Seq<Entry>) -> Seq<EntryView> {
    v.map_values(|e: Entry| e@)
}

/// Whether some name of `ignore` is a prefix of `name`.
pub open spec fn ignorable_spec(name: Seq<char>, ignore: Seq<Seq<char>>) -> bool {
    exists|i: int| 0 <= i < ignore.len() && is_prefix_of(#[trigger] ignore[i], name)
}

/// An entry is pruned when its own name, or the name of any directory above
/// it, is ignorable.
pub open spec fn pruned(e: EntryView, ignore: Seq<Seq<char>>) -> bool {
    exists|j: int| 0 <= j < e.names.len() && ignorable_spec(#[trigger] e.names[j], ignore)
}

/// The entries of `s` of kind `k` that are not pruned, in listing order.
pub open spec fn kept(s: Seq<EntryView>, ignore: Seq<Seq<char>>, k: EntryKind) -> Seq<EntryView>
    decreases s.len(),
{
    if s.len() == 0 {
        Seq::empty()
    } else {
        let r = kept(s.drop_last(), ignore, k);
        if s.last().kind == k && !pruned(s.last(), ignore) {
            r.push(s.last())
        } else {
            r
        }
    }
}

/// The entries of `s` with exactly `k` names.
pub open spec fn at_level(s: Seq<EntryView>, k: nat) -> Seq<EntryView>
    decreases s.len(),
{
    if s.len() == 0 {
        Seq::empty()
    } else if s.last().names.len() == k {
        at_level(s.drop_last(), k).push(s.last())
    } else {
        at_level(s.drop_last(), k)
    }
}

/// The entries of `s` with fewer than `n` names, shallowest first, listing
/// order kept within one depth.
pub open spec fn levels(s: Seq<EntryView>, n: nat) -> Seq<EntryView>
    decreases n,
{
    if n == 0 {
        Seq::empty()
    } else {
        levels(s, (n - 1) as nat) + at_level(s, (n - 1) as nat)
    }
}

/// One more than the largest number of names in `s`.
pub open spec fn level_bound(s: Seq<EntryView>) -> nat
    decreases s.len(),
{
    if s.len() == 0 {
        0
    } else {
        let b = level_bound(s.drop_last());
        if s.last().names.len() + 1 > b {
            s.last().names.len() + 1
        } else {
            b
        }
    }
}

/// The entries of `s` ordered by depth.
pub open spec fn by_depth(s: Seq<EntryView>) -> Seq<EntryView> {
    levels(s, level_bound(s))
}

/// The sum of the sizes of `s`.
pub open spec fn total_size(s: Seq<EntryView>) -> int
    decreases s.len(),
{
    if s.len() == 0 {
        0
    } else {
        total_size(s.drop_last()) + s.last().size
    }
}

/// The directories a walk of `listing` yields: those not pruned, by depth.
pub open spec fn walked_dirs(listing: Seq<EntryView>, ignore: Seq<Seq<char>>) -> Seq<EntryView> {
    by_depth(kept(listing, ignore, EntryKind::Dir))
}

/// The files a walk of `listing` yields: those not pruned, in listing order.
pub open spec fn walked_files(listing: Seq<EntryView>, ignore: Seq<Seq<char>>) -> Seq<
    EntryView,
> {
    kept(listing, ignore, EntryKind::File)
}

/// Whether the depths along `s` never decrease.
pub open spec fn depth_ordered(s: Seq<EntryView>) -> bool {
    forall|i: int, j: int| 0 <= i < j < s.len() ==> s[i].names.len() <= s[j].names.len()
}

/// The names in `v`, copied.
pub fn copy_names(v: &Vec<String>) -> (r: Vec<String>)
    ensures
        r@ == v@,
{
    let mut r: Vec<String> = Vec::new();
    let mut i: usize = 0;
    while i < v.len()
        invariant
            i <= v.len(),
            r@ == v@.subrange(0, i as int),
        decreases v.len() - i,
    {
        r.push(v[i].clone());
        assert(r@ =~= v@.subrange(0, i + 1));
        i = i + 1;
    }
    assert(v@.subrange(0, v.len() as int) == v@);
    r
}

impl Clone for Entry {
    fn clone(&self) -> (r: Self)
        ensures
            r@ == self@,
    {
        Entry { names: copy_names(&self.names), kind: self.kind, size: self.size }
    }
}

/// Whether `name` has some name of `ignore_list` as a prefix.
pub fn ignorable(name: &str, ignore_list: &Vec<String>) -> (r: bool)
    ensures
        r == ignorable_spec(name@, views_of(ignore_list@)),
{
    let ghost l = views_of(ignore_list@);
    let mut i: usize = 0;
    while i < ignore_list.len()
        invariant
            i <= ignore_list.len(),
            l == views_of(ignore_list@),
            forall|k: int| 0 <= k < i ==> !is_prefix_of(#[trigger] l[k], name@),
        decreases ignore_list.len() - i,
    {
        if starts_with(name, ignore_list[i].as_str()) {
            assert(is_prefix_of(l[i as int], name@));
            return true;
        }
        i = i + 1;
    }
    false
}

/// Whether `e` lies at or under an ignorable name.
pub fn is_pruned(e: &Entry, ignore_list: &Vec<String>) -> (r: bool)
    ensures
        r == pruned(e@, views_of(ignore_list@)),
{
    let ghost l = views_of(ignore_list@);
    let mut j: usize = 0;
    while j < e.names.len()
        invariant
            j <= e.names.len(),
            l == views_of(ignore_list@),
            forall|k: int| 0 <= k < j ==> !ignorable_spec(#[trigger] e@.names[k], l),
        decreases e.names.len() - j,
    {
        if ignorable(e.names[j].as_str(), ignore_list) {
            assert(ignorable_spec(e@.names[j as int], l));
            return true;
        }
        j = j + 1;
    }
    false
}

/// Appending an entry adds its size to the total.
pub proof fn lemma_total_push(s: Seq<EntryView>, e: EntryView)
    ensures
        total_size(s.push(e)) == total_size(s) + e.size,
{
    assert(s.push(e).drop_last() == s);
}

/// A total of sizes is never negative.
pub proof fn lemma_total_nonneg(s: Seq<EntryView>)
    ensures
        total_size(s) >= 0,
    decreases s.len(),
{
    if s.len() > 0 {
        lemma_total_nonneg(s.drop_last());
    }
}

/// Each step of `kept` adds at most the entry at hand, so a prefix of the
/// listing never keeps more bytes than the whole.
pub proof fn lemma_kept_total_monotone(s: Seq<EntryView>, ignore: Seq<Seq<char>>, j: int)
    requires
        0 <= j <= s.len(),
    ensures
        total_size(kept(s.subrange(0, j), ignore, EntryKind::File)) <= total_size(
            kept(s, ignore, EntryKind::File),
        ),
    decreases s.len() - j,
{
    if j < s.len() {
        lemma_kept_total_monotone(s, ignore, j + 1);
        let p = s.subrange(0, j + 1);
        assert(p.drop_last() == s.subrange(0, j));
        if p.last().kind == EntryKind::File && !pruned(p.last(), ignore) {
            lemma_total_push(kept(s.subrange(0, j), ignore, EntryKind::File), p.last());
        }
    } else {
        assert(s.subrange(0, j) == s);
    }
}

/// A walked tree: the directories and files under `root` that survived
/// pruning, and the bytes its files hold.
#[derive(Debug)]
pub struct WorkingDir {
    pub(crate) parent: Option<String>,
    pub(crate) root: String,
    pub(crate) dirs: Vec<Entry>,
    pub(crate) files: Vec<Entry>,
    pub(crate) ignore_list: Vec<String>,
    pub(crate) size: u64,
}

impl WorkingDir {
    pub open(crate) spec fn root_view(&self) -> Seq<char> {
        self.root@
    }

    pub open(crate) spec fn parent_view(&self) -> Option<Seq<char>> {
        opt_text(self.parent)
    }

    pub open(crate) spec fn ignore_view(&self) -> Seq<Seq<char>> {
        views_of(self.ignore_list@)
    }

    pub open(crate) spec fn dirs_view(&self) -> Seq<EntryView> {
        entry_views(self.dirs@)
    }

    pub open(crate) spec fn files_view(&self) -> Seq<EntryView> {
        entry_views(self.files@)
    }

    pub open(crate) spec fn size_view(&self) -> u64 {
        self.size
    }

    /// The size is the sum of the files' sizes.
    pub open spec fn wf(&self) -> bool {
        self.size_view() == total_size(self.files_view())
    }

    /// A working directory rooted at `path`, with nothing walked yet.
    pub fn new(path: &str) -> (r: Self)
        ensures
            r.root_view() == path@,
            r.parent_view() == parent_spec(path@),
            r.ignore_view().len() == 0,
            r.dirs_view().len() == 0,
            r.files_view().len() == 0,
            r.size_view() == 0,
            r.wf(),
    {
        let r = WorkingDir {
            parent: parent_of(path),
            root: String::from_str(path),
            dirs: Vec::new(),
            files: Vec::new(),
            ignore_list: Vec::new(),
            size: 0,
        };
        assert(r.files_view() =~= Seq::empty());
        r
    }

    /// Adds `list` to the names to ignore; they take effect at the next walk.
    pub fn ignore(self, list: &Vec<String>) -> (r: Self)
        ensures
            r.ignore_view() == self.ignore_view() + views_of(list@),
            r.root_view() == self.root_view(),
            r.parent_view() == self.parent_view(),
            r.dirs_view() == self.dirs_view(),
            r.files_view() == self.files_view(),
            r.size_view() == self.size_view(),
    {
        let ghost old_ignore = self.ignore_view();
        let mut w = self;
        let mut i: usize = 0;
        while i < list.len()
            invariant
                i <= list.len(),
                w.ignore_list@ == self.ignore_list@ + list@.subrange(0, i as int),
                w.root_view() == self.root_view(),
                w.parent_view() == self.parent_view(),
                w.dirs_view() == self.dirs_view(),
                w.files_view() == self.files_view(),
                w.size_view() == self.size_view(),
            decreases list.len() - i,
        {
            w.ignore_list.push(list[i].clone());
            assert(w.ignore_list@ =~= self.ignore_list@ + list@.subrange(0, i + 1));
            i = i + 1;
        }
        assert(list@.subrange(0, list.len() as int) == list@);
        assert(views_of(w.ignore_list@) =~= old_ignore + views_of(list@));
        w
    }

    /// The walked root.
    pub fn root(&self) -> (r: &String)
        ensures
            r@ == self.root_view(),
    {
        &self.root
    }

    /// The directory above the root, when there is one.
    pub fn parent(&self) -> (r: Option<&String>)
        ensures
            match r {
                Some(p) => self.parent_view() == Some(p@),
                None => self.parent_view() is None,
            },
    {
        self.parent.as_ref()
    }

    /// The bytes held by the walked files.
    pub fn size(&self) -> (r: u64)
        ensures
            r == self.size_view(),
    {
        self.size
    }

    /// The walked directories, shallowest first.
    pub fn dirs(&self) -> (r: &Vec<Entry>)
        ensures
            entry_views(r@) == self.dirs_view(),
    {
        &self.dirs
    }

    /// The walked files.
    pub fn files(&self) -> (r: &Vec<Entry>)
        ensures
            entry_views(r@) == self.files_view(),
    {
        &self.files
    }

    /// The names being ignored.
    pub fn ignore_list(&self) -> (r: &Vec<String>)
        ensures
            views_of(r@) == self.ignore_view(),
    {
        &self.ignore_list
    }

    /// Walks `listing`, the entries found under the root. Entries at or under
    /// an ignorable name are left out; the other directories are kept ordered
    /// by depth, the other files in listing order, and their sizes summed.
    /// Fails only when that sum does not fit in 64 bits.
    pub fn walk(self, listing: &Vec<Entry>) -> (r: BifrostResult<Self>)
        ensures
            r is Ok <==> total_size(walked_files(entry_views(listing@), self.ignore_view()))
                <= u64::MAX,
            r is Err ==> r == Err::<Self, _>(BifrostError::TooLarge),
            r matches Ok(w) ==> {
                &&& w.root_view() == self.root_view()
                &&& w.parent_view() == self.parent_view()
                &&& w.ignore_view() == self.ignore_view()
                &&& w.dirs_view() == walked_dirs(entry_views(listing@), self.ignore_view())
                &&& w.files_view() == walked_files(entry_views(listing@), self.ignore_view())
                &&& w.size_view() == total_size(w.files_view())
                &&& w.wf()
            },
    {
        let ghost l = entry_views(listing@);
        let ghost ig = self.ignore_view();
        let mut kept_dirs: Vec<Entry> = Vec::new();
        let mut files: Vec<Entry> = Vec::new();
        let mut size: u64 = 0;
        let mut bound: u128 = 0;
        let mut i: usize = 0;
        while i < listing.len()
            invariant
                i <= listing.len(),
                l == entry_views(listing@),
                ig == views_of(self.ignore_list@),
                entry_views(kept_dirs@) == kept(l.subrange(0, i as int), ig, EntryKind::Dir),
                entry_views(files@) == kept(l.subrange(0, i as int), ig, EntryKind::File),
                size == total_size(entry_views(files@)),
                bound == level_bound(entry_views(kept_dirs@)),
            decreases listing.len() - i,
        {
            let e = &listing[i];
            assert(l.subrange(0, i + 1).drop_last() == l.subrange(0, i as int));
            assert(l.subrange(0, i + 1).last() == e@);
            let p = is_pruned(e, &self.ignore_list);
            if e.kind == EntryKind::Dir && !p {
                let n = e.names.len() as u128;
                let ghost before = entry_views(kept_dirs@);
                kept_dirs.push(e.clone());
                assert(entry_views(kept_dirs@) =~= before.push(e@));
                assert(entry_views(kept_dirs@).drop_last() == before);
                assert(e@.names.len() == e.names.len());
                assert(entry_views(kept_dirs@) =~= kept(l.subrange(0, i + 1), ig, EntryKind::Dir));
                if n >= bound {
                    bound = n + 1;
                }
                assert(entry_views(kept_dirs@).last() == e@);
            } else if e.kind == EntryKind::File && !p {
                match size.checked_add(e.size) {
                    Some(t) => {
                        let ghost before = entry_views(files@);
                        files.push(e.clone());
                        assert(entry_views(files@) =~= before.push(e@));
                        proof {
                            lemma_total_push(before, e@);
                        }
                        assert(entry_views(files@) =~= kept(l.subrange(0, i + 1), ig, EntryKind::File));
                        size = t;
                    },
                    None => {
                        proof {
                            lemma_kept_total_monotone(l, ig, i + 1);
                            lemma_total_push(entry_views(files@), e@);
                        }
                        return Err(BifrostError::TooLarge);
                    },
                }
            }
            i = i + 1;
        }
        assert(l.subrange(0, listing.len() as int) == l);
        let ghost kd = entry_views(kept_dirs@);
        let mut dirs: Vec<Entry> = Vec::new();
        let mut k: u128 = 0;
        while k < bound
            invariant
                k <= bound,
                kd == entry_views(kept_dirs@),
                entry_views(dirs@) == levels(kd, k as nat),
            decreases bound - k,
        {
            let mut j: usize = 0;
            while j < kept_dirs.len()
                invariant
                    k < bound,
                    j <= kept_dirs.len(),
                    kd == entry_views(kept_dirs@),
                    entry_views(dirs@) == levels(kd, k as nat) + at_level(
                        kd.subrange(0, j as int),
                        k as nat,
                    ),
                decreases kept_dirs.len() - j,
            {
                assert(kd.subrange(0, j + 1).drop_last() == kd.subrange(0, j as int));
                assert(kd.subrange(0, j + 1).last() == kd[j as int]);
                let ghost before = entry_views(dirs@);
                assert(kd[j as int].names.len() == kept_dirs@[j as int].names.len());
                if kept_dirs[j].names.len() as u128 == k {
                    dirs.push(kept_dirs[j].clone());
                    assert(entry_views(dirs@) =~= before.push(kd[j as int]));
                    assert(entry_views(dirs@) =~= levels(kd, k as nat) + at_level(
                        kd.subrange(0, j + 1),
                        k as nat,
                    ));
                } else {
                    assert(entry_views(dirs@) =~= levels(kd, k as nat) + at_level(
                        kd.subrange(0, j + 1),
                        k as nat,
                    ));
                }
                j = j + 1;
            }
            assert(kd.subrange(0, kept_dirs.len() as int) == kd);
            k = k + 1;
        }
        Ok(
            WorkingDir {
                parent: self.parent,
                root: self.root,
                dirs,
                files,
                ignore_list: self.ignore_list,
                size,
            },
        )
    }
}

impl WorkingDir {
    /// Finishes a load: `copied` holds the bytes copied for each planned file.
    /// The load is complete exactly when they add up to the walked size; the
    /// walked directories are drained either way.
    pub fn load(&mut self, copied: &Vec<u64>) -> (r: BifrostResult<OperationInfo>)
        ensures
            r is Ok <==> sum_of(copied@) == old(self).size_view(),
            r is Err ==> r == Err::<OperationInfo, _>(BifrostError::IncompleteLoad),
            r matches Ok(info) ==> info.bytes == Some(old(self).size_view()) && info.name@
                == "default"@ && info.text is None,
            final(self).dirs_view().len() == 0,
            final(self).files_view() == old(self).files_view(),
            final(self).root_view() == old(self).root_view(),
            final(self).size_view() == old(self).size_view(),
    {
        self.dirs = Vec::new();
        assert(self.dirs_view() =~= Seq::<EntryView>::empty());
        try_load(self.size, copied)
    }
}

/// What `kept` yields is of the kind asked for, not pruned, and drawn from
/// its input.
pub proof fn lemma_kept_members(s: Seq<EntryView>, ignore: Seq<Seq<char>>, k: EntryKind)
    ensures
        forall|i: int|
            0 <= i < kept(s, ignore, k).len() ==> {
                &&& (#[trigger] kept(s, ignore, k)[i]).kind == k
                &&& !pruned(kept(s, ignore, k)[i], ignore)
                &&& s.contains(kept(s, ignore, k)[i])
            },
    decreases s.len(),
{
    if s.len() > 0 {
        lemma_kept_members(s.drop_last(), ignore, k);
        let r = kept(s.drop_last(), ignore, k);
        assert forall|i: int| 0 <= i < r.len() implies s.contains(#[trigger] r[i]) by {
            let j = choose|j: int| 0 <= j < s.drop_last().len() && s.drop_last()[j] == r[i];
            assert(s[j] == r[i]);
        }
        assert(s[s.len() - 1] == s.last());
    }
}

/// What `at_level` yields has exactly `k` names and is drawn from its input.
pub proof fn lemma_at_level_members(s: Seq<EntryView>, k: nat)
    ensures
        forall|i: int|
            0 <= i < at_level(s, k).len() ==> {
                &&& (#[trigger] at_level(s, k)[i]).names.len() == k
                &&& s.contains(at_level(s, k)[i])
            },
    decreases s.len(),
{
    if s.len() > 0 {
        lemma_at_level_members(s.drop_last(), k);
        let r = at_level(s.drop_last(), k);
        assert forall|i: int| 0 <= i < r.len() implies s.contains(#[trigger] r[i]) by {
            let j = choose|j: int| 0 <= j < s.drop_last().len() && s.drop_last()[j] == r[i];
            assert(s[j] == r[i]);
        }
        assert(s[s.len() - 1] == s.last());
    }
}

/// What `levels(s, n)` yields has fewer than `n` names, is drawn from `s`,
/// and is ordered by depth.
pub proof fn lemma_levels_members(s: Seq<EntryView>, n: nat)
    ensures
        forall|i: int|
            0 <= i < levels(s, n).len() ==> {
                &&& (#[trigger] levels(s, n)[i]).names.len() < n
                &&& s.contains(levels(s, n)[i])
            },
        depth_ordered(levels(s, n)),
    decreases n,
{
    if n > 0 {
        let m = (n - 1) as nat;
        lemma_levels_members(s, m);
        lemma_at_level_members(s, m);
        let a = levels(s, m);
        let b = at_level(s, m);
        assert(levels(s, n) == a + b);
        assert forall|i: int| 0 <= i < (a + b).len() implies (#[trigger] (a + b)[i]).names.len()
            < n && s.contains((a + b)[i]) by {
            if i < a.len() {
                assert((a + b)[i] == a[i]);
            } else {
                assert((a + b)[i] == b[i - a.len()]);
            }
        }
        assert forall|i: int, j: int| 0 <= i < j < (a + b).len() implies (a + b)[i].names.len()
            <= (a + b)[j].names.len() by {
            if j < a.len() {
                assert((a + b)[i] == a[i]);
                assert((a + b)[j] == a[j]);
            } else if i < a.len() {
                assert((a + b)[i] == a[i]);
                assert((a + b)[j] == b[j - a.len()]);
            } else {
                assert((a + b)[i] == b[i - a.len()]);
                assert((a + b)[j] == b[j - a.len()]);
            }
        }
    }
}

/// Whether `p` names a directory strictly above the entry named by `c`.
pub open spec fn strictly_above(p: Seq<Seq<char>>, c: Seq<Seq<char>>) -> bool {
    p.len() < c.len() && c.subrange(0, p.len() as int) == p
}

/// Pruning: no directory or file that a walk yields has an ignorable name
/// on its path, so nothing at or beneath a pruned directory appears.
pub proof fn lemma_walk_prunes(listing: Seq<EntryView>, ignore: Seq<Seq<char>>)
    ensures
        forall|i: int|
            0 <= i < walked_files(listing, ignore).len() ==> !pruned(
                #[trigger] walked_files(listing, ignore)[i],
                ignore,
            ),
        forall|i: int|
            0 <= i < walked_dirs(listing, ignore).len() ==> !pruned(
                #[trigger] walked_dirs(listing, ignore)[i],
                ignore,
            ),
{
    lemma_kept_members(listing, ignore, EntryKind::File);
    let kd = kept(listing, ignore, EntryKind::Dir);
    lemma_kept_members(listing, ignore, EntryKind::Dir);
    lemma_levels_members(kd, level_bound(kd));
    assert forall|i: int| 0 <= i < walked_dirs(listing, ignore).len() implies !pruned(
        #[trigger] walked_dirs(listing, ignore)[i],
        ignore,
    ) by {
        let x = walked_dirs(listing, ignore)[i];
        let j = choose|j: int| 0 <= j < kd.len() && kd[j] == x;
    }
}

/// Depth ordering: the directories a walk yields never decrease in depth, so
/// creating them in order never creates a directory before one above it.
pub proof fn lemma_walk_depth_ordered(listing: Seq<EntryView>, ignore: Seq<Seq<char>>)
    ensures
        depth_ordered(walked_dirs(listing, ignore)),
        forall|i: int, j: int|
            0 <= i < j < walked_dirs(listing, ignore).len() ==> !strictly_above(
                #[trigger] walked_dirs(listing, ignore)[j].names,
                #[trigger] walked_dirs(listing, ignore)[i].names,
            ),
{
    let kd = kept(listing, ignore, EntryKind::Dir);
    lemma_levels_members(kd, level_bound(kd));
}

/// Idempotent walk: two walks of one unchanged listing with one ignore list
/// yield the same directories, the same files and the same size.
pub proof fn lemma_walk_idempotent(
    first: WorkingDir,
    second: WorkingDir,
    listing: Seq<EntryView>,
    ignore: Seq<Seq<char>>,
)
    requires
        first.dirs_view() == walked_dirs(listing, ignore),
        first.files_view() == walked_files(listing, ignore),
        first.wf(),
        second.dirs_view() == walked_dirs(listing, ignore),
        second.files_view() == walked_files(listing, ignore),
        second.wf(),
    ensures
        first.dirs_view().to_set() == second.dirs_view().to_set(),
        first.files_view().to_set() == second.files_view().to_set(),
        first.size_view() == second.size_view(),
{
}

/// Every entry of the kind asked for that is not pruned is kept.
pub proof fn lemma_kept_complete(s: Seq<EntryView>, ignore: Seq<Seq<char>>, k: EntryKind, x: EntryView)
    requires
        s.contains(x),
        x.kind == k,
        !pruned(x, ignore),
    ensures
        kept(s, ignore, k).contains(x),
    decreases s.len(),
{
    let r = kept(s.drop_last(), ignore, k);
    if x == s.last() {
        assert(kept(s, ignore, k).last() == x);
    } else {
        let i = choose|i: int| 0 <= i < s.len() && s[i] == x;
        assert(i != s.len() - 1);
        assert(s.drop_last()[i] == x);
        lemma_kept_complete(s.drop_last(), ignore, k, x);
        let j = choose|j: int| 0 <= j < r.len() && r[j] == x;
        assert(kept(s, ignore, k)[j] == x);
    }
}

/// Every entry with `k` names is at level `k`.
pub proof fn lemma_at_level_complete(s: Seq<EntryView>, k: nat, x: EntryView)
    requires
        s.contains(x),
        x.names.len() == k,
    ensures
        at_level(s, k).contains(x),
    decreases s.len(),
{
    let r = at_level(s.drop_last(), k);
    if x == s.last() {
        assert(at_level(s, k).last() == x);
    } else {
        let i = choose|i: int| 0 <= i < s.len() && s[i] == x;
        assert(s.drop_last()[i] == x);
        lemma_at_level_complete(s.drop_last(), k, x);
        let j = choose|j: int| 0 <= j < r.len() && r[j] == x;
        assert(at_level(s, k)[j] == x);
    }
}

/// The level bound lies above every entry's number of names.
pub proof fn lemma_level_bound_above(s: Seq<EntryView>, x: EntryView)
    requires
        s.contains(x),
    ensures
        x.names.len() < level_bound(s),
    decreases s.len(),
{
    if x != s.last() {
        let i = choose|i: int| 0 <= i < s.len() && s[i] == x;
        assert(s.drop_last()[i] == x);
        lemma_level_bound_above(s.drop_last(), x);
    }
}

/// Fewer levels give a prefix of more levels.
pub proof fn lemma_levels_prefix(s: Seq<EntryView>, n: nat, m: nat)
    requires
        n <= m,
    ensures
        levels(s, n).len() <= levels(s, m).len(),
        levels(s, m).subrange(0, levels(s, n).len() as int) == levels(s, n),
    decreases m,
{
    if n < m {
        lemma_levels_prefix(s, n, (m - 1) as nat);
        let a = levels(s, (m - 1) as nat);
        assert(levels(s, m) == a + at_level(s, (m - 1) as nat));
        assert((a + at_level(s, (m - 1) as nat)).subrange(0, a.len() as int) == a);
        assert(levels(s, m).subrange(0, levels(s, n).len() as int) == a.subrange(
            0,
            levels(s, n).len() as int,
        ));
    } else {
        assert(levels(s, m).subrange(0, levels(s, m).len() as int) == levels(s, m));
    }
}

/// Whether every entry of `s` lies under one root named `root`.
pub open spec fn rooted_at(s: Seq<EntryView>, root: Seq<char>) -> bool {
    forall|i: int| 0 <= i < s.len() ==> (#[trigger] s[i]).names.len() >= 1 && s[i].names[0] == root
}

/// The walk starts at the root: when every entry of the listing lies under
/// the root, and the root is listed as a directory and not pruned, the
/// first directory a walk yields is the root itself.
pub proof fn lemma_walk_starts_at_root(listing: Seq<EntryView>, ignore: Seq<Seq<char>>, root: EntryView)
    requires
        rooted_at(listing, root.names[0]),
        listing.contains(root),
        root.kind == EntryKind::Dir,
        root.names.len() == 1,
        !pruned(root, ignore),
    ensures
        walked_dirs(listing, ignore).len() > 0,
        walked_dirs(listing, ignore)[0].names == root.names,
{
    let kd = kept(listing, ignore, EntryKind::Dir);
    lemma_kept_members(listing, ignore, EntryKind::Dir);
    lemma_kept_complete(listing, ignore, EntryKind::Dir, root);
    lemma_at_level_members(kd, 0);
    lemma_at_level_members(kd, 1);
    if at_level(kd, 0).len() > 0 {
        let x = at_level(kd, 0)[0];
        let i = choose|i: int| 0 <= i < listing.len() && listing[i] == x;
        assert(listing[i].names.len() >= 1);
    }
    assert(levels(kd, 0).len() == 0);
    assert(levels(kd, 1) == levels(kd, 0) + at_level(kd, 0));
    assert(levels(kd, 1).len() == 0);
    lemma_at_level_complete(kd, 1, root);
    assert(levels(kd, 2) == levels(kd, 1) + at_level(kd, 1));
    assert(levels(kd, 2) =~= at_level(kd, 1));
    lemma_level_bound_above(kd, root);
    lemma_levels_prefix(kd, 2, level_bound(kd));
    let w = walked_dirs(listing, ignore);
    assert(w.subrange(0, levels(kd, 2).len() as int) == levels(kd, 2));
    assert(w[0] == at_level(kd, 1)[0]);
    let x = at_level(kd, 1)[0];
    let i = choose|i: int| 0 <= i < listing.len() && listing[i] == x;
    assert(listing[i].names[0] == root.names[0]);
    assert(x.names =~= root.names);
}

} // verus!
