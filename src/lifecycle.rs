//! The prepare → build → execute pipeline shared by load, show, unload and
//! run.
//!
//! Each space moves through `Stage`s in order. Every step after `prep`
//! requires the stage it follows, so calling steps out of order is refused
//! before the program runs; a second `prep` fails with `OutOfOrder` and
//! changes nothing. The filesystem and
//! process work of each execute step is done by the caller: the space says
//! what to do (the load plan, the listing flags, the path to delete, the
//! engine command) and is then told what happened.
use vstd::prelude::*;
use vstd::utf8::encode_utf8;
use crate::config::{BifrostManifest, CommandConfig};
use crate::error::{BifrostError, BifrostResult};
use crate::materializer::{
    LoadPlan,
    lemma_full_copy_sums,
    lemma_sum_prefix,
    planned_dirs,
    sizes_of,
    source_of,
    sum_of,
    target_of,
    try_load,
};
use crate::operation_info::OperationInfo;
use crate::options::BifrostOptions;
use crate::path_guard::{BifrostPath, candidate_spec, create_outcome, existing_outcome, path_outcome};
use crate::text::{join, join_spec, join_with, joined};
use crate::working_dir::{
    Entry,
    EntryView,
    WorkingDir,
    entry_views,
    lemma_total_nonneg,
    total_size,
    views_of,
    walked_dirs,
    walked_files,
};
use crate::workspace::WorkSpace;

verus! {

/// Where a space stands in its pipeline.
#[derive(Clone, Copy, Debug, PartialEq, Eq, Structural)]
pub enum Stage {
    Unprepared,
    Prepared,
    Built,
    Executed,
}

/// The sum of `s`.
pub open spec fn sum_int(s: Seq<int>) -> int
    decreases s.len(),
{
    if s.len() == 0 {
        0
    } else {
        sum_int(s.drop_last()) + s.last()
    }
}

/// A prefix of non-negative numbers never sums to more than the whole.
pub proof fn lemma_sum_int_prefix(s: Seq<int>, j: int)
    requires
        0 <= j <= s.len(),
        forall|i: int| 0 <= i < s.len() ==> s[i] >= 0,
    ensures
        sum_int(s.subrange(0, j)) <= sum_int(s),
    decreases s.len() - j,
{
    if j < s.len() {
        lemma_sum_int_prefix(s, j + 1);
        assert(s.subrange(0, j + 1).drop_last() == s.subrange(0, j));
    } else {
        assert(s.subrange(0, j) == s);
    }
}

/// The walked sizes of the working directories in `c`.
pub open spec fn sizes_of_dirs(c: Seq<WorkingDir>) -> Seq<u64> {
    c.map_values(|w: WorkingDir| w.size_view())
}

/// The bytes each walk of `c` over `listings` would find.
pub open spec fn walk_totals(c: Seq<WorkingDir>, listings: Seq<Vec<Entry>>) -> Seq<int> {
    Seq::new(
        c.len(),
        |i: int| total_size(walked_files(entry_views(listings[i]@), c[i].ignore_view())),
    )
}

/// Whether each list of copied byte counts adds up to its directory's size.
pub open spec fn all_copied(c: Seq<WorkingDir>, copied: Seq<Vec<u64>>) -> bool {
    forall|i: int| 0 <= i < c.len() ==> sum_of(#[trigger] copied[i]@) == c[i].size_view()
}

/// Whether `p` is the plan for loading `w` into `to`.
pub open spec fn planned(p: LoadPlan, to: Seq<char>, w: WorkingDir) -> bool {
    &&& views_of(p.dirs@) == planned_dirs(to, w.dirs_view())
    &&& p.files@.len() == w.files_view().len()
    &&& forall|i: int|
        0 <= i < p.files@.len() ==> {
            &&& (#[trigger] p.files@[i]).from@ == source_of(w.root_view(), w.files_view()[i])
            &&& p.files@[i].to@ == target_of(to, w.files_view()[i])
        }
}

/// Byte-count invariant for a whole load: when every file of every walked
/// directory is copied in full, the load's completeness condition holds.
pub proof fn lemma_full_load_completes(c: Seq<WorkingDir>, copied: Seq<Vec<u64>>)
    requires
        copied.len() == c.len(),
        forall|i: int| 0 <= i < c.len() ==> (#[trigger] c[i]).wf(),
        forall|i: int| 0 <= i < c.len() ==> (#[trigger] copied[i])@ == sizes_of(c[i].files_view()),
    ensures
        all_copied(c, copied),
{
    assert forall|i: int| 0 <= i < c.len() implies sum_of(#[trigger] copied[i]@) == c[i].size_view() by {
        lemma_full_copy_sums(c[i].files_view(), copied[i]@);
    }
}

/// The realm path that `name` gives under `ws`'s home directory.
pub open spec fn realm_path(ws: WorkSpace) -> Seq<char> {
    candidate_spec(ws.config_view().home_view(), ws.name_view().unwrap())
}

/// The target path to check before preparing, when the realm has a name.
fn proposed(ws: &WorkSpace) -> (r: Option<String>)
    ensures
        match r {
            Some(p) => ws.name_view() matches Some(n) && p@ == candidate_spec(
                ws.config_view().home_view(),
                n,
            ),
            None => ws.name_view() is None,
        },
{
    match ws.name() {
        Some(n) => Some(BifrostPath::candidate(ws.config().home_path().as_str(), n.as_str())),
        None => None,
    }
}

/// A space that copies working directories into a new realm.
#[derive(Debug)]
pub struct LoadSpace {
    pub(crate) workspace: WorkSpace,
    pub(crate) target: Option<BifrostPath>,
    pub(crate) stage: Stage,
}

impl LoadSpace {
    pub open(crate) spec fn workspace_view(&self) -> WorkSpace {
        self.workspace
    }

    pub open(crate) spec fn target_view(&self) -> Option<Seq<char>> {
        match self.target {
            Some(p) => Some(p@),
            None => None,
        }
    }

    pub open(crate) spec fn stage(&self) -> Stage {
        self.stage
    }

    pub open spec fn is_fresh(&self) -> bool {
        &&& self.stage() == Stage::Unprepared
        &&& self.target_view() is None
        &&& self.wf()
    }

    /// The working directories.
    pub open spec fn dirs(&self) -> Seq<WorkingDir> {
        self.workspace_view().contents_view().unwrap()
    }

    /// The roots of the working directories, in order.
    pub open spec fn roots(&self) -> Seq<Seq<char>> {
        self.dirs().map_values(|w: WorkingDir| w.root_view())
    }

    /// Prepared spaces have a name and a target; built ones have walked
    /// every working directory, and their size is the sum of the walks.
    pub open(crate) spec fn wf(&self) -> bool {
        &&& self.workspace.contents_view() is Some
        &&& self.stage == Stage::Unprepared ==> self.target is None
        &&& self.stage != Stage::Unprepared ==> self.workspace.name_view() is Some
            && self.target_view() == Some(realm_path(self.workspace))
        &&& (self.stage == Stage::Built || self.stage == Stage::Executed) ==> {
            &&& forall|i: int| 0 <= i < self.dirs().len() ==> (#[trigger] self.dirs()[i]).wf()
            &&& sum_of(sizes_of_dirs(self.dirs())) == self.workspace.size_view()
        }
    }

    pub(crate) fn new(workspace: WorkSpace) -> (r: Self)
        requires
            workspace.contents_view() is Some,
        ensures
            r.is_fresh(),
            r.workspace_view() == workspace,
    {
        LoadSpace { workspace, target: None, stage: Stage::Unprepared }
    }

    /// The workspace being loaded.
    pub fn workspace(&self) -> (r: &WorkSpace)
        ensures
            *r == self.workspace_view(),
    {
        &self.workspace
    }

    /// Where the space stands.
    pub fn current_stage(&self) -> (r: Stage)
        ensures
            r == self.stage(),
    {
        self.stage
    }

    /// The home directory of the configuration.
    pub fn home_path(&self) -> (r: &String)
        ensures
            r@ == self.workspace_view().config_view().home_view(),
    {
        self.workspace.config().home_path()
    }

    /// The realm name.
    pub fn name(&self) -> (r: Option<&String>)
        ensures
            match r {
                Some(n) => self.workspace_view().name_view() == Some(n@),
                None => self.workspace_view().name_view() is None,
            },
    {
        self.workspace.name()
    }

    /// The prepared target.
    pub fn target(&self) -> (r: Option<BifrostPath>)
        ensures
            match r {
                Some(p) => self.target_view() == Some(p@),
                None => self.target_view() is None,
            },
    {
        match &self.target {
            Some(p) => Some(p.clone()),
            None => None,
        }
    }

    /// The path whose existence `prep` must be told.
    pub fn proposed_target(&self) -> (r: Option<String>)
        ensures
            match r {
                Some(p) => self.workspace_view().name_view() matches Some(n) && p@
                    == candidate_spec(self.workspace_view().config_view().home_view(), n),
                None => self.workspace_view().name_view() is None,
            },
    {
        proposed(&self.workspace)
    }

    /// Validates the target: `target_exists` tells whether an entry is at
    /// `proposed_target()`. A second call fails.
    pub fn prep(&mut self, target_exists: bool) -> (r: BifrostResult<()>)
        requires
            old(self).wf(),
        ensures
            final(self).wf(),
            final(self).workspace_view() == old(self).workspace_view(),
            old(self).stage() != Stage::Unprepared ==> r == Err::<(), _>(BifrostError::OutOfOrder),
            old(self).stage() == Stage::Unprepared ==> match create_outcome(
                old(self).workspace_view().config_view().home_view(),
                old(self).workspace_view().name_view(),
                target_exists,
            ) {
                Ok(p) => r is Ok && final(self).target_view() == Some(p),
                Err(e) => r == Err::<(), _>(e),
            },
            r is Ok ==> final(self).stage() == Stage::Prepared,
            r is Err ==> final(self).stage() == old(self).stage() && final(self).target_view()
                == old(self).target_view(),
    {
        if self.stage != Stage::Unprepared {
            return Err(BifrostError::OutOfOrder);
        }
        let home = self.workspace.config().home_path().as_str();
        let path = BifrostPath::new(home, self.workspace.name(), target_exists);
        match path {
            Ok(p) => {
                self.target = Some(p);
                self.stage = Stage::Prepared;
                Ok(())
            },
            Err(e) => Err(e),
        }
    }

    /// Walks each working directory over its listing (`listings[i]` for the
    /// `i`-th root). Fails, changing nothing, when a total does not fit in
    /// 64 bits.
    pub fn build(&mut self, listings: &Vec<Vec<Entry>>) -> (r: BifrostResult<()>)
        requires
            old(self).wf(),
            old(self).stage() == Stage::Prepared,
            listings@.len() == old(self).dirs().len(),
        ensures
            final(self).wf(),
            r is Ok <==> sum_int(walk_totals(old(self).dirs(), listings@)) <= u64::MAX,
            r is Err ==> r == Err::<(), _>(BifrostError::TooLarge) && *final(self) == *old(self),
            r is Ok ==> {
                &&& final(self).stage() == Stage::Built
                &&& final(self).target_view() == old(self).target_view()
                &&& final(self).workspace_view().name_view() == old(self).workspace_view().name_view()
                &&& final(self).workspace_view().config_view() == old(self).workspace_view().config_view()
                &&& final(self).roots() == old(self).roots()
                &&& final(self).dirs().len() == old(self).dirs().len()
                &&& forall|i: int|
                    0 <= i < final(self).dirs().len() ==> {
                        &&& (#[trigger] final(self).dirs()[i]).dirs_view() == walked_dirs(
                            entry_views(listings@[i]@),
                            old(self).dirs()[i].ignore_view(),
                        )
                        &&& final(self).dirs()[i].files_view() == walked_files(
                            entry_views(listings@[i]@),
                            old(self).dirs()[i].ignore_view(),
                        )
                    }
                &&& final(self).workspace_view().size_view() == sum_int(
                    walk_totals(old(self).dirs(), listings@),
                )
            },
    {
        let ghost totals = walk_totals(self.dirs(), listings@);
        proof {
            assert forall|i: int| 0 <= i < totals.len() implies totals[i] >= 0 by {
                lemma_total_nonneg(walked_files(entry_views(listings@[i]@), self.dirs()[i].ignore_view()));
            }
        }
        let contents = self.workspace.contents.as_ref().unwrap();
        let mut walked: Vec<WorkingDir> = Vec::new();
        let mut nbytes: u64 = 0;
        let mut i: usize = 0;
        while i < contents.len()
            invariant
                i <= contents.len(),
                *self == *old(self),
                self.wf(),
                self.stage == Stage::Prepared,
                contents@ == self.dirs(),
                listings@.len() == contents.len(),
                totals == walk_totals(self.dirs(), listings@),
                forall|k: int| 0 <= k < totals.len() ==> totals[k] >= 0,
                walked@.len() == i,
                nbytes == sum_int(totals.subrange(0, i as int)),
                forall|k: int|
                    0 <= k < i ==> {
                        &&& (#[trigger] walked@[k]).wf()
                        &&& walked@[k].root_view() == contents@[k].root_view()
                        &&& walked@[k].ignore_view() == contents@[k].ignore_view()
                        &&& walked@[k].dirs_view() == walked_dirs(
                            entry_views(listings@[k]@),
                            contents@[k].ignore_view(),
                        )
                        &&& walked@[k].files_view() == walked_files(
                            entry_views(listings@[k]@),
                            contents@[k].ignore_view(),
                        )
                        &&& walked@[k].size_view() == totals[k]
                    },
            decreases contents.len() - i,
        {
            assert(totals.subrange(0, i + 1).drop_last() == totals.subrange(0, i as int));
            let fresh = WorkingDir::new(contents[i].root().as_str()).ignore(contents[i].ignore_list());
            assert(fresh.ignore_view() =~= contents@[i as int].ignore_view());
            match fresh.walk(&listings[i]) {
                Ok(w) => {
                    match nbytes.checked_add(w.size()) {
                        Some(t) => {
                            nbytes = t;
                        },
                        None => {
                            proof {
                                lemma_sum_int_prefix(totals, i + 1);
                            }
                            return Err(BifrostError::TooLarge);
                        },
                    }
                    walked.push(w);
                },
                Err(e) => {
                    proof {
                        lemma_sum_int_prefix(totals, i + 1);
                        lemma_sum_int_prefix(totals.subrange(0, i + 1), i as int);
                        let prefix = totals.subrange(0, i + 1);
                        assert(prefix.subrange(0, i as int) == totals.subrange(0, i as int));
                        assert(sum_int(totals.subrange(0, i as int)) >= 0) by {
                            lemma_sum_int_nonneg(totals.subrange(0, i as int));
                        }
                    }
                    return Err(BifrostError::TooLarge);
                },
            }
            i = i + 1;
        }
        assert(totals.subrange(0, contents.len() as int) == totals);
        let ghost old_roots = self.roots();
        self.workspace.contents = Some(walked);
        self.workspace.size = nbytes;
        self.stage = Stage::Built;
        proof {
            assert(self.dirs() == walked@);
            assert(self.roots() =~= old_roots);
            assert(sizes_of_dirs(walked@) =~= totals.map_values(|t: int| t as u64));
            assert forall|k: int| 0 <= k < totals.len() implies 0 <= #[trigger] totals[k] <= u64::MAX by {
                assert(walked@[k].size_view() == totals[k]);
            }
            lemma_sum_cast(totals);
        }
        Ok(())
    }

    /// The directories to create and files to copy, per working directory.
    pub fn plan(&self) -> (r: Vec<LoadPlan>)
        requires
            self.wf(),
            self.stage() == Stage::Built,
        ensures
            r@.len() == self.dirs().len(),
            forall|i: int|
                0 <= i < r@.len() ==> planned(
                    #[trigger] r@[i],
                    self.target_view().unwrap(),
                    self.dirs()[i],
                ),
    {
        let target = self.target.as_ref().unwrap();
        let contents = self.workspace.contents.as_ref().unwrap();
        let mut plans: Vec<LoadPlan> = Vec::new();
        let mut i: usize = 0;
        while i < contents.len()
            invariant
                i <= contents.len(),
                contents@ == self.dirs(),
                self.target_view() == Some(target@),
                plans@.len() == i,
                forall|k: int| 0 <= k < i ==> planned(#[trigger] plans@[k], target@, contents@[k]),
            decreases contents.len() - i,
        {
            plans.push(contents[i].plan(target));
            i = i + 1;
        }
        plans
    }

    /// Finishes the load: `copied[i]` holds the bytes copied for each file
    /// of the `i`-th plan. Succeeds exactly when every working directory was
    /// copied in full, reporting the bytes loaded and the realm name.
    pub fn load(&mut self, copied: &Vec<Vec<u64>>) -> (r: BifrostResult<OperationInfo>)
        requires
            old(self).wf(),
            old(self).stage() == Stage::Built,
            copied@.len() == old(self).dirs().len(),
        ensures
            final(self).wf(),
            final(self).workspace_view() == old(self).workspace_view(),
            final(self).target_view() == old(self).target_view(),
            r is Ok <==> all_copied(old(self).dirs(), copied@),
            r is Err ==> r == Err::<OperationInfo, _>(BifrostError::IncompleteLoad)
                && final(self).stage() == old(self).stage(),
            r matches Ok(info) ==> {
                &&& info.bytes == Some(old(self).workspace_view().size_view())
                &&& Some(info.name@) == old(self).workspace_view().name_view()
                &&& info.text is None
                &&& final(self).stage() == Stage::Executed
            },
    {
        let contents = self.workspace.contents.as_ref().unwrap();
        let ghost sizes = sizes_of_dirs(contents@);
        let mut nbytes: u64 = 0;
        let mut i: usize = 0;
        while i < contents.len()
            invariant
                i <= contents.len(),
                *self == *old(self),
                self.wf(),
                self.stage == Stage::Built,
                contents@ == self.dirs(),
                sizes == sizes_of_dirs(contents@),
                copied@.len() == contents.len(),
                sum_of(sizes) == self.workspace.size_view(),
                nbytes == sum_of(sizes.subrange(0, i as int)),
                forall|k: int| 0 <= k < i ==> sum_of(#[trigger] copied@[k]@) == contents@[k].size_view(),
            decreases contents.len() - i,
        {
            assert(sizes.subrange(0, i + 1).drop_last() == sizes.subrange(0, i as int));
            match try_load(contents[i].size(), &copied[i]) {
                Ok(info) => {
                    let n = info.bytes.unwrap();
                    proof {
                        lemma_sum_prefix(sizes, i + 1);
                    }
                    nbytes = nbytes + n;
                },
                Err(_) => {
                    return Err(BifrostError::IncompleteLoad);
                },
            }
            i = i + 1;
        }
        assert(sizes.subrange(0, contents.len() as int) == sizes);
        if nbytes != self.workspace.size {
            return Err(BifrostError::IncompleteLoad);
        }
        let name = self.workspace.name().unwrap().clone();
        self.stage = Stage::Executed;
        Ok(OperationInfo { name, bytes: Some(nbytes), text: None })
    }

    /// The execute step of a load: `load`.
    pub fn exec(&mut self, copied: &Vec<Vec<u64>>) -> (r: BifrostResult<OperationInfo>)
        requires
            old(self).wf(),
            old(self).stage() == Stage::Built,
            copied@.len() == old(self).dirs().len(),
        ensures
            final(self).wf(),
            final(self).workspace_view() == old(self).workspace_view(),
            final(self).target_view() == old(self).target_view(),
            r is Ok <==> all_copied(old(self).dirs(), copied@),
            r is Err ==> r == Err::<OperationInfo, _>(BifrostError::IncompleteLoad)
                && final(self).stage() == old(self).stage(),
            r matches Ok(info) ==> {
                &&& info.bytes == Some(old(self).workspace_view().size_view())
                &&& Some(info.name@) == old(self).workspace_view().name_view()
                &&& info.text is None
                &&& final(self).stage() == Stage::Executed
            },
    {
        self.load(copied)
    }
}

/// Non-negative numbers have a non-negative sum.
pub proof fn lemma_sum_int_nonneg(s: Seq<int>)
    requires
        forall|i: int| 0 <= i < s.len() ==> s[i] >= 0,
    ensures
        sum_int(s) >= 0,
    decreases s.len(),
{
    if s.len() > 0 {
        lemma_sum_int_nonneg(s.drop_last());
    }
}

/// Numbers that fit in 64 bits sum the same as their 64-bit casts.
pub proof fn lemma_sum_cast(s: Seq<int>)
    requires
        forall|i: int| 0 <= i < s.len() ==> 0 <= #[trigger] s[i] <= u64::MAX,
    ensures
        sum_of(s.map_values(|t: int| t as u64)) == sum_int(s),
    decreases s.len(),
{
    if s.len() > 0 {
        assert(s.map_values(|t: int| t as u64).drop_last() =~= s.drop_last().map_values(
            |t: int| t as u64,
        ));
        lemma_sum_cast(s.drop_last());
    }
}

/// What a space of an existing realm yields when prepared: the realm's
/// path when an entry is there.
pub open spec fn existing_target(ws: WorkSpace, exists: bool) -> Result<Seq<char>, BifrostError> {
    existing_outcome(ws.config_view().home_view(), ws.name_view(), exists)
}

/// Prepares a space of an existing realm: the common part of show, unload
/// and run.
fn prep_existing(ws: &WorkSpace, stage: Stage, target_exists: bool) -> (r: BifrostResult<BifrostPath>)
    ensures
        stage != Stage::Unprepared ==> r == Err::<BifrostPath, _>(BifrostError::OutOfOrder),
        stage == Stage::Unprepared ==> path_outcome(r) == existing_target(*ws, target_exists),
{
    if stage != Stage::Unprepared {
        return Err(BifrostError::OutOfOrder);
    }
    BifrostPath::try_from_existing(ws.config().home_path().as_str(), ws.name(), target_exists)
}

/// A space that lists the files of a loaded realm.
#[derive(Debug)]
pub struct ShowSpace {
    pub(crate) workspace: WorkSpace,
    pub(crate) target: Option<BifrostPath>,
    pub(crate) opts: Option<BifrostOptions>,
    pub(crate) stage: Stage,
}

impl ShowSpace {
    pub open(crate) spec fn workspace_view(&self) -> WorkSpace {
        self.workspace
    }

    pub open(crate) spec fn target_view(&self) -> Option<Seq<char>> {
        match self.target {
            Some(p) => Some(p@),
            None => None,
        }
    }

    pub open(crate) spec fn opts_view(&self) -> Option<BifrostOptions> {
        self.opts
    }

    pub open(crate) spec fn stage(&self) -> Stage {
        self.stage
    }

    pub open(crate) spec fn wf(&self) -> bool {
        &&& self.stage == Stage::Unprepared ==> self.target is None
        &&& self.stage != Stage::Unprepared ==> self.workspace.name_view() is Some
            && self.target_view() == Some(realm_path(self.workspace))
    }

    pub open spec fn is_fresh(&self) -> bool {
        &&& self.stage() == Stage::Unprepared
        &&& self.target_view() is None
        &&& self.wf()
    }

    pub(crate) fn new(workspace: WorkSpace, opts: Option<BifrostOptions>) -> (r: Self)
        ensures
            r.is_fresh(),
            r.workspace_view() == workspace,
            r.opts_view() == opts,
    {
        ShowSpace { workspace, target: None, opts, stage: Stage::Unprepared }
    }

    /// Where the space stands.
    pub fn current_stage(&self) -> (r: Stage)
        ensures
            r == self.stage(),
    {
        self.stage
    }

    /// The home directory of the configuration.
    pub fn home_path(&self) -> (r: &String)
        ensures
            r@ == self.workspace_view().config_view().home_view(),
    {
        self.workspace.config().home_path()
    }

    /// The realm name.
    pub fn name(&self) -> (r: Option<&String>)
        ensures
            match r {
                Some(n) => self.workspace_view().name_view() == Some(n@),
                None => self.workspace_view().name_view() is None,
            },
    {
        self.workspace.name()
    }

    /// The prepared target.
    pub fn target(&self) -> (r: Option<BifrostPath>)
        ensures
            match r {
                Some(p) => self.target_view() == Some(p@),
                None => self.target_view() is None,
            },
    {
        match &self.target {
            Some(p) => Some(p.clone()),
            None => None,
        }
    }

    /// The path whose existence `prep` must be told.
    pub fn proposed_target(&self) -> (r: Option<String>)
        ensures
            match r {
                Some(p) => self.workspace_view().name_view() matches Some(n) && p@
                    == candidate_spec(self.workspace_view().config_view().home_view(), n),
                None => self.workspace_view().name_view() is None,
            },
    {
        proposed(&self.workspace)
    }

    /// Finds the loaded realm: `target_exists` tells whether an entry is at
    /// `proposed_target()`.
    pub fn prep(&mut self, target_exists: bool) -> (r: BifrostResult<()>)
        requires
            old(self).wf(),
        ensures
            final(self).wf(),
            final(self).workspace_view() == old(self).workspace_view(),
            final(self).opts_view() == old(self).opts_view(),
            old(self).stage() != Stage::Unprepared ==> r == Err::<(), _>(BifrostError::OutOfOrder),
            old(self).stage() == Stage::Unprepared ==> match existing_target(
                old(self).workspace_view(),
                target_exists,
            ) {
                Ok(p) => r is Ok && final(self).target_view() == Some(p),
                Err(e) => r == Err::<(), _>(e),
            },
            r is Ok ==> final(self).stage() == Stage::Prepared,
            r is Err ==> final(self).stage() == old(self).stage() && final(self).target_view()
                == old(self).target_view(),
    {
        let p = prep_existing(&self.workspace, self.stage, target_exists)?;
        self.target = Some(p);
        self.stage = Stage::Prepared;
        Ok(())
    }

    /// Settles how the realm is listed.
    pub fn build(&mut self)
        requires
            old(self).wf(),
            old(self).stage() == Stage::Prepared,
        ensures
            final(self).wf(),
            final(self).workspace_view() == old(self).workspace_view(),
            final(self).target_view() == old(self).target_view(),
            final(self).opts_view() == old(self).opts_view(),
            final(self).stage() == Stage::Built,
    {
        self.stage = Stage::Built;
    }

    /// The flags of the directory listing: everything, recursively, when the
    /// options ask for it, else a long listing in reverse order.
    pub fn listing_flags(&self) -> (r: String)
        ensures
            r@ == if self.opts_view() matches Some(o) && o.verbose {
                "-laR"@
            } else {
                "-lr"@
            },
    {
        match &self.opts {
            Some(opts) => {
                if opts.verbose {
                    return String::from_str("-laR");
                }
            },
            None => {},
        }
        String::from_str("-lr")
    }

    /// Finishes the show with the listing captured from the target, or
    /// `None` when it could not be captured.
    pub fn show(&mut self, listing: Option<Vec<u8>>) -> (r: BifrostResult<OperationInfo>)
        requires
            old(self).wf(),
            old(self).stage() == Stage::Built,
        ensures
            final(self).wf(),
            final(self).workspace_view() == old(self).workspace_view(),
            final(self).target_view() == old(self).target_view(),
            r is Ok <==> listing is Some,
            r is Err ==> r == Err::<OperationInfo, _>(BifrostError::IoFailure)
                && final(self).stage() == old(self).stage(),
            r matches Ok(info) ==> {
                &&& Some(info.name@) == old(self).workspace_view().name_view()
                &&& info.text == listing
                &&& info.bytes is None
                &&& final(self).stage() == Stage::Executed
            },
    {
        match listing {
            Some(out) => {
                let name = self.workspace.name().unwrap().clone();
                self.stage = Stage::Executed;
                Ok(OperationInfo { name, bytes: None, text: Some(out) })
            },
            None => Err(BifrostError::IoFailure),
        }
    }

    /// The execute step of a show: `show`.
    pub fn exec(&mut self, listing: Option<Vec<u8>>) -> (r: BifrostResult<OperationInfo>)
        requires
            old(self).wf(),
            old(self).stage() == Stage::Built,
        ensures
            final(self).wf(),
            final(self).workspace_view() == old(self).workspace_view(),
            final(self).target_view() == old(self).target_view(),
            r is Ok <==> listing is Some,
            r is Err ==> r == Err::<OperationInfo, _>(BifrostError::IoFailure)
                && final(self).stage() == old(self).stage(),
            r matches Ok(info) ==> {
                &&& Some(info.name@) == old(self).workspace_view().name_view()
                &&& info.text == listing
                &&& info.bytes is None
                &&& final(self).stage() == Stage::Executed
            },
    {
        self.show(listing)
    }
}

/// A space that deletes a loaded realm.
#[derive(Debug)]
pub struct UnloadSpace {
    pub(crate) workspace: WorkSpace,
    pub(crate) target: Option<BifrostPath>,
    pub(crate) stage: Stage,
}

impl UnloadSpace {
    pub open(crate) spec fn workspace_view(&self) -> WorkSpace {
        self.workspace
    }

    pub open(crate) spec fn target_view(&self) -> Option<Seq<char>> {
        match self.target {
            Some(p) => Some(p@),
            None => None,
        }
    }

    pub open(crate) spec fn stage(&self) -> Stage {
        self.stage
    }

    pub open(crate) spec fn wf(&self) -> bool {
        &&& self.stage == Stage::Unprepared ==> self.target is None
        &&& self.stage != Stage::Unprepared ==> self.workspace.name_view() is Some
            && self.target_view() == Some(realm_path(self.workspace))
    }

    pub open spec fn is_fresh(&self) -> bool {
        &&& self.stage() == Stage::Unprepared
        &&& self.target_view() is None
        &&& self.wf()
    }

    pub(crate) fn new(workspace: WorkSpace) -> (r: Self)
        ensures
            r.is_fresh(),
            r.workspace_view() == workspace,
    {
        UnloadSpace { workspace, target: None, stage: Stage::Unprepared }
    }

    /// Where the space stands.
    pub fn current_stage(&self) -> (r: Stage)
        ensures
            r == self.stage(),
    {
        self.stage
    }

    /// The home directory of the configuration.
    pub fn home_path(&self) -> (r: &String)
        ensures
            r@ == self.workspace_view().config_view().home_view(),
    {
        self.workspace.config().home_path()
    }

    /// The realm name.
    pub fn name(&self) -> (r: Option<&String>)
        ensures
            match r {
                Some(n) => self.workspace_view().name_view() == Some(n@),
                None => self.workspace_view().name_view() is None,
            },
    {
        self.workspace.name()
    }

    /// The prepared target: the directory tree to delete.
    pub fn target(&self) -> (r: Option<BifrostPath>)
        ensures
            match r {
                Some(p) => self.target_view() == Some(p@),
                None => self.target_view() is None,
            },
    {
        match &self.target {
            Some(p) => Some(p.clone()),
            None => None,
        }
    }

    /// The path whose existence `prep` must be told.
    pub fn proposed_target(&self) -> (r: Option<String>)
        ensures
            match r {
                Some(p) => self.workspace_view().name_view() matches Some(n) && p@
                    == candidate_spec(self.workspace_view().config_view().home_view(), n),
                None => self.workspace_view().name_view() is None,
            },
    {
        proposed(&self.workspace)
    }

    /// Finds the loaded realm: `target_exists` tells whether an entry is at
    /// `proposed_target()`.
    pub fn prep(&mut self, target_exists: bool) -> (r: BifrostResult<()>)
        requires
            old(self).wf(),
        ensures
            final(self).wf(),
            final(self).workspace_view() == old(self).workspace_view(),
            old(self).stage() != Stage::Unprepared ==> r == Err::<(), _>(BifrostError::OutOfOrder),
            old(self).stage() == Stage::Unprepared ==> match existing_target(
                old(self).workspace_view(),
                target_exists,
            ) {
                Ok(p) => r is Ok && final(self).target_view() == Some(p),
                Err(e) => r == Err::<(), _>(e),
            },
            r is Ok ==> final(self).stage() == Stage::Prepared,
            r is Err ==> final(self).stage() == old(self).stage() && final(self).target_view()
                == old(self).target_view(),
    {
        let p = prep_existing(&self.workspace, self.stage, target_exists)?;
        self.target = Some(p);
        self.stage = Stage::Prepared;
        Ok(())
    }

    /// Nothing to build for an unload.
    pub fn build(&mut self)
        requires
            old(self).wf(),
            old(self).stage() == Stage::Prepared,
        ensures
            final(self).wf(),
            final(self).workspace_view() == old(self).workspace_view(),
            final(self).target_view() == old(self).target_view(),
            final(self).stage() == Stage::Built,
    {
        self.stage = Stage::Built;
    }

    /// Whether the target may be deleted now.
    pub fn ready(&self) -> (r: bool)
        ensures
            r == (self.stage() == Stage::Built),
    {
        self.stage == Stage::Built
    }

    /// Finishes the unload, told whether the target tree was removed.
    pub fn unload(&mut self, removed: bool) -> (r: BifrostResult<OperationInfo>)
        requires
            old(self).wf(),
            old(self).stage() == Stage::Built,
        ensures
            final(self).wf(),
            final(self).workspace_view() == old(self).workspace_view(),
            final(self).target_view() == old(self).target_view(),
            r is Ok <==> removed,
            r is Err ==> r == Err::<OperationInfo, _>(BifrostError::IoFailure)
                && final(self).stage() == old(self).stage(),
            r matches Ok(info) ==> {
                &&& Some(info.name@) == old(self).workspace_view().name_view()
                &&& info.bytes is None
                &&& info.text is None
                &&& final(self).stage() == Stage::Executed
            },
    {
        if !removed {
            return Err(BifrostError::IoFailure);
        }
        let name = self.workspace.name().unwrap().clone();
        self.stage = Stage::Executed;
        Ok(OperationInfo { name, bytes: None, text: None })
    }

    /// The execute step of an unload: `unload`.
    pub fn exec(&mut self, removed: bool) -> (r: BifrostResult<OperationInfo>)
        requires
            old(self).wf(),
            old(self).stage() == Stage::Built,
        ensures
            final(self).wf(),
            final(self).workspace_view() == old(self).workspace_view(),
            final(self).target_view() == old(self).target_view(),
            r is Ok <==> removed,
            r is Err ==> r == Err::<OperationInfo, _>(BifrostError::IoFailure)
                && final(self).stage() == old(self).stage(),
            r matches Ok(info) ==> {
                &&& Some(info.name@) == old(self).workspace_view().name_view()
                &&& info.bytes is None
                &&& info.text is None
                &&& final(self).stage() == Stage::Executed
            },
    {
        self.unload(removed)
    }
}

/// What the engine process did: its standard output and error, and whether
/// it exited successfully.
#[derive(Debug)]
pub struct RunOutcome {
    pub stdout: Option<String>,
    pub stderr: Option<String>,
    pub success: bool,
}

/// The process a run starts: the engine's arguments, and the script fed to
/// its standard input.
#[derive(Debug)]
pub struct RunRequest {
    pub argv: Vec<String>,
    pub input: String,
}

/// The volume the engine mounts: the container directory of `home` at
/// `/bifrost`.
pub open spec fn volume_spec(home: Seq<char>) -> Seq<char> {
    join_spec(join_spec(join_spec(home, ".bifrost"@), "container:"@), "bifrost"@)
}

/// The script a run feeds the engine: enter the realm, then run each
/// command while the previous ones succeed.
pub open spec fn script_spec(realm: Seq<char>, cmds: Seq<Seq<char>>) -> Seq<char> {
    "bash -c \"cd /bifrost/bifrost; cd "@ + realm + "; "@ + joined(cmds, " && "@) + "; \""@
}

/// The engine invocation.
pub open spec fn argv_spec(home: Seq<char>) -> Seq<Seq<char>> {
    seq!["docker"@, "run"@, "--rm"@, "-i"@, "--volume"@, volume_spec(home), "bifrost:0.1"@]
}

/// A space that runs the manifest's commands in a loaded realm.
#[derive(Debug)]
pub struct RunSpace {
    pub(crate) workspace: WorkSpace,
    pub(crate) target: Option<BifrostPath>,
    pub(crate) cmd: Option<CommandConfig>,
    pub(crate) stage: Stage,
}

impl RunSpace {
    pub open(crate) spec fn workspace_view(&self) -> WorkSpace {
        self.workspace
    }

    pub open(crate) spec fn target_view(&self) -> Option<Seq<char>> {
        match self.target {
            Some(p) => Some(p@),
            None => None,
        }
    }

    /// The commands taken from the manifest when prepared.
    pub open(crate) spec fn cmds_view(&self) -> Option<Seq<Seq<char>>> {
        match self.cmd {
            Some(c) => c@,
            None => None,
        }
    }

    pub open(crate) spec fn stage(&self) -> Stage {
        self.stage
    }

    pub open(crate) spec fn wf(&self) -> bool {
        &&& self.stage == Stage::Unprepared ==> self.target is None
        &&& self.stage != Stage::Unprepared ==> self.workspace.name_view() is Some
            && self.target_view() == Some(realm_path(self.workspace))
    }

    pub open spec fn is_fresh(&self) -> bool {
        &&& self.stage() == Stage::Unprepared
        &&& self.target_view() is None
        &&& self.cmds_view() is None
        &&& self.wf()
    }

    pub(crate) fn new(workspace: WorkSpace) -> (r: Self)
        ensures
            r.is_fresh(),
            r.workspace_view() == workspace,
    {
        RunSpace { workspace, target: None, cmd: None, stage: Stage::Unprepared }
    }

    /// Where the space stands.
    pub fn current_stage(&self) -> (r: Stage)
        ensures
            r == self.stage(),
    {
        self.stage
    }

    /// The home directory of the configuration.
    pub fn home_path(&self) -> (r: &String)
        ensures
            r@ == self.workspace_view().config_view().home_view(),
    {
        self.workspace.config().home_path()
    }

    /// The realm name.
    pub fn name(&self) -> (r: Option<&String>)
        ensures
            match r {
                Some(n) => self.workspace_view().name_view() == Some(n@),
                None => self.workspace_view().name_view() is None,
            },
    {
        self.workspace.name()
    }

    /// The prepared target.
    pub fn target(&self) -> (r: Option<BifrostPath>)
        ensures
            match r {
                Some(p) => self.target_view() == Some(p@),
                None => self.target_view() is None,
            },
    {
        match &self.target {
            Some(p) => Some(p.clone()),
            None => None,
        }
    }

    /// The path whose existence `prep` must be told.
    pub fn proposed_target(&self) -> (r: Option<String>)
        ensures
            match r {
                Some(p) => self.workspace_view().name_view() matches Some(n) && p@
                    == candidate_spec(self.workspace_view().config_view().home_view(), n),
                None => self.workspace_view().name_view() is None,
            },
    {
        proposed(&self.workspace)
    }

    /// Finds the loaded realm (`target_exists` tells whether an entry is at
    /// `proposed_target()`) and takes the commands from the manifest.
    pub fn prep(&mut self, target_exists: bool) -> (r: BifrostResult<()>)
        requires
            old(self).wf(),
        ensures
            final(self).wf(),
            final(self).workspace_view().name_view() == old(self).workspace_view().name_view(),
            final(self).workspace_view().config_view().home_view() == old(
                self,
            ).workspace_view().config_view().home_view(),
            old(self).stage() != Stage::Unprepared ==> r == Err::<(), _>(BifrostError::OutOfOrder),
            old(self).stage() == Stage::Unprepared ==> match existing_target(
                old(self).workspace_view(),
                target_exists,
            ) {
                Ok(p) => r is Ok && final(self).target_view() == Some(p),
                Err(e) => r == Err::<(), _>(e),
            },
            r is Ok ==> final(self).stage() == Stage::Prepared && final(self).cmds_view() == match old(
                self,
            ).workspace_view().config_view().manifest_opt() {
                Some(m) => match m.command {
                    Some(c) => c@,
                    None => None,
                },
                None => None,
            },
            r is Ok ==> final(self).workspace_view().config_view().manifest_opt() == match old(
                self,
            ).workspace_view().config_view().manifest_opt() {
                Some(m) => Some(
                    (BifrostManifest { workspace: m.workspace, container: m.container, command: None }),
                ),
                None => None,
            },
            r is Err ==> *final(self) == *old(self),
    {
        let p = prep_existing(&self.workspace, self.stage, target_exists)?;
        self.target = Some(p);
        self.cmd = self.workspace.config.take_command_config();
        self.stage = Stage::Prepared;
        Ok(())
    }

    /// Nothing to build for a run.
    pub fn build(&mut self)
        requires
            old(self).wf(),
            old(self).stage() == Stage::Prepared,
        ensures
            final(self).wf(),
            final(self).workspace_view() == old(self).workspace_view(),
            final(self).target_view() == old(self).target_view(),
            final(self).cmds_view() == old(self).cmds_view(),
            final(self).stage() == Stage::Built,
    {
        self.stage = Stage::Built;
    }

    /// The engine process to start. Fails when the manifest gave no commands.
    pub fn request(&self) -> (r: BifrostResult<RunRequest>)
        requires
            self.wf(),
            self.stage() == Stage::Built,
        ensures
            r is Ok <==> self.cmds_view() is Some,
            r is Err ==> r == Err::<RunRequest, _>(BifrostError::ProcessFailure),
            r matches Ok(req) ==> {
                &&& views_of(req.argv@) == argv_spec(self.workspace_view().config_view().home_view())
                &&& req.input@ == script_spec(
                    self.workspace_view().name_view().unwrap(),
                    self.cmds_view().unwrap(),
                )
            },
    {
        let cmds = match &self.cmd {
            Some(c) => match c.get_cmds() {
                Some(v) => v,
                None => {
                    return Err(BifrostError::ProcessFailure);
                },
            },
            None => {
                return Err(BifrostError::ProcessFailure);
            },
        };
        let home = self.workspace.config().home_path().as_str();
        let a = join(home, ".bifrost");
        let b = join(a.as_str(), "container:");
        let volume = join(b.as_str(), "bifrost");
        let mut argv: Vec<String> = Vec::new();
        argv.push(String::from_str("docker"));
        argv.push(String::from_str("run"));
        argv.push(String::from_str("--rm"));
        argv.push(String::from_str("-i"));
        argv.push(String::from_str("--volume"));
        argv.push(volume);
        argv.push(String::from_str("bifrost:0.1"));
        assert(views_of(argv@) =~= argv_spec(home@));
        let realm = self.workspace.name().unwrap();
        let mut input = String::from_str("bash -c \"cd /bifrost/bifrost; cd ");
        input.append(realm.as_str());
        input.append("; ");
        let joined_cmds = join_with(cmds, " && ");
        input.append(joined_cmds.as_str());
        input.append("; \"");
        Ok(RunRequest { argv, input })
    }

    /// Finishes the run with what the engine did, or `None` when it could not
    /// be started. Fails when the manifest gave no commands, or when the
    /// engine could not be started or did not exit successfully. The captured
    /// text is the output followed by the error output.
    pub fn run(&mut self, outcome: Option<RunOutcome>) -> (r: BifrostResult<OperationInfo>)
        requires
            old(self).wf(),
            old(self).stage() == Stage::Built,
        ensures
            final(self).wf(),
            final(self).workspace_view() == old(self).workspace_view(),
            final(self).target_view() == old(self).target_view(),
            r is Ok <==> (old(self).cmds_view() is Some && (outcome matches Some(o) && o.success)),
            r is Err ==> r == Err::<OperationInfo, _>(BifrostError::ProcessFailure)
                && final(self).stage() == old(self).stage(),
            r matches Ok(info) ==> {
                &&& Some(info.name@) == old(self).workspace_view().name_view()
                &&& info.bytes is None
                &&& info.text matches Some(t) && t@ == captured_bytes(outcome.unwrap().stdout)
                    + captured_bytes(outcome.unwrap().stderr)
                &&& final(self).stage() == Stage::Executed
            },
    {
        let has_cmds = match &self.cmd {
            Some(c) => c.get_cmds().is_some(),
            None => false,
        };
        if !has_cmds {
            return Err(BifrostError::ProcessFailure);
        }
        match outcome {
            Some(o) => {
                if !o.success {
                    return Err(BifrostError::ProcessFailure);
                }
                let mut text = bytes_of(&o.stdout);
                let mut rest = bytes_of(&o.stderr);
                text.append(&mut rest);
                let name = self.workspace.name().unwrap().clone();
                self.stage = Stage::Executed;
                Ok(OperationInfo { name, bytes: None, text: Some(text) })
            },
            None => Err(BifrostError::ProcessFailure),
        }
    }

    /// The execute step of a run: `run`.
    pub fn exec(&mut self, outcome: Option<RunOutcome>) -> (r: BifrostResult<OperationInfo>)
        requires
            old(self).wf(),
            old(self).stage() == Stage::Built,
        ensures
            final(self).wf(),
            final(self).workspace_view() == old(self).workspace_view(),
            final(self).target_view() == old(self).target_view(),
            r is Ok <==> (old(self).cmds_view() is Some && (outcome matches Some(o) && o.success)),
            r is Err ==> r == Err::<OperationInfo, _>(BifrostError::ProcessFailure)
                && final(self).stage() == old(self).stage(),
            r matches Ok(info) ==> {
                &&& Some(info.name@) == old(self).workspace_view().name_view()
                &&& info.bytes is None
                &&& info.text matches Some(t) && t@ == captured_bytes(outcome.unwrap().stdout)
                    + captured_bytes(outcome.unwrap().stderr)
                &&& final(self).stage() == Stage::Executed
            },
    {
        self.run(outcome)
    }
}

/// The UTF-8 bytes of captured text; nothing when none was captured.
pub open spec fn captured_bytes(s: Option<String>) -> Seq<u8> {
    match s {
        Some(t) => encode_utf8(t@),
        None => Seq::empty(),
    }
}

fn bytes_of(s: &Option<String>) -> (r: Vec<u8>)
    ensures
        r@ == captured_bytes(*s),
{
    match s {
        Some(t) => t.as_str().as_bytes_vec(),
        None => Vec::new(),
    }
}

} // verus!
