//! Persisted try-build records and the store the orchestrator and the
//! correlator read and update.
//!
//! Records are retained for audit: nothing here ever deletes a build, rows
//! only gain entries or advance their status.

use vstd::prelude::*;

use crate::text::str_eq;

verus! {

/// Lifecycle state of one try build.
#[derive(Clone, Copy, Debug, PartialEq, Eq, Structural)]
pub enum BuildStatus {
    /// Created by the orchestrator; no CI run seen yet.
    Pending,
    /// A matching CI workflow has started.
    Running,
    /// Terminal: the CI run passed.
    Succeeded,
    /// Terminal: the CI run failed.
    Failed,
    /// Terminal: superseded by a newer try command on the same pull request.
    Cancelled,
}

/// Whether a status is terminal: a terminal build never transitions further.
pub open spec fn is_terminal_status(s: BuildStatus) -> bool {
    s is Succeeded || s is Failed || s is Cancelled
}

/// Runtime mirror of [`is_terminal_status`].
pub fn is_terminal(s: BuildStatus) -> (b: bool)
    ensures
        b == is_terminal_status(s),
{
    match s {
        BuildStatus::Succeeded | BuildStatus::Failed | BuildStatus::Cancelled => true,
        BuildStatus::Pending | BuildStatus::Running => false,
    }
}

/// One persisted try-build row.
pub struct TryBuild {
    /// The repository the build belongs to.
    pub repository: String,
    /// The pull request the build verifies.
    pub pr_number: u64,
    /// The reserved, repository-scoped branch the build runs on.
    pub branch_name: String,
    /// Who asked for the build.
    pub requested_by: String,
    /// Lifecycle state.
    pub status: BuildStatus,
    /// When the row was created, as the caller counts time.
    pub created_at: u64,
    /// Identifiers of the external CI runs seen for this build.
    pub external_build_ids: Vec<u64>,
}

/// The mathematical value of a try-build row.
pub struct TryBuildView {
    pub repository: Seq<char>,
    pub pr_number: u64,
    pub branch_name: Seq<char>,
    pub requested_by: Seq<char>,
    pub status: BuildStatus,
    pub created_at: u64,
    pub external_build_ids: Seq<u64>,
}

impl View for TryBuild {
    type V = TryBuildView;

    open spec fn view(&self) -> TryBuildView {
        TryBuildView {
            repository: self.repository@,
            pr_number: self.pr_number,
            branch_name: self.branch_name@,
            requested_by: self.requested_by@,
            status: self.status,
            created_at: self.created_at,
            external_build_ids: self.external_build_ids@,
        }
    }
}

/// Whether a row belongs to the given repository and pull request.
pub open spec fn build_is_for_pr(b: TryBuildView, repo: Seq<char>, pr: u64) -> bool {
    b.repository == repo && b.pr_number == pr
}

/// Whether a row belongs to the given repository and branch.
pub open spec fn build_owns_branch(b: TryBuildView, repo: Seq<char>, branch: Seq<char>) -> bool {
    b.repository == repo && b.branch_name == branch
}

/// At most one non-terminal build exists per repository and pull request.
pub open spec fn db_wf(builds: Seq<TryBuildView>) -> bool {
    forall|i: int, j: int|
        0 <= i < j < builds.len() && !is_terminal_status(builds[i].status)
            && !is_terminal_status(builds[j].status)
            && #[trigger] builds[i].repository == #[trigger] builds[j].repository
            && builds[i].pr_number == builds[j].pr_number ==> false
}

/// The row `b` with every non-terminal build of the given pull request
/// cancelled; all other rows kept as they are.
pub open spec fn cancel_one(b: TryBuildView, repo: Seq<char>, pr: u64) -> TryBuildView {
    if build_is_for_pr(b, repo, pr) && !is_terminal_status(b.status) {
        TryBuildView { status: BuildStatus::Cancelled, ..b }
    } else {
        b
    }
}

/// The store with every non-terminal build of the given pull request marked
/// `Cancelled`.
pub open spec fn cancel_spec(builds: Seq<TryBuildView>, repo: Seq<char>, pr: u64) -> Seq<
    TryBuildView,
> {
    builds.map_values(|b: TryBuildView| cancel_one(b, repo, pr))
}

/// The most recently created build owning the given branch: the greatest
/// matching index, since rows are only ever appended.
pub open spec fn find_branch_spec(
    builds: Seq<TryBuildView>,
    repo: Seq<char>,
    branch: Seq<char>,
) -> Option<int>
    decreases builds.len(),
{
    if builds.len() == 0 {
        None
    } else if build_owns_branch(builds.last(), repo, branch) {
        Some(builds.len() - 1)
    } else {
        find_branch_spec(builds.drop_last(), repo, branch)
    }
}

pub proof fn lemma_find_branch_spec_properties(
    builds: Seq<TryBuildView>,
    repo: Seq<char>,
    branch: Seq<char>,
)
    ensures
        match find_branch_spec(builds, repo, branch) {
            None => forall|j: int|
                0 <= j < builds.len() ==> !build_owns_branch(#[trigger] builds[j], repo, branch),
            Some(k) => 0 <= k < builds.len() && build_owns_branch(builds[k], repo, branch)
                && forall|j: int|
                k < j < builds.len() ==> !build_owns_branch(#[trigger] builds[j], repo, branch),
        },
    decreases builds.len(),
{
    if builds.len() > 0 && !build_owns_branch(builds.last(), repo, branch) {
        lemma_find_branch_spec_properties(builds.drop_last(), repo, branch);
        assert(forall|j: int|
            0 <= j < builds.len() - 1 ==> builds.drop_last()[j] == #[trigger] builds[j]);
    }
}

/// The greatest matching index determines the lookup result.
pub proof fn lemma_find_branch_spec_unique(
    builds: Seq<TryBuildView>,
    repo: Seq<char>,
    branch: Seq<char>,
    k: int,
)
    requires
        0 <= k < builds.len(),
        build_owns_branch(builds[k], repo, branch),
        forall|j: int| k < j < builds.len() ==> !build_owns_branch(#[trigger] builds[j], repo, branch),
    ensures
        find_branch_spec(builds, repo, branch) == Some(k),
    decreases builds.len(),
{
    if k < builds.len() - 1 {
        lemma_find_branch_spec_unique(builds.drop_last(), repo, branch, k);
        assert(forall|j: int|
            0 <= j < builds.len() - 1 ==> builds.drop_last()[j] == #[trigger] builds[j]);
    }
}

/// The persisted store of try-build rows.
pub struct Database {
    pub builds: Vec<TryBuild>,
}

impl View for Database {
    type V = Seq<TryBuildView>;

    open spec fn view(&self) -> Seq<TryBuildView> {
        self.builds@.map_values(|b: TryBuild| b@)
    }
}

impl Database {
    /// An empty store.
    pub fn new() -> (db: Database)
        ensures
            db@ =~= Seq::<TryBuildView>::empty(),
    {
        Database { builds: Vec::new() }
    }

    /// How many rows the store holds.
    pub fn len(&self) -> (n: usize)
        ensures
            n == self@.len(),
    {
        self.builds.len()
    }

    /// Appends a freshly created row.
    pub fn create_build(&mut self, build: TryBuild)
        ensures
            final(self)@ =~= old(self)@.push(build@),
    {
        self.builds.push(build);
    }

    /// Marks every non-terminal build of the pull request `Cancelled`.
    pub fn cancel_non_terminal(&mut self, repo: &str, pr: u64)
        ensures
            final(self)@ =~= cancel_spec(old(self)@, repo@, pr),
    {
        let n = self.builds.len();
        let mut i: usize = 0;
        while i < n
            invariant
                0 <= i <= n,
                self.builds.len() == n,
                old(self)@.len() == n,
                forall|j: int| 0 <= j < i ==> self@[j] == cancel_one(#[trigger] old(self)@[j], repo@, pr),
                forall|j: int| i <= j < n ==> self@[j] == #[trigger] old(self)@[j],
            decreases n - i,
        {
            let matches_pr = str_eq(self.builds[i].repository.as_str(), repo)
                && self.builds[i].pr_number == pr && !is_terminal(self.builds[i].status);
            if matches_pr {
                let ghost before = self@;
                let mut b = self.builds.remove(i);
                b.status = BuildStatus::Cancelled;
                self.builds.insert(i, b);
                proof {
                    assert(self@ =~= before.update(i as int, b@));
                }
            }
            i += 1;
        }
        proof {
            assert(self@ =~= cancel_spec(old(self)@, repo@, pr));
        }
    }

    /// The most recent build owning the given branch, if any.
    pub fn find_build_by_branch(&self, repo: &str, branch: &str) -> (r: Option<usize>)
        ensures
            match r {
                None => find_branch_spec(self@, repo@, branch@) is None,
                Some(k) => k < self@.len() && find_branch_spec(self@, repo@, branch@) == Some(
                    k as int,
                ),
            },
    {
        let n = self.builds.len();
        let mut i: usize = n;
        while i > 0
            invariant
                0 <= i <= n,
                self.builds.len() == n,
                forall|j: int| i <= j < n ==> !build_owns_branch(#[trigger] self@[j], repo@, branch@),
            decreases i,
        {
            i -= 1;
            if str_eq(self.builds[i].repository.as_str(), repo)
                && str_eq(self.builds[i].branch_name.as_str(), branch) {
                proof {
                    lemma_find_branch_spec_unique(self@, repo@, branch@, i as int);
                }
                return Some(i);
            }
        }
        proof {
            lemma_find_branch_spec_properties(self@, repo@, branch@);
            match find_branch_spec(self@, repo@, branch@) {
                Some(k) => {
                    assert(!build_owns_branch(self@[k], repo@, branch@));
                },
                None => {},
            }
        }
        None
    }

    /// Moves the row at `index` to `Running` and records the external run id.
    pub fn mark_running(&mut self, index: usize, external_id: u64)
        requires
            index < old(self)@.len(),
        ensures
            final(self)@ =~= old(self)@.update(
                index as int,
                TryBuildView {
                    status: BuildStatus::Running,
                    external_build_ids: old(self)@[index as int].external_build_ids.push(
                        external_id,
                    ),
                    ..old(self)@[index as int]
                },
            ),
    {
        let mut b = self.builds.remove(index);
        b.status = BuildStatus::Running;
        b.external_build_ids.push(external_id);
        self.builds.insert(index, b);
    }

    /// Sets the status of the row at `index`.
    pub fn update_build_status(&mut self, index: usize, status: BuildStatus)
        requires
            index < old(self)@.len(),
        ensures
            final(self)@ =~= old(self)@.update(
                index as int,
                TryBuildView { status, ..old(self)@[index as int] },
            ),
    {
        let mut b = self.builds.remove(index);
        b.status = status;
        self.builds.insert(index, b);
    }
}

} // verus!
