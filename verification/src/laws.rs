//! The general laws of the core, stated once and proved from the
//! specifications the handlers are verified against.

use vstd::prelude::*;

use crate::database::{
    build_is_for_pr, build_owns_branch, cancel_one, cancel_spec, db_wf, find_branch_spec,
    is_terminal_status, lemma_find_branch_spec_properties, lemma_find_branch_spec_unique,
    TryBuildView,
};
use crate::event::BorsEvent;
use crate::handlers::{
    builds_evolve, completed_reply_spec, completed_spec, dispatch_rel, entry_completed_rel,
    entry_comment_rel, entry_started_rel, lemma_evolve_refl, lemma_prefix_push,
    lemma_prefix_refl, new_build_view, started_spec, tracked_builds_inv,
};
use crate::registry::{lemma_repo_index_properties, repo_index, BorsState, RepoEntry};
use crate::client::RepositoryClient;

verus! {

/// Issuing `try` while a prior build of the same pull request is still open
/// cancels that prior build and creates exactly one new `Pending` build: in
/// the superseded store the old row is `Cancelled`, the one appended row is
/// the fresh `Pending` record, and no other row of the pull request is left
/// non-terminal.
pub proof fn lemma_try_supersedes_open_build(
    builds: Seq<TryBuildView>,
    repo: Seq<char>,
    pr: u64,
    author: Seq<char>,
    now: u64,
    i: int,
)
    requires
        db_wf(builds),
        0 <= i < builds.len(),
        build_is_for_pr(builds[i], repo, pr),
        !is_terminal_status(builds[i].status),
    ensures
        ({
            let after = cancel_spec(builds, repo, pr).push(new_build_view(repo, pr, author, now));
            &&& after.len() == builds.len() + 1
            &&& after[i].status is Cancelled
            &&& after.last() == new_build_view(repo, pr, author, now)
            &&& after.last().status is Pending
            &&& forall|j: int|
                0 <= j < builds.len() && build_is_for_pr(#[trigger] after[j], repo, pr)
                    ==> is_terminal_status(after[j].status)
        }),
{
    let after = cancel_spec(builds, repo, pr).push(new_build_view(repo, pr, author, now));
    assert(after[i] == cancel_one(builds[i], repo, pr));
    assert forall|j: int|
        0 <= j < builds.len() && build_is_for_pr(#[trigger] after[j], repo, pr) implies
        is_terminal_status(after[j].status) by {
        assert(after[j] == cancel_one(builds[j], repo, pr));
    }
}

/// A workflow-started event whose branch matches no tracked build leaves the
/// store exactly as it was. (The started handler takes no client at all, so
/// it can post no reply either.)
pub proof fn lemma_unmatched_workflow_start_is_noop(
    builds: Seq<TryBuildView>,
    repo: Seq<char>,
    branch: Seq<char>,
    external_id: u64,
)
    requires
        forall|j: int|
            0 <= j < builds.len() ==> !build_owns_branch(#[trigger] builds[j], repo, branch),
    ensures
        started_spec(builds, repo, branch, external_id) == builds,
{
    lemma_find_branch_spec_properties(builds, repo, branch);
    match find_branch_spec(builds, repo, branch) {
        Some(k) => {
            assert(!build_owns_branch(builds[k], repo, branch));
        },
        None => {},
    }
}

/// Duplicate-delivery safety: once a completion event has resolved a tracked
/// build — owing its one result reply — any further completion event for the
/// same branch changes nothing and owes no reply at all.
pub proof fn lemma_second_completion_is_noop(
    builds: Seq<TryBuildView>,
    repo: Seq<char>,
    branch: Seq<char>,
    first_id: u64,
    first_succeeded: bool,
    second_id: u64,
    second_succeeded: bool,
)
    requires
        completed_reply_spec(builds, repo, branch, first_id, first_succeeded) is Some,
    ensures
        ({
            let after = completed_spec(builds, repo, branch, first_succeeded);
            &&& completed_spec(after, repo, branch, second_succeeded) == after
            &&& completed_reply_spec(after, repo, branch, second_id, second_succeeded) is None
        }),
{
    let after = completed_spec(builds, repo, branch, first_succeeded);
    lemma_find_branch_spec_properties(builds, repo, branch);
    match find_branch_spec(builds, repo, branch) {
        Some(i) => {
            assert(build_owns_branch(after[i], repo, branch));
            assert(forall|j: int|
                i < j < after.len() ==> !build_owns_branch(#[trigger] after[j], repo, branch));
            lemma_find_branch_spec_unique(after, repo, branch, i);
            assert(is_terminal_status(after[i].status));
        },
        None => {},
    }
}

/// Feedback-loop prevention: a dispatch of a comment authored under the
/// bot's own identity changes no state at all — no command executes and no
/// reply is posted.
pub proof fn lemma_own_comment_is_ignored<C: RepositoryClient>(
    s0: BorsState<C>,
    s1: BorsState<C>,
    event: BorsEvent,
)
    requires
        dispatch_rel(s0, s1, event),
        event matches BorsEvent::Comment(c) && c.author@ == s0.bot_name@,
    ensures
        s1 == s0,
{
}

/// The repository an event resolves against, if it carries one.
pub open spec fn event_repository(event: BorsEvent) -> Option<Seq<char>> {
    match event {
        BorsEvent::Comment(c) => Some(c.repository@),
        BorsEvent::InstallationsChanged => None,
        BorsEvent::WorkflowStarted(p) => Some(p.repository@),
        BorsEvent::WorkflowCompleted(p) => Some(p.repository@),
        BorsEvent::CheckSuiteCompleted(p) => Some(p.repository@),
    }
}

/// A workflow-started transition is a legal evolution of the store and
/// keeps the store invariant.
pub proof fn lemma_started_spec_evolves(
    builds: Seq<TryBuildView>,
    repo: Seq<char>,
    branch: Seq<char>,
    external_id: u64,
)
    ensures
        builds_evolve(builds, started_spec(builds, repo, branch, external_id)),
        tracked_builds_inv(builds) ==> tracked_builds_inv(
            started_spec(builds, repo, branch, external_id),
        ),
{
    let after = started_spec(builds, repo, branch, external_id);
    match find_branch_spec(builds, repo, branch) {
        None => {
            lemma_evolve_refl(builds);
        },
        Some(i0) => {
            lemma_find_branch_spec_properties(builds, repo, branch);
            if builds[i0].status is Pending {
                assert forall|i: int| 0 <= i < builds.len() implies
                    crate::handlers::build_evolves(builds[i], #[trigger] after[i]) by {
                    if i == i0 {
                        lemma_prefix_push(builds[i].external_build_ids, external_id);
                    } else {
                        lemma_prefix_refl(builds[i].external_build_ids);
                    }
                }
                if tracked_builds_inv(builds) {
                    assert forall|a: int, b: int|
                        0 <= a < b < after.len() && !is_terminal_status(after[a].status)
                            && !is_terminal_status(after[b].status) && #[trigger] after[a].repository
                            == #[trigger] after[b].repository && after[a].pr_number
                            == after[b].pr_number implies false by {
                        assert(after[a].repository == builds[a].repository);
                        assert(after[b].repository == builds[b].repository);
                        assert(!is_terminal_status(builds[a].status));
                        assert(!is_terminal_status(builds[b].status));
                    }
                }
            } else {
                lemma_evolve_refl(builds);
            }
        },
    }
}

/// Whether every entry of a registry satisfies the store invariant.
pub open spec fn registry_stores_wf<C: RepositoryClient>(s: BorsState<C>) -> bool {
    forall|k: int| 0 <= k < s.repos@.len() ==> tracked_builds_inv((#[trigger] s.repos@[k]).db@)
}

/// Every dispatch except an installation reload preserves the store
/// invariant of every registry entry: at most one non-terminal build per
/// pull request, all rows on the reserved branch. (A reload replaces the
/// entries wholesale with whatever the external loader produced, so there
/// is nothing to preserve across it.)
pub proof fn lemma_dispatch_preserves_store_invariant<C: RepositoryClient>(
    s0: BorsState<C>,
    s1: BorsState<C>,
    event: BorsEvent,
)
    requires
        dispatch_rel(s0, s1, event),
        !(event is InstallationsChanged),
        registry_stores_wf(s0),
    ensures
        registry_stores_wf(s1),
{
    match event {
        BorsEvent::Comment(c) => {
            if c.author@ != s0.bot_name@ {
                match repo_index(s0.repos@, c.repository@) {
                    None => {},
                    Some(i) => {
                        lemma_repo_index_properties(s0.repos@, c.repository@);
                        let e2 = choose|e2: RepoEntry<C>|
                            s1.repos@ == s0.repos@.update(i, e2) && #[trigger] entry_comment_rel(
                                s0.repos@[i],
                                e2,
                            );
                        assert(tracked_builds_inv(s0.repos@[i].db@));
                    },
                }
            }
        },
        BorsEvent::InstallationsChanged => {},
        BorsEvent::WorkflowStarted(p) => {
            match repo_index(s0.repos@, p.repository@) {
                None => {},
                Some(i) => {
                    lemma_repo_index_properties(s0.repos@, p.repository@);
                    let e2 = choose|e2: RepoEntry<C>|
                        s1.repos@ == s0.repos@.update(i, e2) && #[trigger] entry_started_rel(
                            s0.repos@[i],
                            e2,
                            p,
                        );
                    lemma_started_spec_evolves(
                        s0.repos@[i].db@,
                        p.repository@,
                        p.branch_ref@,
                        p.external_id,
                    );
                },
            }
        },
        BorsEvent::WorkflowCompleted(p) => {
            match repo_index(s0.repos@, p.repository@) {
                None => {},
                Some(i) => {
                    lemma_repo_index_properties(s0.repos@, p.repository@);
                    let e2 = choose|e2: RepoEntry<C>|
                        s1.repos@ == s0.repos@.update(i, e2) && #[trigger] entry_completed_rel(
                            s0.repos@[i],
                            e2,
                            p,
                        );
                    assert(tracked_builds_inv(s0.repos@[i].db@));
                },
            }
        },
        BorsEvent::CheckSuiteCompleted(p) => {
            match repo_index(s0.repos@, p.repository@) {
                None => {},
                Some(i) => {
                    lemma_repo_index_properties(s0.repos@, p.repository@);
                    let e2 = choose|e2: RepoEntry<C>|
                        s1.repos@ == s0.repos@.update(i, e2) && #[trigger] entry_completed_rel(
                            s0.repos@[i],
                            e2,
                            p,
                        );
                    assert(tracked_builds_inv(s0.repos@[i].db@));
                },
            }
        },
    }
}

/// Audit retention: every dispatch except an installation reload leaves
/// each registry entry's rows a legal evolution of what they were — never
/// deleted, identity fields frozen, and a terminal build never transitions
/// again.
pub proof fn lemma_dispatch_never_reverts_builds<C: RepositoryClient>(
    s0: BorsState<C>,
    s1: BorsState<C>,
    event: BorsEvent,
)
    requires
        dispatch_rel(s0, s1, event),
        !(event is InstallationsChanged),
    ensures
        s1.repos@.len() == s0.repos@.len(),
        forall|k: int|
            0 <= k < s0.repos@.len() ==> builds_evolve(
                (#[trigger] s0.repos@[k]).db@,
                s1.repos@[k].db@,
            ),
{
    match event {
        BorsEvent::Comment(c) => {
            if c.author@ == s0.bot_name@ {
                assert forall|k: int| 0 <= k < s0.repos@.len() implies builds_evolve(
                    (#[trigger] s0.repos@[k]).db@,
                    s1.repos@[k].db@,
                ) by {
                    lemma_evolve_refl(s0.repos@[k].db@);
                }
            } else {
                match repo_index(s0.repos@, c.repository@) {
                    None => {
                        assert forall|k: int| 0 <= k < s0.repos@.len() implies builds_evolve(
                            (#[trigger] s0.repos@[k]).db@,
                            s1.repos@[k].db@,
                        ) by {
                            lemma_evolve_refl(s0.repos@[k].db@);
                        }
                    },
                    Some(i) => {
                        lemma_repo_index_properties(s0.repos@, c.repository@);
                        let e2 = choose|e2: RepoEntry<C>|
                            s1.repos@ == s0.repos@.update(i, e2) && #[trigger] entry_comment_rel(
                                s0.repos@[i],
                                e2,
                            );
                        assert forall|k: int| 0 <= k < s0.repos@.len() implies builds_evolve(
                            (#[trigger] s0.repos@[k]).db@,
                            s1.repos@[k].db@,
                        ) by {
                            if k != i {
                                lemma_evolve_refl(s0.repos@[k].db@);
                            }
                        }
                    },
                }
            }
        },
        BorsEvent::InstallationsChanged => {},
        BorsEvent::WorkflowStarted(p) => {
            match repo_index(s0.repos@, p.repository@) {
                None => {
                    assert forall|k: int| 0 <= k < s0.repos@.len() implies builds_evolve(
                        (#[trigger] s0.repos@[k]).db@,
                        s1.repos@[k].db@,
                    ) by {
                        lemma_evolve_refl(s0.repos@[k].db@);
                    }
                },
                Some(i) => {
                    lemma_repo_index_properties(s0.repos@, p.repository@);
                    let e2 = choose|e2: RepoEntry<C>|
                        s1.repos@ == s0.repos@.update(i, e2) && #[trigger] entry_started_rel(
                            s0.repos@[i],
                            e2,
                            p,
                        );
                    assert forall|k: int| 0 <= k < s0.repos@.len() implies builds_evolve(
                        (#[trigger] s0.repos@[k]).db@,
                        s1.repos@[k].db@,
                    ) by {
                        if k == i {
                            lemma_started_spec_evolves(
                                s0.repos@[i].db@,
                                p.repository@,
                                p.branch_ref@,
                                p.external_id,
                            );
                        } else {
                            lemma_evolve_refl(s0.repos@[k].db@);
                        }
                    }
                },
            }
        },
        BorsEvent::WorkflowCompleted(p) => {
            match repo_index(s0.repos@, p.repository@) {
                None => {
                    assert forall|k: int| 0 <= k < s0.repos@.len() implies builds_evolve(
                        (#[trigger] s0.repos@[k]).db@,
                        s1.repos@[k].db@,
                    ) by {
                        lemma_evolve_refl(s0.repos@[k].db@);
                    }
                },
                Some(i) => {
                    lemma_repo_index_properties(s0.repos@, p.repository@);
                    let e2 = choose|e2: RepoEntry<C>|
                        s1.repos@ == s0.repos@.update(i, e2) && #[trigger] entry_completed_rel(
                            s0.repos@[i],
                            e2,
                            p,
                        );
                    assert forall|k: int| 0 <= k < s0.repos@.len() implies builds_evolve(
                        (#[trigger] s0.repos@[k]).db@,
                        s1.repos@[k].db@,
                    ) by {
                        if k != i {
                            lemma_evolve_refl(s0.repos@[k].db@);
                        }
                    }
                },
            }
        },
        BorsEvent::CheckSuiteCompleted(p) => {
            match repo_index(s0.repos@, p.repository@) {
                None => {
                    assert forall|k: int| 0 <= k < s0.repos@.len() implies builds_evolve(
                        (#[trigger] s0.repos@[k]).db@,
                        s1.repos@[k].db@,
                    ) by {
                        lemma_evolve_refl(s0.repos@[k].db@);
                    }
                },
                Some(i) => {
                    lemma_repo_index_properties(s0.repos@, p.repository@);
                    let e2 = choose|e2: RepoEntry<C>|
                        s1.repos@ == s0.repos@.update(i, e2) && #[trigger] entry_completed_rel(
                            s0.repos@[i],
                            e2,
                            p,
                        );
                    assert forall|k: int| 0 <= k < s0.repos@.len() implies builds_evolve(
                        (#[trigger] s0.repos@[k]).db@,
                        s1.repos@[k].db@,
                    ) by {
                        if k != i {
                            lemma_evolve_refl(s0.repos@[k].db@);
                        }
                    }
                },
            }
        },
    }
}

/// At-most-once handling for unknown repositories: dispatching any event
/// whose repository the registry does not know mutates no registry state —
/// so no client and no persistence operation can have been invoked.
pub proof fn lemma_unknown_repository_is_ignored<C: RepositoryClient>(
    s0: BorsState<C>,
    s1: BorsState<C>,
    event: BorsEvent,
    repo: Seq<char>,
)
    requires
        dispatch_rel(s0, s1, event),
        event_repository(event) == Some(repo),
        repo_index(s0.repos@, repo) is None,
    ensures
        s1 == s0,
{
}

} // verus!
