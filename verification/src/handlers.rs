//! Event dispatch, command execution, try-build orchestration and workflow
//! correlation.
//!
//! The dispatcher never propagates a handler failure upward: every branch
//! swallows its own error and returns normally, so one failing event never
//! blocks subsequent events. Comments authored under the bot's own identity
//! are dropped before any other processing, and an event for a repository
//! the registry does not know leaves every piece of state exactly as it was.

use vstd::prelude::*;

use crate::client::{ClientError, PostView, PullRequestSnapshot, PushView, RepositoryClient};
use crate::command::{
    parse_commands, parse_spec, BorsCommand, CommandParseError, ParseOutcome,
};
use crate::database::{
    cancel_one, cancel_spec, db_wf, find_branch_spec, is_terminal, is_terminal_status,
    BuildStatus, Database, TryBuild, TryBuildView,
};
use crate::event::{
    BorsEvent, PullRequestComment, WorkflowCompletedPayload, WorkflowStartedPayload,
};
use crate::registry::{
    repo_index, lemma_repo_index_properties, lemma_repo_index_unique, BorsState,
    InstallationLoader, RepoEntry, RepositoryState,
};
use crate::text::{decimal_of, str_eq, u64_to_string};

verus! {

/// A hard failure while executing a command or posting a reply: recoverable
/// only at the dispatcher's failure-isolation boundary.
pub struct ExecutionError {
    pub message: String,
}

fn execution_error(e: ClientError) -> (r: ExecutionError)
    ensures
        r.message == e.message,
{
    ExecutionError { message: e.message }
}

/// The reserved, repository-scoped ref every try build of a repository runs
/// on; starting a new build overwrites it.
pub open spec fn try_branch() -> Seq<char> {
    ("automation/bors/try")@
}

/// Runtime mirror of [`try_branch`].
pub fn try_branch_name() -> (s: &'static str)
    ensures
        s@ == try_branch(),
{
    "automation/bors/try"
}

/// Whether a branch is the one the bot watches for try-build workflows.
pub fn is_bors_observed_branch(branch: &str) -> (b: bool)
    ensures
        b == (branch@ == try_branch()),
{
    str_eq(branch, try_branch_name())
}

/// Reply to a `ping` command.
pub open spec fn pong_text() -> Seq<char> {
    ("Pong!")@
}

fn pong_str() -> (s: &'static str)
    ensures
        s@ == pong_text(),
{
    "Pong!"
}

/// Reply when a trigger line holds no keyword.
pub open spec fn missing_command_text() -> Seq<char> {
    ("Missing command.")@
}

fn missing_command_str() -> (s: &'static str)
    ensures
        s@ == missing_command_text(),
{
    "Missing command."
}

/// Reply when a trigger line holds an unrecognized keyword.
pub open spec fn unknown_command_text(token: Seq<char>) -> Seq<char> {
    ("Unknown command \"")@ + token + ("\".")@
}

fn make_unknown_command_text(token: &str) -> (s: String)
    ensures
        s@ == unknown_command_text(token@),
{
    let mut s = String::from_str("Unknown command \"");
    s.append(token);
    s.append("\".");
    proof {
        assert(s@ =~= unknown_command_text(token@));
    }
    s
}

/// Acknowledgement reply after a try build was started.
pub open spec fn try_ack_text(head_ref: Seq<char>) -> Seq<char> {
    ("Trying commit ")@ + head_ref + (".")@
}

fn make_try_ack_text(head_ref: &str) -> (s: String)
    ensures
        s@ == try_ack_text(head_ref@),
{
    let mut s = String::from_str("Trying commit ");
    s.append(head_ref);
    s.append(".");
    proof {
        assert(s@ =~= try_ack_text(head_ref@));
    }
    s
}

/// Result reply posted when a tracked build reaches a terminal CI outcome;
/// it references the external run.
pub open spec fn build_result_text(succeeded: bool, external_id: u64) -> Seq<char> {
    (if succeeded {
        ("Try build succeeded (run ")@
    } else {
        ("Try build failed (run ")@
    }) + decimal_of(external_id) + (").")@
}

fn make_build_result_text(succeeded: bool, external_id: u64) -> (s: String)
    ensures
        s@ == build_result_text(succeeded, external_id),
{
    let mut s = if succeeded {
        String::from_str("Try build succeeded (run ")
    } else {
        String::from_str("Try build failed (run ")
    };
    let id = u64_to_string(external_id);
    s.append(id.as_str());
    s.append(").");
    proof {
        assert(s@ =~= build_result_text(succeeded, external_id));
    }
    s
}

/// The row a fresh try build is persisted as: `Pending`, on the reserved
/// branch, with no external run seen yet.
pub open spec fn new_build_view(
    repo: Seq<char>,
    pr: u64,
    author: Seq<char>,
    now: u64,
) -> TryBuildView {
    TryBuildView {
        repository: repo,
        pr_number: pr,
        branch_name: try_branch(),
        requested_by: author,
        status: BuildStatus::Pending,
        created_at: now,
        external_build_ids: Seq::empty(),
    }
}

/// The store after a workflow-started event: the most recent build owning
/// the branch moves `Pending -> Running` and records the run id; any other
/// case leaves the store untouched.
pub open spec fn started_spec(
    builds: Seq<TryBuildView>,
    repo: Seq<char>,
    branch: Seq<char>,
    external_id: u64,
) -> Seq<TryBuildView> {
    match find_branch_spec(builds, repo, branch) {
        None => builds,
        Some(i) => if builds[i].status is Pending {
            builds.update(
                i,
                TryBuildView {
                    status: BuildStatus::Running,
                    external_build_ids: builds[i].external_build_ids.push(external_id),
                    ..builds[i]
                },
            )
        } else {
            builds
        },
    }
}

/// The store after a completion event: the most recent build owning the
/// branch becomes `Succeeded` or `Failed` unless it is already terminal, in
/// which case the event is a duplicate and changes nothing.
pub open spec fn completed_spec(
    builds: Seq<TryBuildView>,
    repo: Seq<char>,
    branch: Seq<char>,
    succeeded: bool,
) -> Seq<TryBuildView> {
    match find_branch_spec(builds, repo, branch) {
        None => builds,
        Some(i) => if is_terminal_status(builds[i].status) {
            builds
        } else {
            builds.update(
                i,
                TryBuildView {
                    status: if succeeded {
                        BuildStatus::Succeeded
                    } else {
                        BuildStatus::Failed
                    },
                    ..builds[i]
                },
            )
        },
    }
}

/// The one result reply a completion event owes, if any: exactly one, to the
/// originating pull request, and none for a duplicate delivery.
pub open spec fn completed_reply_spec(
    builds: Seq<TryBuildView>,
    repo: Seq<char>,
    branch: Seq<char>,
    external_id: u64,
    succeeded: bool,
) -> Option<PostView> {
    match find_branch_spec(builds, repo, branch) {
        None => None,
        Some(i) => if is_terminal_status(builds[i].status) {
            None
        } else {
            Some(
                PostView {
                    pr: builds[i].pr_number,
                    text: build_result_text(succeeded, external_id),
                },
            )
        },
    }
}

/// How one build row may change under any handler: identity fields are
/// frozen, external run ids only accumulate, and the status follows the
/// lifecycle — in particular a terminal status never transitions further.
pub open spec fn status_can_advance(s1: BuildStatus, s2: BuildStatus) -> bool {
    if is_terminal_status(s1) {
        s2 == s1
    } else if s1 is Pending {
        true
    } else {
        s2 == s1 || is_terminal_status(s2)
    }
}

pub open spec fn build_evolves(a: TryBuildView, b: TryBuildView) -> bool {
    &&& b.repository == a.repository
    &&& b.pr_number == a.pr_number
    &&& b.branch_name == a.branch_name
    &&& b.requested_by == a.requested_by
    &&& b.created_at == a.created_at
    &&& a.external_build_ids.is_prefix_of(b.external_build_ids)
    &&& status_can_advance(a.status, b.status)
}

/// How the store may change under any handler: rows are never deleted, only
/// appended or advanced.
pub open spec fn builds_evolve(a: Seq<TryBuildView>, b: Seq<TryBuildView>) -> bool {
    &&& a.len() <= b.len()
    &&& forall|i: int| 0 <= i < a.len() ==> build_evolves(a[i], #[trigger] b[i])
}

/// The store invariant the orchestrator maintains: at most one non-terminal
/// build per pull request, and every row on the reserved branch.
pub open spec fn tracked_builds_inv(builds: Seq<TryBuildView>) -> bool {
    &&& db_wf(builds)
    &&& forall|i: int| 0 <= i < builds.len() ==> (#[trigger] builds[i]).branch_name == try_branch()
}

pub proof fn lemma_prefix_refl<A>(a: Seq<A>)
    ensures
        a.is_prefix_of(a),
{
    assert(a =~= a.subrange(0, a.len() as int));
}

pub proof fn lemma_prefix_push<A>(a: Seq<A>, x: A)
    ensures
        a.is_prefix_of(a.push(x)),
{
    assert(a =~= a.push(x).subrange(0, a.len() as int));
}

pub proof fn lemma_prefix_trans<A>(a: Seq<A>, b: Seq<A>, c: Seq<A>)
    requires
        a.is_prefix_of(b),
        b.is_prefix_of(c),
    ensures
        a.is_prefix_of(c),
{
    assert(a =~= c.subrange(0, a.len() as int));
}

pub proof fn lemma_evolve_refl(a: Seq<TryBuildView>)
    ensures
        builds_evolve(a, a),
{
    assert forall|i: int| 0 <= i < a.len() implies build_evolves(a[i], #[trigger] a[i]) by {
        lemma_prefix_refl(a[i].external_build_ids);
    }
}

pub proof fn lemma_evolve_trans(a: Seq<TryBuildView>, b: Seq<TryBuildView>, c: Seq<TryBuildView>)
    requires
        builds_evolve(a, b),
        builds_evolve(b, c),
    ensures
        builds_evolve(a, c),
{
    assert forall|i: int| 0 <= i < a.len() implies build_evolves(a[i], #[trigger] c[i]) by {
        assert(build_evolves(a[i], b[i]));
        assert(build_evolves(b[i], c[i]));
        lemma_prefix_trans(
            a[i].external_build_ids,
            b[i].external_build_ids,
            c[i].external_build_ids,
        );
    }
}

/// Cancelling the open builds of one pull request is a legal evolution and
/// keeps the store invariant.
pub proof fn lemma_cancel_evolves(builds: Seq<TryBuildView>, repo: Seq<char>, pr: u64)
    ensures
        builds_evolve(builds, cancel_spec(builds, repo, pr)),
        tracked_builds_inv(builds) ==> tracked_builds_inv(cancel_spec(builds, repo, pr)),
{
    let after = cancel_spec(builds, repo, pr);
    assert forall|i: int| 0 <= i < builds.len() implies build_evolves(builds[i], #[trigger] after[i]) by {
        lemma_prefix_refl(builds[i].external_build_ids);
    }
}

/// Superseding: after cancelling, appending the one fresh `Pending` build
/// keeps the store invariant.
pub proof fn lemma_try_step_preserves_inv(
    builds: Seq<TryBuildView>,
    repo: Seq<char>,
    pr: u64,
    author: Seq<char>,
    now: u64,
)
    requires
        tracked_builds_inv(builds),
    ensures
        tracked_builds_inv(cancel_spec(builds, repo, pr).push(new_build_view(repo, pr, author, now))),
{
    let after = cancel_spec(builds, repo, pr).push(new_build_view(repo, pr, author, now));
    assert forall|i: int, j: int|
        0 <= i < j < after.len() && !is_terminal_status(after[i].status) && !is_terminal_status(
            after[j].status,
        ) && #[trigger] after[i].repository == #[trigger] after[j].repository
            && after[i].pr_number == after[j].pr_number implies false by {
        if j < builds.len() {
            assert(after[i].repository == builds[i].repository);
            assert(after[j].repository == builds[j].repository);
            assert(!is_terminal_status(builds[i].status));
            assert(!is_terminal_status(builds[j].status));
        } else {
            // `j` is the fresh build; a non-terminal row `i` for the same
            // pull request would just have been cancelled.
            assert(after[i] == cancel_one(builds[i], repo, pr));
        }
    }
}

/// The ghost face of one repository's visible state: its persisted builds
/// and the client's two observation logs.
pub struct EffectView {
    pub builds: Seq<TryBuildView>,
    pub posted: Seq<PostView>,
    pub pushes: Seq<PushView>,
}

/// Everything a command execution depends on besides the store: the
/// repository, the pull-request snapshot data, the requester and the clock.
pub struct CommandContext {
    pub repo: Seq<char>,
    pub pr_number: u64,
    pub head_ref: Seq<char>,
    pub author: Seq<char>,
    pub now: u64,
}

/// The effect of executing one parse result, all client operations
/// succeeding.
pub open spec fn apply_command(e: EffectView, o: ParseOutcome, ctx: CommandContext) -> EffectView {
    match o {
        ParseOutcome::Ping => EffectView {
            posted: e.posted.push(PostView { pr: ctx.pr_number, text: pong_text() }),
            ..e
        },
        ParseOutcome::Try => EffectView {
            builds: cancel_spec(e.builds, ctx.repo, ctx.pr_number).push(
                new_build_view(ctx.repo, ctx.pr_number, ctx.author, ctx.now),
            ),
            pushes: e.pushes.push(PushView { branch: try_branch(), head_ref: ctx.head_ref }),
            posted: e.posted.push(
                PostView { pr: ctx.pr_number, text: try_ack_text(ctx.head_ref) },
            ),
        },
        ParseOutcome::MissingCommand => EffectView {
            posted: e.posted.push(PostView { pr: ctx.pr_number, text: missing_command_text() }),
            ..e
        },
        ParseOutcome::Unknown(token) => EffectView {
            posted: e.posted.push(
                PostView { pr: ctx.pr_number, text: unknown_command_text(token) },
            ),
            ..e
        },
    }
}

/// The effect of executing a whole comment's parse results in order, all
/// client operations succeeding.
pub open spec fn run_commands(e: EffectView, cmds: Seq<ParseOutcome>, ctx: CommandContext) -> EffectView
    decreases cmds.len(),
{
    if cmds.len() == 0 {
        e
    } else {
        run_commands(apply_command(e, cmds.first(), ctx), cmds.drop_first(), ctx)
    }
}

pub proof fn lemma_run_commands_snoc(e: EffectView, cmds: Seq<ParseOutcome>, o: ParseOutcome, ctx: CommandContext)
    ensures
        run_commands(e, cmds.push(o), ctx) == apply_command(run_commands(e, cmds, ctx), o, ctx),
    decreases cmds.len(),
{
    if cmds.len() == 0 {
        assert(cmds.push(o).drop_first() =~= cmds);
        assert(cmds.push(o).first() == o);
        assert(run_commands(e, cmds.push(o), ctx) == run_commands(
            apply_command(e, o, ctx),
            cmds,
            ctx,
        ));
    } else {
        assert(cmds.push(o).first() == cmds.first());
        assert(cmds.push(o).drop_first() =~= cmds.drop_first().push(o));
        lemma_run_commands_snoc(apply_command(e, cmds.first(), ctx), cmds.drop_first(), o, ctx);
        assert(run_commands(e, cmds.push(o), ctx) == run_commands(
            apply_command(e, cmds.first(), ctx),
            cmds.drop_first().push(o),
            ctx,
        ));
        assert(run_commands(e, cmds, ctx) == run_commands(
            apply_command(e, cmds.first(), ctx),
            cmds.drop_first(),
            ctx,
        ));
    }
}

/// One command's effect is a legal evolution of the visible state.
pub proof fn lemma_apply_command_frame(e: EffectView, o: ParseOutcome, ctx: CommandContext)
    ensures
        ({
            let e2 = apply_command(e, o, ctx);
            &&& builds_evolve(e.builds, e2.builds)
            &&& e.posted.is_prefix_of(e2.posted)
            &&& e.pushes.is_prefix_of(e2.pushes)
            &&& (tracked_builds_inv(e.builds) ==> tracked_builds_inv(e2.builds))
        }),
{
    let e2 = apply_command(e, o, ctx);
    lemma_prefix_refl(e.posted);
    lemma_prefix_refl(e.pushes);
    lemma_prefix_push(e.posted, e2.posted.last());
    lemma_evolve_refl(e.builds);
    match o {
        ParseOutcome::Try => {
            lemma_cancel_evolves(e.builds, ctx.repo, ctx.pr_number);
            assert forall|i: int| 0 <= i < e.builds.len() implies build_evolves(
                e.builds[i],
                #[trigger] e2.builds[i],
            ) by {
                assert(build_evolves(
                    e.builds[i],
                    cancel_spec(e.builds, ctx.repo, ctx.pr_number)[i],
                ));
            }
            lemma_prefix_push(e.pushes, PushView { branch: try_branch(), head_ref: ctx.head_ref });
            if tracked_builds_inv(e.builds) {
                lemma_try_step_preserves_inv(e.builds, ctx.repo, ctx.pr_number, ctx.author, ctx.now);
            }
        },
        _ => {},
    }
}

/// A whole comment's effect is a legal evolution of the visible state.
pub proof fn lemma_run_commands_frame(e: EffectView, cmds: Seq<ParseOutcome>, ctx: CommandContext)
    ensures
        ({
            let e2 = run_commands(e, cmds, ctx);
            &&& builds_evolve(e.builds, e2.builds)
            &&& e.posted.is_prefix_of(e2.posted)
            &&& e.pushes.is_prefix_of(e2.pushes)
            &&& (tracked_builds_inv(e.builds) ==> tracked_builds_inv(e2.builds))
        }),
    decreases cmds.len(),
{
    if cmds.len() == 0 {
        lemma_prefix_refl(e.posted);
        lemma_prefix_refl(e.pushes);
        lemma_evolve_refl(e.builds);
    } else {
        let e1 = apply_command(e, cmds.first(), ctx);
        lemma_apply_command_frame(e, cmds.first(), ctx);
        lemma_run_commands_frame(e1, cmds.drop_first(), ctx);
        let e2 = run_commands(e, cmds, ctx);
        lemma_evolve_trans(e.builds, e1.builds, e2.builds);
        lemma_prefix_trans(e.posted, e1.posted, e2.posted);
        lemma_prefix_trans(e.pushes, e1.pushes, e2.pushes);
    }
}

/// The visible state of one repository entry.
pub open spec fn effect_state<C: RepositoryClient>(
    repo: RepositoryState<C>,
    database: Database,
) -> EffectView {
    EffectView { builds: database@, posted: repo.client.posted(), pushes: repo.client.pushes() }
}

/// Executes `ping`: posts the liveness reply.
pub fn command_ping<C: RepositoryClient>(
    repo: &mut RepositoryState<C>,
    pr: &PullRequestSnapshot,
) -> (r: Result<(), ExecutionError>)
    ensures
        final(repo).repository == old(repo).repository,
        final(repo).client.pushes() == old(repo).client.pushes(),
        r is Ok ==> final(repo).client.posted() == old(repo).client.posted().push(
            PostView { pr: pr.number, text: pong_text() },
        ),
        r is Err ==> final(repo).client.posted() == old(repo).client.posted(),
{
    match repo.client.post_comment(pr.number, pong_str()) {
        Ok(_) => Ok(()),
        Err(e) => Err(execution_error(e)),
    }
}

/// Executes `try`: cancels any open build of the pull request, asks the
/// platform to point the reserved branch at a merge of the head, persists
/// the fresh `Pending` row only on push success, then posts the
/// acknowledgement.
pub fn command_try_build<C: RepositoryClient>(
    repo: &mut RepositoryState<C>,
    database: &mut Database,
    pr: &PullRequestSnapshot,
    author: &str,
    now: u64,
) -> (r: Result<(), ExecutionError>)
    ensures
        final(repo).repository == old(repo).repository,
        r is Ok ==> ({
            &&& final(database)@ == cancel_spec(old(database)@, old(repo).repository@, pr.number)
                .push(new_build_view(old(repo).repository@, pr.number, author@, now))
            &&& final(repo).client.pushes() == old(repo).client.pushes().push(
                PushView { branch: try_branch(), head_ref: pr.head_ref@ },
            )
            &&& final(repo).client.posted() == old(repo).client.posted().push(
                PostView { pr: pr.number, text: try_ack_text(pr.head_ref@) },
            )
        }),
        r is Err ==> ({
            &&& final(repo).client.posted() == old(repo).client.posted()
            &&& (final(database)@ == cancel_spec(old(database)@, old(repo).repository@, pr.number)
                && final(repo).client.pushes() == old(repo).client.pushes() || final(database)@
                == cancel_spec(old(database)@, old(repo).repository@, pr.number).push(
                new_build_view(old(repo).repository@, pr.number, author@, now),
            ) && final(repo).client.pushes() == old(repo).client.pushes().push(
                PushView { branch: try_branch(), head_ref: pr.head_ref@ },
            ))
        }),
{
    database.cancel_non_terminal(repo.repository.as_str(), pr.number);
    if let Err(e) = repo.client.create_try_merge(try_branch_name(), pr.head_ref.as_str()) {
        return Err(execution_error(e));
    }
    let build = TryBuild {
        repository: repo.repository.clone(),
        pr_number: pr.number,
        branch_name: String::from_str(try_branch_name()),
        requested_by: author.to_owned(),
        status: BuildStatus::Pending,
        created_at: now,
        external_build_ids: Vec::new(),
    };
    proof {
        assert(build@.external_build_ids =~= Seq::<u64>::empty());
        assert(build@ == new_build_view(old(repo).repository@, pr.number, author@, now));
    }
    database.create_build(build);
    let ack = make_try_ack_text(pr.head_ref.as_str());
    match repo.client.post_comment(pr.number, ack.as_str()) {
        Ok(_) => Ok(()),
        Err(e) => Err(execution_error(e)),
    }
}

/// Correlates a workflow-started signal: the matching tracked build, if one
/// exists and is still `Pending`, moves to `Running` and records the run id.
/// No match, or any other status, is a no-op — and nothing is ever posted.
pub fn handle_workflow_started(database: &mut Database, payload: WorkflowStartedPayload)
    ensures
        final(database)@ == started_spec(
            old(database)@,
            payload.repository@,
            payload.branch_ref@,
            payload.external_id,
        ),
        builds_evolve(old(database)@, final(database)@),
        tracked_builds_inv(old(database)@) ==> tracked_builds_inv(final(database)@),
{
    let found = database.find_build_by_branch(
        payload.repository.as_str(),
        payload.branch_ref.as_str(),
    );
    match found {
        Some(i) => {
            let ghost before = database@;
            if database.builds[i].status == BuildStatus::Pending {
                database.mark_running(i, payload.external_id);
                proof {
                    assert forall|k: int| 0 <= k < before.len() implies build_evolves(
                        before[k],
                        #[trigger] database@[k],
                    ) by {
                        if k == i {
                            lemma_prefix_push(before[k].external_build_ids, payload.external_id);
                        } else {
                            lemma_prefix_refl(before[k].external_build_ids);
                        }
                    }
                    if tracked_builds_inv(before) {
                        assert forall|a: int, b: int|
                            0 <= a < b < database@.len() && !is_terminal_status(
                                database@[a].status,
                            ) && !is_terminal_status(database@[b].status)
                                && #[trigger] database@[a].repository
                                == #[trigger] database@[b].repository && database@[a].pr_number
                                == database@[b].pr_number implies false by {
                            assert(database@[a].repository == before[a].repository);
                            assert(database@[b].repository == before[b].repository);
                            assert(!is_terminal_status(before[a].status));
                            assert(!is_terminal_status(before[b].status));
                        }
                    }
                }
            } else {
                proof {
                    lemma_evolve_refl(database@);
                }
            }
        },
        None => {
            proof {
                lemma_evolve_refl(database@);
            }
        },
    }
}

fn complete_build<C: RepositoryClient>(
    repo: &mut RepositoryState<C>,
    database: &mut Database,
    payload: &WorkflowCompletedPayload,
) -> (r: Result<(), ExecutionError>)
    ensures
        final(repo).repository == old(repo).repository,
        final(repo).client.pushes() == old(repo).client.pushes(),
        final(database)@ == completed_spec(
            old(database)@,
            payload.repository@,
            payload.branch_ref@,
            payload.succeeded,
        ),
        builds_evolve(old(database)@, final(database)@),
        tracked_builds_inv(old(database)@) ==> tracked_builds_inv(final(database)@),
        match completed_reply_spec(
            old(database)@,
            payload.repository@,
            payload.branch_ref@,
            payload.external_id,
            payload.succeeded,
        ) {
            None => r is Ok && final(repo).client.posted() == old(repo).client.posted(),
            Some(reply) => (r is Ok ==> final(repo).client.posted() == old(repo).client.posted()
                .push(reply)) && (r is Err ==> final(repo).client.posted() == old(
                repo,
            ).client.posted()),
        },
{
    let found = database.find_build_by_branch(
        payload.repository.as_str(),
        payload.branch_ref.as_str(),
    );
    match found {
        None => {
            proof {
                lemma_evolve_refl(database@);
            }
            Ok(())
        },
        Some(i) => {
            if is_terminal(database.builds[i].status) {
                proof {
                    lemma_evolve_refl(database@);
                }
                return Ok(());
            }
            let ghost before = database@;
            let pr_number = database.builds[i].pr_number;
            let status = if payload.succeeded {
                BuildStatus::Succeeded
            } else {
                BuildStatus::Failed
            };
            database.update_build_status(i, status);
            proof {
                assert forall|k: int| 0 <= k < before.len() implies build_evolves(
                    before[k],
                    #[trigger] database@[k],
                ) by {
                    lemma_prefix_refl(before[k].external_build_ids);
                }
                if tracked_builds_inv(before) {
                    assert forall|a: int, b: int|
                        0 <= a < b < database@.len() && !is_terminal_status(database@[a].status)
                            && !is_terminal_status(database@[b].status)
                            && #[trigger] database@[a].repository
                            == #[trigger] database@[b].repository && database@[a].pr_number
                            == database@[b].pr_number implies false by {
                        assert(database@[a].repository == before[a].repository);
                        assert(database@[b].repository == before[b].repository);
                        assert(!is_terminal_status(before[a].status));
                        assert(!is_terminal_status(before[b].status));
                    }
                }
            }
            let text = make_build_result_text(payload.succeeded, payload.external_id);
            match repo.client.post_comment(pr_number, text.as_str()) {
                Ok(_) => Ok(()),
                Err(e) => Err(execution_error(e)),
            }
        },
    }
}

/// Correlates a workflow-completed signal: the matching tracked build moves
/// to its terminal outcome and exactly one result reply is posted to the
/// originating pull request; a duplicate delivery for an already-terminal
/// build is a no-op with no reply.
pub fn handle_workflow_completed<C: RepositoryClient>(
    repo: &mut RepositoryState<C>,
    database: &mut Database,
    payload: WorkflowCompletedPayload,
) -> (r: Result<(), ExecutionError>)
    ensures
        final(repo).repository == old(repo).repository,
        final(repo).client.pushes() == old(repo).client.pushes(),
        final(database)@ == completed_spec(
            old(database)@,
            payload.repository@,
            payload.branch_ref@,
            payload.succeeded,
        ),
        builds_evolve(old(database)@, final(database)@),
        tracked_builds_inv(old(database)@) ==> tracked_builds_inv(final(database)@),
        match completed_reply_spec(
            old(database)@,
            payload.repository@,
            payload.branch_ref@,
            payload.external_id,
            payload.succeeded,
        ) {
            None => r is Ok && final(repo).client.posted() == old(repo).client.posted(),
            Some(reply) => (r is Ok ==> final(repo).client.posted() == old(repo).client.posted()
                .push(reply)) && (r is Err ==> final(repo).client.posted() == old(
                repo,
            ).client.posted()),
        },
{
    complete_build(repo, database, &payload)
}

/// Correlates a check-suite-completed signal; the protocol is the same as
/// for a completed workflow.
pub fn handle_check_suite_completed<C: RepositoryClient>(
    repo: &mut RepositoryState<C>,
    database: &mut Database,
    payload: WorkflowCompletedPayload,
) -> (r: Result<(), ExecutionError>)
    ensures
        final(repo).repository == old(repo).repository,
        final(repo).client.pushes() == old(repo).client.pushes(),
        final(database)@ == completed_spec(
            old(database)@,
            payload.repository@,
            payload.branch_ref@,
            payload.succeeded,
        ),
        builds_evolve(old(database)@, final(database)@),
        tracked_builds_inv(old(database)@) ==> tracked_builds_inv(final(database)@),
        match completed_reply_spec(
            old(database)@,
            payload.repository@,
            payload.branch_ref@,
            payload.external_id,
            payload.succeeded,
        ) {
            None => r is Ok && final(repo).client.posted() == old(repo).client.posted(),
            Some(reply) => (r is Ok ==> final(repo).client.posted() == old(repo).client.posted()
                .push(reply)) && (r is Err ==> final(repo).client.posted() == old(
                repo,
            ).client.posted()),
        },
{
    complete_build(repo, database, &payload)
}

/// Handles one pull-request comment: parses its commands, fetches the live
/// pull-request snapshot, then executes the parse results in order. A parse
/// error is downgraded to one reply naming the problem and the next command
/// is still attempted; a hard execution failure abandons the rest of the
/// comment and propagates.
///
/// On success the visible state is exactly the parsed commands run in order
/// over the snapshot that was fetched; on failure it is a legal evolution —
/// logs only grew, rows only advanced, the store invariant held.
pub fn handle_comment<C: RepositoryClient>(
    repo: &mut RepositoryState<C>,
    database: &mut Database,
    comment: &PullRequestComment,
    now: u64,
) -> (r: Result<(), ExecutionError>)
    ensures
        final(repo).repository == old(repo).repository,
        old(repo).client.posted().is_prefix_of(final(repo).client.posted()),
        old(repo).client.pushes().is_prefix_of(final(repo).client.pushes()),
        builds_evolve(old(database)@, final(database)@),
        tracked_builds_inv(old(database)@) ==> tracked_builds_inv(final(database)@),
        r is Ok ==> (exists|head: Seq<char>|
            effect_state(*final(repo), *final(database)) == #[trigger] run_commands(
                effect_state(*old(repo), *old(database)),
                parse_spec(comment.text@),
                CommandContext {
                    repo: old(repo).repository@,
                    pr_number: comment.pr_number,
                    head_ref: head,
                    author: comment.author@,
                    now,
                },
            )),
{
    let ghost e0 = effect_state(*repo, *database);
    let commands = parse_commands(comment.text.as_str());
    let pull_request = match repo.client.get_pull_request(comment.pr_number) {
        Ok(pr) => pr,
        Err(e) => {
            proof {
                lemma_prefix_refl(repo.client.posted());
                lemma_prefix_refl(repo.client.pushes());
                lemma_evolve_refl(database@);
            }
            return Err(execution_error(e));
        },
    };
    let ghost ctx = CommandContext {
        repo: repo.repository@,
        pr_number: comment.pr_number,
        head_ref: pull_request.head_ref@,
        author: comment.author@,
        now,
    };
    let ghost cmds = parse_spec(comment.text@);
    let n = commands.len();
    let mut idx: usize = 0;
    while idx < n
        invariant
            n == commands@.len(),
            0 <= idx <= n,
            cmds.len() == commands@.len(),
            forall|k: int|
                0 <= k < commands@.len() ==> crate::command::outcome_of(
                    #[trigger] commands@[k],
                ) == cmds[k],
            cmds == parse_spec(comment.text@),
            repo.repository == old(repo).repository,
            ctx == (CommandContext {
                repo: old(repo).repository@,
                pr_number: comment.pr_number,
                head_ref: ctx.head_ref,
                author: comment.author@,
                now,
            }),
            pull_request.number == comment.pr_number,
            pull_request.head_ref@ == ctx.head_ref,
            e0 == effect_state(*old(repo), *old(database)),
            effect_state(*repo, *database) == run_commands(e0, cmds.take(idx as int), ctx),
        decreases n - idx,
    {
        let ghost run_so_far = run_commands(e0, cmds.take(idx as int), ctx);
        let ghost cur = cmds[idx as int];
        proof {
            assert(cmds.take(idx as int + 1) =~= cmds.take(idx as int).push(cur));
            lemma_run_commands_snoc(e0, cmds.take(idx as int), cur, ctx);
            lemma_run_commands_frame(e0, cmds.take(idx as int), ctx);
        }
        let cmd = &commands[idx];
        proof {
            assert(cur == crate::command::outcome_of(commands@[idx as int]));
        }
        let step: Result<(), ExecutionError> = match cmd {
            Ok(BorsCommand::Ping) => {
                proof {
                    assert(cur is Ping);
                }
                command_ping(repo, &pull_request)
            },
            Ok(BorsCommand::Try) => {
                proof {
                    assert(cur is Try);
                }
                command_try_build(repo, database, &pull_request, comment.author.as_str(), now)
            },
            Err(CommandParseError::MissingCommand) => {
                proof {
                    assert(cur is MissingCommand);
                }
                match repo.client.post_comment(pull_request.number, missing_command_str()) {
                    Ok(_) => Ok(()),
                    Err(e) => Err(execution_error(e)),
                }
            },
            Err(CommandParseError::UnknownCommand(token)) => {
                proof {
                    assert(cur == ParseOutcome::Unknown(token@));
                }
                let message = make_unknown_command_text(token.as_str());
                match repo.client.post_comment(pull_request.number, message.as_str()) {
                    Ok(_) => Ok(()),
                    Err(e) => Err(execution_error(e)),
                }
            },
        };
        if let Err(error) = step {
            proof {
                // Failure isolation: whatever already happened is a legal
                // evolution of the state the comment started from.
                lemma_prefix_trans(
                    e0.posted,
                    run_so_far.posted,
                    repo.client.posted(),
                );
                if cur is Try {
                    lemma_cancel_evolves(run_so_far.builds, ctx.repo, ctx.pr_number);
                    if tracked_builds_inv(run_so_far.builds) {
                        lemma_try_step_preserves_inv(
                            run_so_far.builds,
                            ctx.repo,
                            ctx.pr_number,
                            ctx.author,
                            ctx.now,
                        );
                    }
                    assert(builds_evolve(run_so_far.builds, database@));
                    lemma_prefix_refl(run_so_far.pushes);
                    lemma_prefix_push(
                        run_so_far.pushes,
                        PushView { branch: try_branch(), head_ref: ctx.head_ref },
                    );
                } else {
                    lemma_evolve_refl(run_so_far.builds);
                    lemma_prefix_refl(run_so_far.pushes);
                }
                lemma_evolve_trans(e0.builds, run_so_far.builds, database@);
                lemma_prefix_trans(e0.pushes, run_so_far.pushes, repo.client.pushes());
            }
            return Err(error);
        }
        proof {
            assert(effect_state(*repo, *database) == apply_command(run_so_far, cur, ctx));
        }
        idx += 1;
    }
    proof {
        assert(cmds.take(n as int) =~= cmds);
        lemma_run_commands_frame(e0, cmds, ctx);
    }
    Ok(())
}

/// Resolves the registry entry of a repository; `None` — the repository is
/// unknown, uninstalled, or raced with a reload — makes the dispatcher drop
/// the event with no side effects at all.
pub fn get_repo_state<C: RepositoryClient>(state: &BorsState<C>, repo: &str) -> (r: Option<usize>)
    ensures
        match r {
            None => repo_index(state.repos@, repo@) is None,
            Some(i) => i < state.repos@.len() && repo_index(state.repos@, repo@) == Some(i as int),
        },
{
    let n = state.repos.len();
    let mut i: usize = 0;
    while i < n
        invariant
            0 <= i <= n,
            n == state.repos@.len(),
            forall|j: int| 0 <= j < i ==> (#[trigger] state.repos@[j]).state.repository@ != repo@,
        decreases n - i,
    {
        if str_eq(state.repos[i].state.repository.as_str(), repo) {
            proof {
                lemma_repo_index_unique(state.repos@, repo@, i as int);
            }
            return Some(i);
        }
        i += 1;
    }
    proof {
        lemma_repo_index_properties(state.repos@, repo@);
        match repo_index(state.repos@, repo@) {
            Some(k) => {
                assert(state.repos@[k].state.repository@ != repo@);
            },
            None => {},
        }
    }
    None
}

/// How a comment event may change the entry it resolves to: identity kept,
/// observation logs only grown, rows only advanced, invariant preserved.
/// The exact success-path effect is [`handle_comment`]'s contract; the
/// dispatcher swallows its error, so only the frame survives here.
pub open spec fn entry_comment_rel<C: RepositoryClient>(
    e1: RepoEntry<C>,
    e2: RepoEntry<C>,
) -> bool {
    &&& e2.state.repository == e1.state.repository
    &&& e1.state.client.posted().is_prefix_of(e2.state.client.posted())
    &&& e1.state.client.pushes().is_prefix_of(e2.state.client.pushes())
    &&& builds_evolve(e1.db@, e2.db@)
    &&& (tracked_builds_inv(e1.db@) ==> tracked_builds_inv(e2.db@))
}

/// How a workflow-started event changes the entry it resolves to: exactly
/// the correlator's transition, and the client is never touched.
pub open spec fn entry_started_rel<C: RepositoryClient>(
    e1: RepoEntry<C>,
    e2: RepoEntry<C>,
    p: WorkflowStartedPayload,
) -> bool {
    &&& e2.state == e1.state
    &&& e2.db@ == started_spec(e1.db@, p.repository@, p.branch_ref@, p.external_id)
}

/// How a completion event changes the entry it resolves to: exactly the
/// correlator's transition, at most the one owed reply posted, and nothing
/// pushed.
pub open spec fn entry_completed_rel<C: RepositoryClient>(
    e1: RepoEntry<C>,
    e2: RepoEntry<C>,
    p: WorkflowCompletedPayload,
) -> bool {
    &&& e2.state.repository == e1.state.repository
    &&& e2.state.client.pushes() == e1.state.client.pushes()
    &&& e2.db@ == completed_spec(e1.db@, p.repository@, p.branch_ref@, p.succeeded)
    &&& builds_evolve(e1.db@, e2.db@)
    &&& (tracked_builds_inv(e1.db@) ==> tracked_builds_inv(e2.db@))
    &&& match completed_reply_spec(
        e1.db@,
        p.repository@,
        p.branch_ref@,
        p.external_id,
        p.succeeded,
    ) {
        None => e2.state.client.posted() == e1.state.client.posted(),
        Some(reply) => e2.state.client.posted() == e1.state.client.posted()
            || e2.state.client.posted() == e1.state.client.posted().push(reply),
    }
}

/// What one dispatch may do to the registry.
///
/// A comment authored under the bot's own identity, and any event whose
/// repository the registry does not know, leaves the whole state exactly as
/// it was. A resolved event touches exactly the one entry it resolves to,
/// as the per-event relation says. An installation change replaces the set
/// of entries wholesale with whatever the external reload produced.
pub open spec fn dispatch_rel<C: RepositoryClient>(
    s0: BorsState<C>,
    s1: BorsState<C>,
    event: BorsEvent,
) -> bool {
    match event {
        BorsEvent::Comment(c) => {
            if c.author@ == s0.bot_name@ {
                s1 == s0
            } else {
                match repo_index(s0.repos@, c.repository@) {
                    None => s1 == s0,
                    Some(i) => exists|e2: RepoEntry<C>|
                        s1.repos@ == s0.repos@.update(i, e2) && #[trigger] entry_comment_rel(
                            s0.repos@[i],
                            e2,
                        ),
                }
            }
        },
        BorsEvent::InstallationsChanged => true,
        BorsEvent::WorkflowStarted(p) => {
            match repo_index(s0.repos@, p.repository@) {
                None => s1 == s0,
                Some(i) => exists|e2: RepoEntry<C>|
                    s1.repos@ == s0.repos@.update(i, e2) && #[trigger] entry_started_rel(
                        s0.repos@[i],
                        e2,
                        p,
                    ),
            }
        },
        BorsEvent::WorkflowCompleted(p) => {
            match repo_index(s0.repos@, p.repository@) {
                None => s1 == s0,
                Some(i) => exists|e2: RepoEntry<C>|
                    s1.repos@ == s0.repos@.update(i, e2) && #[trigger] entry_completed_rel(
                        s0.repos@[i],
                        e2,
                        p,
                    ),
            }
        },
        BorsEvent::CheckSuiteCompleted(p) => {
            match repo_index(s0.repos@, p.repository@) {
                None => s1 == s0,
                Some(i) => exists|e2: RepoEntry<C>|
                    s1.repos@ == s0.repos@.update(i, e2) && #[trigger] entry_completed_rel(
                        s0.repos@[i],
                        e2,
                        p,
                    ),
            }
        },
    }
}

/// The top-level router. Never propagates a handler failure: every branch
/// swallows its own error and returns normally, so one failing event never
/// stops the stream.
///
/// `now` is the caller's clock reading, stamped onto any build row this
/// event creates; `loader` performs the external installation reload when
/// the event asks for one.
#[verifier::rlimit(50)]
pub fn handle_bors_event<C: RepositoryClient, L: InstallationLoader<C>>(
    event: BorsEvent,
    state: &mut BorsState<C>,
    loader: &mut L,
    now: u64,
)
    ensures
        final(state).bot_name == old(state).bot_name,
        dispatch_rel(*old(state), *final(state), event),
{
    match event {
        BorsEvent::Comment(comment) => {
            if state.is_comment_internal(&comment) {
                // The bot never reacts to its own output.
            } else {
                match get_repo_state(state, comment.repository.as_str()) {
                    Some(i) => {
                        let mut entry = state.repos.remove(i);
                        let ghost e1 = entry;
                        let _ = handle_comment(&mut entry.state, &mut entry.db, &comment, now);
                        let ghost e2 = entry;
                        state.repos.insert(i, entry);
                        proof {
                            assert(e1 == old(state).repos@[i as int]);
                            assert(state.repos@ =~= old(state).repos@.update(i as int, e2));
                            assert(entry_comment_rel(old(state).repos@[i as int], e2));
                        }
                    },
                    None => {},
                }
            }
            proof {
                let s0 = *old(state);
                let s1 = *state;
                if comment.author@ != s0.bot_name@ {
                    match repo_index(s0.repos@, comment.repository@) {
                        None => {
                            assert(s1 == s0);
                        },
                        Some(ii) => {
                            assert(exists|ex: RepoEntry<C>|
                                s1.repos@ == s0.repos@.update(ii, ex)
                                    && #[trigger] entry_comment_rel(s0.repos@[ii], ex));
                        },
                    }
                }
                assert(dispatch_rel(s0, s1, BorsEvent::Comment(comment)));
            }
        },
        BorsEvent::InstallationsChanged => {
            match loader.load_repositories() {
                Ok(entries) => {
                    state.repos = entries;
                },
                Err(_) => {
                    // The previous set stays in force.
                },
            }
        },
        BorsEvent::WorkflowStarted(payload) => {
            let ghost p = payload;
            match get_repo_state(state, payload.repository.as_str()) {
                Some(i) => {
                    let mut entry = state.repos.remove(i);
                    handle_workflow_started(&mut entry.db, payload);
                    let ghost e2 = entry;
                    state.repos.insert(i, entry);
                    proof {
                        assert(state.repos@ =~= old(state).repos@.update(i as int, e2));
                        assert(entry_started_rel(old(state).repos@[i as int], e2, p));
                    }
                },
                None => {},
            }
            proof {
                let s0 = *old(state);
                let s1 = *state;
                match repo_index(s0.repos@, p.repository@) {
                    None => {
                        assert(s1 == s0);
                    },
                    Some(ii) => {
                        assert(exists|ex: RepoEntry<C>|
                            s1.repos@ == s0.repos@.update(ii, ex) && #[trigger] entry_started_rel(
                                s0.repos@[ii],
                                ex,
                                p,
                            ));
                    },
                }
                assert(dispatch_rel(s0, s1, BorsEvent::WorkflowStarted(p)));
            }
        },
        BorsEvent::WorkflowCompleted(payload) => {
            let ghost p = payload;
            match get_repo_state(state, payload.repository.as_str()) {
                Some(i) => {
                    let mut entry = state.repos.remove(i);
                    let _ = handle_workflow_completed(&mut entry.state, &mut entry.db, payload);
                    let ghost e2 = entry;
                    state.repos.insert(i, entry);
                    proof {
                        assert(state.repos@ =~= old(state).repos@.update(i as int, e2));
                        assert(entry_completed_rel(old(state).repos@[i as int], e2, p));
                    }
                },
                None => {},
            }
            proof {
                let s0 = *old(state);
                let s1 = *state;
                match repo_index(s0.repos@, p.repository@) {
                    None => {
                        assert(s1 == s0);
                    },
                    Some(ii) => {
                        assert(exists|ex: RepoEntry<C>|
                            s1.repos@ == s0.repos@.update(ii, ex)
                                && #[trigger] entry_completed_rel(s0.repos@[ii], ex, p));
                    },
                }
                assert(dispatch_rel(s0, s1, BorsEvent::WorkflowCompleted(p)));
            }
        },
        BorsEvent::CheckSuiteCompleted(payload) => {
            let ghost p = payload;
            match get_repo_state(state, payload.repository.as_str()) {
                Some(i) => {
                    let mut entry = state.repos.remove(i);
                    let _ = handle_check_suite_completed(&mut entry.state, &mut entry.db, payload);
                    let ghost e2 = entry;
                    state.repos.insert(i, entry);
                    proof {
                        assert(state.repos@ =~= old(state).repos@.update(i as int, e2));
                        assert(entry_completed_rel(old(state).repos@[i as int], e2, p));
                    }
                },
                None => {},
            }
            proof {
                let s0 = *old(state);
                let s1 = *state;
                match repo_index(s0.repos@, p.repository@) {
                    None => {
                        assert(s1 == s0);
                    },
                    Some(ii) => {
                        assert(exists|ex: RepoEntry<C>|
                            s1.repos@ == s0.repos@.update(ii, ex)
                                && #[trigger] entry_completed_rel(s0.repos@[ii], ex, p));
                    },
                }
                assert(dispatch_rel(s0, s1, BorsEvent::CheckSuiteCompleted(p)));
            }
        },
    }
}

} // verus!
