use bors_core::client::InMemoryClient;
use bors_core::database::{BuildStatus, Database};
use bors_core::event::{
    BorsEvent, PullRequestComment, WorkflowCompletedPayload, WorkflowStartedPayload,
};
use bors_core::handlers::{handle_bors_event, try_branch_name};
use bors_core::registry::{BorsState, FixedLoader, RepoEntry, RepositoryState};

const REPO: &str = "owner/project";
const BOT: &str = "bors-bot";
const PR: u64 = 17;

fn fresh_state() -> BorsState<InMemoryClient> {
    let client = InMemoryClient::new("headsha".to_string(), "pr-author".to_string());
    let entry = RepoEntry {
        state: RepositoryState { repository: REPO.to_string(), client },
        db: Database::new(),
    };
    BorsState::new(BOT.to_string(), vec![entry])
}

fn no_loader() -> FixedLoader<InMemoryClient> {
    FixedLoader { fail: true, entries: Vec::new() }
}

fn comment(repo: &str, author: &str, text: &str) -> BorsEvent {
    BorsEvent::Comment(PullRequestComment {
        repository: repo.to_string(),
        author: author.to_string(),
        author_is_bot: author == BOT,
        pr_number: PR,
        text: text.to_string(),
    })
}

fn dispatch(state: &mut BorsState<InMemoryClient>, event: BorsEvent) {
    let mut loader = no_loader();
    handle_bors_event(event, state, &mut loader, 1000);
}

fn posted(state: &BorsState<InMemoryClient>) -> Vec<(u64, String)> {
    state.repos[0]
        .state
        .client
        .posted_comments
        .iter()
        .map(|p| (p.pr, p.text.clone()))
        .collect()
}

fn statuses(state: &BorsState<InMemoryClient>) -> Vec<BuildStatus> {
    state.repos[0].db.builds.iter().map(|b| b.status).collect()
}

#[test]
fn test_ignore_bot_comment() {
    let mut state = fresh_state();
    dispatch(&mut state, comment(REPO, BOT, "@bors ping"));
    assert!(posted(&state).is_empty());
    assert!(state.repos[0].db.builds.is_empty());
    assert!(state.repos[0].state.client.push_requests.is_empty());
}

#[test]
fn ping_is_answered_with_pong() {
    let mut state = fresh_state();
    dispatch(&mut state, comment(REPO, "alice", "@bors ping"));
    assert_eq!(posted(&state), vec![(PR, "Pong!".to_string())]);
}

#[test]
fn ping_then_bogus_posts_pong_then_unknown_reply_in_order() {
    let mut state = fresh_state();
    dispatch(&mut state, comment(REPO, "alice", "@bors ping\n@bors bogus"));
    assert_eq!(
        posted(&state),
        vec![
            (PR, "Pong!".to_string()),
            (PR, "Unknown command \"bogus\".".to_string()),
        ]
    );
}

#[test]
fn bare_trigger_posts_missing_command_reply() {
    let mut state = fresh_state();
    dispatch(&mut state, comment(REPO, "alice", "@bors"));
    assert_eq!(posted(&state), vec![(PR, "Missing command.".to_string())]);
}

#[test]
fn try_creates_pending_build_and_pushes_reserved_branch() {
    let mut state = fresh_state();
    dispatch(&mut state, comment(REPO, "alice", "@bors try"));
    assert_eq!(statuses(&state), vec![BuildStatus::Pending]);
    let build = &state.repos[0].db.builds[0];
    assert_eq!(build.repository, REPO);
    assert_eq!(build.pr_number, PR);
    assert_eq!(build.branch_name, try_branch_name());
    assert_eq!(build.requested_by, "alice");
    assert_eq!(build.created_at, 1000);
    assert!(build.external_build_ids.is_empty());
    let pushes = &state.repos[0].state.client.push_requests;
    assert_eq!(pushes.len(), 1);
    assert_eq!(pushes[0].branch, try_branch_name());
    assert_eq!(pushes[0].head_ref, "headsha");
    assert_eq!(posted(&state), vec![(PR, "Trying commit headsha.".to_string())]);
}

#[test]
fn second_try_cancels_open_build_and_creates_exactly_one_new_pending() {
    let mut state = fresh_state();
    dispatch(&mut state, comment(REPO, "alice", "@bors try"));
    dispatch(&mut state, comment(REPO, "bob", "@bors try"));
    assert_eq!(statuses(&state), vec![BuildStatus::Cancelled, BuildStatus::Pending]);
    assert_eq!(state.repos[0].db.builds[1].requested_by, "bob");
}

#[test]
fn try_supersedes_running_build_too() {
    let mut state = fresh_state();
    dispatch(&mut state, comment(REPO, "alice", "@bors try"));
    dispatch(
        &mut state,
        BorsEvent::WorkflowStarted(WorkflowStartedPayload {
            repository: REPO.to_string(),
            branch_ref: try_branch_name().to_string(),
            external_id: 5,
        }),
    );
    assert_eq!(statuses(&state), vec![BuildStatus::Running]);
    dispatch(&mut state, comment(REPO, "bob", "@bors try"));
    assert_eq!(statuses(&state), vec![BuildStatus::Cancelled, BuildStatus::Pending]);
}

#[test]
fn workflow_start_records_external_run_id() {
    let mut state = fresh_state();
    dispatch(&mut state, comment(REPO, "alice", "@bors try"));
    dispatch(
        &mut state,
        BorsEvent::WorkflowStarted(WorkflowStartedPayload {
            repository: REPO.to_string(),
            branch_ref: try_branch_name().to_string(),
            external_id: 97,
        }),
    );
    assert_eq!(state.repos[0].db.builds[0].external_build_ids, vec![97]);
}

#[test]
fn unmatched_workflow_start_mutates_nothing_and_replies_nothing() {
    let mut state = fresh_state();
    dispatch(&mut state, comment(REPO, "alice", "@bors try"));
    let before_posts = posted(&state);
    dispatch(
        &mut state,
        BorsEvent::WorkflowStarted(WorkflowStartedPayload {
            repository: REPO.to_string(),
            branch_ref: "refs/heads/main".to_string(),
            external_id: 5,
        }),
    );
    assert_eq!(statuses(&state), vec![BuildStatus::Pending]);
    assert!(state.repos[0].db.builds[0].external_build_ids.is_empty());
    assert_eq!(posted(&state), before_posts);
}

#[test]
fn completion_posts_exactly_one_result_reply() {
    let mut state = fresh_state();
    dispatch(&mut state, comment(REPO, "alice", "@bors try"));
    dispatch(
        &mut state,
        BorsEvent::WorkflowCompleted(WorkflowCompletedPayload {
            repository: REPO.to_string(),
            branch_ref: try_branch_name().to_string(),
            external_id: 321,
            succeeded: true,
        }),
    );
    assert_eq!(statuses(&state), vec![BuildStatus::Succeeded]);
    assert_eq!(
        posted(&state),
        vec![
            (PR, "Trying commit headsha.".to_string()),
            (PR, "Try build succeeded (run 321).".to_string()),
        ]
    );
}

#[test]
fn duplicate_completion_produces_one_reply_in_total() {
    let mut state = fresh_state();
    dispatch(&mut state, comment(REPO, "alice", "@bors try"));
    let failed = |id: u64| {
        BorsEvent::WorkflowCompleted(WorkflowCompletedPayload {
            repository: REPO.to_string(),
            branch_ref: try_branch_name().to_string(),
            external_id: id,
            succeeded: false,
        })
    };
    dispatch(&mut state, failed(8));
    dispatch(&mut state, failed(8));
    assert_eq!(statuses(&state), vec![BuildStatus::Failed]);
    assert_eq!(
        posted(&state),
        vec![
            (PR, "Trying commit headsha.".to_string()),
            (PR, "Try build failed (run 8).".to_string()),
        ]
    );
}

#[test]
fn check_suite_completion_resolves_builds_too() {
    let mut state = fresh_state();
    dispatch(&mut state, comment(REPO, "alice", "@bors try"));
    dispatch(
        &mut state,
        BorsEvent::CheckSuiteCompleted(WorkflowCompletedPayload {
            repository: REPO.to_string(),
            branch_ref: try_branch_name().to_string(),
            external_id: 12,
            succeeded: true,
        }),
    );
    assert_eq!(statuses(&state), vec![BuildStatus::Succeeded]);
}

#[test]
fn events_for_unregistered_repositories_change_nothing() {
    let mut state = fresh_state();
    dispatch(&mut state, comment("ghost/elsewhere", "alice", "@bors try"));
    dispatch(
        &mut state,
        BorsEvent::WorkflowStarted(WorkflowStartedPayload {
            repository: "ghost/elsewhere".to_string(),
            branch_ref: try_branch_name().to_string(),
            external_id: 4,
        }),
    );
    dispatch(
        &mut state,
        BorsEvent::WorkflowCompleted(WorkflowCompletedPayload {
            repository: "ghost/elsewhere".to_string(),
            branch_ref: try_branch_name().to_string(),
            external_id: 4,
            succeeded: true,
        }),
    );
    assert!(posted(&state).is_empty());
    assert!(state.repos[0].db.builds.is_empty());
    assert!(state.repos[0].state.client.push_requests.is_empty());
}

#[test]
fn failed_push_leaves_no_build_row_and_no_acknowledgement() {
    let mut state = fresh_state();
    state.repos[0].state.client.fail_pushes = true;
    dispatch(&mut state, comment(REPO, "alice", "@bors try"));
    assert!(state.repos[0].db.builds.is_empty());
    assert!(posted(&state).is_empty());
}

#[test]
fn failed_execution_abandons_the_rest_of_the_comment() {
    let mut state = fresh_state();
    state.repos[0].state.client.fail_pushes = true;
    dispatch(&mut state, comment(REPO, "alice", "@bors try\n@bors ping"));
    // The try failed hard, so the ping after it never ran.
    assert!(posted(&state).is_empty());
}

#[test]
fn parse_error_does_not_stop_the_batch() {
    let mut state = fresh_state();
    dispatch(&mut state, comment(REPO, "alice", "@bors bogus\n@bors ping"));
    assert_eq!(
        posted(&state),
        vec![
            (PR, "Unknown command \"bogus\".".to_string()),
            (PR, "Pong!".to_string()),
        ]
    );
}

#[test]
fn failed_reply_post_is_swallowed_by_the_dispatcher() {
    let mut state = fresh_state();
    state.repos[0].state.client.fail_posts = true;
    dispatch(&mut state, comment(REPO, "alice", "@bors ping"));
    assert!(posted(&state).is_empty());
    assert!(state.repos[0].db.builds.is_empty());
}

#[test]
fn failed_pull_request_fetch_leaves_everything_untouched() {
    let mut state = fresh_state();
    state.repos[0].state.client.fail_pull_requests = true;
    dispatch(&mut state, comment(REPO, "alice", "@bors try"));
    assert!(posted(&state).is_empty());
    assert!(state.repos[0].db.builds.is_empty());
    assert!(state.repos[0].state.client.push_requests.is_empty());
}

#[test]
fn installations_change_replaces_the_repository_set() {
    let mut state = fresh_state();
    let fresh = RepoEntry {
        state: RepositoryState {
            repository: "owner/other".to_string(),
            client: InMemoryClient::new("h2".to_string(), "a2".to_string()),
        },
        db: Database::new(),
    };
    let mut loader = FixedLoader { fail: false, entries: vec![fresh] };
    handle_bors_event(BorsEvent::InstallationsChanged, &mut state, &mut loader, 0);
    assert_eq!(state.repos.len(), 1);
    assert_eq!(state.repos[0].state.repository, "owner/other");
}

#[test]
fn failed_installation_reload_keeps_the_previous_set() {
    let mut state = fresh_state();
    let mut loader: FixedLoader<InMemoryClient> = FixedLoader { fail: true, entries: Vec::new() };
    handle_bors_event(BorsEvent::InstallationsChanged, &mut state, &mut loader, 0);
    assert_eq!(state.repos.len(), 1);
    assert_eq!(state.repos[0].state.repository, REPO);
}
