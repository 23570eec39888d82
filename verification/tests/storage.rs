use bors_core::client::InMemoryClient;
use bors_core::database::{BuildStatus, Database, TryBuild};
use bors_core::handlers::{get_repo_state, is_bors_observed_branch, try_branch_name};
use bors_core::registry::{BorsState, RepoEntry, RepositoryState};

fn build(repo: &str, pr: u64, status: BuildStatus) -> TryBuild {
    TryBuild {
        repository: repo.to_string(),
        pr_number: pr,
        branch_name: try_branch_name().to_string(),
        requested_by: "alice".to_string(),
        status,
        created_at: 0,
        external_build_ids: Vec::new(),
    }
}

#[test]
fn observed_branch_is_exactly_the_reserved_one() {
    assert!(is_bors_observed_branch("automation/bors/try"));
    assert!(is_bors_observed_branch(try_branch_name()));
    assert!(!is_bors_observed_branch("main"));
    assert!(!is_bors_observed_branch("automation/bors/try2"));
    assert!(!is_bors_observed_branch(""));
}

#[test]
fn find_by_branch_picks_the_most_recent_row() {
    let mut db = Database::new();
    db.create_build(build("o/r", 1, BuildStatus::Cancelled));
    db.create_build(build("o/r", 2, BuildStatus::Pending));
    assert_eq!(db.find_build_by_branch("o/r", try_branch_name()), Some(1));
    assert_eq!(db.find_build_by_branch("o/r", "main"), None);
    assert_eq!(db.find_build_by_branch("other/r", try_branch_name()), None);
}

#[test]
fn cancel_marks_only_open_rows_of_the_pull_request() {
    let mut db = Database::new();
    db.create_build(build("o/r", 1, BuildStatus::Succeeded));
    db.create_build(build("o/r", 1, BuildStatus::Running));
    db.create_build(build("o/r", 2, BuildStatus::Pending));
    db.cancel_non_terminal("o/r", 1);
    let statuses: Vec<BuildStatus> = db.builds.iter().map(|b| b.status).collect();
    assert_eq!(
        statuses,
        vec![BuildStatus::Succeeded, BuildStatus::Cancelled, BuildStatus::Pending]
    );
}

#[test]
fn mark_running_records_the_external_id() {
    let mut db = Database::new();
    db.create_build(build("o/r", 1, BuildStatus::Pending));
    db.mark_running(0, 55);
    assert_eq!(db.builds[0].status, BuildStatus::Running);
    assert_eq!(db.builds[0].external_build_ids, vec![55]);
    db.update_build_status(0, BuildStatus::Failed);
    assert_eq!(db.builds[0].status, BuildStatus::Failed);
    assert_eq!(db.len(), 1);
}

fn entry(name: &str) -> RepoEntry<InMemoryClient> {
    RepoEntry {
        state: RepositoryState {
            repository: name.to_string(),
            client: InMemoryClient::new("h".to_string(), "a".to_string()),
        },
        db: Database::new(),
    }
}

#[test]
fn repository_resolution_finds_the_right_entry() {
    let state = BorsState::new("bors-bot".to_string(), vec![entry("a/one"), entry("b/two")]);
    assert_eq!(get_repo_state(&state, "a/one"), Some(0));
    assert_eq!(get_repo_state(&state, "b/two"), Some(1));
    assert_eq!(get_repo_state(&state, "c/three"), None);
    assert_eq!(get_repo_state(&state, ""), None);
}
