//! Inbound events: the closed union the dispatcher routes on.

use vstd::prelude::*;

verus! {

/// A pull-request comment as delivered by the hosting platform.
pub struct PullRequestComment {
    /// The repository the comment was made in.
    pub repository: String,
    /// Login of the comment's author.
    pub author: String,
    /// Whether the platform marks the author as a bot account.
    pub author_is_bot: bool,
    /// The pull request the comment sits on.
    pub pr_number: u64,
    /// The comment's text.
    pub text: String,
}

/// A CI workflow has started on a branch.
pub struct WorkflowStartedPayload {
    pub repository: String,
    pub branch_ref: String,
    pub external_id: u64,
}

/// A CI workflow or check suite has finished on a branch.
pub struct WorkflowCompletedPayload {
    pub repository: String,
    pub branch_ref: String,
    pub external_id: u64,
    pub succeeded: bool,
}

/// Everything the dispatcher can be handed. The union is closed on purpose:
/// a new kind must force every handler site to be revisited.
pub enum BorsEvent {
    /// Someone commented on a pull request.
    Comment(PullRequestComment),
    /// The set of repositories the bot may see has changed.
    InstallationsChanged,
    /// A CI workflow began.
    WorkflowStarted(WorkflowStartedPayload),
    /// A CI workflow finished.
    WorkflowCompleted(WorkflowCompletedPayload),
    /// A platform-level check suite finished.
    CheckSuiteCompleted(WorkflowCompletedPayload),
}

} // verus!
