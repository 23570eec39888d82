//! Repository registry: the single owner of per-repository mutable context.
//!
//! One event at a time borrows one entry exclusively; the dispatcher takes an
//! entry out, hands it to a handler, and puts it back, so no two events are
//! ever mid-flight over the same repository's state.

use vstd::prelude::*;

use crate::client::{ClientError, RepositoryClient};
use crate::database::Database;
use crate::event::PullRequestComment;
use crate::text::str_eq;

verus! {

/// Mutable context of one repository: its identity and its API capability.
pub struct RepositoryState<C> {
    /// The repository's identity, written `owner/name`.
    pub repository: String,
    /// The API capability handle onto the repository.
    pub client: C,
}

/// One registry entry: a repository's context plus its persistence handle.
pub struct RepoEntry<C> {
    pub state: RepositoryState<C>,
    pub db: Database,
}

/// The registry itself, plus the bot's own identity for self-origin
/// filtering.
pub struct BorsState<C> {
    /// Login the bot posts under; comments by this author are its own output.
    pub bot_name: String,
    /// The repositories the bot currently sees.
    pub repos: Vec<RepoEntry<C>>,
}

/// The first registry index holding the named repository, if any.
pub open spec fn repo_index<C>(repos: Seq<RepoEntry<C>>, name: Seq<char>) -> Option<int>
    decreases repos.len(),
{
    if repos.len() == 0 {
        None
    } else if repos.first().state.repository@ == name {
        Some(0)
    } else {
        match repo_index(repos.drop_first(), name) {
            Some(i) => Some(i + 1),
            None => None,
        }
    }
}

pub proof fn lemma_repo_index_properties<C>(repos: Seq<RepoEntry<C>>, name: Seq<char>)
    ensures
        match repo_index(repos, name) {
            None => forall|j: int|
                0 <= j < repos.len() ==> (#[trigger] repos[j]).state.repository@ != name,
            Some(k) => 0 <= k < repos.len() && repos[k].state.repository@ == name && forall|j: int|
                0 <= j < k ==> (#[trigger] repos[j]).state.repository@ != name,
        },
    decreases repos.len(),
{
    if repos.len() > 0 && repos.first().state.repository@ != name {
        lemma_repo_index_properties(repos.drop_first(), name);
        assert(forall|j: int|
            1 <= j < repos.len() ==> repos.drop_first()[j - 1] == #[trigger] repos[j]);
    }
}

/// The first matching index determines the lookup result.
pub proof fn lemma_repo_index_unique<C>(repos: Seq<RepoEntry<C>>, name: Seq<char>, k: int)
    requires
        0 <= k < repos.len(),
        repos[k].state.repository@ == name,
        forall|j: int| 0 <= j < k ==> (#[trigger] repos[j]).state.repository@ != name,
    ensures
        repo_index(repos, name) == Some(k),
    decreases repos.len(),
{
    if k > 0 {
        lemma_repo_index_unique(repos.drop_first(), name, k - 1);
        assert(forall|j: int|
            1 <= j < repos.len() ==> repos.drop_first()[j - 1] == #[trigger] repos[j]);
    }
}

impl<C: RepositoryClient> BorsState<C> {
    /// A registry that sees the given repositories and filters comments made
    /// under `bot_name`.
    pub fn new(bot_name: String, repos: Vec<RepoEntry<C>>) -> (s: BorsState<C>)
        ensures
            s.bot_name == bot_name,
            s.repos == repos,
    {
        BorsState { bot_name, repos }
    }

    /// Whether the comment is the bot's own output: its author matches the
    /// bot's own identity.
    pub fn is_comment_internal(&self, comment: &PullRequestComment) -> (b: bool)
        ensures
            b == (comment.author@ == self.bot_name@),
    {
        str_eq(comment.author.as_str(), self.bot_name.as_str())
    }
}

/// The external reload operation behind an installation-set change: fetches
/// the set of repositories the bot may currently see.
pub trait InstallationLoader<C>: Sized {
    /// Loads the fresh registry entries, or reports why it could not.
    fn load_repositories(&mut self) -> (r: Result<Vec<RepoEntry<C>>, ClientError>);
}

/// A loader that hands out a prepared set of entries once: the test double
/// for installation reloads.
pub struct FixedLoader<C> {
    pub fail: bool,
    pub entries: Vec<RepoEntry<C>>,
}

impl<C: RepositoryClient> InstallationLoader<C> for FixedLoader<C> {
    fn load_repositories(&mut self) -> (r: Result<Vec<RepoEntry<C>>, ClientError>) {
        if self.fail {
            Err(ClientError { message: String::from_str("installations unavailable") })
        } else {
            Ok(self.entries.split_off(0))
        }
    }
}

} // verus!
