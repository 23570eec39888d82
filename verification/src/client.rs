//! The repository-client capability: what the core needs from the hosting
//! platform, stated as a trait whose contracts speak about two observation
//! logs — the comments posted and the try-merge branch pushes requested.
//!
//! An in-memory recording client implements the trait here, both as the test
//! double the protocol was designed for and as proof that the contracts are
//! satisfiable.

use vstd::prelude::*;

verus! {

/// A pull-request snapshot fetched live from the platform.
pub struct PullRequestSnapshot {
    /// The pull request's number.
    pub number: u64,
    /// The ref of the pull request's head.
    pub head_ref: String,
    /// Login of the pull request's author.
    pub author: String,
}

/// An opaque failure reported by a client operation.
pub struct ClientError {
    pub message: String,
}

/// The mathematical value of one posted comment.
pub struct PostView {
    pub pr: u64,
    pub text: Seq<char>,
}

/// The mathematical value of one requested try-merge push: the reserved
/// branch asked to point at a merge of the given head onto its base.
pub struct PushView {
    pub branch: Seq<char>,
    pub head_ref: Seq<char>,
}

/// Capability handle onto one repository of the hosting platform.
///
/// The two observation logs only ever grow, and an operation that fails
/// leaves them as they were, so callers can account for every visible side
/// effect of a handler.
pub trait RepositoryClient: Sized {
    /// The comments this handle has posted, oldest first.
    spec fn posted(&self) -> Seq<PostView>;

    /// The try-merge pushes this handle has requested, oldest first.
    spec fn pushes(&self) -> Seq<PushView>;

    /// Fetches the current snapshot of a pull request; never cached.
    fn get_pull_request(&mut self, pr: u64) -> (r: Result<PullRequestSnapshot, ClientError>)
        ensures
            final(self).posted() == old(self).posted(),
            final(self).pushes() == old(self).pushes(),
            (r matches Ok(p) ==> p.number == pr),
    ;

    /// Posts a comment to the issue thread of pull request `pr`.
    fn post_comment(&mut self, pr: u64, text: &str) -> (r: Result<(), ClientError>)
        ensures
            final(self).pushes() == old(self).pushes(),
            r is Ok ==> final(self).posted() == old(self).posted().push(
                PostView { pr, text: text@ },
            ),
            r is Err ==> final(self).posted() == old(self).posted(),
    ;

    /// Asks the platform to create or overwrite `branch` so that it points at
    /// a merge of `head_ref` onto its base; the merge mechanics are entirely
    /// the platform's.
    fn create_try_merge(&mut self, branch: &str, head_ref: &str) -> (r: Result<(), ClientError>)
        ensures
            final(self).posted() == old(self).posted(),
            r is Ok ==> final(self).pushes() == old(self).pushes().push(
                PushView { branch: branch@, head_ref: head_ref@ },
            ),
            r is Err ==> final(self).pushes() == old(self).pushes(),
    ;
}

/// One comment recorded by the in-memory client.
pub struct PostRecord {
    pub pr: u64,
    pub text: String,
}

/// One push recorded by the in-memory client.
pub struct PushRecord {
    pub branch: String,
    pub head_ref: String,
}

/// A recording client: answers pull-request lookups from its own fields and
/// logs every comment and push. Each `fail_*` switch makes the next matching
/// operation report a failure instead, so error paths can be exercised.
pub struct InMemoryClient {
    /// Head ref handed out in pull-request snapshots.
    pub pr_head_ref: String,
    /// Author handed out in pull-request snapshots.
    pub pr_author: String,
    pub fail_pull_requests: bool,
    pub fail_posts: bool,
    pub fail_pushes: bool,
    pub posted_comments: Vec<PostRecord>,
    pub push_requests: Vec<PushRecord>,
}

impl InMemoryClient {
    /// A client that succeeds at everything and has recorded nothing.
    pub fn new(pr_head_ref: String, pr_author: String) -> (c: InMemoryClient)
        ensures
            c.posted() =~= Seq::<PostView>::empty(),
            c.pushes() =~= Seq::<PushView>::empty(),
            c.pr_head_ref == pr_head_ref,
            c.pr_author == pr_author,
            !c.fail_pull_requests && !c.fail_posts && !c.fail_pushes,
    {
        InMemoryClient {
            pr_head_ref,
            pr_author,
            fail_pull_requests: false,
            fail_posts: false,
            fail_pushes: false,
            posted_comments: Vec::new(),
            push_requests: Vec::new(),
        }
    }
}

fn refusal() -> ClientError {
    ClientError { message: String::from_str("refused") }
}

impl RepositoryClient for InMemoryClient {
    open spec fn posted(&self) -> Seq<PostView> {
        self.posted_comments@.map_values(|p: PostRecord| PostView { pr: p.pr, text: p.text@ })
    }

    open spec fn pushes(&self) -> Seq<PushView> {
        self.push_requests@.map_values(
            |p: PushRecord| PushView { branch: p.branch@, head_ref: p.head_ref@ },
        )
    }

    fn get_pull_request(&mut self, pr: u64) -> (r: Result<PullRequestSnapshot, ClientError>) {
        if self.fail_pull_requests {
            Err(refusal())
        } else {
            Ok(
                PullRequestSnapshot {
                    number: pr,
                    head_ref: self.pr_head_ref.clone(),
                    author: self.pr_author.clone(),
                },
            )
        }
    }

    fn post_comment(&mut self, pr: u64, text: &str) -> (r: Result<(), ClientError>) {
        if self.fail_posts {
            Err(refusal())
        } else {
            let ghost before = self.posted();
            self.posted_comments.push(PostRecord { pr, text: text.to_owned() });
            proof {
                assert(self.posted() =~= before.push(PostView { pr, text: text@ }));
            }
            Ok(())
        }
    }

    fn create_try_merge(&mut self, branch: &str, head_ref: &str) -> (r: Result<(), ClientError>) {
        if self.fail_pushes {
            Err(refusal())
        } else {
            let ghost before = self.pushes();
            self.push_requests.push(
                PushRecord { branch: branch.to_owned(), head_ref: head_ref.to_owned() },
            );
            proof {
                assert(self.pushes() =~= before.push(
                    PushView { branch: branch@, head_ref: head_ref@ },
                ));
            }
            Ok(())
        }
    }
}

} // verus!
