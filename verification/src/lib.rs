use vstd::prelude::*;

pub mod change_set;
pub mod command;
pub mod error;
pub mod execution;
pub mod export;
pub mod git;
pub mod guarantees;
pub mod listing;
pub mod processor;
pub mod protocol;
pub mod session;
pub mod summary;
pub mod text;
pub mod types;

pub use change_set::ChangeSet;
pub use error::{Error, Result};
pub use git::Git;
pub use processor::GitChangesProcessor;
pub use types::{AnalysisTarget, FileChange, FileStatus};

use git::{Exchange, GitCall, GitReply};
use processor::is_remote_source;

verus! {

/// A processor for a repository source, on a capability that is bound to
/// the working tree to use. A source that begins with `https://` or `git@`
/// is cloned into that tree, which has to be empty: the capability is asked
/// once to clone the source as it is given, and its answer decides, success
/// giving the processor and failure being the error. Any other source is a
/// local path, for which nothing is requested.
pub fn new<G: Git>(repo: &str, git: G) -> (result: Result<GitChangesProcessor<G>>)
    ensures
        !is_remote_source(repo@) ==> result is Ok,
        is_remote_source(repo@) ==> exists|cloned: std::result::Result<(), Error>| #[trigger]
            call_ensures(G::clone_repo, (&git, repo), cloned) && match cloned {
                Ok(_) => result is Ok,
                Err(e) => result == Err::<GitChangesProcessor<G>, Error>(e),
            },
        result is Ok ==> result->Ok_0.capability() == git,
        result is Ok ==> result->Ok_0.history() == if is_remote_source(repo@) {
            seq![(Exchange { call: GitCall::Clone { url: repo@ }, reply: GitReply::Done })]
        } else {
            Seq::<Exchange>::empty()
        },
{
    GitChangesProcessor::new(repo, git)
}

} // verus!
