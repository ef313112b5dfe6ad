use crate::change_set::ChangeSet;
use crate::command::{
    branch_listing_command, branch_range, commit_listing_command, commit_range, exists_command,
    fetch_command,
};
use crate::error::Error;
use crate::export::export_calls;
use crate::git::{string_texts, Exchange, GitCall, GitReply};
use crate::listing::listed_changes;
use crate::types::{changes_map, settled, AnalysisTarget, FileStatus};
use vstd::prelude::*;

verus! {

/// The branch to compare against where none is configured and the remote's
/// default branch cannot be discovered.
pub open spec fn fallback_branch() -> Seq<char> {
    "origin/main"@
}

/// The exchanges that `after` holds beyond `before`.
pub open spec fn made_since(before: Seq<Exchange>, after: Seq<Exchange>) -> Seq<Exchange> {
    after.skip(before.len() as int)
}

/// A plan of requests was followed in order, each request made once, until
/// it was complete or a request failed. Nothing was requested after a
/// failure.
pub open spec fn carried_out(plan: Seq<GitCall>, made: Seq<Exchange>) -> bool {
    &&& made.len() <= plan.len()
    &&& forall|i: int| 0 <= i < made.len() ==> (#[trigger] made[i]).call == plan[i]
    &&& forall|i: int| 0 <= i < made.len() - 1 ==> !((#[trigger] made[i]).reply is Failed)
    &&& made.len() < plan.len() ==> made.len() > 0 && made.last().reply is Failed
}

/// The error of the last exchange, where that exchange failed.
pub open spec fn failure(made: Seq<Exchange>) -> Option<Error> {
    if made.len() > 0 {
        match made.last().reply {
            GitReply::Failed(e) => Some(e),
            _ => None,
        }
    } else {
        None
    }
}

/// What a comparison comes to: a mapping from path to status, or the error
/// that ended it.
pub type Outcome = Result<Map<Seq<char>, FileStatus>, Error>;

/// What a returned value says: the mapping that the change set stands for,
/// or the error.
pub open spec fn outcome_of(result: Result<ChangeSet, Error>) -> Outcome {
    match result {
        Ok(set) => Ok(set@),
        Err(e) => Err(e),
    }
}

/// One comparison, with or without export. The listing is requested first.
/// Where that fails, its error is the outcome and nothing else is requested.
/// Otherwise the changes are those that the listing records; without an
/// output directory nothing more is requested. With one, what the listing
/// settles to is exported: each path once, by the status that the listing
/// gives it last, in the order in which the listing first names the paths.
/// The first failure of the export is the outcome.
pub open spec fn compared(
    rev: Seq<char>,
    listing: Seq<Seq<char>>,
    range: Seq<char>,
    output_dir: Option<Seq<char>>,
    made: Seq<Exchange>,
    outcome: Outcome,
) -> bool {
    &&& made.len() >= 1
    &&& made[0].call == GitCall::Query { args: listing }
    &&& match made[0].reply {
        GitReply::Text(output) => {
            let changes = listed_changes(output);
            let plan = match output_dir {
                Some(dir) => export_calls(settled(changes), rev, range, dir),
                None => Seq::empty(),
            };
            &&& carried_out(plan, made.skip(1))
            &&& match failure(made.skip(1)) {
                Some(e) => outcome == Err::<Map<Seq<char>, FileStatus>, Error>(e),
                None => outcome == Ok::<Map<Seq<char>, FileStatus>, Error>(changes_map(changes)),
            }
        },
        GitReply::Failed(e) => made.len() == 1 && outcome == Err::<
            Map<Seq<char>, FileStatus>,
            Error,
        >(e),
        _ => false,
    }
}

/// The base that an answer to the request for the default branch gives: the
/// name it holds, or the fallback where the request failed.
pub open spec fn discovered_base(reply: GitReply) -> Seq<char> {
    match reply {
        GitReply::Text(name) => name,
        _ => fallback_branch(),
    }
}

/// The comparison of a branch that is checked out. The base is settled
/// first: the configured target where there is one; otherwise the default
/// branch is asked for, once, and the fallback taken where that fails. Then
/// the branch is compared with the base, relative to their common ancestor.
pub open spec fn branch_compared(
    branch: Seq<char>,
    configured: Option<Seq<char>>,
    output_dir: Option<Seq<char>>,
    made: Seq<Exchange>,
    outcome: Outcome,
) -> bool {
    match configured {
        Some(target) => compared(
            branch,
            branch_listing_command(target, branch),
            branch_range(target, branch),
            output_dir,
            made,
            outcome,
        ),
        None => {
            &&& made.len() >= 1
            &&& made[0].call == GitCall::DefaultBranch
            &&& compared(
                branch,
                branch_listing_command(discovered_base(made[0].reply), branch),
                branch_range(discovered_base(made[0].reply), branch),
                output_dir,
                made.skip(1),
                outcome,
            )
        },
    }
}

/// A branch is checked out and, where that succeeds, compared. Where the
/// checkout fails, its error is the outcome and nothing else is requested.
pub open spec fn checked_out_and_compared(
    branch: Seq<char>,
    configured: Option<Seq<char>>,
    output_dir: Option<Seq<char>>,
    made: Seq<Exchange>,
    outcome: Outcome,
) -> bool {
    &&& made.len() >= 1
    &&& made[0].call == GitCall::Checkout { branch }
    &&& match made[0].reply {
        GitReply::Failed(e) => made.len() == 1 && outcome == Err::<
            Map<Seq<char>, FileStatus>,
            Error,
        >(e),
        _ => branch_compared(branch, configured, output_dir, made.skip(1), outcome),
    }
}

/// The comparison of a commit with its first parent. The commit is looked
/// for locally first; only where that fails it is fetched from the default
/// remote, and where the fetch fails, its error is the outcome. Then comes
/// the comparison.
pub open spec fn commit_compared(
    commit: Seq<char>,
    output_dir: Option<Seq<char>>,
    made: Seq<Exchange>,
    outcome: Outcome,
) -> bool {
    &&& made.len() >= 1
    &&& made[0].call == GitCall::Query { args: exists_command(commit) }
    &&& match made[0].reply {
        GitReply::Failed(_) => {
            &&& made.len() >= 2
            &&& made[1].call == GitCall::Query { args: fetch_command(commit) }
            &&& match made[1].reply {
                GitReply::Failed(e) => made.len() == 2 && outcome == Err::<
                    Map<Seq<char>, FileStatus>,
                    Error,
                >(e),
                _ => compared(
                    commit,
                    commit_listing_command(commit),
                    commit_range(commit),
                    output_dir,
                    made.skip(2),
                    outcome,
                ),
            }
        },
        _ => compared(
            commit,
            commit_listing_command(commit),
            commit_range(commit),
            output_dir,
            made.skip(1),
            outcome,
        ),
    }
}

/// The comparison of one commit: what was exchanged for it and what it came
/// to.
pub struct CommitRun {
    pub made: Seq<Exchange>,
    pub outcome: Outcome,
}

/// The exchanges of a sequence of runs, one run after the other.
pub open spec fn joined(runs: Seq<CommitRun>) -> Seq<Exchange>
    decreases runs.len(),
{
    if runs.len() == 0 {
        Seq::empty()
    } else {
        joined(runs.drop_last()) + runs.last().made
    }
}

/// The mapping that a sequence of runs amounts to: the mappings of the runs
/// laid over each other in order, so that for a path that several runs name
/// the last of them decides. A run that failed adds nothing.
pub open spec fn merged(runs: Seq<CommitRun>) -> Map<Seq<char>, FileStatus>
    decreases runs.len(),
{
    if runs.len() == 0 {
        Map::empty()
    } else {
        match runs.last().outcome {
            Ok(changes) => merged(runs.drop_last()).union_prefer_right(changes),
            Err(_) => merged(runs.drop_last()),
        }
    }
}

/// The comparison of commits, each with its first parent, in the order
/// given. `runs` holds one run for each commit that was reached. The first
/// run that fails ends the whole: its error is the outcome and the commits
/// behind it are not reached. Where none fails, every commit is reached and
/// the outcome is the merged mapping.
pub open spec fn commits_compared(
    commits: Seq<Seq<char>>,
    output_dir: Option<Seq<char>>,
    runs: Seq<CommitRun>,
    made: Seq<Exchange>,
    outcome: Outcome,
) -> bool {
    &&& runs.len() <= commits.len()
    &&& made == joined(runs)
    &&& forall|k: int|
        0 <= k < runs.len() ==> commit_compared(
            commits[k],
            output_dir,
            (#[trigger] runs[k]).made,
            runs[k].outcome,
        )
    &&& forall|k: int| 0 <= k < runs.len() - 1 ==> (#[trigger] runs[k]).outcome is Ok
    &&& if runs.len() > 0 && runs.last().outcome is Err {
        outcome == runs.last().outcome
    } else {
        runs.len() == commits.len() && outcome == Ok::<Map<Seq<char>, FileStatus>, Error>(
            merged(runs),
        )
    }
}

/// The comparison of a target that has been resolved.
pub open spec fn target_compared(
    target: AnalysisTarget,
    configured: Option<Seq<char>>,
    output_dir: Option<Seq<char>>,
    made: Seq<Exchange>,
    outcome: Outcome,
) -> bool {
    match target {
        AnalysisTarget::Branch(name) => branch_compared(
            name@,
            configured,
            output_dir,
            made,
            outcome,
        ),
        AnalysisTarget::Commits(ids) => exists|runs: Seq<CommitRun>| #[trigger]
            commits_compared(string_texts(ids@), output_dir, runs, made, outcome),
    }
}

/// The text of an optional text.
pub open spec fn text_of(text: Option<&str>) -> Option<Seq<char>> {
    match text {
        Some(t) => Some(t@),
        None => None,
    }
}

/// One more exchange is what was made since.
pub proof fn lemma_made_one(before: Seq<Exchange>, exchange: Exchange)
    ensures
        before.is_prefix_of(before.push(exchange)),
        made_since(before, before.push(exchange)) =~= seq![exchange],
{
}

/// What was made since an earlier point is what was made up to a later
/// point followed by what was made from there on.
pub proof fn lemma_made_more(first: Seq<Exchange>, second: Seq<Exchange>, third: Seq<Exchange>)
    requires
        first.is_prefix_of(second),
        second.is_prefix_of(third),
    ensures
        first.is_prefix_of(third),
        made_since(first, third) =~= made_since(first, second) + made_since(second, third),
        made_since(first, third).skip(made_since(first, second).len() as int) =~= made_since(
            second,
            third,
        ),
{
}

} // verus!
