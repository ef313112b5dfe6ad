use crate::export::{change_export, content_call, diff_call, export_calls};
use crate::git::{string_texts, Exchange, GitCall, GitReply};
use crate::listing::listed_changes;
use crate::protocol::{
    branch_compared, carried_out, checked_out_and_compared, commit_compared, commits_compared,
    compared, discovered_base, failure, fallback_branch, joined, merged, target_compared,
    CommitRun, Outcome,
};
use crate::command::{
    branch_listing_command, branch_range, commit_listing_command, commit_range, diff_command,
    output_path, show_command,
};
use crate::types::{
    changes_map, distinct_paths, lemma_changes_map_keys, lemma_pairs_of_distinct, lemma_settled,
    named_paths, settled, AnalysisTarget, ChangeView, FileStatus,
};
use vstd::prelude::*;

verus! {

/// Every answer in `made` is the one that `answer` gives to the request: the
/// repository answers the same request in the same way throughout.
pub open spec fn answered_by(made: Seq<Exchange>, answer: spec_fn(GitCall) -> GitReply) -> bool {
    forall|i: int| 0 <= i < made.len() ==> (#[trigger] made[i]).reply == answer(made[i].call)
}

/// A comparison that succeeds returns a mapping whose keys are exactly the
/// paths that the listing names.
pub proof fn lemma_compared_keys(
    rev: Seq<char>,
    listing: Seq<Seq<char>>,
    range: Seq<char>,
    output_dir: Option<Seq<char>>,
    made: Seq<Exchange>,
    outcome: Outcome,
)
    requires
        compared(rev, listing, range, output_dir, made, outcome),
        outcome is Ok,
    ensures
        made[0].reply is Text,
        outcome->Ok_0.dom() =~= named_paths(listed_changes(made[0].reply->Text_0)),
{
    lemma_changes_map_keys(listed_changes(made[0].reply->Text_0));
}

/// The place of the listing among the exchanges of a branch comparison that
/// begins with the checkout.
pub open spec fn branch_listing_at(configured: Option<Seq<char>>) -> int {
    if configured is Some {
        1
    } else {
        2
    }
}

/// A branch comparison that succeeds returns a mapping whose keys are
/// exactly the paths that its listing names.
pub proof fn lemma_branch_keys(
    branch: Seq<char>,
    configured: Option<Seq<char>>,
    output_dir: Option<Seq<char>>,
    made: Seq<Exchange>,
    outcome: Outcome,
)
    requires
        checked_out_and_compared(branch, configured, output_dir, made, outcome),
        outcome is Ok,
    ensures
        made.len() > branch_listing_at(configured),
        made[branch_listing_at(configured)].reply is Text,
        outcome->Ok_0.dom() =~= named_paths(
            listed_changes(made[branch_listing_at(configured)].reply->Text_0),
        ),
{
    let at = branch_listing_at(configured);
    let rest = made.skip(at);
    assert(rest[0] == made[at]);
    match configured {
        Some(target) => {
            lemma_changes_map_keys(listed_changes(rest[0].reply->Text_0));
        },
        None => {
            assert(made.skip(1).skip(1) =~= rest);
            assert(made.skip(1)[0] == made[1]);
            lemma_changes_map_keys(listed_changes(rest[0].reply->Text_0));
        },
    }
}

/// A listing without export is determined by its answers: two listings with
/// the same request, answered alike, make the same exchanges and come to
/// the same outcome.
pub proof fn lemma_compared_repeats(
    rev: Seq<char>,
    listing: Seq<Seq<char>>,
    range: Seq<char>,
    first: Seq<Exchange>,
    first_outcome: Outcome,
    second: Seq<Exchange>,
    second_outcome: Outcome,
    answer: spec_fn(GitCall) -> GitReply,
)
    requires
        compared(rev, listing, range, None, first, first_outcome),
        compared(rev, listing, range, None, second, second_outcome),
        answered_by(first, answer),
        answered_by(second, answer),
    ensures
        first == second,
        first_outcome == second_outcome,
{
    assert(first[0].reply == answer(first[0].call));
    assert(second[0].reply == answer(second[0].call));
    assert(first.skip(1).len() == 0);
    assert(second.skip(1).len() == 0);
    assert(first =~= second);
}

/// What holds of all exchanges holds of those behind the first `n`.
pub proof fn lemma_answered_rest(made: Seq<Exchange>, n: int, answer: spec_fn(GitCall) -> GitReply)
    requires
        answered_by(made, answer),
        0 <= n <= made.len(),
    ensures
        answered_by(made.skip(n), answer),
{
    let rest = made.skip(n);
    assert forall|i: int| 0 <= i < rest.len() implies (#[trigger] rest[i]).reply == answer(
        rest[i].call,
    ) by {
        assert(rest[i] == made[i + n]);
    }
}

/// Listing what a checked-out branch changed twice, while the repository
/// answers every request as before, makes the same exchanges and comes to
/// the same outcome.
pub proof fn lemma_branch_compared_repeats(
    branch: Seq<char>,
    configured: Option<Seq<char>>,
    first: Seq<Exchange>,
    first_outcome: Outcome,
    second: Seq<Exchange>,
    second_outcome: Outcome,
    answer: spec_fn(GitCall) -> GitReply,
)
    requires
        branch_compared(branch, configured, None, first, first_outcome),
        branch_compared(branch, configured, None, second, second_outcome),
        answered_by(first, answer),
        answered_by(second, answer),
    ensures
        first == second,
        first_outcome == second_outcome,
{
    match configured {
        Some(target) => {
            lemma_compared_repeats(
                branch,
                branch_listing_command(target, branch),
                branch_range(target, branch),
                first,
                first_outcome,
                second,
                second_outcome,
                answer,
            );
        },
        None => {
            assert(first[0].reply == answer(first[0].call));
            assert(second[0].reply == answer(second[0].call));
            let base = discovered_base(first[0].reply);
            lemma_answered_rest(first, 1, answer);
            lemma_answered_rest(second, 1, answer);
            lemma_compared_repeats(
                branch,
                branch_listing_command(base, branch),
                branch_range(base, branch),
                first.skip(1),
                first_outcome,
                second.skip(1),
                second_outcome,
                answer,
            );
            assert(first =~= seq![first[0]] + first.skip(1));
            assert(second =~= seq![second[0]] + second.skip(1));
        },
    }
}

/// Checking a branch out and listing what it changed, twice, while the
/// repository answers every request as before, makes the same exchanges and
/// returns the same mapping or the same error.
pub proof fn lemma_branch_listing_repeats(
    branch: Seq<char>,
    configured: Option<Seq<char>>,
    first: Seq<Exchange>,
    first_outcome: Outcome,
    second: Seq<Exchange>,
    second_outcome: Outcome,
    answer: spec_fn(GitCall) -> GitReply,
)
    requires
        checked_out_and_compared(branch, configured, None, first, first_outcome),
        checked_out_and_compared(branch, configured, None, second, second_outcome),
        answered_by(first, answer),
        answered_by(second, answer),
    ensures
        first == second,
        first_outcome == second_outcome,
{
    assert(first[0].reply == answer(first[0].call));
    assert(second[0].reply == answer(second[0].call));
    if first[0].reply is Failed {
        assert(first =~= second);
    } else {
        lemma_answered_rest(first, 1, answer);
        lemma_answered_rest(second, 1, answer);
        lemma_branch_compared_repeats(
            branch,
            configured,
            first.skip(1),
            first_outcome,
            second.skip(1),
            second_outcome,
            answer,
        );
        assert(first =~= seq![first[0]] + first.skip(1));
        assert(second =~= seq![second[0]] + second.skip(1));
    }
}

/// Listing what a commit changed twice, while the repository answers every
/// request as before, makes the same exchanges and returns the same mapping
/// or the same error.
pub proof fn lemma_commit_listing_repeats(
    commit: Seq<char>,
    first: Seq<Exchange>,
    first_outcome: Outcome,
    second: Seq<Exchange>,
    second_outcome: Outcome,
    answer: spec_fn(GitCall) -> GitReply,
)
    requires
        commit_compared(commit, None, first, first_outcome),
        commit_compared(commit, None, second, second_outcome),
        answered_by(first, answer),
        answered_by(second, answer),
    ensures
        first == second,
        first_outcome == second_outcome,
{
    assert(first[0].reply == answer(first[0].call));
    assert(second[0].reply == answer(second[0].call));
    let at: int = if first[0].reply is Failed {
        2
    } else {
        1
    };
    if first[0].reply is Failed {
        assert(first[1].reply == answer(first[1].call));
        assert(second[1].reply == answer(second[1].call));
    }
    if first[0].reply is Failed && first[1].reply is Failed {
        assert(first =~= second);
    } else {
        lemma_answered_rest(first, at, answer);
        lemma_answered_rest(second, at, answer);
        lemma_compared_repeats(
            commit,
            commit_listing_command(commit),
            commit_range(commit),
            first.skip(at),
            first_outcome,
            second.skip(at),
            second_outcome,
            answer,
        );
        assert(first =~= first.take(at) + first.skip(at));
        assert(second =~= second.take(at) + second.skip(at));
        assert(first.take(at) =~= second.take(at));
    }
}

/// Every exchange of a run is among the joined exchanges.
proof fn lemma_joined_holds(runs: Seq<CommitRun>, k: int, i: int)
    requires
        0 <= k < runs.len(),
        0 <= i < runs[k].made.len(),
    ensures
        joined(runs).contains(runs[k].made[i]),
    decreases runs.len(),
{
    let front = joined(runs.drop_last());
    if k == runs.len() - 1 {
        assert(joined(runs)[front.len() + i] == runs[k].made[i]);
    } else {
        lemma_joined_holds(runs.drop_last(), k, i);
        let at = choose|at: int| 0 <= at < front.len() && front[at] == runs[k].made[i];
        assert(joined(runs)[at] == runs[k].made[i]);
    }
}

/// Listing what commits changed twice, while the repository answers every
/// request as before, reaches the same commits, makes the same exchanges
/// and returns the same merged mapping or the same error.
pub proof fn lemma_commits_listing_repeats(
    commits: Seq<Seq<char>>,
    first_runs: Seq<CommitRun>,
    first: Seq<Exchange>,
    first_outcome: Outcome,
    second_runs: Seq<CommitRun>,
    second: Seq<Exchange>,
    second_outcome: Outcome,
    answer: spec_fn(GitCall) -> GitReply,
)
    requires
        commits_compared(commits, None, first_runs, first, first_outcome),
        commits_compared(commits, None, second_runs, second, second_outcome),
        answered_by(first, answer),
        answered_by(second, answer),
    ensures
        first_runs == second_runs,
        first == second,
        first_outcome == second_outcome,
{
    assert forall|k: int| 0 <= k < first_runs.len() && k < second_runs.len() implies first_runs[k]
        == second_runs[k] by {
        let one = first_runs[k];
        let two = second_runs[k];
        assert forall|i: int| 0 <= i < one.made.len() implies (#[trigger] one.made[i]).reply
            == answer(one.made[i].call) by {
            lemma_joined_holds(first_runs, k, i);
            let at = choose|at: int| 0 <= at < first.len() && first[at] == one.made[i];
            assert(first[at].reply == answer(first[at].call));
        }
        assert forall|i: int| 0 <= i < two.made.len() implies (#[trigger] two.made[i]).reply
            == answer(two.made[i].call) by {
            lemma_joined_holds(second_runs, k, i);
            let at = choose|at: int| 0 <= at < second.len() && second[at] == two.made[i];
            assert(second[at].reply == answer(second[at].call));
        }
        lemma_commit_listing_repeats(
            commits[k],
            one.made,
            one.outcome,
            two.made,
            two.outcome,
            answer,
        );
    }
    if first_runs.len() < second_runs.len() {
        if first_runs.len() > 0 {
            assert(first_runs.last() == second_runs[first_runs.len() - 1]);
        }
    } else if second_runs.len() < first_runs.len() {
        if second_runs.len() > 0 {
            assert(second_runs.last() == first_runs[second_runs.len() - 1]);
        }
    }
    assert(first_runs =~= second_runs);
}

/// Listing what a resolved target changed twice, while the repository
/// answers every request as before, makes the same exchanges and returns
/// the same mapping or the same error.
pub proof fn lemma_listing_repeats(
    target: AnalysisTarget,
    configured: Option<Seq<char>>,
    first: Seq<Exchange>,
    first_outcome: Outcome,
    second: Seq<Exchange>,
    second_outcome: Outcome,
    answer: spec_fn(GitCall) -> GitReply,
)
    requires
        target_compared(target, configured, None, first, first_outcome),
        target_compared(target, configured, None, second, second_outcome),
        answered_by(first, answer),
        answered_by(second, answer),
    ensures
        first == second,
        first_outcome == second_outcome,
{
    match target {
        AnalysisTarget::Branch(name) => {
            lemma_branch_compared_repeats(
                name@,
                configured,
                first,
                first_outcome,
                second,
                second_outcome,
                answer,
            );
        },
        AnalysisTarget::Commits(ids) => {
            let first_runs = choose|runs: Seq<CommitRun>| #[trigger]
                commits_compared(string_texts(ids@), None, runs, first, first_outcome);
            let second_runs = choose|runs: Seq<CommitRun>| #[trigger]
                commits_compared(string_texts(ids@), None, runs, second, second_outcome);
            lemma_commits_listing_repeats(
                string_texts(ids@),
                first_runs,
                first,
                first_outcome,
                second_runs,
                second,
                second_outcome,
                answer,
            );
        },
    }
}

/// What an export asks for: the content of every path that is added or
/// modified, the diff of every path that is modified, and nothing else. No
/// request stems from a deleted path.
pub proof fn lemma_export_complete(
    changes: Seq<ChangeView>,
    rev: Seq<char>,
    range: Seq<char>,
    output_dir: Seq<char>,
)
    ensures
        forall|i: int|
            0 <= i < changes.len() && (#[trigger] changes[i]).status != FileStatus::Deleted
                ==> export_calls(changes, rev, range, output_dir).contains(
                content_call(changes[i].path, rev, output_dir),
            ),
        forall|i: int|
            0 <= i < changes.len() && (#[trigger] changes[i]).status == FileStatus::Modified
                ==> export_calls(changes, rev, range, output_dir).contains(
                diff_call(changes[i].path, range, output_dir),
            ),
        forall|k: int|
            0 <= k < export_calls(changes, rev, range, output_dir).len() ==> exists|i: int|
                0 <= i < changes.len() && requested_for(
                    #[trigger] changes[i],
                    rev,
                    range,
                    output_dir,
                    #[trigger] export_calls(changes, rev, range, output_dir)[k],
                ),
    decreases changes.len(),
{
    if changes.len() > 0 {
        let front = changes.drop_last();
        let last = changes.last();
        let before = export_calls(front, rev, range, output_dir);
        let added = change_export(last, rev, range, output_dir);
        let all = export_calls(changes, rev, range, output_dir);
        lemma_export_complete(front, rev, range, output_dir);
        assert(all == before + added);
        assert forall|i: int|
            0 <= i < changes.len() && (#[trigger] changes[i]).status
                != FileStatus::Deleted implies all.contains(
            content_call(changes[i].path, rev, output_dir),
        ) by {
            if i < front.len() {
                assert(front[i] == changes[i]);
                let call = content_call(front[i].path, rev, output_dir);
                let k = choose|k: int| 0 <= k < before.len() && before[k] == call;
                assert(all[k] == call);
            } else {
                assert(added[0] == content_call(last.path, rev, output_dir));
                assert(all[before.len() as int] == added[0]);
            }
        }
        assert forall|i: int|
            0 <= i < changes.len() && (#[trigger] changes[i]).status
                == FileStatus::Modified implies all.contains(
            diff_call(changes[i].path, range, output_dir),
        ) by {
            if i < front.len() {
                assert(front[i] == changes[i]);
                let call = diff_call(front[i].path, range, output_dir);
                let k = choose|k: int| 0 <= k < before.len() && before[k] == call;
                assert(all[k] == call);
            } else {
                assert(added[1] == diff_call(last.path, range, output_dir));
                assert(all[before.len() as int + 1] == added[1]);
            }
        }
        assert forall|k: int| 0 <= k < all.len() implies exists|i: int|
            0 <= i < changes.len() && requested_for(
                #[trigger] changes[i],
                rev,
                range,
                output_dir,
                #[trigger] all[k],
            ) by {
            if k < before.len() {
                assert(all[k] == before[k]);
                let i = choose|i: int|
                    0 <= i < front.len() && requested_for(
                        #[trigger] front[i],
                        rev,
                        range,
                        output_dir,
                        before[k],
                    );
                assert(changes[i] == front[i]);
            } else {
                assert(all[k] == added[k - before.len()]);
                assert(requested_for(changes[changes.len() - 1], rev, range, output_dir, all[k]));
            }
        }
    }
}

/// The request is one that exporting this change asks for: the content of
/// an added or modified path, or the diff of a modified path.
pub open spec fn requested_for(
    change: ChangeView,
    rev: Seq<char>,
    range: Seq<char>,
    output_dir: Seq<char>,
    call: GitCall,
) -> bool {
    ||| change.status != FileStatus::Deleted && call == content_call(change.path, rev, output_dir)
    ||| change.status == FileStatus::Modified && call == diff_call(change.path, range, output_dir)
}

/// The request is one that exporting this mapping asks for: the content of a
/// path that it holds as added or modified, or the diff of a path that it
/// holds as modified.
pub open spec fn requested_by(
    mapping: Map<Seq<char>, FileStatus>,
    rev: Seq<char>,
    range: Seq<char>,
    output_dir: Seq<char>,
    call: GitCall,
) -> bool {
    exists|path: Seq<char>|
        mapping.contains_key(path) && requested_for(
            (ChangeView { path, status: #[trigger] mapping[path] }),
            rev,
            range,
            output_dir,
            call,
        )
}

/// The export of changes that name every path once follows their mapping.
proof fn lemma_export_of_distinct(
    changes: Seq<ChangeView>,
    rev: Seq<char>,
    range: Seq<char>,
    output_dir: Seq<char>,
)
    requires
        distinct_paths(changes),
    ensures
        forall|path: Seq<char>|
            changes_map(changes).contains_key(path) && #[trigger] changes_map(changes)[path]
                != FileStatus::Deleted ==> export_calls(changes, rev, range, output_dir).contains(
                content_call(path, rev, output_dir),
            ),
        forall|path: Seq<char>|
            changes_map(changes).contains_key(path) && #[trigger] changes_map(changes)[path]
                == FileStatus::Modified ==> export_calls(changes, rev, range, output_dir).contains(
                diff_call(path, range, output_dir),
            ),
        forall|k: int|
            0 <= k < export_calls(changes, rev, range, output_dir).len() ==> requested_by(
                changes_map(changes),
                rev,
                range,
                output_dir,
                #[trigger] export_calls(changes, rev, range, output_dir)[k],
            ),
{
    let mapping = changes_map(changes);
    let calls = export_calls(changes, rev, range, output_dir);
    lemma_export_complete(changes, rev, range, output_dir);
    lemma_pairs_of_distinct(changes);
    assert forall|path: Seq<char>|
        mapping.contains_key(path) && #[trigger] mapping[path]
            != FileStatus::Deleted implies calls.contains(content_call(path, rev, output_dir)) by {
        assert(mapping.contains_pair(path, mapping[path]));
        let i = choose|i: int|
            0 <= i < changes.len() && #[trigger] changes[i] == (ChangeView {
                path,
                status: mapping[path],
            });
        assert(changes[i].status != FileStatus::Deleted);
    }
    assert forall|path: Seq<char>|
        mapping.contains_key(path) && #[trigger] mapping[path]
            == FileStatus::Modified implies calls.contains(diff_call(path, range, output_dir)) by {
        assert(mapping.contains_pair(path, mapping[path]));
        let i = choose|i: int|
            0 <= i < changes.len() && #[trigger] changes[i] == (ChangeView {
                path,
                status: mapping[path],
            });
        assert(changes[i].status == FileStatus::Modified);
    }
    assert forall|k: int| 0 <= k < calls.len() implies requested_by(
        mapping,
        rev,
        range,
        output_dir,
        #[trigger] calls[k],
    ) by {
        let i = choose|i: int|
            0 <= i < changes.len() && requested_for(
                #[trigger] changes[i],
                rev,
                range,
                output_dir,
                calls[k],
            );
        let path = changes[i].path;
        assert(mapping.contains_pair(changes[i].path, changes[i].status));
        assert(changes[i] == ChangeView { path, status: mapping[path] });
        assert(mapping.contains_key(path) && requested_for(
            (ChangeView { path, status: mapping[path] }),
            rev,
            range,
            output_dir,
            calls[k],
        ));
    }
}

/// A request belongs to one path only.
pub proof fn lemma_request_names_path(
    first: ChangeView,
    second: ChangeView,
    rev: Seq<char>,
    range: Seq<char>,
    output_dir: Seq<char>,
    call: GitCall,
)
    requires
        requested_for(first, rev, range, output_dir, call),
        requested_for(second, rev, range, output_dir, call),
    ensures
        first.path == second.path,
{
    let stem = output_dir + "/"@;
    assert(output_path(output_dir, first.path).skip(stem.len() as int) =~= first.path);
    assert(output_path(output_dir, second.path).skip(stem.len() as int) =~= second.path);
    assert(show_command(rev, first.path).len() == 2);
    assert(diff_command(range, first.path).len() == 4);
    assert(diff_command(range, first.path)[3] == first.path);
    assert(diff_command(range, second.path)[3] == second.path);
}

/// The export of changes that name every path once asks for nothing twice.
proof fn lemma_export_once(
    changes: Seq<ChangeView>,
    rev: Seq<char>,
    range: Seq<char>,
    output_dir: Seq<char>,
)
    requires
        distinct_paths(changes),
    ensures
        forall|i: int, j: int|
            0 <= i < j < export_calls(changes, rev, range, output_dir).len() ==> export_calls(
                changes,
                rev,
                range,
                output_dir,
            )[i] != export_calls(changes, rev, range, output_dir)[j],
    decreases changes.len(),
{
    if changes.len() > 0 {
        let front = changes.drop_last();
        let last = changes.last();
        let before = export_calls(front, rev, range, output_dir);
        let added = change_export(last, rev, range, output_dir);
        let all = export_calls(changes, rev, range, output_dir);
        assert(distinct_paths(front)) by {
            assert forall|i: int, j: int| 0 <= i < j < front.len() implies (#[trigger] front[i]).path
                != (#[trigger] front[j]).path by {
                assert(changes[i].path != changes[j].path);
            }
        }
        lemma_export_once(front, rev, range, output_dir);
        lemma_export_complete(front, rev, range, output_dir);
        assert(all == before + added);
        assert forall|i: int, j: int| 0 <= i < j < all.len() implies all[i] != all[j] by {
            if j < before.len() {
                assert(all[i] == before[i] && all[j] == before[j]);
            } else if i < before.len() {
                assert(all[i] == before[i]);
                assert(all[j] == added[j - before.len()]);
                let m = choose|m: int|
                    0 <= m < front.len() && requested_for(
                        #[trigger] front[m],
                        rev,
                        range,
                        output_dir,
                        before[i],
                    );
                assert(requested_for(last, rev, range, output_dir, all[j]));
                if all[i] == all[j] {
                    lemma_request_names_path(front[m], last, rev, range, output_dir, all[i]);
                    assert(changes[m].path != changes[changes.len() - 1].path);
                }
            } else {
                assert(all[i] == added[i - before.len()]);
                assert(all[j] == added[j - before.len()]);
                assert(show_command(rev, last.path).len() == 2);
                assert(diff_command(range, last.path).len() == 4);
            }
        }
    }
}

/// The export follows the mapping that is returned, whatever the listing
/// names and however often. It asks for the content of every path that the
/// mapping holds as added or modified and for the diff of every path that
/// it holds as modified; every request is one of these, and none is made
/// twice. Nothing is asked for a path that the mapping holds as deleted.
pub proof fn lemma_export_follows_mapping(
    changes: Seq<ChangeView>,
    rev: Seq<char>,
    range: Seq<char>,
    output_dir: Seq<char>,
)
    ensures
        forall|path: Seq<char>|
            changes_map(changes).contains_key(path) && #[trigger] changes_map(changes)[path]
                != FileStatus::Deleted ==> export_calls(
                settled(changes),
                rev,
                range,
                output_dir,
            ).contains(content_call(path, rev, output_dir)),
        forall|path: Seq<char>|
            changes_map(changes).contains_key(path) && #[trigger] changes_map(changes)[path]
                == FileStatus::Modified ==> export_calls(
                settled(changes),
                rev,
                range,
                output_dir,
            ).contains(diff_call(path, range, output_dir)),
        forall|k: int|
            0 <= k < export_calls(settled(changes), rev, range, output_dir).len()
                ==> requested_by(
                changes_map(changes),
                rev,
                range,
                output_dir,
                #[trigger] export_calls(settled(changes), rev, range, output_dir)[k],
            ),
        forall|i: int, j: int|
            0 <= i < j < export_calls(settled(changes), rev, range, output_dir).len()
                ==> export_calls(settled(changes), rev, range, output_dir)[i] != export_calls(
                settled(changes),
                rev,
                range,
                output_dir,
            )[j],
{
    let held = settled(changes);
    let mapping = changes_map(changes);
    let calls = export_calls(held, rev, range, output_dir);
    lemma_settled(changes);
    assert(changes_map(held) == mapping);
    lemma_export_of_distinct(held, rev, range, output_dir);
    lemma_export_once(held, rev, range, output_dir);
}

/// An export that succeeds has made every request of its plan, in order,
/// and none of them failed.
pub proof fn lemma_export_carried_through(
    rev: Seq<char>,
    listing: Seq<Seq<char>>,
    range: Seq<char>,
    output_dir: Seq<char>,
    made: Seq<Exchange>,
    outcome: Outcome,
)
    requires
        compared(rev, listing, range, Some(output_dir), made, outcome),
        outcome is Ok,
    ensures
        made[0].reply is Text,
        made.len() - 1 == export_calls(
            settled(listed_changes(made[0].reply->Text_0)),
            rev,
            range,
            output_dir,
        ).len(),
        forall|k: int|
            1 <= k < made.len() ==> (#[trigger] made[k]).call == export_calls(
                settled(listed_changes(made[0].reply->Text_0)),
                rev,
                range,
                output_dir,
            )[k - 1] && !(made[k].reply is Failed),
{
    let done = made.skip(1);
    let plan = export_calls(
        settled(listed_changes(made[0].reply->Text_0)),
        rev,
        range,
        output_dir,
    );
    assert(carried_out(plan, done));
    assert(failure(done) is None);
    assert forall|k: int| 1 <= k < made.len() implies (#[trigger] made[k]).call == plan[k - 1]
        && !(made[k].reply is Failed) by {
        assert(made[k] == done[k - 1]);
        lemma_written(plan, done, k - 1);
    }
}

/// Whether a request was made behind the listing.
pub open spec fn written(made: Seq<Exchange>, call: GitCall) -> bool {
    exists|k: int| 1 <= k < made.len() && (#[trigger] made[k]).call == call
}

/// A comparison with export that succeeds has written what the returned
/// mapping says. Behind the listing it has asked, once each, for the content
/// of every path that the mapping holds as added or modified and for the
/// diff of every path that it holds as modified. It has asked for nothing
/// else: nothing for a path that the mapping holds as deleted, and no diff
/// for an added path.
pub proof fn lemma_export_of_outcome(
    rev: Seq<char>,
    listing: Seq<Seq<char>>,
    range: Seq<char>,
    output_dir: Seq<char>,
    made: Seq<Exchange>,
    outcome: Outcome,
)
    requires
        compared(rev, listing, range, Some(output_dir), made, outcome),
        outcome is Ok,
    ensures
        forall|path: Seq<char>|
            outcome->Ok_0.contains_key(path) && #[trigger] outcome->Ok_0[path]
                != FileStatus::Deleted ==> written(made, content_call(path, rev, output_dir)),
        forall|path: Seq<char>|
            outcome->Ok_0.contains_key(path) && #[trigger] outcome->Ok_0[path]
                == FileStatus::Modified ==> written(made, diff_call(path, range, output_dir)),
        forall|k: int|
            1 <= k < made.len() ==> requested_by(
                outcome->Ok_0,
                rev,
                range,
                output_dir,
                (#[trigger] made[k]).call,
            ),
        forall|i: int, j: int|
            1 <= i < j < made.len() ==> (#[trigger] made[i]).call != (#[trigger] made[j]).call,
{
    let changes = listed_changes(made[0].reply->Text_0);
    let plan = export_calls(settled(changes), rev, range, output_dir);
    let mapping = outcome->Ok_0;
    lemma_export_carried_through(rev, listing, range, output_dir, made, outcome);
    lemma_export_follows_mapping(changes, rev, range, output_dir);
    assert(failure(made.skip(1)) is None);
    assert(mapping == changes_map(changes));
    assert forall|path: Seq<char>|
        mapping.contains_key(path) && #[trigger] mapping[path]
            != FileStatus::Deleted implies written(
        made,
        content_call(path, rev, output_dir),
    ) by {
        let call = content_call(path, rev, output_dir);
        let k = choose|k: int| 0 <= k < plan.len() && plan[k] == call;
        assert(made[k + 1].call == call);
    }
    assert forall|path: Seq<char>|
        mapping.contains_key(path) && #[trigger] mapping[path]
            == FileStatus::Modified implies written(made, diff_call(path, range, output_dir)) by {
        let call = diff_call(path, range, output_dir);
        let k = choose|k: int| 0 <= k < plan.len() && plan[k] == call;
        assert(made[k + 1].call == call);
    }
    assert forall|k: int| 1 <= k < made.len() implies requested_by(
        mapping,
        rev,
        range,
        output_dir,
        (#[trigger] made[k]).call,
    ) by {
        assert(made[k].call == plan[k - 1]);
    }
    assert forall|i: int, j: int| 1 <= i < j < made.len() implies (#[trigger] made[i]).call != (
    #[trigger] made[j]).call by {
        assert(made[i].call == plan[i - 1]);
        assert(made[j].call == plan[j - 1]);
    }
}

/// Every request of an export plan writes a file.
pub proof fn lemma_export_writes(
    changes: Seq<ChangeView>,
    rev: Seq<char>,
    range: Seq<char>,
    output_dir: Seq<char>,
    k: int,
)
    requires
        0 <= k < export_calls(changes, rev, range, output_dir).len(),
    ensures
        export_calls(changes, rev, range, output_dir)[k] is QueryToFile,
{
    lemma_export_complete(changes, rev, range, output_dir);
}

proof fn lemma_written(plan: Seq<GitCall>, done: Seq<Exchange>, k: int)
    requires
        carried_out(plan, done),
        failure(done) is None,
        0 <= k < done.len(),
    ensures
        !(done[k].reply is Failed),
{
    if k == done.len() - 1 {
        assert(done[k] == done.last());
    }
}

/// Where a later commit names a path anew, its status replaces the earlier
/// one: for a path that a run names and no later run names, the merged
/// mapping holds the status of that run.
pub proof fn lemma_later_commit_decides(runs: Seq<CommitRun>, k: int, path: Seq<char>)
    requires
        0 <= k < runs.len(),
        runs[k].outcome is Ok,
        runs[k].outcome->Ok_0.contains_key(path),
        forall|j: int|
            k < j < runs.len() ==> (#[trigger] runs[j]).outcome is Ok
                && !runs[j].outcome->Ok_0.contains_key(path),
    ensures
        merged(runs).contains_key(path),
        merged(runs)[path] == runs[k].outcome->Ok_0[path],
    decreases runs.len(),
{
    if k < runs.len() - 1 {
        let front = runs.drop_last();
        assert(runs[runs.len() - 1].outcome is Ok);
        assert forall|j: int| k < j < front.len() implies (#[trigger] front[j]).outcome is Ok
            && !front[j].outcome->Ok_0.contains_key(path) by {
            assert(front[j] == runs[j]);
        }
        lemma_later_commit_decides(front, k, path);
    }
}

/// Where no target branch is configured and the default branch cannot be
/// discovered, the branch is compared against the fallback `origin/main`.
pub proof fn lemma_fallback_base(
    branch: Seq<char>,
    output_dir: Option<Seq<char>>,
    made: Seq<Exchange>,
    outcome: Outcome,
)
    requires
        branch_compared(branch, None, output_dir, made, outcome),
        made[0].reply is Failed,
    ensures
        made.len() >= 2,
        made[1].call == (GitCall::Query {
            args: branch_listing_command("origin/main"@, branch),
        }),
{
    assert(made.skip(1)[0] == made[1]);
    assert(fallback_branch() == "origin/main"@);
}

} // verus!
