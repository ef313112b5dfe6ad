use crate::change_set::ChangeSet;
use crate::command::{
    branch_listing_args, branch_range_text, commit_listing_args, commit_range_text, exists_args,
    exists_command, fetch_args, fetch_command,
};
use crate::error::Error;
use crate::export::{export_steps, step_calls, ExportStep};
use crate::git::{arg_texts, string_texts, text_reply, unit_reply, Exchange, Git, GitCall, GitReply};
use crate::listing::parse_name_status;
use crate::protocol::{
    branch_compared, carried_out, checked_out_and_compared, commit_compared, commits_compared,
    compared, failure, joined, lemma_made_more, lemma_made_one, made_since, merged, outcome_of,
    discovered_base, target_compared, text_of, CommitRun,
};
use crate::session::Session;
use crate::text::{chars_of, starts_with};
use crate::types::AnalysisTarget;
use vstd::prelude::*;
use vstd::string::*;

verus! {

/// Whether a repository source names a remote to clone: it begins with
/// `https://` or with `git@`. Anything else is a local path.
pub open spec fn is_remote_source(repo: Seq<char>) -> bool {
    "https://"@.is_prefix_of(repo) || "git@"@.is_prefix_of(repo)
}

/// Whether a repository source names a remote to clone.
pub fn is_remote(repo: &str) -> (remote: bool)
    ensures
        remote == is_remote_source(repo@),
{
    let source = chars_of(repo);
    starts_with(&source, &chars_of("https://")) || starts_with(&source, &chars_of("git@"))
}

/// The base that the answer to the request for the default branch gives:
/// the name that was discovered, or `origin/main` where the discovery
/// failed.
pub fn base_from(discovered: Result<String, Error>) -> (base: String)
    ensures
        base@ == discovered_base(text_reply(discovered)),
{
    match discovered {
        Ok(name) => name,
        Err(_) => String::from_str("origin/main"),
    }
}

/// The arguments as borrowed texts, in the same order.
fn borrowed<'a>(args: &'a Vec<String>) -> (refs: Vec<&'a str>)
    ensures
        arg_texts(refs@) == string_texts(args@),
{
    let mut refs: Vec<&str> = Vec::new();
    let mut k: usize = 0;
    while k < args.len()
        invariant
            k <= args@.len(),
            refs@.len() == k,
            forall|i: int| 0 <= i < k ==> (#[trigger] refs@[i])@ == args@[i]@,
        decreases args@.len() - k,
    {
        refs.push(args[k].as_str());
        k += 1;
    }
    assert(arg_texts(refs@) =~= string_texts(args@));
    refs
}

/// Computes what changed between revisions of one repository, and exports
/// it, through a capability that it owns.
pub struct GitChangesProcessor<G: Git> {
    session: Session<G>,
}

impl<G: Git> GitChangesProcessor<G> {
    /// The requests that the processor has put to its capability so far,
    /// each with the answer it got, oldest first.
    pub closed spec fn history(&self) -> Seq<Exchange> {
        self.session.history()
    }

    /// The capability that the processor owns.
    pub closed spec fn capability(&self) -> G {
        self.session.capability()
    }

    /// A processor on a capability that is bound to a local repository.
    /// Nothing is requested.
    pub fn new_from_local(git: G) -> (result: Result<Self, Error>)
        ensures
            result is Ok,
            result->Ok_0.capability() == git,
            result->Ok_0.history() == Seq::<Exchange>::empty(),
    {
        Ok(GitChangesProcessor { session: Session::new(git) })
    }

    /// What construction comes to once the clone has answered: the processor
    /// on the session, or the error of the clone.
    pub fn after_clone(session: Session<G>, cloned: Result<(), Error>) -> (result: Result<
        Self,
        Error,
    >)
        ensures
            match cloned {
                Ok(_) => result is Ok && result->Ok_0.capability() == session.capability()
                    && result->Ok_0.history() == session.history(),
                Err(e) => result == Err::<Self, Error>(e),
            },
    {
        match cloned {
            Ok(_) => Ok(GitChangesProcessor { session }),
            Err(e) => Err(e),
        }
    }

    /// A processor on a capability for a repository source. A remote source
    /// is cloned into the capability's working tree, which has to be empty:
    /// the capability is asked once to clone the source as it is given, and
    /// its answer decides, success giving the processor and failure being
    /// the error. For a local path nothing is requested.
    pub fn new(repo: &str, git: G) -> (result: Result<Self, Error>)
        ensures
            !is_remote_source(repo@) ==> result is Ok,
            is_remote_source(repo@) ==> exists|cloned: Result<(), Error>| #[trigger]
                call_ensures(G::clone_repo, (&git, repo), cloned) && match cloned {
                    Ok(_) => result is Ok,
                    Err(e) => result == Err::<Self, Error>(e),
                },
            result is Ok ==> result->Ok_0.capability() == git,
            result is Ok ==> result->Ok_0.history() == if is_remote_source(repo@) {
                seq![(Exchange { call: GitCall::Clone { url: repo@ }, reply: GitReply::Done })]
            } else {
                Seq::<Exchange>::empty()
            },
    {
        if is_remote(repo) {
            let mut session = Session::new(git);
            let cloned = session.clone_repo(repo);
            Self::after_clone(session, cloned)
        } else {
            Self::new_from_local(git)
        }
    }

    /// The capability that the processor owns.
    pub fn git(&self) -> (git: &G)
        ensures
            *git == self.capability(),
    {
        self.session.git()
    }

    /// Puts one read-only request.
    fn query(&mut self, args: &Vec<String>) -> (result: Result<String, Error>)
        ensures
            final(self).capability() == old(self).capability(),
            final(self).history() == old(self).history().push(
                (Exchange {
                    call: GitCall::Query { args: string_texts(args@) },
                    reply: text_reply(result),
                }),
            ),
    {
        let refs = borrowed(args);
        self.session.run_git_command(refs.as_slice())
    }

    /// Puts one request that writes a file.
    fn write(&mut self, step: &ExportStep) -> (result: Result<(), Error>)
        ensures
            final(self).capability() == old(self).capability(),
            final(self).history() == old(self).history().push(
                (Exchange { call: step@, reply: unit_reply(result) }),
            ),
    {
        let refs = borrowed(&step.args);
        self.session.run_git_command_to_file(refs.as_slice(), step.dest.as_str())
    }

    /// Carries out export steps in order and stops at the first that fails.
    fn run_steps(&mut self, steps: &Vec<ExportStep>) -> (result: Result<(), Error>)
        ensures
            final(self).capability() == old(self).capability(),
            old(self).history().is_prefix_of(final(self).history()),
            carried_out(step_calls(steps@), made_since(old(self).history(), final(self).history())),
            result == match failure(made_since(old(self).history(), final(self).history())) {
                Some(e) => Err::<(), Error>(e),
                None => Ok(()),
            },
    {
        let ghost start = self.history();
        let ghost plan = step_calls(steps@);
        let mut k: usize = 0;
        assert(made_since(start, start) =~= Seq::<Exchange>::empty());
        while k < steps.len()
            invariant
                k <= steps@.len(),
                plan == step_calls(steps@),
                self.capability() == old(self).capability(),
                start == old(self).history(),
                start.is_prefix_of(self.history()),
                made_since(start, self.history()).len() == k,
                forall|i: int|
                    0 <= i < k ==> (#[trigger] made_since(start, self.history())[i]).call
                        == plan[i],
                forall|i: int|
                    0 <= i < k ==> !((#[trigger] made_since(start, self.history())[i]).reply
                        is Failed),
            decreases steps@.len() - k,
        {
            let ghost before = self.history();
            let outcome = self.write(&steps[k]);
            proof {
                let exchange = Exchange {
                    call: steps@[k as int]@,
                    reply: unit_reply(outcome),
                };
                lemma_made_one(before, exchange);
                lemma_made_more(start, before, self.history());
                assert(made_since(start, self.history()) =~= made_since(start, before).push(
                    exchange,
                ));
            }
            match outcome {
                Ok(_) => {},
                Err(e) => {
                    return Err(e);
                },
            }
            k += 1;
        }
        Ok(())
    }

    /// One comparison: the listing, and the export where an output directory
    /// is given.
    fn compare(
        &mut self,
        rev: &str,
        listing: &Vec<String>,
        range: &str,
        output_dir: Option<&str>,
    ) -> (result: Result<ChangeSet, Error>)
        ensures
            final(self).capability() == old(self).capability(),
            old(self).history().is_prefix_of(final(self).history()),
            result is Ok ==> result->Ok_0.wf(),
            compared(
                rev@,
                string_texts(listing@),
                range@,
                text_of(output_dir),
                made_since(old(self).history(), final(self).history()),
                outcome_of(result),
            ),
    {
        let ghost start = self.history();
        let listed = self.query(listing);
        let ghost mid = self.history();
        proof {
            lemma_made_one(
                start,
                Exchange {
                    call: GitCall::Query { args: string_texts(listing@) },
                    reply: text_reply(listed),
                },
            );
        }
        match listed {
            Err(e) => Err(e),
            Ok(output) => {
                let changes = parse_name_status(output.as_str());
                let set = ChangeSet::from_changes(&changes);
                match output_dir {
                    Some(dir) => {
                        let steps = export_steps(set.changes(), rev, range, dir);
                        let exported = self.run_steps(&steps);
                        proof {
                            lemma_made_more(start, mid, self.history());
                        }
                        match exported {
                            Err(e) => {
                                return Err(e);
                            },
                            Ok(_) => {},
                        }
                    },
                    None => {
                        assert(made_since(start, mid).skip(1) =~= Seq::<Exchange>::empty());
                    },
                }
                Ok(set)
            },
        }
    }

    /// The comparison of a branch that is checked out.
    fn compare_branch(&mut self, branch: &str, configured: Option<&str>, output_dir: Option<&str>)
        -> (result: Result<ChangeSet, Error>)
        ensures
            final(self).capability() == old(self).capability(),
            old(self).history().is_prefix_of(final(self).history()),
            result is Ok ==> result->Ok_0.wf(),
            branch_compared(
                branch@,
                text_of(configured),
                text_of(output_dir),
                made_since(old(self).history(), final(self).history()),
                outcome_of(result),
            ),
    {
        let ghost start = self.history();
        match configured {
            Some(target) => {
                let listing = branch_listing_args(target, branch);
                let range = branch_range_text(target, branch);
                self.compare(branch, &listing, range.as_str(), output_dir)
            },
            None => {
                let discovered = self.session.discover_default_branch();
                let ghost mid = self.history();
                proof {
                    lemma_made_one(
                        start,
                        Exchange {
                            call: GitCall::DefaultBranch,
                            reply: text_reply(discovered),
                        },
                    );
                }
                let base = base_from(discovered);
                let listing = branch_listing_args(base.as_str(), branch);
                let range = branch_range_text(base.as_str(), branch);
                let result = self.compare(branch, &listing, range.as_str(), output_dir);
                proof {
                    lemma_made_more(start, mid, self.history());
                }
                result
            },
        }
    }

    /// Checks a branch out and, where that succeeds, compares it.
    fn check_out_and_compare(
        &mut self,
        branch: &str,
        configured: Option<&str>,
        output_dir: Option<&str>,
    ) -> (result: Result<ChangeSet, Error>)
        ensures
            final(self).capability() == old(self).capability(),
            old(self).history().is_prefix_of(final(self).history()),
            result is Ok ==> result->Ok_0.wf(),
            checked_out_and_compared(
                branch@,
                text_of(configured),
                text_of(output_dir),
                made_since(old(self).history(), final(self).history()),
                outcome_of(result),
            ),
    {
        let ghost start = self.history();
        let checked_out = self.session.checkout_branch(branch);
        let ghost mid = self.history();
        proof {
            lemma_made_one(
                start,
                Exchange {
                    call: GitCall::Checkout { branch: branch@ },
                    reply: unit_reply(checked_out),
                },
            );
        }
        match checked_out {
            Err(e) => Err(e),
            Ok(_) => {
                let result = self.compare_branch(branch, configured, output_dir);
                proof {
                    lemma_made_more(start, mid, self.history());
                }
                result
            },
        }
    }

    /// The comparison of one commit with its first parent.
    fn compare_commit(&mut self, commit: &str, output_dir: Option<&str>) -> (result: Result<
        ChangeSet,
        Error,
    >)
        ensures
            final(self).capability() == old(self).capability(),
            old(self).history().is_prefix_of(final(self).history()),
            result is Ok ==> result->Ok_0.wf(),
            commit_compared(
                commit@,
                text_of(output_dir),
                made_since(old(self).history(), final(self).history()),
                outcome_of(result),
            ),
    {
        let ghost start = self.history();
        let known = self.query(&exists_args(commit));
        let ghost looked = self.history();
        proof {
            lemma_made_one(
                start,
                Exchange {
                    call: GitCall::Query { args: exists_command(commit@) },
                    reply: text_reply(known),
                },
            );
        }
        if known.is_err() {
            let fetched = self.query(&fetch_args(commit));
            proof {
                lemma_made_one(
                    looked,
                    Exchange {
                        call: GitCall::Query { args: fetch_command(commit@) },
                        reply: text_reply(fetched),
                    },
                );
                lemma_made_more(start, looked, self.history());
            }
            match fetched {
                Err(e) => {
                    return Err(e);
                },
                Ok(_) => {},
            }
        }
        let ghost mid = self.history();
        let listing = commit_listing_args(commit);
        let range = commit_range_text(commit);
        let result = self.compare(commit, &listing, range.as_str(), output_dir);
        proof {
            lemma_made_more(start, mid, self.history());
        }
        result
    }

    /// The comparison of commits in the order given, merged.
    fn compare_commits(&mut self, commits: &Vec<String>, output_dir: Option<&str>) -> (result:
        Result<ChangeSet, Error>)
        ensures
            final(self).capability() == old(self).capability(),
            old(self).history().is_prefix_of(final(self).history()),
            result is Ok ==> result->Ok_0.wf(),
            exists|runs: Seq<CommitRun>| #[trigger]
                commits_compared(
                    string_texts(commits@),
                    text_of(output_dir),
                    runs,
                    made_since(old(self).history(), final(self).history()),
                    outcome_of(result),
                ),
    {
        let ghost start = self.history();
        let ghost ids = string_texts(commits@);
        let ghost mut runs: Seq<CommitRun> = Seq::empty();
        let mut set = ChangeSet::new();
        let mut k: usize = 0;
        assert(made_since(start, start) =~= Seq::<Exchange>::empty());
        while k < commits.len()
            invariant
                k <= commits@.len(),
                ids == string_texts(commits@),
                self.capability() == old(self).capability(),
                start == old(self).history(),
                start.is_prefix_of(self.history()),
                runs.len() == k,
                made_since(start, self.history()) == joined(runs),
                forall|i: int|
                    0 <= i < k ==> commit_compared(
                        ids[i],
                        text_of(output_dir),
                        (#[trigger] runs[i]).made,
                        runs[i].outcome,
                    ),
                forall|i: int| 0 <= i < k ==> (#[trigger] runs[i]).outcome is Ok,
                set.wf(),
                set@ == merged(runs),
            decreases commits@.len() - k,
        {
            let ghost before = self.history();
            let ghost reached = runs;
            let result = self.compare_commit(commits[k].as_str(), output_dir);
            proof {
                lemma_made_more(start, before, self.history());
                runs = reached.push(
                    CommitRun {
                        made: made_since(before, self.history()),
                        outcome: outcome_of(result),
                    },
                );
                assert(runs.drop_last() =~= reached);
            }
            match result {
                Err(e) => {
                    assert(commits_compared(
                        ids,
                        text_of(output_dir),
                        runs,
                        made_since(start, self.history()),
                        Err(e),
                    ));
                    return Err(e);
                },
                Ok(changed) => {
                    set.record(changed.changes());
                },
            }
            k += 1;
        }
        assert(commits_compared(
            ids,
            text_of(output_dir),
            runs,
            made_since(start, self.history()),
            Ok(set@),
        ));
        Ok(set)
    }

    /// Resolves a branch as the target: checks it out. Exactly one request is
    /// made, and its failure is the error.
    pub fn resolve_branch(&mut self, name: &str) -> (result: Result<AnalysisTarget, Error>)
        ensures
            final(self).capability() == old(self).capability(),
            final(self).history() == old(self).history().push(
                (Exchange {
                    call: GitCall::Checkout { branch: name@ },
                    reply: match result {
                        Ok(_) => GitReply::Done,
                        Err(e) => GitReply::Failed(e),
                    },
                }),
            ),
            match result {
                Ok(AnalysisTarget::Branch(branch)) => branch@ == name@,
                Ok(AnalysisTarget::Commits(_)) => false,
                Err(_) => true,
            },
    {
        match self.session.checkout_branch(name) {
            Ok(_) => Ok(AnalysisTarget::Branch(String::from_str(name))),
            Err(e) => Err(e),
        }
    }

    /// Resolves commits as the target. Nothing is requested: whether the
    /// commits exist shows when they are compared.
    pub fn resolve_commits(identifiers: Vec<String>) -> (target: AnalysisTarget)
        ensures
            target == AnalysisTarget::Commits(identifiers),
    {
        AnalysisTarget::Commits(identifiers)
    }

    /// Lists what a resolved target changed. `configured` is the branch to
    /// compare a branch against; without it the default branch is
    /// discovered.
    pub fn list_changes(&mut self, target: &AnalysisTarget, configured: Option<&str>) -> (result:
        Result<ChangeSet, Error>)
        ensures
            final(self).capability() == old(self).capability(),
            old(self).history().is_prefix_of(final(self).history()),
            result is Ok ==> result->Ok_0.wf(),
            target_compared(
                *target,
                text_of(configured),
                None,
                made_since(old(self).history(), final(self).history()),
                outcome_of(result),
            ),
    {
        match target {
            AnalysisTarget::Branch(name) => self.compare_branch(name.as_str(), configured, None),
            AnalysisTarget::Commits(ids) => self.compare_commits(ids, None),
        }
    }

    /// Lists what a resolved target changed and exports it into the tree
    /// under `output_dir`.
    pub fn export_changes(
        &mut self,
        target: &AnalysisTarget,
        configured: Option<&str>,
        output_dir: &str,
    ) -> (result: Result<ChangeSet, Error>)
        ensures
            final(self).capability() == old(self).capability(),
            old(self).history().is_prefix_of(final(self).history()),
            result is Ok ==> result->Ok_0.wf(),
            target_compared(
                *target,
                text_of(configured),
                Some(output_dir@),
                made_since(old(self).history(), final(self).history()),
                outcome_of(result),
            ),
    {
        match target {
            AnalysisTarget::Branch(name) => self.compare_branch(
                name.as_str(),
                configured,
                Some(output_dir),
            ),
            AnalysisTarget::Commits(ids) => self.compare_commits(ids, Some(output_dir)),
        }
    }

    /// Checks a branch out, discovers the default branch and exports what
    /// the branch changed against it.
    pub fn export_changes_from_default_branch(&mut self, branch: &str, output_dir: &str) -> (result:
        Result<ChangeSet, Error>)
        ensures
            final(self).capability() == old(self).capability(),
            old(self).history().is_prefix_of(final(self).history()),
            result is Ok ==> result->Ok_0.wf(),
            checked_out_and_compared(
                branch@,
                None,
                Some(output_dir@),
                made_since(old(self).history(), final(self).history()),
                outcome_of(result),
            ),
    {
        self.check_out_and_compare(branch, None, Some(output_dir))
    }

    /// Checks a branch out and exports what it changed against a target
    /// branch.
    pub fn export_branch_changes(&mut self, branch: &str, target_branch: &str, output_dir: &str)
        -> (result: Result<ChangeSet, Error>)
        ensures
            final(self).capability() == old(self).capability(),
            old(self).history().is_prefix_of(final(self).history()),
            result is Ok ==> result->Ok_0.wf(),
            checked_out_and_compared(
                branch@,
                Some(target_branch@),
                Some(output_dir@),
                made_since(old(self).history(), final(self).history()),
                outcome_of(result),
            ),
    {
        self.check_out_and_compare(branch, Some(target_branch), Some(output_dir))
    }

    /// Checks a branch out and lists what it changed against a target
    /// branch.
    pub fn list_branch_changes(&mut self, branch: &str, target_branch: &str) -> (result: Result<
        ChangeSet,
        Error,
    >)
        ensures
            final(self).capability() == old(self).capability(),
            old(self).history().is_prefix_of(final(self).history()),
            result is Ok ==> result->Ok_0.wf(),
            checked_out_and_compared(
                branch@,
                Some(target_branch@),
                None,
                made_since(old(self).history(), final(self).history()),
                outcome_of(result),
            ),
    {
        self.check_out_and_compare(branch, Some(target_branch), None)
    }

    /// Checks a branch out, discovers the default branch and lists what the
    /// branch changed against it.
    pub fn list_changes_from_default_branch(&mut self, branch: &str) -> (result: Result<
        ChangeSet,
        Error,
    >)
        ensures
            final(self).capability() == old(self).capability(),
            old(self).history().is_prefix_of(final(self).history()),
            result is Ok ==> result->Ok_0.wf(),
            checked_out_and_compared(
                branch@,
                None,
                None,
                made_since(old(self).history(), final(self).history()),
                outcome_of(result),
            ),
    {
        self.check_out_and_compare(branch, None, None)
    }

    /// Lists what one commit changed against its first parent.
    pub fn list_commit_changes(&mut self, commit_hash: &str) -> (result: Result<ChangeSet, Error>)
        ensures
            final(self).capability() == old(self).capability(),
            old(self).history().is_prefix_of(final(self).history()),
            result is Ok ==> result->Ok_0.wf(),
            commit_compared(
                commit_hash@,
                None,
                made_since(old(self).history(), final(self).history()),
                outcome_of(result),
            ),
    {
        self.compare_commit(commit_hash, None)
    }

    /// Lists what one commit changed against its first parent and exports it
    /// into the tree under `output_dir`.
    pub fn export_commit_changes(&mut self, commit_hash: &str, output_dir: &str) -> (result:
        Result<ChangeSet, Error>)
        ensures
            final(self).capability() == old(self).capability(),
            old(self).history().is_prefix_of(final(self).history()),
            result is Ok ==> result->Ok_0.wf(),
            commit_compared(
                commit_hash@,
                Some(output_dir@),
                made_since(old(self).history(), final(self).history()),
                outcome_of(result),
            ),
    {
        self.compare_commit(commit_hash, Some(output_dir))
    }
}

} // verus!
