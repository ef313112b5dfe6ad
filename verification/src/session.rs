use crate::error::Error;
use crate::git::{
    arg_texts, content_reply, text_reply, unit_reply, Exchange, Git, GitCall, GitReply,
};
use vstd::prelude::*;

verus! {

/// A capability together with the record of what was asked of it here.
///
/// Every method puts exactly one request to the capability and adds exactly
/// one exchange to the record: the request as it was made and the answer as
/// it came back. Nothing else changes the record, so it is the sequence of
/// requests made through this value, oldest first. Each method also states
/// that what it returns is an answer of the capability's own operation to
/// the arguments given.
pub struct Session<G: Git> {
    git: G,
    record: Ghost<Seq<Exchange>>,
}

impl<G: Git> Session<G> {
    /// The requests made so far, each with its answer, oldest first.
    pub closed spec fn history(&self) -> Seq<Exchange> {
        self.record@
    }

    /// The capability that the requests are put to.
    pub closed spec fn capability(&self) -> G {
        self.git
    }

    /// A session on a capability, with nothing asked yet.
    pub fn new(git: G) -> (session: Self)
        ensures
            session.capability() == git,
            session.history() == Seq::<Exchange>::empty(),
    {
        Session { git, record: Ghost(Seq::empty()) }
    }

    /// The capability.
    pub fn git(&self) -> (git: &G)
        ensures
            *git == self.capability(),
    {
        &self.git
    }

    /// Asks to clone a remote source into the working tree.
    pub fn clone_repo(&mut self, url: &str) -> (result: Result<(), Error>)
        ensures
            call_ensures(G::clone_repo, (&old(self).capability(), url), result),
            final(self).capability() == old(self).capability(),
            final(self).history() == old(self).history().push(
                (Exchange { call: GitCall::Clone { url: url@ }, reply: unit_reply(result) }),
            ),
    {
        let result = self.git.clone_repo(url);
        self.record = Ghost(
            self.record@.push(
                Exchange { call: GitCall::Clone { url: url@ }, reply: unit_reply(result) },
            ),
        );
        result
    }

    /// Asks for the content of a file at a ref.
    pub fn get_file_content(&mut self, ref_name: &str, path: &str) -> (result: Result<
        Option<String>,
        Error,
    >)
        ensures
            call_ensures(
                G::get_file_content,
                (&old(self).capability(), ref_name, path),
                result,
            ),
            final(self).capability() == old(self).capability(),
            final(self).history() == old(self).history().push(
                (Exchange {
                    call: GitCall::FileContent { ref_name: ref_name@, path: path@ },
                    reply: content_reply(result),
                }),
            ),
    {
        let result = self.git.get_file_content(ref_name, path);
        self.record = Ghost(
            self.record@.push(
                Exchange {
                    call: GitCall::FileContent { ref_name: ref_name@, path: path@ },
                    reply: content_reply(result),
                },
            ),
        );
        result
    }

    /// Asks for what a read-only operation prints.
    pub fn run_git_command(&mut self, args: &[&str]) -> (result: Result<String, Error>)
        ensures
            call_ensures(G::run_git_command, (&old(self).capability(), args), result),
            final(self).capability() == old(self).capability(),
            final(self).history() == old(self).history().push(
                (Exchange {
                    call: GitCall::Query { args: arg_texts(args@) },
                    reply: text_reply(result),
                }),
            ),
    {
        let result = self.git.run_git_command(args);
        self.record = Ghost(
            self.record@.push(
                Exchange {
                    call: GitCall::Query { args: arg_texts(args@) },
                    reply: text_reply(result),
                },
            ),
        );
        result
    }

    /// Asks to write what an operation prints to a file.
    pub fn run_git_command_to_file(&mut self, args: &[&str], output_file_path: &str) -> (result:
        Result<(), Error>)
        ensures
            call_ensures(
                G::run_git_command_to_file,
                (&old(self).capability(), args, output_file_path),
                result,
            ),
            final(self).capability() == old(self).capability(),
            final(self).history() == old(self).history().push(
                (Exchange {
                    call: GitCall::QueryToFile {
                        args: arg_texts(args@),
                        dest: output_file_path@,
                    },
                    reply: unit_reply(result),
                }),
            ),
    {
        let result = self.git.run_git_command_to_file(args, output_file_path);
        self.record = Ghost(
            self.record@.push(
                Exchange {
                    call: GitCall::QueryToFile {
                        args: arg_texts(args@),
                        dest: output_file_path@,
                    },
                    reply: unit_reply(result),
                },
            ),
        );
        result
    }

    /// Asks to switch the working tree to a branch.
    pub fn checkout_branch(&mut self, branch: &str) -> (result: Result<(), Error>)
        ensures
            call_ensures(G::checkout_branch, (&old(self).capability(), branch), result),
            final(self).capability() == old(self).capability(),
            final(self).history() == old(self).history().push(
                (Exchange {
                    call: GitCall::Checkout { branch: branch@ },
                    reply: unit_reply(result),
                }),
            ),
    {
        let result = self.git.checkout_branch(branch);
        self.record = Ghost(
            self.record@.push(
                Exchange { call: GitCall::Checkout { branch: branch@ }, reply: unit_reply(result) },
            ),
        );
        result
    }

    /// Asks for the short name of the remote's symbolic HEAD.
    pub fn discover_default_branch(&mut self) -> (result: Result<String, Error>)
        ensures
            call_ensures(G::discover_default_branch, (&old(self).capability(),), result),
            final(self).capability() == old(self).capability(),
            final(self).history() == old(self).history().push(
                (Exchange { call: GitCall::DefaultBranch, reply: text_reply(result) }),
            ),
    {
        let result = self.git.discover_default_branch();
        self.record = Ghost(
            self.record@.push(Exchange { call: GitCall::DefaultBranch, reply: text_reply(result) }),
        );
        result
    }
}

} // verus!
