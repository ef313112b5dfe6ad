use crate::error::Error;
use vstd::prelude::*;

verus! {

/// One request put to a repository capability.
pub enum GitCall {
    /// Fill the bound, empty working tree from a source.
    Clone { url: Seq<char> },
    /// Read a file as it stands at a ref.
    FileContent { ref_name: Seq<char>, path: Seq<char> },
    /// Run a read-only operation and capture what it prints.
    Query { args: Seq<Seq<char>> },
    /// Run an operation and write what it prints to a file.
    QueryToFile { args: Seq<Seq<char>>, dest: Seq<char> },
    /// Switch the working tree to a ref.
    Checkout { branch: Seq<char> },
    /// Ask for the short name of the remote's symbolic HEAD.
    DefaultBranch,
}

/// What a repository capability answered.
pub enum GitReply {
    /// The operation succeeded and returns nothing.
    Done,
    /// The operation succeeded with this text.
    Text(Seq<char>),
    /// The operation succeeded with this content, if there is any.
    Content(Option<Seq<char>>),
    /// The operation failed.
    Failed(Error),
}

/// A request together with its answer.
pub struct Exchange {
    pub call: GitCall,
    pub reply: GitReply,
}

/// The texts of a sequence of arguments.
pub open spec fn arg_texts(args: Seq<&str>) -> Seq<Seq<char>> {
    Seq::new(args.len(), |i: int| args[i]@)
}

/// The texts of a sequence of strings.
pub open spec fn string_texts(strings: Seq<String>) -> Seq<Seq<char>> {
    Seq::new(strings.len(), |i: int| strings[i]@)
}

/// The answer that a result without a value stands for.
pub open spec fn unit_reply(result: Result<(), Error>) -> GitReply {
    match result {
        Ok(_) => GitReply::Done,
        Err(e) => GitReply::Failed(e),
    }
}

/// The answer that a result with a text stands for.
pub open spec fn text_reply(result: Result<String, Error>) -> GitReply {
    match result {
        Ok(text) => GitReply::Text(text@),
        Err(e) => GitReply::Failed(e),
    }
}

/// The answer that a result with an optional content stands for.
pub open spec fn content_reply(result: Result<Option<String>, Error>) -> GitReply {
    match result {
        Ok(Some(text)) => GitReply::Content(Some(text@)),
        Ok(None) => GitReply::Content(None),
        Err(e) => GitReply::Failed(e),
    }
}

/// The revision-control operations that the library needs, bound to one
/// working tree. An implementation decides what each operation answers;
/// nothing is said of that here.
pub trait Git {
    /// Clones a remote source into the bound working tree, which is empty.
    fn clone_repo(&self, url: &str) -> Result<(), Error>;

    /// The content of a file at a ref, or `None` where the ref holds no such
    /// file.
    fn get_file_content(&self, ref_name: &str, path: &str) -> Result<Option<String>, Error>;

    /// Runs a read-only operation and returns what it printed, trimmed.
    fn run_git_command(&self, args: &[&str]) -> Result<String, Error>;

    /// Runs an operation and writes what it printed, byte for byte, to the
    /// file at `output_file_path`, whose missing parent directories are
    /// created first.
    fn run_git_command_to_file(&self, args: &[&str], output_file_path: &str) -> Result<(), Error>;

    /// Switches the bound working tree to a branch.
    fn checkout_branch(&self, branch: &str) -> Result<(), Error>;

    /// The short name of the remote's symbolic HEAD.
    fn discover_default_branch(&self) -> Result<String, Error>;
}

} // verus!
