use vstd::prelude::*;
use vstd::string::*;

verus! {

/// The I/O error of the standard library. A value of it is carried through
/// unread: nothing is known of what it holds.
#[verifier::external_type_specification]
#[verifier::external_body]
pub struct ExIoError(std::io::Error);

/// What can end a call early.
#[derive(Debug)]
pub enum Error {
    /// A filesystem operation failed.
    IoError(std::io::Error),
    /// The revision-control tool could not be started, ended with a failure
    /// status or printed text that is not UTF-8. Holds the captured error text.
    GitCommandError(String),
    /// No scratch working tree could be provided for a clone.
    TempDirError(String),
}

impl Error {
    /// What the message of an error says before its detail.
    pub open spec fn heading(&self) -> Seq<char> {
        match self {
            Error::IoError(_) => "IO error: "@,
            Error::GitCommandError(_) => "Git command failed: "@,
            Error::TempDirError(_) => "Failed to create temporary directory: "@,
        }
    }

    /// The message of the error: its heading, followed by the text that the
    /// error holds or, for an I/O error, by that error's own description.
    pub fn message(&self) -> (text: String)
        ensures
            self.heading().is_prefix_of(text@),
            match self {
                Error::IoError(_) => true,
                Error::GitCommandError(detail) => text@ == self.heading() + detail@,
                Error::TempDirError(detail) => text@ == self.heading() + detail@,
            },
    {
        match self {
            Error::IoError(e) => {
                let mut text = String::from_str("IO error: ");
                let detail = e.to_string();
                text.append(detail.as_str());
                assert(text@.subrange(0, self.heading().len() as int) =~= self.heading());
                text
            },
            Error::GitCommandError(detail) => {
                let mut text = String::from_str("Git command failed: ");
                text.append(detail.as_str());
                assert(text@.subrange(0, self.heading().len() as int) =~= self.heading());
                text
            },
            Error::TempDirError(detail) => {
                let mut text = String::from_str("Failed to create temporary directory: ");
                text.append(detail.as_str());
                assert(text@.subrange(0, self.heading().len() as int) =~= self.heading());
                text
            },
        }
    }
}

/// The result of an operation of this library.
pub type Result<T> = std::result::Result<T, Error>;

} // verus!
