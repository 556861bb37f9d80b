//! The errors that the commands report.
use vstd::prelude::*;

verus! {

/// `std::io::Error`, carried through as it is.
#[verifier::external_type_specification]
#[verifier::external_body]
pub struct ExIoError(std::io::Error);

/// Every way a command can fail.
#[derive(Debug)]
pub enum AppError {
    NotAGitRepository,
    GitNotFound,
    BareRepositoryNotSupported,
    WorktreeIsDirty { path: String },
    UnpushedCommits { path: String, ahead: u32 },
    CannotRemoveMainWorktree { path: String },
    CannotRemoveActiveWorktree { path: String },
    StaleWorktree { path: String },
    DetachedHeadWithUnreachableCommits { path: String },
    GitError { message: String },
    JsonError { message: String },
    PathInferenceFailed { reason: String },
    WorktreeNotFound { query: String },
    MultipleWorktreesMatch { query: String },
    BranchAlreadyExistsCannotSpecifyBaseOrTrack { branch: String },
    BranchAlreadyCheckedOut { branch: String, path: String },
    PathAlreadyExists { path: String },
    EmptyRepository,
    Io(std::io::Error),
}

} // verus!
