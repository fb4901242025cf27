//! The ways in which an operation on documents can fail, and the words in
//! which each failure is reported.

use vstd::prelude::*;
use vstd::string::*;
use crate::text::{chain3, decimal, decimal_text};

verus! {

/// What a path was meant to name when it was refused.
#[derive(Debug, Clone, Copy, PartialEq, Eq, Structural)]
pub enum Target {
    /// A document that is expected to exist already.
    Document,
    /// A file that is about to be created.
    NewFile,
    /// A folder that is about to be created.
    NewFolder,
}

/// A version-control operation whose failure ends the request.
#[derive(Debug, Clone, PartialEq, Eq)]
pub enum GitOperation {
    CurrentBranch,
    ListBranches,
    /// The switch to `branch`.
    Checkout { branch: String },
    Fetch,
    AheadBehind,
    Rebase,
    RemoteUrl,
    Push,
}

/// The view of a [`GitOperation`].
pub enum GitOperationView {
    CurrentBranch,
    ListBranches,
    Checkout { branch: Seq<char> },
    Fetch,
    AheadBehind,
    Rebase,
    RemoteUrl,
    Push,
}

impl View for GitOperation {
    type V = GitOperationView;

    open spec fn view(&self) -> GitOperationView {
        match *self {
            GitOperation::CurrentBranch => GitOperationView::CurrentBranch,
            GitOperation::ListBranches => GitOperationView::ListBranches,
            GitOperation::Checkout { branch } => GitOperationView::Checkout { branch: branch@ },
            GitOperation::Fetch => GitOperationView::Fetch,
            GitOperation::AheadBehind => GitOperationView::AheadBehind,
            GitOperation::Rebase => GitOperationView::Rebase,
            GitOperation::RemoteUrl => GitOperationView::RemoteUrl,
            GitOperation::Push => GitOperationView::Push,
        }
    }
}

/// A filesystem operation whose failure ends the request.
#[derive(Debug, Clone, Copy, PartialEq, Eq, Structural)]
pub enum IoOperation {
    ResolveRepository,
    ResolveParent,
    ReadFile,
    WriteFile,
    CreateFolder,
    CreateParents,
    CreateFile,
}

/// Why an operation on documents did not succeed.
#[derive(Debug, Clone, PartialEq, Eq)]
#[allow(inconsistent_fields)]
pub enum DocumentError {
    /// The path is not valid percent-encoded UTF-8.
    InvalidEncoding,
    /// The path of something to create holds `..`.
    PathTraversalAttempt,
    /// The path leads out of its repository.
    AccessDenied { target: Target },
    /// The file's extension is not one that the operation accepts.
    UnsupportedFileType { target: Target },
    /// No repository holds the document.
    NotFound { path: String },
    /// What was to be created is already there.
    AlreadyExists { target: Target, path: String },
    /// Documents may only be changed on the documents branch.
    WrongBranch { required: String, actual: String },
    /// Synchronisation was asked for on another branch than the documents branch.
    NotOnDocsBranch { required: String },
    /// The remote holds commits that the local branch lacks, and rebasing
    /// was not allowed.
    RebaseRequired { behind: usize },
    /// Version control reported a failure.
    GitOperationFailed { operation: GitOperation, detail: String },
    /// The filesystem reported a failure.
    IoFailure { operation: IoOperation, detail: String },
    /// The project has no repository.
    NoRepository,
    /// The project's primary repository is not a directory on disk.
    RepositoryMissing,
    /// The path of something to create is empty.
    EmptyPath { target: Target },
}

/// A [`DocumentError`] with its texts as sequences of characters.
#[allow(inconsistent_fields)]
pub enum DocumentErrorView {
    InvalidEncoding,
    PathTraversalAttempt,
    AccessDenied { target: Target },
    UnsupportedFileType { target: Target },
    NotFound { path: Seq<char> },
    AlreadyExists { target: Target, path: Seq<char> },
    WrongBranch { required: Seq<char>, actual: Seq<char> },
    NotOnDocsBranch { required: Seq<char> },
    RebaseRequired { behind: usize },
    GitOperationFailed { operation: GitOperationView, detail: Seq<char> },
    IoFailure { operation: IoOperation, detail: Seq<char> },
    NoRepository,
    RepositoryMissing,
    EmptyPath { target: Target },
}

impl View for DocumentError {
    type V = DocumentErrorView;

    open spec fn view(&self) -> DocumentErrorView {
        match *self {
            DocumentError::InvalidEncoding => DocumentErrorView::InvalidEncoding,
            DocumentError::PathTraversalAttempt => DocumentErrorView::PathTraversalAttempt,
            DocumentError::AccessDenied { target } => DocumentErrorView::AccessDenied { target },
            DocumentError::UnsupportedFileType { target } => DocumentErrorView::UnsupportedFileType {
                target,
            },
            DocumentError::NotFound { path } => DocumentErrorView::NotFound { path: path@ },
            DocumentError::AlreadyExists { target, path } => DocumentErrorView::AlreadyExists {
                target,
                path: path@,
            },
            DocumentError::WrongBranch { required, actual } => DocumentErrorView::WrongBranch {
                required: required@,
                actual: actual@,
            },
            DocumentError::NotOnDocsBranch { required } => DocumentErrorView::NotOnDocsBranch {
                required: required@,
            },
            DocumentError::RebaseRequired { behind } => DocumentErrorView::RebaseRequired {
                behind,
            },
            DocumentError::GitOperationFailed { operation, detail } => {
                DocumentErrorView::GitOperationFailed { operation: operation@, detail: detail@ }
            },
            DocumentError::IoFailure { operation, detail } => DocumentErrorView::IoFailure {
                operation,
                detail: detail@,
            },
            DocumentError::NoRepository => DocumentErrorView::NoRepository,
            DocumentError::RepositoryMissing => DocumentErrorView::RepositoryMissing,
            DocumentError::EmptyPath { target } => DocumentErrorView::EmptyPath { target },
        }
    }
}

impl DeepView for DocumentError {
    type V = DocumentErrorView;

    open spec fn deep_view(&self) -> DocumentErrorView {
        self@
    }
}

/// The view of a response that may be an error.
pub open spec fn result_view<T: DeepView>(result: Result<T, DocumentError>) -> Result<
    T::V,
    DocumentErrorView,
> {
    match result {
        Ok(value) => Ok(value.deep_view()),
        Err(error) => Err(error@),
    }
}

/// The words that come before the underlying message of a failed
/// version-control operation.
pub open spec fn git_failure_prefix(operation: GitOperationView) -> Seq<char> {
    match operation {
        GitOperationView::CurrentBranch => "Failed to get current branch: "@,
        GitOperationView::ListBranches => "Failed to get branches: "@,
        GitOperationView::Checkout { branch } => "Failed to switch to branch '"@ + branch + "': "@,
        GitOperationView::Fetch => "Failed to fetch from origin: "@,
        GitOperationView::AheadBehind => "Failed to compare with origin: "@,
        GitOperationView::Rebase => "Failed to rebase: "@,
        GitOperationView::RemoteUrl => "Failed to get remote URL: "@,
        GitOperationView::Push => "Failed to push to origin: "@,
    }
}

/// The words that come after the underlying message of a failed
/// version-control operation.
pub open spec fn git_failure_suffix(operation: GitOperationView) -> Seq<char> {
    match operation {
        GitOperationView::Rebase => ". Please resolve conflicts manually."@,
        _ => ""@,
    }
}

/// The words that come before the underlying message of a failed
/// filesystem operation.
pub open spec fn io_failure_prefix(operation: IoOperation) -> Seq<char> {
    match operation {
        IoOperation::ResolveRepository => "Failed to resolve repository path: "@,
        IoOperation::ResolveParent => "Failed to resolve parent path: "@,
        IoOperation::ReadFile => "Failed to read file: "@,
        IoOperation::WriteFile => "Failed to save file: "@,
        IoOperation::CreateFolder => "Failed to create folder: "@,
        IoOperation::CreateParents => "Failed to create parent directories: "@,
        IoOperation::CreateFile => "Failed to create file: "@,
    }
}

/// The message that reports `error` to the caller.
pub open spec fn error_message(error: DocumentErrorView) -> Seq<char> {
    match error {
        DocumentErrorView::InvalidEncoding => "Invalid path encoding"@,
        DocumentErrorView::PathTraversalAttempt => "Invalid path: path traversal not allowed"@,
        DocumentErrorView::AccessDenied { target } => match target {
            Target::Document => "Invalid file path: access denied"@,
            _ => "Invalid path: access denied"@,
        },
        DocumentErrorView::UnsupportedFileType { target } => match target {
            Target::Document => "Only markdown and JSON files are supported"@,
            _ => "Only markdown files (.md, .markdown) are allowed"@,
        },
        DocumentErrorView::NotFound { path } => "Document '"@ + path
            + "' not found in project repositories"@,
        DocumentErrorView::AlreadyExists { target, path } => match target {
            Target::NewFolder => "Folder '"@ + path + "' already exists"@,
            _ => "File '"@ + path + "' already exists"@,
        },
        DocumentErrorView::WrongBranch { required, actual } => {
            "Document editing is only allowed on the '"@ + required
                + "' branch. Current branch: '"@ + actual + "'. Please switch to '"@ + required
                + "' to edit documents."@
        },
        DocumentErrorView::NotOnDocsBranch { required } => "Must be on "@ + required
            + " branch to sync documents"@,
        DocumentErrorView::RebaseRequired { behind } => "Remote has "@ + decimal(behind as nat)
            + " new commit(s). Please pull changes first or enable rebase."@,
        DocumentErrorView::GitOperationFailed { operation, detail } => git_failure_prefix(
            operation,
        ) + detail + git_failure_suffix(operation),
        DocumentErrorView::IoFailure { operation, detail } => io_failure_prefix(operation)
            + detail,
        DocumentErrorView::NoRepository => "No repository found for this project"@,
        DocumentErrorView::RepositoryMissing => "Repository path does not exist"@,
        DocumentErrorView::EmptyPath { target } => match target {
            Target::NewFolder => "Folder path cannot be empty"@,
            _ => "File path cannot be empty"@,
        },
    }
}

fn git_prefix_text(operation: &GitOperation) -> (out: String)
    ensures
        out@ == git_failure_prefix(operation@),
{
    match operation {
        GitOperation::CurrentBranch => String::from_str("Failed to get current branch: "),
        GitOperation::ListBranches => String::from_str("Failed to get branches: "),
        GitOperation::Checkout { branch } => chain3(
            "Failed to switch to branch '",
            branch.as_str(),
            "': ",
        ),
        GitOperation::Fetch => String::from_str("Failed to fetch from origin: "),
        GitOperation::AheadBehind => String::from_str("Failed to compare with origin: "),
        GitOperation::Rebase => String::from_str("Failed to rebase: "),
        GitOperation::RemoteUrl => String::from_str("Failed to get remote URL: "),
        GitOperation::Push => String::from_str("Failed to push to origin: "),
    }
}

fn git_suffix_text(operation: &GitOperation) -> (out: &'static str)
    ensures
        out@ == git_failure_suffix(operation@),
{
    match operation {
        GitOperation::Rebase => ". Please resolve conflicts manually.",
        _ => "",
    }
}

fn io_prefix_text(operation: IoOperation) -> (out: &'static str)
    ensures
        out@ == io_failure_prefix(operation),
{
    match operation {
        IoOperation::ResolveRepository => "Failed to resolve repository path: ",
        IoOperation::ResolveParent => "Failed to resolve parent path: ",
        IoOperation::ReadFile => "Failed to read file: ",
        IoOperation::WriteFile => "Failed to save file: ",
        IoOperation::CreateFolder => "Failed to create folder: ",
        IoOperation::CreateParents => "Failed to create parent directories: ",
        IoOperation::CreateFile => "Failed to create file: ",
    }
}

impl DocumentError {
    /// The message that reports this error to the caller.
    pub fn message(&self) -> (out: String)
        ensures
            out@ == error_message(self@),
    {
        match self {
            DocumentError::InvalidEncoding => String::from_str("Invalid path encoding"),
            DocumentError::PathTraversalAttempt => String::from_str(
                "Invalid path: path traversal not allowed",
            ),
            DocumentError::AccessDenied { target } => match target {
                Target::Document => String::from_str("Invalid file path: access denied"),
                _ => String::from_str("Invalid path: access denied"),
            },
            DocumentError::UnsupportedFileType { target } => match target {
                Target::Document => String::from_str("Only markdown and JSON files are supported"),
                _ => String::from_str("Only markdown files (.md, .markdown) are allowed"),
            },
            DocumentError::NotFound { path } => chain3(
                "Document '",
                path.as_str(),
                "' not found in project repositories",
            ),
            DocumentError::AlreadyExists { target, path } => match target {
                Target::NewFolder => chain3("Folder '", path.as_str(), "' already exists"),
                _ => chain3("File '", path.as_str(), "' already exists"),
            },
            DocumentError::WrongBranch { required, actual } => {
                let mut out = chain3(
                    "Document editing is only allowed on the '",
                    required.as_str(),
                    "' branch. Current branch: '",
                );
                out.append(actual.as_str());
                out.append("'. Please switch to '");
                out.append(required.as_str());
                out.append("' to edit documents.");
                out
            },
            DocumentError::NotOnDocsBranch { required } => chain3(
                "Must be on ",
                required.as_str(),
                " branch to sync documents",
            ),
            DocumentError::RebaseRequired { behind } => {
                let count = decimal_text(*behind);
                chain3(
                    "Remote has ",
                    count.as_str(),
                    " new commit(s). Please pull changes first or enable rebase.",
                )
            },
            DocumentError::GitOperationFailed { operation, detail } => {
                let mut out = git_prefix_text(operation);
                out.append(detail.as_str());
                out.append(git_suffix_text(operation));
                out
            },
            DocumentError::IoFailure { operation, detail } => crate::text::chain(
                io_prefix_text(*operation),
                detail.as_str(),
            ),
            DocumentError::NoRepository => String::from_str("No repository found for this project"),
            DocumentError::RepositoryMissing => String::from_str("Repository path does not exist"),
            DocumentError::EmptyPath { target } => match target {
                Target::NewFolder => String::from_str("Folder path cannot be empty"),
                _ => String::from_str("File path cannot be empty"),
            },
        }
    }

    /// Whether the error says that the caller may not do this now, as
    /// opposed to having asked for something that cannot be done.
    pub fn is_forbidden(&self) -> (forbidden: bool)
        ensures
            forbidden == (self@ is WrongBranch),
    {
        match self {
            DocumentError::WrongBranch { .. } => true,
            _ => false,
        }
    }
}

} // verus!
