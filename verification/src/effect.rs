//! The work that an operation leaves to its caller, and what the caller
//! reports back.
//!
//! An operation never touches the disk or version control itself. It is a
//! function from what is known so far to a [`Step`]: either the next piece
//! of outside work, an [`Effect`], or the final response. The caller performs
//! the effect and hands the outcome back as a [`Reply`].

use vstd::prelude::*;
use crate::error::{DocumentError, DocumentErrorView};
use crate::model::{BranchInfo, BranchInfoView};

verus! {

/// The view of an answer that is a value or an error message.
pub open spec fn outcome<T: DeepView>(result: Result<T, String>) -> Result<T::V, Seq<char>> {
    match result {
        Ok(value) => Ok(value.deep_view()),
        Err(detail) => Err(detail@),
    }
}

/// The view of an answer that may not have been given yet.
pub open spec fn awaited<T: DeepView>(slot: Option<Result<T, String>>) -> Option<
    Result<T::V, Seq<char>>,
> {
    match slot {
        Some(result) => Some(outcome(result)),
        None => None,
    }
}

/// What the filesystem says of one folder.
#[derive(Debug, PartialEq, Eq)]
pub struct FolderFacts {
    /// The folder exists.
    pub exists: bool,
    /// The folder with every link resolved, or why it cannot be resolved.
    pub canonical: Result<String, String>,
}

/// The view of [`FolderFacts`].
pub struct FolderFactsView {
    pub exists: bool,
    pub canonical: Result<Seq<char>, Seq<char>>,
}

impl View for FolderFacts {
    type V = FolderFactsView;

    open spec fn view(&self) -> FolderFactsView {
        FolderFactsView { exists: self.exists, canonical: outcome(self.canonical) }
    }
}

impl DeepView for FolderFacts {
    type V = FolderFactsView;

    open spec fn deep_view(&self) -> FolderFactsView {
        self@
    }
}

/// What the filesystem says of a target path below a repository's root.
#[derive(Debug, PartialEq, Eq)]
pub struct PathFacts {
    /// The root exists and is a directory.
    pub root_is_dir: bool,
    /// The root with every link resolved, or why it cannot be resolved.
    pub canonical_root: Result<String, String>,
    /// The target with every link resolved, or why it cannot be resolved
    /// (it may not exist).
    pub canonical_target: Result<String, String>,
    /// What the disk says of each of the folders above the target that it
    /// was asked about, in the order in which they were asked for.
    pub above: Vec<FolderFacts>,
    /// The target exists.
    pub target_exists: bool,
    /// The target exists and is a regular file.
    pub target_is_file: bool,
}

/// The view of [`PathFacts`].
pub struct PathFactsView {
    pub root_is_dir: bool,
    pub canonical_root: Result<Seq<char>, Seq<char>>,
    pub canonical_target: Result<Seq<char>, Seq<char>>,
    pub above: Seq<FolderFactsView>,
    pub target_exists: bool,
    pub target_is_file: bool,
}

impl View for PathFacts {
    type V = PathFactsView;

    open spec fn view(&self) -> PathFactsView {
        PathFactsView {
            root_is_dir: self.root_is_dir,
            canonical_root: outcome(self.canonical_root),
            canonical_target: outcome(self.canonical_target),
            above: self.above.deep_view(),
            target_exists: self.target_exists,
            target_is_file: self.target_is_file,
        }
    }
}

impl DeepView for PathFacts {
    type V = PathFactsView;

    open spec fn deep_view(&self) -> PathFactsView {
        self@
    }
}

/// One entry of a directory, as the filesystem lists it.
#[derive(Debug, Clone, PartialEq, Eq)]
pub struct DirEntry {
    /// The entry's name, without the directory.
    pub name: String,
    /// The entry is a directory (links followed).
    pub is_dir: bool,
    /// The entry is a regular file (links followed).
    pub is_file: bool,
    /// The size of the file in bytes; 0 where it cannot be told.
    pub size_bytes: u64,
}

/// The view of a [`DirEntry`].
pub struct DirEntryView {
    pub name: Seq<char>,
    pub is_dir: bool,
    pub is_file: bool,
    pub size_bytes: u64,
}

impl View for DirEntry {
    type V = DirEntryView;

    open spec fn view(&self) -> DirEntryView {
        DirEntryView {
            name: self.name@,
            is_dir: self.is_dir,
            is_file: self.is_file,
            size_bytes: self.size_bytes,
        }
    }
}

impl DeepView for DirEntry {
    type V = DirEntryView;

    open spec fn deep_view(&self) -> DirEntryView {
        self@
    }
}

/// A piece of work outside the library.
#[derive(Debug, Clone, PartialEq, Eq)]
pub enum Effect {
    /// Ask version control which branch `repo` is on.
    CurrentBranch { repo: String },
    /// Ask version control for the branches of `repo`.
    Branches { repo: String },
    /// Commit what has changed in `repo`.
    Commit { repo: String, message: String },
    /// Fetch `branch` from `remote`.
    Fetch { repo: String, remote: String, branch: String },
    /// Count the commits that `local` has and `upstream` lacks, and the
    /// other way round.
    AheadBehind { repo: String, local: String, upstream: String },
    /// Rebase the local branch onto `branch` of `remote`.
    PullRebase { repo: String, remote: String, branch: String },
    /// Ask version control for the address of `remote`.
    RemoteUrl { repo: String, remote: String },
    /// Push `branch` to `url`.
    Push { repo: String, url: String, branch: String, force: bool },
    /// Look at `target` and at `root` on disk, and at each of the folders
    /// `above`, in their order.
    Inspect { root: String, target: String, above: Vec<String> },
    /// Read the file at `path` as text, and its size.
    ReadText { path: String },
    /// Write `content` to the file at `path`.
    WriteText { path: String, content: String },
    /// Create the folder at `path` and every folder above it that is missing.
    CreateDirs { path: String },
    /// List the directory at `path`.
    ReadDir { path: String },
}

/// The view of an [`Effect`].
pub enum EffectView {
    CurrentBranch { repo: Seq<char> },
    Branches { repo: Seq<char> },
    Commit { repo: Seq<char>, message: Seq<char> },
    Fetch { repo: Seq<char>, remote: Seq<char>, branch: Seq<char> },
    AheadBehind { repo: Seq<char>, local: Seq<char>, upstream: Seq<char> },
    PullRebase { repo: Seq<char>, remote: Seq<char>, branch: Seq<char> },
    RemoteUrl { repo: Seq<char>, remote: Seq<char> },
    Push { repo: Seq<char>, url: Seq<char>, branch: Seq<char>, force: bool },
    Inspect { root: Seq<char>, target: Seq<char>, above: Seq<Seq<char>> },
    ReadText { path: Seq<char> },
    WriteText { path: Seq<char>, content: Seq<char> },
    CreateDirs { path: Seq<char> },
    ReadDir { path: Seq<char> },
}

impl View for Effect {
    type V = EffectView;

    open spec fn view(&self) -> EffectView {
        match *self {
            Effect::CurrentBranch { repo } => EffectView::CurrentBranch { repo: repo@ },
            Effect::Branches { repo } => EffectView::Branches { repo: repo@ },
            Effect::Commit { repo, message } => EffectView::Commit {
                repo: repo@,
                message: message@,
            },
            Effect::Fetch { repo, remote, branch } => EffectView::Fetch {
                repo: repo@,
                remote: remote@,
                branch: branch@,
            },
            Effect::AheadBehind { repo, local, upstream } => EffectView::AheadBehind {
                repo: repo@,
                local: local@,
                upstream: upstream@,
            },
            Effect::PullRebase { repo, remote, branch } => EffectView::PullRebase {
                repo: repo@,
                remote: remote@,
                branch: branch@,
            },
            Effect::RemoteUrl { repo, remote } => EffectView::RemoteUrl {
                repo: repo@,
                remote: remote@,
            },
            Effect::Push { repo, url, branch, force } => EffectView::Push {
                repo: repo@,
                url: url@,
                branch: branch@,
                force,
            },
            Effect::Inspect { root, target, above } => EffectView::Inspect {
                root: root@,
                target: target@,
                above: above.deep_view(),
            },
            Effect::ReadText { path } => EffectView::ReadText { path: path@ },
            Effect::WriteText { path, content } => EffectView::WriteText {
                path: path@,
                content: content@,
            },
            Effect::CreateDirs { path } => EffectView::CreateDirs { path: path@ },
            Effect::ReadDir { path } => EffectView::ReadDir { path: path@ },
        }
    }
}

/// Whether an effect changes the disk or the repository, as opposed to
/// looking at them.
pub open spec fn changes_state(effect: EffectView) -> bool {
    match effect {
        EffectView::Commit { .. } => true,
        EffectView::Fetch { .. } => true,
        EffectView::PullRebase { .. } => true,
        EffectView::Push { .. } => true,
        EffectView::WriteText { .. } => true,
        EffectView::CreateDirs { .. } => true,
        _ => false,
    }
}

/// The outcome of an [`Effect`].
#[derive(Debug, PartialEq, Eq)]
pub enum Reply {
    /// A text that was asked for: a branch name, an address.
    Text(Result<String, String>),
    /// Work that yields nothing but its success.
    Done(Result<(), String>),
    /// Whether a commit was made; `false` where nothing had changed.
    Committed(Result<bool, String>),
    /// Commits ahead of the remote, and behind it.
    Counts(Result<(usize, usize), String>),
    /// What the disk says of a path.
    Facts(PathFacts),
    /// A file's text, and its size in bytes (0 where it cannot be told).
    Content { text: Result<String, String>, size_bytes: u64 },
    /// The entries of a directory; nothing where it cannot be read.
    Entries(Option<Vec<DirEntry>>),
    /// The branches of a repository.
    Branches(Result<Vec<BranchInfo>, String>),
}

/// The view of a [`Reply`].
pub enum ReplyView {
    Text(Result<Seq<char>, Seq<char>>),
    Done(Result<(), Seq<char>>),
    Committed(Result<bool, Seq<char>>),
    Counts(Result<(usize, usize), Seq<char>>),
    Facts(PathFactsView),
    Content { text: Result<Seq<char>, Seq<char>>, size_bytes: u64 },
    Entries(Option<Seq<DirEntryView>>),
    Branches(Result<Seq<BranchInfoView>, Seq<char>>),
}

impl View for Reply {
    type V = ReplyView;

    open spec fn view(&self) -> ReplyView {
        match *self {
            Reply::Text(text) => ReplyView::Text(outcome(text)),
            Reply::Done(done) => ReplyView::Done(outcome(done)),
            Reply::Committed(made) => ReplyView::Committed(outcome(made)),
            Reply::Counts(counts) => ReplyView::Counts(outcome(counts)),
            Reply::Facts(facts) => ReplyView::Facts(facts@),
            Reply::Content { text, size_bytes } => ReplyView::Content {
                text: outcome(text),
                size_bytes,
            },
            Reply::Entries(entries) => ReplyView::Entries(entries.deep_view()),
            Reply::Branches(branches) => ReplyView::Branches(outcome(branches)),
        }
    }
}

/// A piece of knowledge that an operation may be waiting for.
#[derive(Debug, Clone, Copy, PartialEq, Eq, Structural)]
pub enum Slot {
    /// What the disk says of the target.
    Facts,
    /// What the disk says of the target once folders were created.
    Recheck,
    /// The branch that the repository is on.
    Branch,
    /// Whether the folders above the target were created.
    Parents,
    /// Whether the folder was created.
    Created,
    /// The text of the document.
    Content,
    /// Whether the text was written.
    Written,
    /// Whether the change was committed.
    Committed,
    /// Whether the remote was fetched.
    Fetched,
    /// How far the local branch and the remote are apart.
    Divergence,
    /// Whether the rebase went through.
    Rebased,
    /// The address of the remote.
    RemoteUrl,
    /// Whether the push went through.
    Pushed,
    /// The branches of the repository.
    Branches,
}

/// What an operation has come to, given what is known so far: it waits for
/// a piece of knowledge, or it has ended.
pub enum Decision<R> {
    Need(Slot),
    Finish(Result<R, DocumentErrorView>),
}

impl<R> Decision<R> {
    /// The piece of knowledge that the operation waits for, if it waits.
    pub open spec fn pending(self) -> Option<Slot> {
        match self {
            Decision::Need(slot) => Some(slot),
            Decision::Finish(_) => None,
        }
    }
}

/// What an operation does next.
#[derive(Debug, PartialEq, Eq)]
pub enum Step<R> {
    /// Outside work is needed before the operation can go on.
    Ask(Effect),
    /// The operation has ended, with a response or with an error.
    Finish(Result<R, DocumentError>),
}

/// The view of a [`Step`].
pub enum StepView<R> {
    Ask(EffectView),
    Finish(Result<R, DocumentErrorView>),
}

impl<R: View> View for Step<R> {
    type V = StepView<R::V>;

    open spec fn view(&self) -> StepView<R::V> {
        match *self {
            Step::Ask(effect) => StepView::Ask(effect@),
            Step::Finish(Ok(response)) => StepView::Finish(Ok(response@)),
            Step::Finish(Err(error)) => StepView::Finish(Err(error@)),
        }
    }
}

} // verus!
