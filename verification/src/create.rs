//! Creating files and folders in a project's primary repository.
//!
//! Each operation is a function from what is known so far, its progress, to
//! the next step. Checks that need no disk come first, then the disk is
//! looked at, then the branch is asked for; only on the documents branch is
//! anything created.

use vstd::prelude::*;
use vstd::string::*;
use vstd::utf8::encode_utf8;
use crate::branch_gate::{authorization, require_main_branch, BranchGate};
use crate::effect::{
    awaited, changes_state, Decision, Effect, EffectView, PathFacts, PathFactsView, Reply,
    ReplyView, Slot, Step, StepView,
};
use crate::error::{DocumentError, DocumentErrorView, IoOperation, Target};
use crate::model::{
    CreateFileRequest, CreateFileResponse, CreateFileResponseView, CreateFolderRequest,
    CreateFolderResponse, CreateFolderResponseView, DocumentFileType, DocumentMetadata,
    DocumentMetadataView,
};
use crate::path_guard::{
    check_created, check_creation, check_new_path, created_inside, creation_path,
    creation_verdict, file_name, file_name_of, folders_above, folders_above_of, has_parent,
    has_traversal, is_within, join, joined, lemma_empty_path_has_no_components,
    nearest_existing, parent_exists,
};
use crate::text::{chain, trimmed};

verus! {

/// What is known so far of the creation of a file.
#[derive(Debug, PartialEq, Eq)]
pub struct CreateFileProgress {
    /// The branch gate that the repository has to pass.
    pub gate: BranchGate,
    /// The project's repositories; the first is the primary one.
    pub repositories: Vec<String>,
    /// The path as the request gave it.
    pub path: String,
    /// The content as the request gave it.
    pub content: Option<String>,
    /// What the disk says of the target.
    pub facts: Option<PathFacts>,
    /// The branch that the repository is on.
    pub branch: Option<Result<String, String>>,
    /// Whether the folders above the target were created.
    pub parents: Option<Result<(), String>>,
    /// What the disk says of the target once those folders were created.
    pub recheck: Option<PathFacts>,
    /// Whether the file was written.
    pub written: Option<Result<(), String>>,
    /// Whether the new file was committed.
    pub committed: Option<Result<bool, String>>,
}

/// The view of a [`CreateFileProgress`].
pub struct CreateFileProgressView {
    pub docs_branch: Seq<char>,
    pub repositories: Seq<Seq<char>>,
    pub path: Seq<char>,
    pub content: Option<Seq<char>>,
    pub facts: Option<PathFactsView>,
    pub branch: Option<Result<Seq<char>, Seq<char>>>,
    pub parents: Option<Result<(), Seq<char>>>,
    pub recheck: Option<PathFactsView>,
    pub written: Option<Result<(), Seq<char>>>,
    pub committed: Option<Result<bool, Seq<char>>>,
}

impl View for CreateFileProgress {
    type V = CreateFileProgressView;

    open spec fn view(&self) -> CreateFileProgressView {
        CreateFileProgressView {
            docs_branch: self.gate@,
            repositories: self.repositories.deep_view(),
            path: self.path@,
            content: self.content.deep_view(),
            facts: self.facts.deep_view(),
            branch: awaited(self.branch),
            parents: awaited(self.parents),
            recheck: self.recheck.deep_view(),
            written: awaited(self.written),
            committed: awaited(self.committed),
        }
    }
}

/// The text that a new file holds at first.
pub open spec fn initial_content(content: Option<Seq<char>>) -> Seq<char> {
    match content {
        Some(text) => text,
        None => Seq::empty(),
    }
}

/// The message of the commit that records a new file or folder.
pub open spec fn creation_commit_message(path: Seq<char>) -> Seq<char> {
    "docs: create "@ + path
}

/// The response to the creation of a file that went through.
pub open spec fn create_file_response(
    repo: Seq<char>,
    path: Seq<char>,
    content: Seq<char>,
    branch: Seq<char>,
    committed: bool,
) -> CreateFileResponseView {
    let target = joined(repo, path);
    CreateFileResponseView {
        success: true,
        message: if committed {
            "File created and committed to branch '"@ + branch + "'"@
        } else {
            "File created successfully"@
        },
        metadata: DocumentMetadataView {
            name: match file_name_of(target) {
                Some(name) => name,
                None => path,
            },
            relative_path: path,
            absolute_path: target,
            file_type: DocumentFileType::Markdown,
            size_bytes: encode_utf8(content).len() as u64,
        },
        branch: Some(branch),
        committed,
    }
}

/// Whether a commit was made: not where nothing had changed, and not where
/// committing failed.
pub open spec fn commit_made(committed: Result<bool, Seq<char>>) -> bool {
    committed == Ok::<bool, Seq<char>>(true)
}

/// What the creation of a file has come to once the folder above it is
/// there: the file is written, then the change is committed.
pub open spec fn create_file_write(p: CreateFileProgressView, path: Seq<char>, branch: Seq<char>) -> Decision<
    CreateFileResponseView,
> {
    match p.written {
        None => Decision::Need(Slot::Written),
        Some(Err(detail)) => Decision::Finish(
            Err(DocumentErrorView::IoFailure { operation: IoOperation::CreateFile, detail }),
        ),
        Some(Ok(_)) => match p.committed {
            None => Decision::Need(Slot::Committed),
            Some(committed) => Decision::Finish(
                Ok(
                    create_file_response(
                        p.repositories[0],
                        path,
                        initial_content(p.content),
                        branch,
                        commit_made(committed),
                    ),
                ),
            ),
        },
    }
}

/// What the creation of a file has come to once the branch let it through.
/// Where the folder directly above the file is missing, the folders above
/// it are created first, and the disk has to pass [`creation_verdict`] once
/// more.
pub open spec fn create_file_after_gate(
    p: CreateFileProgressView,
    facts: PathFactsView,
    path: Seq<char>,
    branch: Seq<char>,
) -> Decision<CreateFileResponseView> {
    if parent_exists(facts) {
        create_file_write(p, path, branch)
    } else {
        match p.parents {
            None => Decision::Need(Slot::Parents),
            Some(Err(detail)) => Decision::Finish(
                Err(DocumentErrorView::IoFailure { operation: IoOperation::CreateParents, detail }),
            ),
            Some(Ok(_)) => match p.recheck {
                None => Decision::Need(Slot::Recheck),
                Some(again) => match creation_verdict(again, Target::NewFile, path) {
                    Err(error) => Decision::Finish(Err(error)),
                    Ok(_) => create_file_write(p, path, branch),
                },
            },
        }
    }
}

/// What the creation of a file has come to, given what is known so far.
///
/// In this order: the project needs a repository; the path must pass
/// [`creation_path`]; the target must have a folder above it; the disk must
/// pass [`creation_verdict`]; the repository must be on the documents
/// branch. Then the folders above the
/// target are created where the one directly above it is missing, and the
/// disk is looked at once more; the file is written; the change is
/// committed. That the commit fails does not fail the creation.
pub open spec fn create_file_decision(p: CreateFileProgressView) -> Decision<
    CreateFileResponseView,
> {
    if p.repositories.len() == 0 {
        Decision::Finish(Err(DocumentErrorView::NoRepository))
    } else {
        match creation_path(p.path, Target::NewFile) {
            Err(error) => Decision::Finish(Err(error)),
            Ok(path) => if folders_above_of(joined(p.repositories[0], path)).len() == 0 {
                Decision::Finish(Err(DocumentErrorView::AccessDenied { target: Target::NewFile }))
            } else {
                match p.facts {
                    None => Decision::Need(Slot::Facts),
                    Some(facts) => match creation_verdict(facts, Target::NewFile, path) {
                        Err(error) => Decision::Finish(Err(error)),
                        Ok(_) => match p.branch {
                            None => Decision::Need(Slot::Branch),
                            Some(current) => match authorization(p.docs_branch, current) {
                                Err(error) => Decision::Finish(Err(error)),
                                Ok(branch) => create_file_after_gate(p, facts, path, branch),
                            },
                        },
                    },
                }
            },
        }
    }
}

/// The outside work that fills a slot of the creation of a file. The disk
/// is asked about the target and about every folder above it; the folders
/// above the target are created by creating the one directly above it.
pub open spec fn create_file_effect(p: CreateFileProgressView, slot: Slot) -> EffectView {
    let repo = p.repositories[0];
    let path = creation_path(p.path, Target::NewFile)->Ok_0;
    let target = joined(repo, path);
    match slot {
        Slot::Branch => EffectView::CurrentBranch { repo },
        Slot::Parents => EffectView::CreateDirs { path: folders_above_of(target)[0] },
        Slot::Written => EffectView::WriteText {
            path: target,
            content: initial_content(p.content),
        },
        Slot::Committed => EffectView::Commit { repo, message: creation_commit_message(path) },
        _ => EffectView::Inspect { root: repo, target, above: folders_above_of(target) },
    }
}

/// The next step of the creation of a file.
pub open spec fn create_file_step(p: CreateFileProgressView) -> StepView<CreateFileResponseView> {
    match create_file_decision(p) {
        Decision::Need(slot) => StepView::Ask(create_file_effect(p, slot)),
        Decision::Finish(result) => StepView::Finish(result),
    }
}

/// The progress once a reply has come in: the reply fills the slot that the
/// operation waits for, if it is of that slot's kind; any other reply
/// changes nothing.
pub open spec fn create_file_record(p: CreateFileProgressView, reply: ReplyView) -> CreateFileProgressView {
    match (create_file_decision(p).pending(), reply) {
        (Some(Slot::Facts), ReplyView::Facts(facts)) => CreateFileProgressView {
            facts: Some(facts),
            ..p
        },
        (Some(Slot::Branch), ReplyView::Text(branch)) => CreateFileProgressView {
            branch: Some(branch),
            ..p
        },
        (Some(Slot::Parents), ReplyView::Done(done)) => CreateFileProgressView {
            parents: Some(done),
            ..p
        },
        (Some(Slot::Recheck), ReplyView::Facts(facts)) => CreateFileProgressView {
            recheck: Some(facts),
            ..p
        },
        (Some(Slot::Written), ReplyView::Done(done)) => CreateFileProgressView {
            written: Some(done),
            ..p
        },
        (Some(Slot::Committed), ReplyView::Committed(made)) => CreateFileProgressView {
            committed: Some(made),
            ..p
        },
        _ => p,
    }
}

impl CreateFileProgress {
    /// The progress of a creation of which nothing is known yet but the
    /// request.
    pub fn new(gate: BranchGate, repositories: Vec<String>, request: CreateFileRequest) -> (out:
        CreateFileProgress)
        ensures
            out@ == (CreateFileProgressView {
                docs_branch: gate@,
                repositories: repositories.deep_view(),
                path: request.path@,
                content: request.content.deep_view(),
                facts: None,
                branch: None,
                parents: None,
                recheck: None,
                written: None,
                committed: None,
            }),
    {
        CreateFileProgress {
            gate,
            repositories,
            path: request.path,
            content: request.content,
            facts: None,
            branch: None,
            parents: None,
            recheck: None,
            written: None,
            committed: None,
        }
    }

    fn walk(&self) -> (out: (Option<Slot>, Step<CreateFileResponse>))
        ensures
            out.0 == create_file_decision(self@).pending(),
            out.1@ == create_file_step(self@),
    {
        if self.repositories.len() == 0 {
            return (None, Step::Finish(Err(DocumentError::NoRepository)));
        }
        let repo = &self.repositories[0];
        assert(self@.repositories[0] == repo@);
        let path = match check_new_path(self.path.as_str(), Target::NewFile) {
            Ok(path) => path,
            Err(error) => {
                return (None, Step::Finish(Err(error)));
            },
        };
        let target = join(repo.as_str(), path.as_str());
        let above = folders_above(target.as_str());
        if above.len() == 0 {
            return (None, Step::Finish(Err(DocumentError::AccessDenied { target: Target::NewFile })));
        }
        assert(above.deep_view()[0] == above[0]@);
        let facts = match &self.facts {
            None => {
                return (
                    Some(Slot::Facts),
                    Step::Ask(Effect::Inspect { root: repo.clone(), target, above }),
                );
            },
            Some(facts) => facts,
        };
        match check_creation(facts, Target::NewFile, path.as_str()) {
            Err(error) => {
                return (None, Step::Finish(Err(error)));
            },
            Ok(_) => {},
        }
        let current = match &self.branch {
            None => {
                return (Some(Slot::Branch), Step::Ask(Effect::CurrentBranch { repo: repo.clone() }));
            },
            Some(current) => current,
        };
        let branch = match require_main_branch(&self.gate, current) {
            Err(error) => {
                return (None, Step::Finish(Err(error)));
            },
            Ok(branch) => branch,
        };
        if !has_parent(facts) {
            match &self.parents {
                None => {
                    return (
                        Some(Slot::Parents),
                        Step::Ask(Effect::CreateDirs { path: above[0].clone() }),
                    );
                },
                Some(Err(detail)) => {
                    return (
                        None,
                        Step::Finish(
                            Err(
                                DocumentError::IoFailure {
                                    operation: IoOperation::CreateParents,
                                    detail: detail.clone(),
                                },
                            ),
                        ),
                    );
                },
                Some(Ok(_)) => {},
            }
            match &self.recheck {
                None => {
                    return (
                        Some(Slot::Recheck),
                        Step::Ask(Effect::Inspect { root: repo.clone(), target, above }),
                    );
                },
                Some(again) => match check_creation(again, Target::NewFile, path.as_str()) {
                    Err(error) => {
                        return (None, Step::Finish(Err(error)));
                    },
                    Ok(_) => {},
                },
            }
        }
        let content = match &self.content {
            Some(text) => text.clone(),
            None => String::new(),
        };
        match &self.written {
            None => {
                return (
                    Some(Slot::Written),
                    Step::Ask(Effect::WriteText { path: target, content }),
                );
            },
            Some(Err(detail)) => {
                return (
                    None,
                    Step::Finish(
                        Err(
                            DocumentError::IoFailure {
                                operation: IoOperation::CreateFile,
                                detail: detail.clone(),
                            },
                        ),
                    ),
                );
            },
            Some(Ok(_)) => {},
        }
        let committed = match &self.committed {
            None => {
                return (
                    Some(Slot::Committed),
                    Step::Ask(
                        Effect::Commit {
                            repo: repo.clone(),
                            message: chain("docs: create ", path.as_str()),
                        },
                    ),
                );
            },
            Some(Ok(made)) => *made,
            Some(Err(_)) => false,
        };
        let message = if committed {
            crate::text::chain3("File created and committed to branch '", branch.as_str(), "'")
        } else {
            String::from_str("File created successfully")
        };
        let name = match file_name(target.as_str()) {
            Some(name) => name,
            None => path.clone(),
        };
        let size_bytes = content.as_str().as_bytes().len() as u64;
        let response = CreateFileResponse {
            success: true,
            message,
            metadata: DocumentMetadata {
                name,
                relative_path: path,
                absolute_path: target,
                file_type: DocumentFileType::Markdown,
                size_bytes,
            },
            branch: Some(branch),
            committed,
        };
        (None, Step::Finish(Ok(response)))
    }

    /// The next step of the creation.
    pub fn step(&self) -> (out: Step<CreateFileResponse>)
        ensures
            out@ == create_file_step(self@),
    {
        self.walk().1
    }

    /// Takes a reply in.
    pub fn record(self, reply: Reply) -> (out: CreateFileProgress)
        ensures
            out@ == create_file_record(self@, reply@),
    {
        let slot = self.walk().0;
        let mut next = self;
        match (slot, reply) {
            (Some(Slot::Facts), Reply::Facts(facts)) => {
                next.facts = Some(facts);
            },
            (Some(Slot::Branch), Reply::Text(branch)) => {
                next.branch = Some(branch);
            },
            (Some(Slot::Parents), Reply::Done(done)) => {
                next.parents = Some(done);
            },
            (Some(Slot::Recheck), Reply::Facts(facts)) => {
                next.recheck = Some(facts);
            },
            (Some(Slot::Written), Reply::Done(done)) => {
                next.written = Some(done);
            },
            (Some(Slot::Committed), Reply::Committed(made)) => {
                next.committed = Some(made);
            },
            _ => {},
        }
        next
    }
}

/// Creates a Markdown file in the project's primary repository: takes the
/// reply to the step before in, and says what to do next.
pub fn create_file(progress: CreateFileProgress, reply: Reply) -> (out: (
    CreateFileProgress,
    Step<CreateFileResponse>,
))
    ensures
        out.0@ == create_file_record(progress@, reply@),
        out.1@ == create_file_step(out.0@),
{
    let next = progress.record(reply);
    let step = next.step();
    (next, step)
}

/// What is known so far of the creation of a folder.
#[derive(Debug, PartialEq, Eq)]
pub struct CreateFolderProgress {
    /// The branch gate that the repository has to pass.
    pub gate: BranchGate,
    /// The project's repositories; the first is the primary one.
    pub repositories: Vec<String>,
    /// The path as the request gave it.
    pub path: String,
    /// What the disk says of the target.
    pub facts: Option<PathFacts>,
    /// The branch that the repository is on.
    pub branch: Option<Result<String, String>>,
    /// Whether the folder was created.
    pub created: Option<Result<(), String>>,
    /// What the disk says of the folder once it was created.
    pub recheck: Option<PathFacts>,
    /// Whether the new folder was committed.
    pub committed: Option<Result<bool, String>>,
}

/// The view of a [`CreateFolderProgress`].
pub struct CreateFolderProgressView {
    pub docs_branch: Seq<char>,
    pub repositories: Seq<Seq<char>>,
    pub path: Seq<char>,
    pub facts: Option<PathFactsView>,
    pub branch: Option<Result<Seq<char>, Seq<char>>>,
    pub created: Option<Result<(), Seq<char>>>,
    pub recheck: Option<PathFactsView>,
    pub committed: Option<Result<bool, Seq<char>>>,
}

impl View for CreateFolderProgress {
    type V = CreateFolderProgressView;

    open spec fn view(&self) -> CreateFolderProgressView {
        CreateFolderProgressView {
            docs_branch: self.gate@,
            repositories: self.repositories.deep_view(),
            path: self.path@,
            facts: self.facts.deep_view(),
            branch: awaited(self.branch),
            created: awaited(self.created),
            recheck: self.recheck.deep_view(),
            committed: awaited(self.committed),
        }
    }
}

/// The response to the creation of a folder that went through.
pub open spec fn create_folder_response(path: Seq<char>) -> CreateFolderResponseView {
    CreateFolderResponseView {
        success: true,
        message: "Folder created successfully"@,
        path,
    }
}

/// What the creation of a folder has come to once the branch let it
/// through.
pub open spec fn create_folder_after_gate(p: CreateFolderProgressView, path: Seq<char>) -> Decision<
    CreateFolderResponseView,
> {
    match p.created {
        None => Decision::Need(Slot::Created),
        Some(Err(detail)) => Decision::Finish(
            Err(DocumentErrorView::IoFailure { operation: IoOperation::CreateFolder, detail }),
        ),
        Some(Ok(_)) => match p.recheck {
            None => Decision::Need(Slot::Recheck),
            Some(facts) => if !created_inside(facts) {
                Decision::Finish(Err(DocumentErrorView::AccessDenied { target: Target::NewFolder }))
            } else {
                match p.committed {
                    None => Decision::Need(Slot::Committed),
                    Some(_) => Decision::Finish(Ok(create_folder_response(path))),
                }
            },
        },
    }
}

/// What the creation of a folder has come to, given what is known so far.
///
/// In this order: the project needs a repository; the path must pass
/// [`creation_path`]; the target must have a folder above it; the disk must
/// pass [`creation_verdict`]; the repository must be on the documents
/// branch. Then the folder is created
/// with every folder above it that is missing; the disk is looked at once
/// more, and the folder must lie inside the repository; the change is
/// committed. Whether the commit was made does not fail the creation.
pub open spec fn create_folder_decision(p: CreateFolderProgressView) -> Decision<
    CreateFolderResponseView,
> {
    if p.repositories.len() == 0 {
        Decision::Finish(Err(DocumentErrorView::NoRepository))
    } else {
        match creation_path(p.path, Target::NewFolder) {
            Err(error) => Decision::Finish(Err(error)),
            Ok(path) => if folders_above_of(joined(p.repositories[0], path)).len() == 0 {
                Decision::Finish(Err(DocumentErrorView::AccessDenied { target: Target::NewFolder }))
            } else {
                match p.facts {
                    None => Decision::Need(Slot::Facts),
                    Some(facts) => match creation_verdict(facts, Target::NewFolder, path) {
                        Err(error) => Decision::Finish(Err(error)),
                        Ok(_) => match p.branch {
                            None => Decision::Need(Slot::Branch),
                            Some(current) => match authorization(p.docs_branch, current) {
                                Err(error) => Decision::Finish(Err(error)),
                                Ok(_) => create_folder_after_gate(p, path),
                            },
                        },
                    },
                }
            },
        }
    }
}

/// The outside work that fills a slot of the creation of a folder.
pub open spec fn create_folder_effect(p: CreateFolderProgressView, slot: Slot) -> EffectView {
    let repo = p.repositories[0];
    let path = creation_path(p.path, Target::NewFolder)->Ok_0;
    let target = joined(repo, path);
    match slot {
        Slot::Branch => EffectView::CurrentBranch { repo },
        Slot::Created => EffectView::CreateDirs { path: target },
        Slot::Committed => EffectView::Commit { repo, message: creation_commit_message(path) },
        _ => EffectView::Inspect { root: repo, target, above: folders_above_of(target) },
    }
}

/// The next step of the creation of a folder.
pub open spec fn create_folder_step(p: CreateFolderProgressView) -> StepView<
    CreateFolderResponseView,
> {
    match create_folder_decision(p) {
        Decision::Need(slot) => StepView::Ask(create_folder_effect(p, slot)),
        Decision::Finish(result) => StepView::Finish(result),
    }
}

/// The progress once a reply has come in: the reply fills the slot that the
/// operation waits for, if it is of that slot's kind; any other reply
/// changes nothing.
pub open spec fn create_folder_record(
    p: CreateFolderProgressView,
    reply: ReplyView,
) -> CreateFolderProgressView {
    match (create_folder_decision(p).pending(), reply) {
        (Some(Slot::Facts), ReplyView::Facts(facts)) => CreateFolderProgressView {
            facts: Some(facts),
            ..p
        },
        (Some(Slot::Branch), ReplyView::Text(branch)) => CreateFolderProgressView {
            branch: Some(branch),
            ..p
        },
        (Some(Slot::Created), ReplyView::Done(done)) => CreateFolderProgressView {
            created: Some(done),
            ..p
        },
        (Some(Slot::Recheck), ReplyView::Facts(facts)) => CreateFolderProgressView {
            recheck: Some(facts),
            ..p
        },
        (Some(Slot::Committed), ReplyView::Committed(made)) => CreateFolderProgressView {
            committed: Some(made),
            ..p
        },
        _ => p,
    }
}

impl CreateFolderProgress {
    /// The progress of a creation of which nothing is known yet but the
    /// request.
    pub fn new(gate: BranchGate, repositories: Vec<String>, request: CreateFolderRequest) -> (out:
        CreateFolderProgress)
        ensures
            out@ == (CreateFolderProgressView {
                docs_branch: gate@,
                repositories: repositories.deep_view(),
                path: request.path@,
                facts: None,
                branch: None,
                created: None,
                recheck: None,
                committed: None,
            }),
    {
        CreateFolderProgress {
            gate,
            repositories,
            path: request.path,
            facts: None,
            branch: None,
            created: None,
            recheck: None,
            committed: None,
        }
    }

    fn walk(&self) -> (out: (Option<Slot>, Step<CreateFolderResponse>))
        ensures
            out.0 == create_folder_decision(self@).pending(),
            out.1@ == create_folder_step(self@),
    {
        if self.repositories.len() == 0 {
            return (None, Step::Finish(Err(DocumentError::NoRepository)));
        }
        let repo = &self.repositories[0];
        assert(self@.repositories[0] == repo@);
        let path = match check_new_path(self.path.as_str(), Target::NewFolder) {
            Ok(path) => path,
            Err(error) => {
                return (None, Step::Finish(Err(error)));
            },
        };
        let target = join(repo.as_str(), path.as_str());
        let above = folders_above(target.as_str());
        if above.len() == 0 {
            return (None, Step::Finish(Err(DocumentError::AccessDenied { target: Target::NewFolder })));
        }
        assert(above.deep_view()[0] == above[0]@);
        let facts = match &self.facts {
            None => {
                return (
                    Some(Slot::Facts),
                    Step::Ask(Effect::Inspect { root: repo.clone(), target, above }),
                );
            },
            Some(facts) => facts,
        };
        match check_creation(facts, Target::NewFolder, path.as_str()) {
            Err(error) => {
                return (None, Step::Finish(Err(error)));
            },
            Ok(_) => {},
        }
        let current = match &self.branch {
            None => {
                return (Some(Slot::Branch), Step::Ask(Effect::CurrentBranch { repo: repo.clone() }));
            },
            Some(current) => current,
        };
        match require_main_branch(&self.gate, current) {
            Err(error) => {
                return (None, Step::Finish(Err(error)));
            },
            Ok(_) => {},
        }
        match &self.created {
            None => {
                return (Some(Slot::Created), Step::Ask(Effect::CreateDirs { path: target }));
            },
            Some(Err(detail)) => {
                return (
                    None,
                    Step::Finish(
                        Err(
                            DocumentError::IoFailure {
                                operation: IoOperation::CreateFolder,
                                detail: detail.clone(),
                            },
                        ),
                    ),
                );
            },
            Some(Ok(_)) => {},
        }
        match &self.recheck {
            None => {
                return (
                    Some(Slot::Recheck),
                    Step::Ask(Effect::Inspect { root: repo.clone(), target, above }),
                );
            },
            Some(again) => {
                if !check_created(again) {
                    return (
                        None,
                        Step::Finish(
                            Err(DocumentError::AccessDenied { target: Target::NewFolder }),
                        ),
                    );
                }
            },
        }
        match &self.committed {
            None => {
                return (
                    Some(Slot::Committed),
                    Step::Ask(
                        Effect::Commit {
                            repo: repo.clone(),
                            message: chain("docs: create ", path.as_str()),
                        },
                    ),
                );
            },
            Some(_) => {},
        }
        let response = CreateFolderResponse {
            success: true,
            message: String::from_str("Folder created successfully"),
            path,
        };
        (None, Step::Finish(Ok(response)))
    }

    /// The next step of the creation.
    pub fn step(&self) -> (out: Step<CreateFolderResponse>)
        ensures
            out@ == create_folder_step(self@),
    {
        self.walk().1
    }

    /// Takes a reply in.
    pub fn record(self, reply: Reply) -> (out: CreateFolderProgress)
        ensures
            out@ == create_folder_record(self@, reply@),
    {
        let slot = self.walk().0;
        let mut next = self;
        match (slot, reply) {
            (Some(Slot::Facts), Reply::Facts(facts)) => {
                next.facts = Some(facts);
            },
            (Some(Slot::Branch), Reply::Text(branch)) => {
                next.branch = Some(branch);
            },
            (Some(Slot::Created), Reply::Done(done)) => {
                next.created = Some(done);
            },
            (Some(Slot::Recheck), Reply::Facts(facts)) => {
                next.recheck = Some(facts);
            },
            (Some(Slot::Committed), Reply::Committed(made)) => {
                next.committed = Some(made);
            },
            _ => {},
        }
        next
    }
}

/// Creates a folder in the project's primary repository: takes the reply
/// to the step before in, and says what to do next.
pub fn create_folder(progress: CreateFolderProgress, reply: Reply) -> (out: (
    CreateFolderProgress,
    Step<CreateFolderResponse>,
))
    ensures
        out.0@ == create_folder_record(progress@, reply@),
        out.1@ == create_folder_step(out.0@),
{
    let next = progress.record(reply);
    let step = next.step();
    (next, step)
}

/// A path with `..` among its components is refused before anything outside is
/// asked for: the creation ends at once with `PathTraversalAttempt`, whatever
/// else is known.
pub proof fn law_creation_refuses_traversal(file: CreateFileProgressView, folder: CreateFolderProgressView)
    requires
        file.repositories.len() > 0,
        folder.repositories.len() > 0,
        has_traversal(trimmed(file.path)),
        has_traversal(trimmed(folder.path)),
    ensures
        create_file_step(file) == StepView::<CreateFileResponseView>::Finish(
            Err(DocumentErrorView::PathTraversalAttempt),
        ),
        create_folder_step(folder) == StepView::<CreateFolderResponseView>::Finish(
            Err(DocumentErrorView::PathTraversalAttempt),
        ),
{
    if trimmed(file.path).len() == 0 {
        lemma_empty_path_has_no_components(trimmed(file.path));
    }
    if trimmed(folder.path).len() == 0 {
        lemma_empty_path_has_no_components(trimmed(folder.path));
    }
}

/// Where the nearest existing folder above the target resolves to a place
/// outside the repository, nothing is created: the creation ends with
/// `AccessDenied`.
pub proof fn law_creation_denies_escape(
    file: CreateFileProgressView,
    folder: CreateFolderProgressView,
    facts: PathFactsView,
)
    requires
        file.repositories.len() > 0,
        folder.repositories.len() > 0,
        creation_path(file.path, Target::NewFile) is Ok,
        creation_path(folder.path, Target::NewFolder) is Ok,
        file.facts == Some(facts),
        folder.facts == Some(facts),
        facts.root_is_dir,
        facts.canonical_root is Ok,
        nearest_existing(facts.above) is Some,
        nearest_existing(facts.above)->0.canonical is Ok,
        !is_within(facts.canonical_root->Ok_0, nearest_existing(facts.above)->0.canonical->Ok_0),
    ensures
        create_file_step(file) == StepView::<CreateFileResponseView>::Finish(
            Err(DocumentErrorView::AccessDenied { target: Target::NewFile }),
        ),
        create_folder_step(folder) == StepView::<CreateFolderResponseView>::Finish(
            Err(DocumentErrorView::AccessDenied { target: Target::NewFolder }),
        ),
{
}

/// Nothing is created before the repository has passed the branch gate:
/// whatever is known so far, a creation asks for work that changes the disk
/// or the repository only once version control has named the documents
/// branch as the current one.
pub proof fn law_creation_changes_nothing_before_the_gate(
    file: CreateFileProgressView,
    folder: CreateFolderProgressView,
)
    ensures
        create_file_step(file) matches StepView::Ask(effect) ==> (changes_state(effect)
            ==> file.branch == Some(Ok::<Seq<char>, Seq<char>>(file.docs_branch))),
        create_folder_step(folder) matches StepView::Ask(effect) ==> (changes_state(effect)
            ==> folder.branch == Some(Ok::<Seq<char>, Seq<char>>(folder.docs_branch))),
{
}

/// Off the documents branch nothing is created: where a creation waits for
/// the branch and version control names another than the documents branch,
/// the creation ends with `WrongBranch`, which carries both names.
pub proof fn law_creation_off_the_docs_branch(
    file: CreateFileProgressView,
    folder: CreateFolderProgressView,
    actual: Seq<char>,
)
    requires
        create_file_decision(CreateFileProgressView { branch: None, ..file }) == Decision::<
            CreateFileResponseView,
        >::Need(Slot::Branch),
        create_folder_decision(CreateFolderProgressView { branch: None, ..folder }) == Decision::<
            CreateFolderResponseView,
        >::Need(Slot::Branch),
        actual != file.docs_branch,
        actual != folder.docs_branch,
    ensures
        create_file_step(
            CreateFileProgressView { branch: Some(Ok::<Seq<char>, Seq<char>>(actual)), ..file },
        ) == StepView::<CreateFileResponseView>::Finish(
            Err(DocumentErrorView::WrongBranch { required: file.docs_branch, actual }),
        ),
        create_folder_step(
            CreateFolderProgressView { branch: Some(Ok::<Seq<char>, Seq<char>>(actual)), ..folder },
        ) == StepView::<CreateFolderResponseView>::Finish(
            Err(DocumentErrorView::WrongBranch { required: folder.docs_branch, actual }),
        ),
{
}

/// What is there already is not created again: where the disk says that the
/// target exists, a creation that got as far as looking ends with
/// `AlreadyExists`, and so asks for no change.
pub proof fn law_creation_refuses_existing(
    file: CreateFileProgressView,
    folder: CreateFolderProgressView,
    facts: PathFactsView,
)
    requires
        file.repositories.len() > 0,
        folder.repositories.len() > 0,
        creation_path(file.path, Target::NewFile) is Ok,
        creation_path(folder.path, Target::NewFolder) is Ok,
        file.facts == Some(facts),
        folder.facts == Some(facts),
        folders_above_of(joined(file.repositories[0], trimmed(file.path))).len() > 0,
        folders_above_of(joined(folder.repositories[0], trimmed(folder.path))).len() > 0,
        facts.root_is_dir,
        facts.canonical_root is Ok,
        nearest_existing(facts.above) is Some,
        nearest_existing(facts.above)->0.canonical is Ok,
        is_within(facts.canonical_root->Ok_0, nearest_existing(facts.above)->0.canonical->Ok_0),
        facts.target_exists,
    ensures
        create_file_step(file) == StepView::<CreateFileResponseView>::Finish(
            Err(
                DocumentErrorView::AlreadyExists {
                    target: Target::NewFile,
                    path: trimmed(file.path),
                },
            ),
        ),
        create_folder_step(folder) == StepView::<CreateFolderResponseView>::Finish(
            Err(
                DocumentErrorView::AlreadyExists {
                    target: Target::NewFolder,
                    path: trimmed(folder.path),
                },
            ),
        ),
{
}

/// What is created lies inside the primary repository. Where the creation
/// of a file ends with a response, the disk has said that the nearest
/// existing folder above the file, with every link resolved, lies at or below
/// the repository's resolved root, and the file's path on the filesystem is
/// its path taken from the repository. Where the creation of a folder ends
/// with a response, the disk has said, after the folder was made, that the
/// folder itself lies at or below the repository's resolved root.
pub proof fn law_created_lies_inside(file: CreateFileProgressView, folder: CreateFolderProgressView)
    ensures
        create_file_step(file) matches StepView::Finish(Ok(response)) ==> {
            &&& file.repositories.len() > 0
            &&& file.facts is Some
            &&& file.facts->0.canonical_root is Ok
            &&& nearest_existing(file.facts->0.above) is Some
            &&& nearest_existing(file.facts->0.above)->0.canonical is Ok
            &&& is_within(
                file.facts->0.canonical_root->Ok_0,
                nearest_existing(file.facts->0.above)->0.canonical->Ok_0,
            )
            &&& response.metadata.absolute_path == joined(
                file.repositories[0],
                response.metadata.relative_path,
            )
            &&& !has_traversal(response.metadata.relative_path)
        },
        create_folder_step(folder) matches StepView::Finish(Ok(response)) ==> {
            &&& folder.recheck is Some
            &&& created_inside(folder.recheck->0)
            &&& !has_traversal(response.path)
        },
{
}

} // verus!
