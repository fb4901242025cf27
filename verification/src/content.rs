//! Reading and updating documents that exist, in whichever of a project's
//! repositories holds them.
//!
//! The repositories are asked in their order, and the first that holds the
//! document wins. A path that leads out of a repository ends the search at
//! once: the repositories after it are not asked.

use vstd::prelude::*;
use vstd::string::*;
use vstd::utf8::encode_utf8;
use crate::branch_gate::{authorization, require_main_branch, BranchGate};
use crate::effect::{
    awaited, changes_state, outcome, Decision, Effect, EffectView, PathFacts, PathFactsView,
    Reply, ReplyView, Slot, Step, StepView,
};
use crate::error::{DocumentError, DocumentErrorView, IoOperation, Target};
use crate::model::{
    DocumentContent, DocumentContentView, DocumentFileType, DocumentMetadata,
    DocumentMetadataView, UpdateDocumentRequest, UpdateDocumentResponse,
    UpdateDocumentResponseView,
};
use crate::path_guard::{
    check_existing, decode_path, decoded_path, document_type, existing_verdict, file_name,
    file_name_of, is_within, join, joined, leaves_root, steps_out, Presence,
};
use crate::text::{chain, chain3};

verus! {

/// Where a search through a project's repositories stands.
#[derive(Debug, Clone, Copy, PartialEq, Eq, Structural)]
pub enum Location {
    /// The disk has not been looked at yet for the repository at this place
    /// in the list.
    Pending(usize),
    /// The path leads out of a repository.
    Denied,
    /// The repository at this place in the list holds the document.
    Found(usize),
    /// No repository holds the document.
    Nowhere,
}

/// Where the search stands from the `from`-th repository on, given what the
/// disk said of the repositories looked at so far, in their order, and how
/// many repositories there are.
pub open spec fn locate_from(probes: Seq<PathFactsView>, count: nat, from: nat) -> Location
    decreases count - from,
{
    if from >= count {
        Location::Nowhere
    } else if from >= probes.len() {
        Location::Pending(from as usize)
    } else {
        match existing_verdict(probes[from as int]) {
            Presence::Escaped => Location::Denied,
            Presence::Present => Location::Found(from as usize),
            Presence::Absent => locate_from(probes, count, from + 1),
        }
    }
}

/// Where the search through the repositories stands.
pub open spec fn locate(probes: Seq<PathFactsView>, count: nat) -> Location {
    locate_from(probes, count, 0)
}

/// Decides [`locate`].
pub fn locate_document(probes: &Vec<PathFacts>, count: usize) -> (location: Location)
    ensures
        location == locate(probes.deep_view(), count as nat),
{
    let mut i: usize = 0;
    while i < count && i < probes.len()
        invariant
            i <= count,
            i <= probes.len(),
            locate(probes.deep_view(), count as nat) == locate_from(
                probes.deep_view(),
                count as nat,
                i as nat,
            ),
        decreases count - i,
    {
        assert(probes.deep_view()[i as int] == probes[i as int]@);
        match check_existing(&probes[i]) {
            Presence::Escaped => {
                return Location::Denied;
            },
            Presence::Present => {
                return Location::Found(i);
            },
            Presence::Absent => {},
        }
        i += 1;
    }
    if i >= count {
        Location::Nowhere
    } else {
        Location::Pending(i)
    }
}

/// No folders: the disk is asked about none of the folders above a document
/// that is to exist already.
fn no_folders() -> (out: Vec<String>)
    ensures
        out.deep_view() == Seq::<Seq<char>>::empty(),
{
    let out: Vec<String> = Vec::new();
    assert(out.deep_view() =~= Seq::<Seq<char>>::empty());
    out
}

/// The name that a document is listed under: the name of its file, or the
/// path as it was asked for where the target has no such name.
pub open spec fn display_name(target: Seq<char>, path: Seq<char>) -> Seq<char> {
    match file_name_of(target) {
        Some(name) => name,
        None => path,
    }
}

/// What is known so far of the reading of a document.
#[derive(Debug, PartialEq, Eq)]
pub struct ReadProgress {
    /// The project's repositories, in the order in which they are asked.
    pub repositories: Vec<String>,
    /// The path as the request gave it, percent-encoded.
    pub relative_path: String,
    /// What the disk said of the target in each repository looked at so
    /// far, in the order of the repositories.
    pub probes: Vec<PathFacts>,
    /// The file's text, or why it cannot be read, and its size.
    pub content: Option<(Result<String, String>, u64)>,
}

/// The view of a [`ReadProgress`].
pub struct ReadProgressView {
    pub repositories: Seq<Seq<char>>,
    pub relative_path: Seq<char>,
    pub probes: Seq<PathFactsView>,
    pub content: Option<(Result<Seq<char>, Seq<char>>, u64)>,
}

impl View for ReadProgress {
    type V = ReadProgressView;

    open spec fn view(&self) -> ReadProgressView {
        ReadProgressView {
            repositories: self.repositories.deep_view(),
            relative_path: self.relative_path@,
            probes: self.probes.deep_view(),
            content: match self.content {
                Some((text, size_bytes)) => Some((outcome(text), size_bytes)),
                None => None,
            },
        }
    }
}

/// What the reading of a document has come to once a repository was found
/// to hold it.
pub open spec fn read_found(p: ReadProgressView, path: Seq<char>, at: usize) -> Decision<
    DocumentContentView,
> {
    let target = joined(p.repositories[at as int], path);
    match document_type(target) {
        None => Decision::Finish(
            Err(DocumentErrorView::UnsupportedFileType { target: Target::Document }),
        ),
        Some(file_type) => match p.content {
            None => Decision::Need(Slot::Content),
            Some((Err(detail), _)) => Decision::Finish(
                Err(DocumentErrorView::IoFailure { operation: IoOperation::ReadFile, detail }),
            ),
            Some((Ok(text), size_bytes)) => Decision::Finish(
                Ok(
                    DocumentContentView {
                        metadata: DocumentMetadataView {
                            name: display_name(target, path),
                            relative_path: path,
                            absolute_path: target,
                            file_type,
                            size_bytes,
                        },
                        content: text,
                    },
                ),
            ),
        },
    }
}

/// What the reading of a document has come to, given what is known so far.
///
/// The path is percent-decoded, once. A path that steps above its root by
/// its text ([`steps_out`]) is denied before any repository is asked,
/// whatever it leads to. The repositories are asked in their order
/// ([`locate`]). In the first that holds the document, its extension must
/// name a kind of document; then the file is read.
pub open spec fn read_decision(p: ReadProgressView) -> Decision<DocumentContentView> {
    match decoded_path(p.relative_path) {
        None => Decision::Finish(Err(DocumentErrorView::InvalidEncoding)),
        Some(path) => if steps_out(path) {
            Decision::Finish(Err(DocumentErrorView::AccessDenied { target: Target::Document }))
        } else {
            match locate(p.probes, p.repositories.len()) {
                Location::Pending(_) => Decision::Need(Slot::Facts),
                Location::Denied => Decision::Finish(
                    Err(DocumentErrorView::AccessDenied { target: Target::Document }),
                ),
                Location::Nowhere => Decision::Finish(Err(DocumentErrorView::NotFound { path })),
                Location::Found(at) => read_found(p, path, at),
            }
        },
    }
}

/// The place in the list of the repository that the search stands at.
pub open spec fn standing_at(location: Location) -> int {
    match location {
        Location::Pending(at) => at as int,
        Location::Found(at) => at as int,
        _ => 0,
    }
}

/// The outside work that fills a slot of the reading of a document, in the
/// repository that the search stands at: the disk is looked at for the
/// target, or the target is read.
pub open spec fn read_effect(p: ReadProgressView, slot: Slot) -> EffectView {
    let path = decoded_path(p.relative_path)->0;
    let repo = p.repositories[standing_at(locate(p.probes, p.repositories.len()))];
    match slot {
        Slot::Content => EffectView::ReadText { path: joined(repo, path) },
        _ => EffectView::Inspect { root: repo, target: joined(repo, path), above: Seq::empty() },
    }
}

/// The next step of the reading of a document.
pub open spec fn read_step(p: ReadProgressView) -> StepView<DocumentContentView> {
    match read_decision(p) {
        Decision::Need(slot) => StepView::Ask(read_effect(p, slot)),
        Decision::Finish(result) => StepView::Finish(result),
    }
}

/// The progress once a reply has come in: the reply fills the slot that the
/// operation waits for, if it is of that slot's kind; any other reply
/// changes nothing. What the disk says of a repository is put behind what it
/// said of the repositories before.
pub open spec fn read_record(p: ReadProgressView, reply: ReplyView) -> ReadProgressView {
    match (read_decision(p).pending(), reply) {
        (Some(Slot::Facts), ReplyView::Facts(facts)) => ReadProgressView {
            probes: p.probes.push(facts),
            ..p
        },
        (Some(Slot::Content), ReplyView::Content { text, size_bytes }) => ReadProgressView {
            content: Some((text, size_bytes)),
            ..p
        },
        _ => p,
    }
}

proof fn lemma_locate_in_range(probes: Seq<PathFactsView>, count: nat, from: nat)
    requires
        count <= usize::MAX,
    ensures
        match locate_from(probes, count, from) {
            Location::Pending(at) => from <= at < count && at >= probes.len(),
            Location::Found(at) => from <= at < count && at < probes.len(),
            _ => true,
        },
    decreases count - from,
{
    if from < count && from < probes.len() {
        lemma_locate_in_range(probes, count, from + 1);
    }
}

impl ReadProgress {
    /// The progress of a reading of which nothing is known yet but the
    /// request.
    pub fn new(repositories: Vec<String>, relative_path: String) -> (out: ReadProgress)
        ensures
            out@ == (ReadProgressView {
                repositories: repositories.deep_view(),
                relative_path: relative_path@,
                probes: Seq::empty(),
                content: None,
            }),
    {
        let out = ReadProgress { repositories, relative_path, probes: Vec::new(), content: None };
        assert(out.probes.deep_view() =~= Seq::empty());
        out
    }

    fn walk(&self) -> (out: (Option<Slot>, Step<DocumentContent>))
        ensures
            out.0 == read_decision(self@).pending(),
            out.1@ == read_step(self@),
    {
        let path = match decode_path(self.relative_path.as_str()) {
            Ok(path) => path,
            Err(error) => {
                return (None, Step::Finish(Err(error)));
            },
        };
        if leaves_root(path.as_str()) {
            return (
                None,
                Step::Finish(Err(DocumentError::AccessDenied { target: Target::Document })),
            );
        }
        proof {
            assert(self@.repositories.len() == self.repositories.len());
            lemma_locate_in_range(self@.probes, self@.repositories.len(), 0);
        }
        match locate_document(&self.probes, self.repositories.len()) {
            Location::Pending(at) => {
                let repo = &self.repositories[at];
                assert(self@.repositories[at as int] == repo@);
                (
                    Some(Slot::Facts),
                    Step::Ask(
                        Effect::Inspect {
                            root: repo.clone(),
                            target: join(repo.as_str(), path.as_str()),
                            above: no_folders(),
                        },
                    ),
                )
            },
            Location::Denied => (
                None,
                Step::Finish(Err(DocumentError::AccessDenied { target: Target::Document })),
            ),
            Location::Nowhere => (None, Step::Finish(Err(DocumentError::NotFound { path }))),
            Location::Found(at) => {
                let repo = &self.repositories[at];
                assert(self@.repositories[at as int] == repo@);
                let target = join(repo.as_str(), path.as_str());
                let file_type = match DocumentFileType::of_path(target.as_str()) {
                    None => {
                        return (
                            None,
                            Step::Finish(
                                Err(
                                    DocumentError::UnsupportedFileType {
                                        target: Target::Document,
                                    },
                                ),
                            ),
                        );
                    },
                    Some(file_type) => file_type,
                };
                match &self.content {
                    None => (Some(Slot::Content), Step::Ask(Effect::ReadText { path: target })),
                    Some((Err(detail), _)) => (
                        None,
                        Step::Finish(
                            Err(
                                DocumentError::IoFailure {
                                    operation: IoOperation::ReadFile,
                                    detail: detail.clone(),
                                },
                            ),
                        ),
                    ),
                    Some((Ok(text), size_bytes)) => {
                        let name = match file_name(target.as_str()) {
                            Some(name) => name,
                            None => path.clone(),
                        };
                        (
                            None,
                            Step::Finish(
                                Ok(
                                    DocumentContent {
                                        metadata: DocumentMetadata {
                                            name,
                                            relative_path: path,
                                            absolute_path: target,
                                            file_type,
                                            size_bytes: *size_bytes,
                                        },
                                        content: text.clone(),
                                    },
                                ),
                            ),
                        )
                    },
                }
            },
        }
    }

    /// The next step of the reading.
    pub fn step(&self) -> (out: Step<DocumentContent>)
        ensures
            out@ == read_step(self@),
    {
        self.walk().1
    }

    /// Takes a reply in.
    pub fn record(self, reply: Reply) -> (out: ReadProgress)
        ensures
            out@ == read_record(self@, reply@),
    {
        let slot = self.walk().0;
        let mut next = self;
        match (slot, reply) {
            (Some(Slot::Facts), Reply::Facts(facts)) => {
                let ghost before = next.probes.deep_view();
                next.probes.push(facts);
                assert(next.probes.deep_view() =~= before.push(facts@));
            },
            (Some(Slot::Content), Reply::Content { text, size_bytes }) => {
                next.content = Some((text, size_bytes));
            },
            _ => {},
        }
        next
    }
}

/// Reads a document by its path: takes the reply to the step before in, and
/// says what to do next.
pub fn get_document_content(progress: ReadProgress, reply: Reply) -> (out: (
    ReadProgress,
    Step<DocumentContent>,
))
    ensures
        out.0@ == read_record(progress@, reply@),
        out.1@ == read_step(out.0@),
{
    let next = progress.record(reply);
    let step = next.step();
    (next, step)
}

/// What is known so far of the update of a document.
#[derive(Debug, PartialEq, Eq)]
pub struct UpdateProgress {
    /// The branch gate that the repository has to pass.
    pub gate: BranchGate,
    /// The project's repositories, in the order in which they are asked.
    pub repositories: Vec<String>,
    /// The path as the request gave it, percent-encoded.
    pub relative_path: String,
    /// The text that the document is to hold.
    pub content: String,
    /// What the disk said of the target in each repository looked at so
    /// far, in the order of the repositories.
    pub probes: Vec<PathFacts>,
    /// The branch that the repository with the document is on.
    pub branch: Option<Result<String, String>>,
    /// Whether the text was written.
    pub written: Option<Result<(), String>>,
    /// Whether the change was committed.
    pub committed: Option<Result<bool, String>>,
}

/// The view of an [`UpdateProgress`].
pub struct UpdateProgressView {
    pub docs_branch: Seq<char>,
    pub repositories: Seq<Seq<char>>,
    pub relative_path: Seq<char>,
    pub content: Seq<char>,
    pub probes: Seq<PathFactsView>,
    pub branch: Option<Result<Seq<char>, Seq<char>>>,
    pub written: Option<Result<(), Seq<char>>>,
    pub committed: Option<Result<bool, Seq<char>>>,
}

impl View for UpdateProgress {
    type V = UpdateProgressView;

    open spec fn view(&self) -> UpdateProgressView {
        UpdateProgressView {
            docs_branch: self.gate@,
            repositories: self.repositories.deep_view(),
            relative_path: self.relative_path@,
            content: self.content@,
            probes: self.probes.deep_view(),
            branch: awaited(self.branch),
            written: awaited(self.written),
            committed: awaited(self.committed),
        }
    }
}

/// The message of the commit that records an update.
pub open spec fn update_commit_message(path: Seq<char>) -> Seq<char> {
    "docs: update "@ + path
}

/// The response to an update that went through.
pub open spec fn update_response(branch: Seq<char>, committed: bool) -> UpdateDocumentResponseView {
    UpdateDocumentResponseView {
        success: true,
        message: if committed {
            "Document saved and committed to branch '"@ + branch + "'"@
        } else {
            "Document saved successfully"@
        },
        branch: Some(branch),
        committed,
    }
}

/// What the update of a document has come to once a repository was found to
/// hold it.
pub open spec fn update_found(p: UpdateProgressView, path: Seq<char>, at: usize) -> Decision<
    UpdateDocumentResponseView,
> {
    let target = joined(p.repositories[at as int], path);
    if document_type(target) is None {
        Decision::Finish(Err(DocumentErrorView::UnsupportedFileType { target: Target::Document }))
    } else {
        match p.branch {
            None => Decision::Need(Slot::Branch),
            Some(current) => match authorization(p.docs_branch, current) {
                Err(error) => Decision::Finish(Err(error)),
                Ok(branch) => match p.written {
                    None => Decision::Need(Slot::Written),
                    Some(Err(detail)) => Decision::Finish(
                        Err(
                            DocumentErrorView::IoFailure {
                                operation: IoOperation::WriteFile,
                                detail,
                            },
                        ),
                    ),
                    Some(Ok(_)) => match p.committed {
                        None => Decision::Need(Slot::Committed),
                        Some(made) => Decision::Finish(
                            Ok(update_response(branch, made == Ok::<bool, Seq<char>>(true))),
                        ),
                    },
                },
            },
        }
    }
}

/// What the update of a document has come to, given what is known so far.
///
/// The document is found as for reading, and a path that steps above its
/// root is denied as for reading. Its repository must be on the
/// documents branch. Then the text is written and the change committed.
/// That the commit fails, or that there was nothing to commit, does not fail
/// the update: the text is saved either way.
pub open spec fn update_decision(p: UpdateProgressView) -> Decision<UpdateDocumentResponseView> {
    match decoded_path(p.relative_path) {
        None => Decision::Finish(Err(DocumentErrorView::InvalidEncoding)),
        Some(path) => if steps_out(path) {
            Decision::Finish(Err(DocumentErrorView::AccessDenied { target: Target::Document }))
        } else {
            match locate(p.probes, p.repositories.len()) {
                Location::Pending(_) => Decision::Need(Slot::Facts),
                Location::Denied => Decision::Finish(
                    Err(DocumentErrorView::AccessDenied { target: Target::Document }),
                ),
                Location::Nowhere => Decision::Finish(Err(DocumentErrorView::NotFound { path })),
                Location::Found(at) => update_found(p, path, at),
            }
        },
    }
}

/// The outside work that fills a slot of the update of a document, in the
/// repository that the search stands at.
pub open spec fn update_effect(p: UpdateProgressView, slot: Slot) -> EffectView {
    let path = decoded_path(p.relative_path)->0;
    let repo = p.repositories[standing_at(locate(p.probes, p.repositories.len()))];
    match slot {
        Slot::Branch => EffectView::CurrentBranch { repo },
        Slot::Written => EffectView::WriteText { path: joined(repo, path), content: p.content },
        Slot::Committed => EffectView::Commit { repo, message: update_commit_message(path) },
        _ => EffectView::Inspect { root: repo, target: joined(repo, path), above: Seq::empty() },
    }
}

/// The next step of the update of a document.
pub open spec fn update_step(p: UpdateProgressView) -> StepView<UpdateDocumentResponseView> {
    match update_decision(p) {
        Decision::Need(slot) => StepView::Ask(update_effect(p, slot)),
        Decision::Finish(result) => StepView::Finish(result),
    }
}

/// The progress once a reply has come in: the reply fills the slot that the
/// operation waits for, if it is of that slot's kind; any other reply
/// changes nothing.
pub open spec fn update_record(p: UpdateProgressView, reply: ReplyView) -> UpdateProgressView {
    match (update_decision(p).pending(), reply) {
        (Some(Slot::Facts), ReplyView::Facts(facts)) => UpdateProgressView {
            probes: p.probes.push(facts),
            ..p
        },
        (Some(Slot::Branch), ReplyView::Text(branch)) => UpdateProgressView {
            branch: Some(branch),
            ..p
        },
        (Some(Slot::Written), ReplyView::Done(done)) => UpdateProgressView {
            written: Some(done),
            ..p
        },
        (Some(Slot::Committed), ReplyView::Committed(made)) => UpdateProgressView {
            committed: Some(made),
            ..p
        },
        _ => p,
    }
}

impl UpdateProgress {
    /// The progress of an update of which nothing is known yet but the
    /// request.
    pub fn new(
        gate: BranchGate,
        repositories: Vec<String>,
        relative_path: String,
        request: UpdateDocumentRequest,
    ) -> (out: UpdateProgress)
        ensures
            out@ == (UpdateProgressView {
                docs_branch: gate@,
                repositories: repositories.deep_view(),
                relative_path: relative_path@,
                content: request.content@,
                probes: Seq::empty(),
                branch: None,
                written: None,
                committed: None,
            }),
    {
        let out = UpdateProgress {
            gate,
            repositories,
            relative_path,
            content: request.content,
            probes: Vec::new(),
            branch: None,
            written: None,
            committed: None,
        };
        assert(out.probes.deep_view() =~= Seq::empty());
        out
    }

    fn walk(&self) -> (out: (Option<Slot>, Step<UpdateDocumentResponse>))
        ensures
            out.0 == update_decision(self@).pending(),
            out.1@ == update_step(self@),
    {
        let path = match decode_path(self.relative_path.as_str()) {
            Ok(path) => path,
            Err(error) => {
                return (None, Step::Finish(Err(error)));
            },
        };
        if leaves_root(path.as_str()) {
            return (
                None,
                Step::Finish(Err(DocumentError::AccessDenied { target: Target::Document })),
            );
        }
        proof {
            assert(self@.repositories.len() == self.repositories.len());
            lemma_locate_in_range(self@.probes, self@.repositories.len(), 0);
        }
        match locate_document(&self.probes, self.repositories.len()) {
            Location::Pending(at) => {
                let repo = &self.repositories[at];
                assert(self@.repositories[at as int] == repo@);
                (
                    Some(Slot::Facts),
                    Step::Ask(
                        Effect::Inspect {
                            root: repo.clone(),
                            target: join(repo.as_str(), path.as_str()),
                            above: no_folders(),
                        },
                    ),
                )
            },
            Location::Denied => (
                None,
                Step::Finish(Err(DocumentError::AccessDenied { target: Target::Document })),
            ),
            Location::Nowhere => (None, Step::Finish(Err(DocumentError::NotFound { path }))),
            Location::Found(at) => {
                let repo = &self.repositories[at];
                assert(self@.repositories[at as int] == repo@);
                let target = join(repo.as_str(), path.as_str());
                if DocumentFileType::of_path(target.as_str()).is_none() {
                    return (
                        None,
                        Step::Finish(
                            Err(DocumentError::UnsupportedFileType { target: Target::Document }),
                        ),
                    );
                }
                let current = match &self.branch {
                    None => {
                        return (
                            Some(Slot::Branch),
                            Step::Ask(Effect::CurrentBranch { repo: repo.clone() }),
                        );
                    },
                    Some(current) => current,
                };
                let branch = match require_main_branch(&self.gate, current) {
                    Err(error) => {
                        return (None, Step::Finish(Err(error)));
                    },
                    Ok(branch) => branch,
                };
                match &self.written {
                    None => {
                        return (
                            Some(Slot::Written),
                            Step::Ask(
                                Effect::WriteText { path: target, content: self.content.clone() },
                            ),
                        );
                    },
                    Some(Err(detail)) => {
                        return (
                            None,
                            Step::Finish(
                                Err(
                                    DocumentError::IoFailure {
                                        operation: IoOperation::WriteFile,
                                        detail: detail.clone(),
                                    },
                                ),
                            ),
                        );
                    },
                    Some(Ok(_)) => {},
                }
                let committed = match &self.committed {
                    None => {
                        return (
                            Some(Slot::Committed),
                            Step::Ask(
                                Effect::Commit {
                                    repo: repo.clone(),
                                    message: chain("docs: update ", path.as_str()),
                                },
                            ),
                        );
                    },
                    Some(Ok(made)) => *made,
                    Some(Err(_)) => false,
                };
                let message = if committed {
                    chain3("Document saved and committed to branch '", branch.as_str(), "'")
                } else {
                    String::from_str("Document saved successfully")
                };
                (
                    None,
                    Step::Finish(
                        Ok(
                            UpdateDocumentResponse {
                                success: true,
                                message,
                                branch: Some(branch),
                                committed,
                            },
                        ),
                    ),
                )
            },
        }
    }

    /// The next step of the update.
    pub fn step(&self) -> (out: Step<UpdateDocumentResponse>)
        ensures
            out@ == update_step(self@),
    {
        self.walk().1
    }

    /// Takes a reply in.
    pub fn record(self, reply: Reply) -> (out: UpdateProgress)
        ensures
            out@ == update_record(self@, reply@),
    {
        let slot = self.walk().0;
        let mut next = self;
        match (slot, reply) {
            (Some(Slot::Facts), Reply::Facts(facts)) => {
                let ghost before = next.probes.deep_view();
                next.probes.push(facts);
                assert(next.probes.deep_view() =~= before.push(facts@));
            },
            (Some(Slot::Branch), Reply::Text(branch)) => {
                next.branch = Some(branch);
            },
            (Some(Slot::Written), Reply::Done(done)) => {
                next.written = Some(done);
            },
            (Some(Slot::Committed), Reply::Committed(made)) => {
                next.committed = Some(made);
            },
            _ => {},
        }
        next
    }
}

/// Updates a document by its path: takes the reply to the step before in,
/// and says what to do next.
pub fn update_document_content(progress: UpdateProgress, reply: Reply) -> (out: (
    UpdateProgress,
    Step<UpdateDocumentResponse>,
))
    ensures
        out.0@ == update_record(progress@, reply@),
        out.1@ == update_step(out.0@),
{
    let next = progress.record(reply);
    let step = next.step();
    (next, step)
}

/// Whether none of the repositories from the `from`-th up to, but without,
/// the `to`-th holds the document, as far as the disk was looked at.
pub open spec fn all_absent(probes: Seq<PathFactsView>, from: int, to: int) -> bool {
    forall|j: int|
        from <= j < to && 0 <= j < probes.len() ==> existing_verdict(#[trigger] probes[j])
            == Presence::Absent
}

/// Whether the `at`-th repository is the first from the `from`-th on of
/// which the disk does not say that the document is absent, and says
/// `verdict` instead.
pub open spec fn first_verdict(
    probes: Seq<PathFactsView>,
    count: nat,
    from: int,
    at: int,
    verdict: Presence,
) -> bool {
    &&& from <= at < count
    &&& at < probes.len()
    &&& existing_verdict(probes[at]) == verdict
    &&& all_absent(probes, from, at)
}

proof fn lemma_locate_found(probes: Seq<PathFactsView>, count: nat, from: nat)
    requires
        count <= usize::MAX,
    ensures
        locate_from(probes, count, from) matches Location::Found(at) ==> first_verdict(
            probes,
            count,
            from as int,
            at as int,
            Presence::Present,
        ),
    decreases count - from,
{
    if from < count && from < probes.len() {
        lemma_locate_found(probes, count, from + 1);
    }
}

proof fn lemma_locate_denied(probes: Seq<PathFactsView>, count: nat, from: nat)
    requires
        count <= usize::MAX,
    ensures
        locate_from(probes, count, from) is Denied ==> exists|at: int| #[trigger]
            first_verdict(probes, count, from as int, at, Presence::Escaped),
    decreases count - from,
{
    if from < count && from < probes.len() {
        lemma_locate_denied(probes, count, from + 1);
        if existing_verdict(probes[from as int]) == Presence::Escaped {
            assert(first_verdict(probes, count, from as int, from as int, Presence::Escaped));
        } else if locate_from(probes, count, from) is Denied {
            let at = choose|at: int| #[trigger]
                first_verdict(probes, count, (from + 1) as int, at, Presence::Escaped);
            assert(first_verdict(probes, count, from as int, at, Presence::Escaped));
        }
    }
}

proof fn lemma_locate_pending(probes: Seq<PathFactsView>, count: nat, from: nat)
    requires
        count <= usize::MAX,
    ensures
        locate_from(probes, count, from) matches Location::Pending(at) ==> from <= at < count
            && at >= probes.len() && all_absent(probes, from as int, count as int),
        locate_from(probes, count, from) is Nowhere ==> all_absent(
            probes,
            from as int,
            count as int,
        ),
    decreases count - from,
{
    if from < count && from < probes.len() {
        lemma_locate_pending(probes, count, from + 1);
    }
}

/// The first repository that holds the document wins. The search finds
/// the document in a repository only if none before it holds it; it is
/// denied only if the path escaped from a repository with none but such
/// repositories before it; and it waits for the disk, or ends with nothing,
/// only if no repository that was looked at holds the document.
pub proof fn law_first_holder_wins(probes: Seq<PathFactsView>, count: nat)
    requires
        count <= usize::MAX,
    ensures
        match locate(probes, count) {
            Location::Found(at) => first_verdict(probes, count, 0, at as int, Presence::Present),
            Location::Denied => exists|at: int| #[trigger]
                first_verdict(probes, count, 0, at, Presence::Escaped),
            Location::Pending(at) => probes.len() <= at < count && all_absent(
                probes,
                0,
                count as int,
            ),
            Location::Nowhere => all_absent(probes, 0, count as int),
        },
{
    lemma_locate_found(probes, count, 0);
    lemma_locate_denied(probes, count, 0);
    lemma_locate_pending(probes, count, 0);
}

/// A path that steps above its root by its text is never read and never
/// written, whether or not it leads to anything: reading and updating end
/// with `AccessDenied` whatever the disk has said, and ask no repository.
pub proof fn law_stepping_out_is_denied(read: ReadProgressView, update: UpdateProgressView)
    requires
        decoded_path(read.relative_path) is Some,
        decoded_path(update.relative_path) is Some,
        steps_out(decoded_path(read.relative_path)->0),
        steps_out(decoded_path(update.relative_path)->0),
    ensures
        read_step(read) == StepView::<DocumentContentView>::Finish(
            Err(DocumentErrorView::AccessDenied { target: Target::Document }),
        ),
        update_step(update) == StepView::<UpdateDocumentResponseView>::Finish(
            Err(DocumentErrorView::AccessDenied { target: Target::Document }),
        ),
{
}

proof fn lemma_escape_denies(probes: Seq<PathFactsView>, count: nat, from: nat, at: int)
    requires
        first_verdict(probes, count, from as int, at, Presence::Escaped),
    ensures
        locate_from(probes, count, from) == Location::Denied,
    decreases at - from,
{
    if from < at {
        assert(existing_verdict(probes[from as int]) == Presence::Absent);
        lemma_escape_denies(probes, count, from + 1, at);
    }
}

/// A path that resolves to a place outside a repository is never read and
/// never written: where it escapes from the first repository that it
/// resolves in, reading and updating end with `AccessDenied`, and the
/// repositories after it are not asked.
pub proof fn law_escape_is_denied(read: ReadProgressView, update: UpdateProgressView, at: int)
    requires
        decoded_path(read.relative_path) is Some,
        read.relative_path == update.relative_path,
        read.repositories == update.repositories,
        read.probes == update.probes,
        first_verdict(read.probes, read.repositories.len(), 0, at, Presence::Escaped),
    ensures
        read_step(read) == StepView::<DocumentContentView>::Finish(
            Err(DocumentErrorView::AccessDenied { target: Target::Document }),
        ),
        update_step(update) == StepView::<UpdateDocumentResponseView>::Finish(
            Err(DocumentErrorView::AccessDenied { target: Target::Document }),
        ),
{
    lemma_escape_denies(read.probes, read.repositories.len(), 0, at);
}

/// No document is changed before its repository has passed the branch
/// gate: whatever is known so far, an update asks for work that changes the
/// disk or the repository only once version control has named the documents
/// branch as the current one.
pub proof fn law_update_changes_nothing_before_the_gate(p: UpdateProgressView)
    ensures
        update_step(p) matches StepView::Ask(effect) ==> (changes_state(effect) ==> p.branch
            == Some(Ok::<Seq<char>, Seq<char>>(p.docs_branch))),
{
}

/// Off the documents branch no document is changed: where an update waits
/// for the branch and version control names another than the documents
/// branch, the update ends with `WrongBranch`, which carries both names.
pub proof fn law_update_off_the_docs_branch(p: UpdateProgressView, actual: Seq<char>)
    requires
        update_decision(UpdateProgressView { branch: None, ..p }) == Decision::<
            UpdateDocumentResponseView,
        >::Need(Slot::Branch),
        actual != p.docs_branch,
    ensures
        update_step(
            UpdateProgressView { branch: Some(Ok::<Seq<char>, Seq<char>>(actual)), ..p },
        ) == StepView::<UpdateDocumentResponseView>::Finish(
            Err(DocumentErrorView::WrongBranch { required: p.docs_branch, actual }),
        ),
{
}

/// What an update writes is what a reading hands back, if the disk kept it.
/// An update that has come to writing asks for the request's text to be
/// written to the document's path. A reading of the same path in the same
/// repositories, to which the disk hands that text and its length in bytes,
/// ends with exactly that text, that size and that path.
pub proof fn law_read_after_update(update: UpdateProgressView, read: ReadProgressView)
    requires
        update.repositories == read.repositories,
        update.relative_path == read.relative_path,
        update.probes == read.probes,
        update_decision(update) == Decision::<UpdateDocumentResponseView>::Need(Slot::Written),
        read.content == Some(
            (
                Ok::<Seq<char>, Seq<char>>(update.content),
                encode_utf8(update.content).len() as u64,
            ),
        ),
    ensures
        update_step(update) matches StepView::Ask(EffectView::WriteText { path, content })
            && content == update.content && (read_step(read) matches StepView::Finish(Ok(document))
            && document.content == update.content && document.metadata.size_bytes == encode_utf8(
            update.content,
        ).len() as u64 && document.metadata.absolute_path == path),
{
}

/// A document that is handed out lies inside a repository of the project.
/// Where a reading ends with a document, the document's path on the
/// filesystem is its path taken from one of the repositories, and the disk
/// has said that this path, with every link resolved, is a regular file at or
/// below that repository's resolved root.
pub proof fn law_read_document_lies_inside(p: ReadProgressView)
    requires
        p.repositories.len() <= usize::MAX,
    ensures
        read_step(p) matches StepView::Finish(Ok(document)) ==> exists|at: int|
            {
                &&& 0 <= at < p.repositories.len()
                &&& at < p.probes.len()
                &&& document.metadata.absolute_path == joined(
                    #[trigger] p.repositories[at],
                    document.metadata.relative_path,
                )
                &&& p.probes[at].target_is_file
                &&& p.probes[at].canonical_root is Ok
                &&& p.probes[at].canonical_target is Ok
                &&& is_within(
                    p.probes[at].canonical_root->Ok_0,
                    p.probes[at].canonical_target->Ok_0,
                )
            },
{
    if read_step(p) is Finish && read_step(p)->Finish_0 is Ok {
        lemma_locate_found(p.probes, p.repositories.len(), 0);
        let at = locate(p.probes, p.repositories.len())->Found_0 as int;
        assert(first_verdict(p.probes, p.repositories.len(), 0, at, Presence::Present));
        let document = read_step(p)->Finish_0->Ok_0;
        assert(document.metadata.absolute_path == joined(
            p.repositories[at],
            document.metadata.relative_path,
        ));
    }
}

} // verus!
