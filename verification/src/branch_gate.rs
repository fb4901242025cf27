//! The branch on which documents may be changed, and the operations that
//! only ask version control about branches.

use vstd::prelude::*;
use vstd::string::*;
use crate::effect::{
    awaited, outcome, Decision, Effect, EffectView, Reply, ReplyView, Slot, Step, StepView,
};
use crate::error::{
    result_view, DocumentError, DocumentErrorView, GitOperation, GitOperationView,
};
use crate::model::{
    BranchInfo, BranchInfoView, GetBranchResponse, GetBranchResponseView, ListBranchesResponse,
    ListBranchesResponseView, SwitchBranchRequest, SwitchBranchResponse, SwitchBranchResponseView,
};
use crate::text::{chain3, same_text};

verus! {

/// The branch that documents are kept on unless a gate is made for another.
pub const DEFAULT_DOCS_BRANCH: &'static str = "main";

/// Decides whether documents may be changed: only on one branch, the
/// documents branch.
#[derive(Debug, Clone, PartialEq, Eq)]
pub struct BranchGate {
    /// The name of the documents branch.
    pub docs_branch: String,
}

impl View for BranchGate {
    type V = Seq<char>;

    open spec fn view(&self) -> Seq<char> {
        self.docs_branch@
    }
}

/// What a gate says to a repository whose current branch was asked for:
/// the branch's name where it is the documents branch, `WrongBranch` with
/// both names where it is another, and the failure where version control
/// could not tell.
pub open spec fn authorization(required: Seq<char>, current: Result<Seq<char>, Seq<char>>) -> Result<
    Seq<char>,
    DocumentErrorView,
> {
    match current {
        Err(detail) => Err(
            DocumentErrorView::GitOperationFailed { operation: GitOperationView::CurrentBranch, detail },
        ),
        Ok(branch) => if branch == required {
            Ok(branch)
        } else {
            Err(DocumentErrorView::WrongBranch { required, actual: branch })
        },
    }
}

impl BranchGate {
    /// A gate that lets changes through on `docs_branch`.
    pub fn new(docs_branch: String) -> (gate: BranchGate)
        ensures
            gate@ == docs_branch@,
    {
        BranchGate { docs_branch }
    }

    /// Whether `branch` is the documents branch.
    pub fn is_docs_branch(&self, branch: &str) -> (is: bool)
        ensures
            is == (branch@ == self@),
    {
        same_text(branch, self.docs_branch.as_str())
    }

    /// Lets a change through on the documents branch and on no other.
    pub fn authorize_mutation(&self, current: String) -> (out: Result<String, DocumentError>)
        ensures
            result_view(out) == authorization(self@, Ok(current@)),
    {
        if self.is_docs_branch(current.as_str()) {
            Ok(current)
        } else {
            Err(DocumentError::WrongBranch { required: self.docs_branch.clone(), actual: current })
        }
    }
}

impl Default for BranchGate {
    /// A gate for [`DEFAULT_DOCS_BRANCH`].
    fn default() -> (gate: BranchGate)
        ensures
            gate@ == DEFAULT_DOCS_BRANCH@,
    {
        BranchGate { docs_branch: String::from_str(DEFAULT_DOCS_BRANCH) }
    }
}

/// Says whether a repository, whose current branch version control was
/// asked for, may have its documents changed.
pub fn require_main_branch(gate: &BranchGate, current: &Result<String, String>) -> (out: Result<
    String,
    DocumentError,
>)
    ensures
        result_view(out) == authorization(gate@, outcome(*current)),
{
    match current {
        Err(detail) => Err(
            DocumentError::GitOperationFailed {
                operation: GitOperation::CurrentBranch,
                detail: detail.clone(),
            },
        ),
        Ok(branch) => gate.authorize_mutation(branch.clone()),
    }
}

/// The project's primary repository: the first of its list.
pub fn primary_repository(repositories: &Vec<String>) -> (out: Result<&String, DocumentError>)
    ensures
        match out {
            Ok(repo) => repositories.len() > 0 && *repo == repositories[0],
            Err(error) => repositories.len() == 0 && error@ == DocumentErrorView::NoRepository,
        },
{
    if repositories.len() == 0 {
        Err(DocumentError::NoRepository)
    } else {
        Ok(&repositories[0])
    }
}

/// The response to a question for the current branch, given version
/// control's answer.
pub open spec fn current_branch_response(
    required: Seq<char>,
    current: Result<Seq<char>, Seq<char>>,
) -> Result<GetBranchResponseView, DocumentErrorView> {
    match current {
        Err(detail) => Err(
            DocumentErrorView::GitOperationFailed { operation: GitOperationView::CurrentBranch, detail },
        ),
        Ok(branch) => Ok(GetBranchResponseView { branch, is_docs_branch: branch == required }),
    }
}

/// Reports the branch that the primary repository is on, and whether it is
/// the documents branch.
pub fn get_current_branch(gate: &BranchGate, current: Result<String, String>) -> (out: Result<
    GetBranchResponse,
    DocumentError,
>)
    ensures
        result_view(out) == current_branch_response(gate@, outcome(current)),
{
    match current {
        Err(detail) => Err(
            DocumentError::GitOperationFailed { operation: GitOperation::CurrentBranch, detail },
        ),
        Ok(branch) => {
            let is_docs_branch = gate.is_docs_branch(branch.as_str());
            Ok(GetBranchResponse { branch, is_docs_branch })
        },
    }
}

/// What is known so far of a question for the branches.
#[derive(Debug, PartialEq, Eq)]
pub struct BranchesProgress {
    /// The project's repositories; the first is the primary one.
    pub repositories: Vec<String>,
    /// The branches, as version control lists them.
    pub branches: Option<Result<Vec<BranchInfo>, String>>,
    /// The branch that the repository is on.
    pub current: Option<Result<String, String>>,
}

/// The view of a [`BranchesProgress`].
pub struct BranchesProgressView {
    pub repositories: Seq<Seq<char>>,
    pub branches: Option<Result<Seq<BranchInfoView>, Seq<char>>>,
    pub current: Option<Result<Seq<char>, Seq<char>>>,
}

impl View for BranchesProgress {
    type V = BranchesProgressView;

    open spec fn view(&self) -> BranchesProgressView {
        BranchesProgressView {
            repositories: self.repositories.deep_view(),
            branches: awaited(self.branches),
            current: awaited(self.current),
        }
    }
}

/// What a question for the branches has come to, given what is known so
/// far. The project needs a repository; its branches are listed; then the
/// branch that it is on is asked for. The first failure of version control
/// ends the question, and nothing is asked after it.
pub open spec fn branches_decision(p: BranchesProgressView) -> Decision<ListBranchesResponseView> {
    if p.repositories.len() == 0 {
        Decision::Finish(Err(DocumentErrorView::NoRepository))
    } else {
        match p.branches {
            None => Decision::Need(Slot::Branches),
            Some(Err(detail)) => Decision::Finish(
                Err(
                    DocumentErrorView::GitOperationFailed {
                        operation: GitOperationView::ListBranches,
                        detail,
                    },
                ),
            ),
            Some(Ok(listed)) => match p.current {
                None => Decision::Need(Slot::Branch),
                Some(Err(detail)) => Decision::Finish(
                    Err(
                        DocumentErrorView::GitOperationFailed {
                            operation: GitOperationView::CurrentBranch,
                            detail,
                        },
                    ),
                ),
                Some(Ok(current_branch)) => Decision::Finish(
                    Ok(ListBranchesResponseView { branches: listed, current_branch }),
                ),
            },
        }
    }
}

/// The next step of a question for the branches.
pub open spec fn branches_step(p: BranchesProgressView) -> StepView<ListBranchesResponseView> {
    match branches_decision(p) {
        Decision::Need(Slot::Branches) => StepView::Ask(
            EffectView::Branches { repo: p.repositories[0] },
        ),
        Decision::Need(_) => StepView::Ask(EffectView::CurrentBranch { repo: p.repositories[0] }),
        Decision::Finish(result) => StepView::Finish(result),
    }
}

/// The progress once a reply has come in: the reply fills the slot that the
/// question waits for, if it is of that slot's kind; any other reply changes
/// nothing.
pub open spec fn branches_record(p: BranchesProgressView, reply: ReplyView) -> BranchesProgressView {
    match (branches_decision(p).pending(), reply) {
        (Some(Slot::Branches), ReplyView::Branches(branches)) => BranchesProgressView {
            branches: Some(branches),
            ..p
        },
        (Some(Slot::Branch), ReplyView::Text(current)) => BranchesProgressView {
            current: Some(current),
            ..p
        },
        _ => p,
    }
}

/// A copy of the branches.
fn copy_branches(branches: &Vec<BranchInfo>) -> (out: Vec<BranchInfo>)
    ensures
        out.deep_view() == branches.deep_view(),
{
    let mut out: Vec<BranchInfo> = Vec::new();
    let mut i: usize = 0;
    while i < branches.len()
        invariant
            i <= branches.len(),
            out.len() == i,
            forall|j: int| 0 <= j < i ==> (#[trigger] out[j])@ == branches[j]@,
        decreases branches.len() - i,
    {
        let branch = &branches[i];
        out.push(
            BranchInfo {
                name: branch.name.clone(),
                is_current: branch.is_current,
                is_remote: branch.is_remote,
            },
        );
        i += 1;
    }
    assert(out.deep_view() =~= branches.deep_view());
    out
}

impl BranchesProgress {
    /// The progress of a question of which nothing is known yet.
    pub fn new(repositories: Vec<String>) -> (out: BranchesProgress)
        ensures
            out@ == (BranchesProgressView {
                repositories: repositories.deep_view(),
                branches: None,
                current: None,
            }),
    {
        BranchesProgress { repositories, branches: None, current: None }
    }

    fn walk(&self) -> (out: (Option<Slot>, Step<ListBranchesResponse>))
        ensures
            out.0 == branches_decision(self@).pending(),
            out.1@ == branches_step(self@),
    {
        if self.repositories.len() == 0 {
            return (None, Step::Finish(Err(DocumentError::NoRepository)));
        }
        let repo = &self.repositories[0];
        assert(self@.repositories[0] == repo@);
        let listed = match &self.branches {
            None => {
                return (Some(Slot::Branches), Step::Ask(Effect::Branches { repo: repo.clone() }));
            },
            Some(Err(detail)) => {
                return (
                    None,
                    Step::Finish(
                        Err(
                            DocumentError::GitOperationFailed {
                                operation: GitOperation::ListBranches,
                                detail: detail.clone(),
                            },
                        ),
                    ),
                );
            },
            Some(Ok(listed)) => listed,
        };
        match &self.current {
            None => (Some(Slot::Branch), Step::Ask(Effect::CurrentBranch { repo: repo.clone() })),
            Some(Err(detail)) => (
                None,
                Step::Finish(
                    Err(
                        DocumentError::GitOperationFailed {
                            operation: GitOperation::CurrentBranch,
                            detail: detail.clone(),
                        },
                    ),
                ),
            ),
            Some(Ok(current_branch)) => (
                None,
                Step::Finish(
                    Ok(
                        ListBranchesResponse {
                            branches: copy_branches(listed),
                            current_branch: current_branch.clone(),
                        },
                    ),
                ),
            ),
        }
    }

    /// The next step of the question.
    pub fn step(&self) -> (out: Step<ListBranchesResponse>)
        ensures
            out@ == branches_step(self@),
    {
        self.walk().1
    }

    /// Takes a reply in.
    pub fn record(self, reply: Reply) -> (out: BranchesProgress)
        ensures
            out@ == branches_record(self@, reply@),
    {
        let slot = self.walk().0;
        let mut next = self;
        match (slot, reply) {
            (Some(Slot::Branches), Reply::Branches(branches)) => {
                next.branches = Some(branches);
            },
            (Some(Slot::Branch), Reply::Text(current)) => {
                next.current = Some(current);
            },
            _ => {},
        }
        next
    }
}

/// Reports the branches of the primary repository, and the one it is on:
/// takes the reply to the step before in, and says what to do next.
pub fn list_branches(progress: BranchesProgress, reply: Reply) -> (out: (
    BranchesProgress,
    Step<ListBranchesResponse>,
))
    ensures
        out.0@ == branches_record(progress@, reply@),
        out.1@ == branches_step(out.0@),
{
    let next = progress.record(reply);
    let step = next.step();
    (next, step)
}

/// Where the branches cannot be listed, the branch that the repository is
/// on is not asked for: the question ends with the failure of the listing.
pub proof fn law_failed_listing_ends_the_question(p: BranchesProgressView, detail: Seq<char>)
    requires
        p.repositories.len() > 0,
        p.branches == Some(Err::<Seq<BranchInfoView>, Seq<char>>(detail)),
    ensures
        branches_step(p) == StepView::<ListBranchesResponseView>::Finish(
            Err(
                DocumentErrorView::GitOperationFailed {
                    operation: GitOperationView::ListBranches,
                    detail,
                },
            ),
        ),
{
}

/// What is said of a switch to `branch` that went through.
pub open spec fn switch_message(branch: Seq<char>, stashed: bool) -> Seq<char> {
    if stashed {
        "Switched to branch '"@ + branch + "' (changes were stashed and restored)"@
    } else {
        "Switched to branch '"@ + branch + "'"@
    }
}

/// Reports a switch of branches, given what the checkout came to: whether
/// local changes were stashed and restored on the way, or why it failed. A
/// failed checkout is a failed version-control operation that names the
/// branch; nothing more is asked of version control after it.
pub fn switch_branch(request: &SwitchBranchRequest, checkout: Result<bool, String>) -> (out: Result<
    SwitchBranchResponse,
    DocumentError,
>)
    ensures
        result_view(out) == match outcome(checkout) {
            Err(detail) => Err(
                DocumentErrorView::GitOperationFailed {
                    operation: GitOperationView::Checkout { branch: request.branch@ },
                    detail,
                },
            ),
            Ok(stashed) => Ok(
                SwitchBranchResponseView {
                    success: true,
                    branch: request.branch@,
                    message: switch_message(request.branch@, stashed),
                    stashed,
                },
            ),
        },
{
    match checkout {
        Err(detail) => Err(
            DocumentError::GitOperationFailed {
                operation: GitOperation::Checkout { branch: request.branch.clone() },
                detail,
            },
        ),
        Ok(stashed) => {
            let message = if stashed {
                chain3(
                    "Switched to branch '",
                    request.branch.as_str(),
                    "' (changes were stashed and restored)",
                )
            } else {
                chain3("Switched to branch '", request.branch.as_str(), "'")
            };
            Ok(
                SwitchBranchResponse {
                    success: true,
                    branch: request.branch.clone(),
                    message,
                    stashed,
                },
            )
        },
    }
}

} // verus!
