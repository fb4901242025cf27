//! Bringing the documents branch and its remote together: fetch, rebase
//! where the remote is ahead and rebasing is allowed, push where there is
//! something to push.

use vstd::prelude::*;
use vstd::string::*;
use crate::branch_gate::BranchGate;
use crate::effect::{
    awaited, changes_state, Decision, Effect, EffectView, Reply, ReplyView, Slot, Step, StepView,
};
use crate::error::{
    error_message, DocumentError, DocumentErrorView, GitOperation, GitOperationView,
};
use crate::model::{
    SyncRequest, SyncResponse, SyncResponseView, SyncStatusResponse, SyncStatusResponseView,
};
use crate::text::{chain, chain3, decimal, decimal_text};

verus! {

/// The remote that documents are synchronised with.
pub const REMOTE: &'static str = "origin";

/// What is to be done about the distance between the local branch and the
/// remote.
#[derive(Debug, Clone, Copy, PartialEq, Eq, Structural)]
pub enum SyncPlan {
    /// Neither side has a commit that the other lacks.
    UpToDate,
    /// The remote is ahead and rebasing is not allowed.
    RebaseRequired,
    /// The remote is ahead: rebase, then push.
    RebaseAndPush,
    /// Only the local branch is ahead: push.
    Push,
}

/// The plan for a local branch that is `ahead` commits ahead of the remote
/// and `behind` commits behind it.
pub open spec fn sync_plan(ahead: usize, behind: usize, allow_rebase: bool) -> SyncPlan {
    if behind > 0 {
        if allow_rebase {
            SyncPlan::RebaseAndPush
        } else {
            SyncPlan::RebaseRequired
        }
    } else if ahead == 0 {
        SyncPlan::UpToDate
    } else {
        SyncPlan::Push
    }
}

/// Decides [`sync_plan`].
pub fn plan_sync(ahead: usize, behind: usize, allow_rebase: bool) -> (plan: SyncPlan)
    ensures
        plan == sync_plan(ahead, behind, allow_rebase),
{
    if behind > 0 {
        if allow_rebase {
            SyncPlan::RebaseAndPush
        } else {
            SyncPlan::RebaseRequired
        }
    } else if ahead == 0 {
        SyncPlan::UpToDate
    } else {
        SyncPlan::Push
    }
}

/// What a synchronisation came to.
#[derive(Debug, Clone, Copy, PartialEq, Eq, Structural)]
pub struct SyncOutcome {
    /// Local commits that the remote lacked before the synchronisation.
    pub commits_ahead: usize,
    /// Remote commits that the local branch lacked before it.
    pub commits_behind: usize,
    /// Whether a rebase was made.
    pub rebased: bool,
    /// How many commits were pushed.
    pub pushed_count: usize,
}

/// The outcome of a plan that was carried out without a failure.
pub open spec fn planned_outcome(ahead: usize, behind: usize, allow_rebase: bool) -> Option<
    SyncOutcome,
> {
    match sync_plan(ahead, behind, allow_rebase) {
        SyncPlan::RebaseRequired => None,
        SyncPlan::UpToDate => Some(
            SyncOutcome { commits_ahead: ahead, commits_behind: behind, rebased: false, pushed_count: 0 },
        ),
        SyncPlan::RebaseAndPush => Some(
            SyncOutcome {
                commits_ahead: ahead,
                commits_behind: behind,
                rebased: true,
                pushed_count: ahead,
            },
        ),
        SyncPlan::Push => Some(
            SyncOutcome {
                commits_ahead: ahead,
                commits_behind: behind,
                rebased: false,
                pushed_count: ahead,
            },
        ),
    }
}

/// What is said of a synchronisation that went through.
pub open spec fn sync_message(docs_branch: Seq<char>, outcome: SyncOutcome) -> Seq<char> {
    if outcome.rebased {
        "Synced "@ + decimal(outcome.pushed_count as nat) + " commit(s) after rebasing "@ + decimal(
            outcome.commits_behind as nat,
        ) + " remote commit(s)"@
    } else if outcome.commits_ahead == 0 {
        "already up to date"@
    } else {
        "Synced "@ + decimal(outcome.pushed_count as nat) + " commit(s) to origin/"@ + docs_branch
    }
}

/// The response that reports an outcome.
pub open spec fn sync_response(docs_branch: Seq<char>, outcome: SyncOutcome) -> SyncResponseView {
    SyncResponseView {
        success: true,
        commits_pushed: outcome.pushed_count,
        message: sync_message(docs_branch, outcome),
        rebased: outcome.rebased,
    }
}

/// Reports an outcome.
pub fn respond(gate: &BranchGate, outcome: SyncOutcome) -> (response: SyncResponse)
    ensures
        response@ == sync_response(gate@, outcome),
{
    let message = if outcome.rebased {
        let pushed = decimal_text(outcome.pushed_count);
        let behind = decimal_text(outcome.commits_behind);
        let mut message = chain3("Synced ", pushed.as_str(), " commit(s) after rebasing ");
        message.append(behind.as_str());
        message.append(" remote commit(s)");
        message
    } else if outcome.commits_ahead == 0 {
        String::from_str("already up to date")
    } else {
        let pushed = decimal_text(outcome.pushed_count);
        let mut message = chain3("Synced ", pushed.as_str(), " commit(s) to origin/");
        message.append(gate.docs_branch.as_str());
        message
    };
    SyncResponse {
        success: true,
        commits_pushed: outcome.pushed_count,
        message,
        rebased: outcome.rebased,
    }
}

/// What is known so far of a synchronisation.
#[derive(Debug, PartialEq, Eq)]
pub struct SyncProgress {
    /// The branch gate that the repository has to pass.
    pub gate: BranchGate,
    /// The project's repositories; the first is the primary one.
    pub repositories: Vec<String>,
    /// Whether to rebase first when the remote is ahead.
    pub allow_rebase: bool,
    /// The branch that the repository is on.
    pub branch: Option<Result<String, String>>,
    /// Whether the remote was fetched.
    pub fetched: Option<Result<(), String>>,
    /// Commits ahead of the remote, and behind it.
    pub divergence: Option<Result<(usize, usize), String>>,
    /// Whether the rebase went through.
    pub rebased: Option<Result<(), String>>,
    /// The address of the remote.
    pub remote_url: Option<Result<String, String>>,
    /// Whether the push went through.
    pub pushed: Option<Result<(), String>>,
}

/// The view of a [`SyncProgress`].
pub struct SyncProgressView {
    pub docs_branch: Seq<char>,
    pub repositories: Seq<Seq<char>>,
    pub allow_rebase: bool,
    pub branch: Option<Result<Seq<char>, Seq<char>>>,
    pub fetched: Option<Result<(), Seq<char>>>,
    pub divergence: Option<Result<(usize, usize), Seq<char>>>,
    pub rebased: Option<Result<(), Seq<char>>>,
    pub remote_url: Option<Result<Seq<char>, Seq<char>>>,
    pub pushed: Option<Result<(), Seq<char>>>,
}

impl View for SyncProgress {
    type V = SyncProgressView;

    open spec fn view(&self) -> SyncProgressView {
        SyncProgressView {
            docs_branch: self.gate@,
            repositories: self.repositories.deep_view(),
            allow_rebase: self.allow_rebase,
            branch: awaited(self.branch),
            fetched: awaited(self.fetched),
            divergence: awaited(self.divergence),
            rebased: awaited(self.rebased),
            remote_url: awaited(self.remote_url),
            pushed: awaited(self.pushed),
        }
    }
}

/// The error that a failed version-control operation ends a request with.
pub open spec fn git_failure<R>(operation: GitOperationView, detail: Seq<char>) -> Decision<R> {
    Decision::Finish(Err(DocumentErrorView::GitOperationFailed { operation, detail }))
}

/// What a synchronisation has come to once nothing but the push is left.
pub open spec fn sync_push(p: SyncProgressView, outcome: SyncOutcome) -> Decision<SyncResponseView> {
    match p.remote_url {
        None => Decision::Need(Slot::RemoteUrl),
        Some(Err(detail)) => git_failure(GitOperationView::RemoteUrl, detail),
        Some(Ok(_)) => match p.pushed {
            None => Decision::Need(Slot::Pushed),
            Some(Err(detail)) => git_failure(GitOperationView::Push, detail),
            Some(Ok(_)) => Decision::Finish(Ok(sync_response(p.docs_branch, outcome))),
        },
    }
}

/// What a synchronisation has come to once the distance to the remote is
/// known.
pub open spec fn sync_after_counts(p: SyncProgressView, ahead: usize, behind: usize) -> Decision<
    SyncResponseView,
> {
    match sync_plan(ahead, behind, p.allow_rebase) {
        SyncPlan::RebaseRequired => Decision::Finish(
            Err(DocumentErrorView::RebaseRequired { behind }),
        ),
        SyncPlan::UpToDate => Decision::Finish(
            Ok(sync_response(p.docs_branch, planned_outcome(ahead, behind, p.allow_rebase)->0)),
        ),
        SyncPlan::RebaseAndPush => match p.rebased {
            None => Decision::Need(Slot::Rebased),
            Some(Err(detail)) => git_failure(GitOperationView::Rebase, detail),
            Some(Ok(_)) => sync_push(p, planned_outcome(ahead, behind, p.allow_rebase)->0),
        },
        SyncPlan::Push => sync_push(p, planned_outcome(ahead, behind, p.allow_rebase)->0),
    }
}

/// What a synchronisation has come to, given what is known so far.
///
/// In this order: the project needs a repository; the repository must be on
/// the documents branch; the remote is fetched; the commits ahead and behind
/// are counted; the plan ([`sync_plan`]) is carried out. Every failure of
/// version control ends the synchronisation, and nothing is tried again.
pub open spec fn sync_decision(p: SyncProgressView) -> Decision<SyncResponseView> {
    if p.repositories.len() == 0 {
        Decision::Finish(Err(DocumentErrorView::NoRepository))
    } else {
        match p.branch {
            None => Decision::Need(Slot::Branch),
            Some(Err(detail)) => git_failure(GitOperationView::CurrentBranch, detail),
            Some(Ok(branch)) => if branch != p.docs_branch {
                Decision::Finish(
                    Err(DocumentErrorView::NotOnDocsBranch { required: p.docs_branch }),
                )
            } else {
                match p.fetched {
                    None => Decision::Need(Slot::Fetched),
                    Some(Err(detail)) => git_failure(GitOperationView::Fetch, detail),
                    Some(Ok(_)) => match p.divergence {
                        None => Decision::Need(Slot::Divergence),
                        Some(Err(detail)) => git_failure(GitOperationView::AheadBehind, detail),
                        Some(Ok((ahead, behind))) => sync_after_counts(p, ahead, behind),
                    },
                }
            },
        }
    }
}

/// The name of the branch on the remote that the documents branch follows.
pub open spec fn upstream_of(docs_branch: Seq<char>) -> Seq<char> {
    "origin/"@ + docs_branch
}

/// The outside work that fills a slot of a synchronisation or of a question
/// for its status.
pub open spec fn sync_effect(
    repo: Seq<char>,
    docs_branch: Seq<char>,
    remote_url: Option<Result<Seq<char>, Seq<char>>>,
    slot: Slot,
) -> EffectView {
    match slot {
        Slot::Fetched => EffectView::Fetch { repo, remote: REMOTE@, branch: docs_branch },
        Slot::Divergence => EffectView::AheadBehind {
            repo,
            local: docs_branch,
            upstream: upstream_of(docs_branch),
        },
        Slot::Rebased => EffectView::PullRebase { repo, remote: REMOTE@, branch: docs_branch },
        Slot::RemoteUrl => EffectView::RemoteUrl { repo, remote: REMOTE@ },
        Slot::Pushed => EffectView::Push {
            repo,
            url: match remote_url {
                Some(Ok(url)) => url,
                _ => Seq::empty(),
            },
            branch: docs_branch,
            force: false,
        },
        _ => EffectView::CurrentBranch { repo },
    }
}

/// The next step of a synchronisation.
pub open spec fn sync_step(p: SyncProgressView) -> StepView<SyncResponseView> {
    match sync_decision(p) {
        Decision::Need(slot) => StepView::Ask(
            sync_effect(p.repositories[0], p.docs_branch, p.remote_url, slot),
        ),
        Decision::Finish(result) => StepView::Finish(result),
    }
}

/// The progress once a reply has come in: the reply fills the slot that the
/// operation waits for, if it is of that slot's kind; any other reply
/// changes nothing.
pub open spec fn sync_record(p: SyncProgressView, reply: ReplyView) -> SyncProgressView {
    match (sync_decision(p).pending(), reply) {
        (Some(Slot::Branch), ReplyView::Text(branch)) => SyncProgressView {
            branch: Some(branch),
            ..p
        },
        (Some(Slot::Fetched), ReplyView::Done(done)) => SyncProgressView {
            fetched: Some(done),
            ..p
        },
        (Some(Slot::Divergence), ReplyView::Counts(counts)) => SyncProgressView {
            divergence: Some(counts),
            ..p
        },
        (Some(Slot::Rebased), ReplyView::Done(done)) => SyncProgressView {
            rebased: Some(done),
            ..p
        },
        (Some(Slot::RemoteUrl), ReplyView::Text(url)) => SyncProgressView {
            remote_url: Some(url),
            ..p
        },
        (Some(Slot::Pushed), ReplyView::Done(done)) => SyncProgressView { pushed: Some(done), ..p },
        _ => p,
    }
}

fn git_failed<R>(operation: GitOperation, detail: &String) -> (out: (Option<Slot>, Step<R>))
    ensures
        out.0 is None,
        out.1 matches Step::Finish(Err(error)) && error@ == (DocumentErrorView::GitOperationFailed {
            operation: operation@,
            detail: detail@,
        }),
{
    (None, Step::Finish(Err(DocumentError::GitOperationFailed { operation, detail: detail.clone() })))
}

fn sync_ask(repo: &String, gate: &BranchGate, remote_url: &Option<Result<String, String>>, slot: Slot) -> (effect:
    Effect)
    ensures
        effect@ == sync_effect(repo@, gate@, awaited(*remote_url), slot),
{
    match slot {
        Slot::Fetched => Effect::Fetch {
            repo: repo.clone(),
            remote: String::from_str(REMOTE),
            branch: gate.docs_branch.clone(),
        },
        Slot::Divergence => Effect::AheadBehind {
            repo: repo.clone(),
            local: gate.docs_branch.clone(),
            upstream: chain("origin/", gate.docs_branch.as_str()),
        },
        Slot::Rebased => Effect::PullRebase {
            repo: repo.clone(),
            remote: String::from_str(REMOTE),
            branch: gate.docs_branch.clone(),
        },
        Slot::RemoteUrl => Effect::RemoteUrl {
            repo: repo.clone(),
            remote: String::from_str(REMOTE),
        },
        Slot::Pushed => Effect::Push {
            repo: repo.clone(),
            url: match remote_url {
                Some(Ok(url)) => url.clone(),
                _ => String::new(),
            },
            branch: gate.docs_branch.clone(),
            force: false,
        },
        _ => Effect::CurrentBranch { repo: repo.clone() },
    }
}

impl SyncProgress {
    /// The progress of a synchronisation of which nothing is known yet but
    /// the request.
    pub fn new(gate: BranchGate, repositories: Vec<String>, request: SyncRequest) -> (out:
        SyncProgress)
        ensures
            out@ == (SyncProgressView {
                docs_branch: gate@,
                repositories: repositories.deep_view(),
                allow_rebase: request.allow_rebase,
                branch: None,
                fetched: None,
                divergence: None,
                rebased: None,
                remote_url: None,
                pushed: None,
            }),
    {
        SyncProgress {
            gate,
            repositories,
            allow_rebase: request.allow_rebase,
            branch: None,
            fetched: None,
            divergence: None,
            rebased: None,
            remote_url: None,
            pushed: None,
        }
    }

    fn ask(&self, slot: Slot) -> (out: (Option<Slot>, Step<SyncResponse>))
        requires
            self.repositories.len() > 0,
        ensures
            out.0 == Some(slot),
            out.1@ == StepView::<SyncResponseView>::Ask(
                sync_effect(self@.repositories[0], self@.docs_branch, self@.remote_url, slot),
            ),
    {
        assert(self@.repositories[0] == self.repositories[0]@);
        (Some(slot), Step::Ask(sync_ask(&self.repositories[0], &self.gate, &self.remote_url, slot)))
    }

    fn walk(&self) -> (out: (Option<Slot>, Step<SyncResponse>))
        ensures
            out.0 == sync_decision(self@).pending(),
            out.1@ == sync_step(self@),
    {
        if self.repositories.len() == 0 {
            return (None, Step::Finish(Err(DocumentError::NoRepository)));
        }
        match &self.branch {
            None => {
                return self.ask(Slot::Branch);
            },
            Some(Err(detail)) => {
                return git_failed(GitOperation::CurrentBranch, detail);
            },
            Some(Ok(branch)) => {
                if !self.gate.is_docs_branch(branch.as_str()) {
                    return (
                        None,
                        Step::Finish(
                            Err(
                                DocumentError::NotOnDocsBranch {
                                    required: self.gate.docs_branch.clone(),
                                },
                            ),
                        ),
                    );
                }
            },
        }
        match &self.fetched {
            None => {
                return self.ask(Slot::Fetched);
            },
            Some(Err(detail)) => {
                return git_failed(GitOperation::Fetch, detail);
            },
            Some(Ok(_)) => {},
        }
        let (ahead, behind) = match &self.divergence {
            None => {
                return self.ask(Slot::Divergence);
            },
            Some(Err(detail)) => {
                return git_failed(GitOperation::AheadBehind, detail);
            },
            Some(Ok(counts)) => (counts.0, counts.1),
        };
        let outcome = match plan_sync(ahead, behind, self.allow_rebase) {
            SyncPlan::RebaseRequired => {
                return (None, Step::Finish(Err(DocumentError::RebaseRequired { behind })));
            },
            SyncPlan::UpToDate => {
                let outcome = SyncOutcome {
                    commits_ahead: ahead,
                    commits_behind: behind,
                    rebased: false,
                    pushed_count: 0,
                };
                return (None, Step::Finish(Ok(respond(&self.gate, outcome))));
            },
            SyncPlan::RebaseAndPush => {
                match &self.rebased {
                    None => {
                        return self.ask(Slot::Rebased);
                    },
                    Some(Err(detail)) => {
                        return git_failed(GitOperation::Rebase, detail);
                    },
                    Some(Ok(_)) => {},
                }
                SyncOutcome {
                    commits_ahead: ahead,
                    commits_behind: behind,
                    rebased: true,
                    pushed_count: ahead,
                }
            },
            SyncPlan::Push => SyncOutcome {
                commits_ahead: ahead,
                commits_behind: behind,
                rebased: false,
                pushed_count: ahead,
            },
        };
        match &self.remote_url {
            None => {
                return self.ask(Slot::RemoteUrl);
            },
            Some(Err(detail)) => {
                return git_failed(GitOperation::RemoteUrl, detail);
            },
            Some(Ok(_)) => {},
        }
        match &self.pushed {
            None => {
                return self.ask(Slot::Pushed);
            },
            Some(Err(detail)) => {
                return git_failed(GitOperation::Push, detail);
            },
            Some(Ok(_)) => {},
        }
        (None, Step::Finish(Ok(respond(&self.gate, outcome))))
    }

    /// The next step of the synchronisation.
    pub fn step(&self) -> (out: Step<SyncResponse>)
        ensures
            out@ == sync_step(self@),
    {
        self.walk().1
    }

    /// Takes a reply in.
    pub fn record(self, reply: Reply) -> (out: SyncProgress)
        ensures
            out@ == sync_record(self@, reply@),
    {
        let slot = self.walk().0;
        let mut next = self;
        match (slot, reply) {
            (Some(Slot::Branch), Reply::Text(branch)) => {
                next.branch = Some(branch);
            },
            (Some(Slot::Fetched), Reply::Done(done)) => {
                next.fetched = Some(done);
            },
            (Some(Slot::Divergence), Reply::Counts(counts)) => {
                next.divergence = Some(counts);
            },
            (Some(Slot::Rebased), Reply::Done(done)) => {
                next.rebased = Some(done);
            },
            (Some(Slot::RemoteUrl), Reply::Text(url)) => {
                next.remote_url = Some(url);
            },
            (Some(Slot::Pushed), Reply::Done(done)) => {
                next.pushed = Some(done);
            },
            _ => {},
        }
        next
    }
}

/// Synchronises the documents branch with its remote: takes the reply to
/// the step before in, and says what to do next.
pub fn sync_documents(progress: SyncProgress, reply: Reply) -> (out: (
    SyncProgress,
    Step<SyncResponse>,
))
    ensures
        out.0@ == sync_record(progress@, reply@),
        out.1@ == sync_step(out.0@),
{
    let next = progress.record(reply);
    let step = next.step();
    (next, step)
}

/// What is known so far of a question for the status of synchronisation.
#[derive(Debug, PartialEq, Eq)]
pub struct StatusProgress {
    /// The branch gate that names the documents branch.
    pub gate: BranchGate,
    /// The project's repositories; the first is the primary one.
    pub repositories: Vec<String>,
    /// The branch that the repository is on.
    pub branch: Option<Result<String, String>>,
    /// Whether the remote was fetched.
    pub fetched: Option<Result<(), String>>,
    /// Commits ahead of the remote, and behind it.
    pub divergence: Option<Result<(usize, usize), String>>,
}

/// The view of a [`StatusProgress`].
pub struct StatusProgressView {
    pub docs_branch: Seq<char>,
    pub repositories: Seq<Seq<char>>,
    pub branch: Option<Result<Seq<char>, Seq<char>>>,
    pub fetched: Option<Result<(), Seq<char>>>,
    pub divergence: Option<Result<(usize, usize), Seq<char>>>,
}

impl View for StatusProgress {
    type V = StatusProgressView;

    open spec fn view(&self) -> StatusProgressView {
        StatusProgressView {
            docs_branch: self.gate@,
            repositories: self.repositories.deep_view(),
            branch: awaited(self.branch),
            fetched: awaited(self.fetched),
            divergence: awaited(self.divergence),
        }
    }
}

/// The status of a repository that cannot be synchronised now, and why.
pub open spec fn blocked_status(current_branch: Seq<char>, reason: DocumentErrorView) -> SyncStatusResponseView {
    SyncStatusResponseView {
        commits_ahead: 0,
        commits_behind: 0,
        can_sync: false,
        needs_rebase: false,
        current_branch,
        error: Some(error_message(reason)),
    }
}

/// The status of a repository on the documents branch whose remote was
/// fetched.
pub open spec fn ready_status(current_branch: Seq<char>, ahead: usize, behind: usize) -> SyncStatusResponseView {
    SyncStatusResponseView {
        commits_ahead: ahead,
        commits_behind: behind,
        can_sync: true,
        needs_rebase: behind > 0,
        current_branch,
        error: None,
    }
}

/// What a question for the status has come to, given what is known so far.
///
/// The first steps of a synchronisation are taken, and nothing after them:
/// the branch is asked for, the remote is fetched, the commits are counted.
/// That the repository is on another branch, or that the fetch fails, is
/// reported in the status, which is then an answer and no error.
pub open spec fn status_decision(p: StatusProgressView) -> Decision<SyncStatusResponseView> {
    if p.repositories.len() == 0 {
        Decision::Finish(Err(DocumentErrorView::NoRepository))
    } else {
        match p.branch {
            None => Decision::Need(Slot::Branch),
            Some(Err(detail)) => git_failure(GitOperationView::CurrentBranch, detail),
            Some(Ok(branch)) => if branch != p.docs_branch {
                Decision::Finish(
                    Ok(
                        blocked_status(
                            branch,
                            DocumentErrorView::NotOnDocsBranch { required: p.docs_branch },
                        ),
                    ),
                )
            } else {
                match p.fetched {
                    None => Decision::Need(Slot::Fetched),
                    Some(Err(detail)) => Decision::Finish(
                        Ok(
                            blocked_status(
                                branch,
                                DocumentErrorView::GitOperationFailed {
                                    operation: GitOperationView::Fetch,
                                    detail,
                                },
                            ),
                        ),
                    ),
                    Some(Ok(_)) => match p.divergence {
                        None => Decision::Need(Slot::Divergence),
                        Some(Err(detail)) => git_failure(GitOperationView::AheadBehind, detail),
                        Some(Ok((ahead, behind))) => Decision::Finish(
                            Ok(ready_status(branch, ahead, behind)),
                        ),
                    },
                }
            },
        }
    }
}

/// The next step of a question for the status.
pub open spec fn status_step(p: StatusProgressView) -> StepView<SyncStatusResponseView> {
    match status_decision(p) {
        Decision::Need(slot) => StepView::Ask(
            sync_effect(p.repositories[0], p.docs_branch, None, slot),
        ),
        Decision::Finish(result) => StepView::Finish(result),
    }
}

/// The progress once a reply has come in: the reply fills the slot that the
/// operation waits for, if it is of that slot's kind; any other reply
/// changes nothing.
pub open spec fn status_record(p: StatusProgressView, reply: ReplyView) -> StatusProgressView {
    match (status_decision(p).pending(), reply) {
        (Some(Slot::Branch), ReplyView::Text(branch)) => StatusProgressView {
            branch: Some(branch),
            ..p
        },
        (Some(Slot::Fetched), ReplyView::Done(done)) => StatusProgressView {
            fetched: Some(done),
            ..p
        },
        (Some(Slot::Divergence), ReplyView::Counts(counts)) => StatusProgressView {
            divergence: Some(counts),
            ..p
        },
        _ => p,
    }
}

fn blocked(current_branch: &String, reason: DocumentError) -> (out: SyncStatusResponse)
    ensures
        out@ == blocked_status(current_branch@, reason@),
{
    SyncStatusResponse {
        commits_ahead: 0,
        commits_behind: 0,
        can_sync: false,
        needs_rebase: false,
        current_branch: current_branch.clone(),
        error: Some(reason.message()),
    }
}

impl StatusProgress {
    /// The progress of a question of which nothing is known yet.
    pub fn new(gate: BranchGate, repositories: Vec<String>) -> (out: StatusProgress)
        ensures
            out@ == (StatusProgressView {
                docs_branch: gate@,
                repositories: repositories.deep_view(),
                branch: None,
                fetched: None,
                divergence: None,
            }),
    {
        StatusProgress { gate, repositories, branch: None, fetched: None, divergence: None }
    }

    fn ask(&self, slot: Slot) -> (out: (Option<Slot>, Step<SyncStatusResponse>))
        requires
            self.repositories.len() > 0,
        ensures
            out.0 == Some(slot),
            out.1@ == StepView::<SyncStatusResponseView>::Ask(
                sync_effect(self@.repositories[0], self@.docs_branch, None, slot),
            ),
    {
        assert(self@.repositories[0] == self.repositories[0]@);
        (Some(slot), Step::Ask(sync_ask(&self.repositories[0], &self.gate, &None, slot)))
    }

    fn walk(&self) -> (out: (Option<Slot>, Step<SyncStatusResponse>))
        ensures
            out.0 == status_decision(self@).pending(),
            out.1@ == status_step(self@),
    {
        if self.repositories.len() == 0 {
            return (None, Step::Finish(Err(DocumentError::NoRepository)));
        }
        let branch = match &self.branch {
            None => {
                return self.ask(Slot::Branch);
            },
            Some(Err(detail)) => {
                return git_failed(GitOperation::CurrentBranch, detail);
            },
            Some(Ok(branch)) => branch,
        };
        if !self.gate.is_docs_branch(branch.as_str()) {
            let reason = DocumentError::NotOnDocsBranch { required: self.gate.docs_branch.clone() };
            return (None, Step::Finish(Ok(blocked(branch, reason))));
        }
        match &self.fetched {
            None => {
                return self.ask(Slot::Fetched);
            },
            Some(Err(detail)) => {
                let reason = DocumentError::GitOperationFailed {
                    operation: GitOperation::Fetch,
                    detail: detail.clone(),
                };
                return (None, Step::Finish(Ok(blocked(branch, reason))));
            },
            Some(Ok(_)) => {},
        }
        match &self.divergence {
            None => self.ask(Slot::Divergence),
            Some(Err(detail)) => git_failed(GitOperation::AheadBehind, detail),
            Some(Ok(counts)) => (
                None,
                Step::Finish(
                    Ok(
                        SyncStatusResponse {
                            commits_ahead: counts.0,
                            commits_behind: counts.1,
                            can_sync: true,
                            needs_rebase: counts.1 > 0,
                            current_branch: branch.clone(),
                            error: None,
                        },
                    ),
                ),
            ),
        }
    }

    /// The next step of the question.
    pub fn step(&self) -> (out: Step<SyncStatusResponse>)
        ensures
            out@ == status_step(self@),
    {
        self.walk().1
    }

    /// Takes a reply in.
    pub fn record(self, reply: Reply) -> (out: StatusProgress)
        ensures
            out@ == status_record(self@, reply@),
    {
        let slot = self.walk().0;
        let mut next = self;
        match (slot, reply) {
            (Some(Slot::Branch), Reply::Text(branch)) => {
                next.branch = Some(branch);
            },
            (Some(Slot::Fetched), Reply::Done(done)) => {
                next.fetched = Some(done);
            },
            (Some(Slot::Divergence), Reply::Counts(counts)) => {
                next.divergence = Some(counts);
            },
            _ => {},
        }
        next
    }
}

/// Tells how the documents branch stands against its remote: takes the
/// reply to the step before in, and says what to do next.
pub fn get_sync_status(progress: StatusProgress, reply: Reply) -> (out: (
    StatusProgress,
    Step<SyncStatusResponse>,
))
    ensures
        out.0@ == status_record(progress@, reply@),
        out.1@ == status_step(out.0@),
{
    let next = progress.record(reply);
    let step = next.step();
    (next, step)
}

/// Off the documents branch nothing is synchronised: where version control
/// names another branch, the synchronisation ends with `NotOnDocsBranch`.
/// And whatever is known so far, work that changes the repository is asked
/// for only once version control has named the documents branch.
pub proof fn law_sync_needs_docs_branch(p: SyncProgressView)
    requires
        p.repositories.len() > 0,
    ensures
        p.branch matches Some(Ok(branch)) ==> (branch != p.docs_branch ==> sync_step(p)
            == StepView::<SyncResponseView>::Finish(
            Err(DocumentErrorView::NotOnDocsBranch { required: p.docs_branch }),
        )),
        sync_step(p) matches StepView::Ask(effect) ==> (changes_state(effect) ==> p.branch == Some(
            Ok::<Seq<char>, Seq<char>>(p.docs_branch),
        )),
{
}

/// What a synchronisation comes to when version control does not fail,
/// for every distance between the local branch and the remote: nothing is
/// pushed where neither is ahead; the synchronisation ends with
/// `RebaseRequired` and its count, before any rebase or push, where the
/// remote is ahead and rebasing is not allowed; else as many commits are
/// reported pushed as the local branch was ahead, and a rebase is reported
/// exactly where the remote was ahead.
pub proof fn law_sync_outcomes(p: SyncProgressView, ahead: usize, behind: usize)
    requires
        p.repositories.len() > 0,
        p.branch == Some(Ok::<Seq<char>, Seq<char>>(p.docs_branch)),
        p.fetched matches Some(Ok(_)),
        p.divergence == Some(Ok::<(usize, usize), Seq<char>>((ahead, behind))),
        p.rebased matches Some(Ok(_)),
        p.remote_url matches Some(Ok(_)),
        p.pushed matches Some(Ok(_)),
    ensures
        ahead == 0 && behind == 0 ==> sync_step(p) == StepView::<SyncResponseView>::Finish(
            Ok(
                SyncResponseView {
                    success: true,
                    commits_pushed: 0,
                    message: "already up to date"@,
                    rebased: false,
                },
            ),
        ),
        behind > 0 && !p.allow_rebase ==> sync_step(p) == StepView::<SyncResponseView>::Finish(
            Err(DocumentErrorView::RebaseRequired { behind }),
        ),
        (ahead > 0 && behind == 0) || (behind > 0 && p.allow_rebase) ==> (sync_step(
            p,
        ) matches StepView::Finish(Ok(response)) && response.success && response.commits_pushed
            == ahead && response.rebased == (behind > 0)),
{
}

/// Where the remote is ahead and rebasing is not allowed, neither a rebase
/// nor a push is asked for, whatever else is known.
pub proof fn law_rebase_required_changes_nothing(p: SyncProgressView, ahead: usize, behind: usize)
    requires
        p.repositories.len() > 0,
        p.branch == Some(Ok::<Seq<char>, Seq<char>>(p.docs_branch)),
        p.fetched matches Some(Ok(_)),
        p.divergence == Some(Ok::<(usize, usize), Seq<char>>((ahead, behind))),
        behind > 0,
        !p.allow_rebase,
    ensures
        sync_step(p) == StepView::<SyncResponseView>::Finish(
            Err(DocumentErrorView::RebaseRequired { behind }),
        ),
{
}

/// A question for the status changes nothing but what a fetch changes: it
/// asks for no other work that changes the disk or the repository, and for
/// the fetch only on the documents branch.
pub proof fn law_status_only_fetches(p: StatusProgressView)
    ensures
        status_step(p) matches StepView::Ask(effect) ==> (changes_state(effect) ==> effect
            is Fetch && p.branch == Some(Ok::<Seq<char>, Seq<char>>(p.docs_branch))),
{
}

} // verus!
