use docsync::branch_gate::{
    get_current_branch, list_branches, primary_repository, require_main_branch, switch_branch,
    BranchGate, BranchesProgress, DEFAULT_DOCS_BRANCH,
};
use docsync::effect::{Effect, Reply, Step};
use docsync::error::{DocumentError, GitOperation};
use docsync::model::{
    BranchInfo, GetBranchResponse, ListBranchesResponse, SwitchBranchRequest, SwitchBranchResponse,
};

#[test]
fn the_default_documents_branch_is_main() {
    assert_eq!(DEFAULT_DOCS_BRANCH, "main");
    assert_eq!(BranchGate::default().docs_branch, "main");
    assert_eq!(BranchGate::new("trunk".to_string()).docs_branch, "trunk");
}

#[test]
fn the_documents_branch_is_let_through() {
    let gate = BranchGate::default();
    assert_eq!(gate.authorize_mutation("main".to_string()), Ok("main".to_string()));
    assert_eq!(require_main_branch(&gate, &Ok("main".to_string())), Ok("main".to_string()));
    assert!(gate.is_docs_branch("main"));
    assert!(!gate.is_docs_branch("Main"));
}

#[test]
fn another_branch_is_refused_with_both_names() {
    let gate = BranchGate::default();
    let expected = DocumentError::WrongBranch {
        required: "main".to_string(),
        actual: "feature/x".to_string(),
    };
    assert_eq!(gate.authorize_mutation("feature/x".to_string()), Err(expected.clone()));
    assert_eq!(require_main_branch(&gate, &Ok("feature/x".to_string())), Err(expected));
    let trunk = BranchGate::new("trunk".to_string());
    assert_eq!(
        trunk.authorize_mutation("main".to_string()),
        Err(DocumentError::WrongBranch { required: "trunk".to_string(), actual: "main".to_string() })
    );
    assert_eq!(trunk.authorize_mutation("trunk".to_string()), Ok("trunk".to_string()));
}

#[test]
fn a_branch_that_cannot_be_told_is_a_failure() {
    let gate = BranchGate::default();
    assert_eq!(
        require_main_branch(&gate, &Err("not a repository".to_string())),
        Err(DocumentError::GitOperationFailed {
            operation: GitOperation::CurrentBranch,
            detail: "not a repository".to_string(),
        })
    );
}

#[test]
fn the_primary_repository_is_the_first() {
    let none: Vec<String> = vec![];
    assert_eq!(primary_repository(&none), Err(DocumentError::NoRepository));
    let two = vec!["/a".to_string(), "/b".to_string()];
    assert_eq!(primary_repository(&two), Ok(&"/a".to_string()));
}

#[test]
fn current_branch_is_reported_with_its_standing() {
    let gate = BranchGate::default();
    assert_eq!(
        get_current_branch(&gate, Ok("main".to_string())),
        Ok(GetBranchResponse { branch: "main".to_string(), is_docs_branch: true })
    );
    assert_eq!(
        get_current_branch(&gate, Ok("dev".to_string())),
        Ok(GetBranchResponse { branch: "dev".to_string(), is_docs_branch: false })
    );
    assert_eq!(
        get_current_branch(&gate, Err("detached".to_string())),
        Err(DocumentError::GitOperationFailed {
            operation: GitOperation::CurrentBranch,
            detail: "detached".to_string(),
        })
    );
}

fn branch(name: &str, is_current: bool, is_remote: bool) -> BranchInfo {
    BranchInfo { name: name.to_string(), is_current, is_remote }
}

fn ask_branches(
    repositories: Vec<String>,
    branches: Result<Vec<BranchInfo>, String>,
    current: Result<String, String>,
) -> (Result<ListBranchesResponse, DocumentError>, Vec<Effect>) {
    let mut asked = vec![];
    let mut progress = BranchesProgress::new(repositories);
    let mut step = progress.step();
    for _ in 0..10 {
        match step {
            Step::Finish(result) => return (result, asked),
            Step::Ask(effect) => {
                asked.push(effect.clone());
                let reply = match effect {
                    Effect::Branches { .. } => Reply::Branches(branches.clone()),
                    Effect::CurrentBranch { .. } => Reply::Text(current.clone()),
                    other => panic!("unexpected effect {:?}", other),
                };
                let next = list_branches(progress, reply);
                progress = next.0;
                step = next.1;
            }
        }
    }
    panic!("the question did not end");
}

fn one_repo() -> Vec<String> {
    vec!["/repo".to_string(), "/other".to_string()]
}

#[test]
fn branches_are_listed_as_version_control_gave_them() {
    let listed = vec![branch("main", true, false), branch("origin/main", false, true)];
    let (out, asked) = ask_branches(one_repo(), Ok(listed.clone()), Ok("main".to_string()));
    assert_eq!(out, Ok(ListBranchesResponse { branches: listed, current_branch: "main".to_string() }));
    assert_eq!(
        asked,
        vec![
            Effect::Branches { repo: "/repo".to_string() },
            Effect::CurrentBranch { repo: "/repo".to_string() },
        ]
    );
    let (out, _) = ask_branches(one_repo(), Ok(vec![]), Ok("main".to_string()));
    assert_eq!(out, Ok(ListBranchesResponse { branches: vec![], current_branch: "main".to_string() }));
}

#[test]
fn failures_of_listing_are_passed_on() {
    let (out, asked) = ask_branches(one_repo(), Err("io".to_string()), Ok("main".to_string()));
    assert_eq!(
        out,
        Err(DocumentError::GitOperationFailed {
            operation: GitOperation::ListBranches,
            detail: "io".to_string(),
        })
    );
    assert_eq!(asked, vec![Effect::Branches { repo: "/repo".to_string() }]);
    let (out, asked) =
        ask_branches(one_repo(), Ok(vec![branch("main", true, false)]), Err("head".to_string()));
    assert_eq!(
        out,
        Err(DocumentError::GitOperationFailed {
            operation: GitOperation::CurrentBranch,
            detail: "head".to_string(),
        })
    );
    assert_eq!(asked.len(), 2);
    let (out, asked) = ask_branches(vec![], Ok(vec![]), Ok("main".to_string()));
    assert_eq!(out, Err(DocumentError::NoRepository));
    assert!(asked.is_empty());
}

#[test]
fn a_reply_of_another_kind_does_not_move_a_question_for_branches() {
    let progress = BranchesProgress::new(one_repo());
    let first = progress.step();
    let (progress, step) = list_branches(progress, Reply::Text(Ok("main".to_string())));
    assert_eq!(step, first);
    assert_eq!(progress.current, None);
    assert_eq!(progress.branches, None);
}

#[test]
fn switching_reports_whether_changes_were_stashed() {
    let request = SwitchBranchRequest { branch: "dev".to_string() };
    assert_eq!(
        switch_branch(&request, Ok(false)),
        Ok(SwitchBranchResponse {
            success: true,
            branch: "dev".to_string(),
            message: "Switched to branch 'dev'".to_string(),
            stashed: false,
        })
    );
    assert_eq!(
        switch_branch(&request, Ok(true)),
        Ok(SwitchBranchResponse {
            success: true,
            branch: "dev".to_string(),
            message: "Switched to branch 'dev' (changes were stashed and restored)".to_string(),
            stashed: true,
        })
    );
}

#[test]
fn a_failed_switch_names_the_branch() {
    let request = SwitchBranchRequest { branch: "dev".to_string() };
    let out = switch_branch(&request, Err("conflict".to_string()));
    assert_eq!(
        out,
        Err(DocumentError::GitOperationFailed { operation: GitOperation::Checkout { branch: "dev".to_string() }, detail: "conflict".to_string() })
    );
    assert_eq!(out.unwrap_err().message(), "Failed to switch to branch 'dev': conflict");
}
