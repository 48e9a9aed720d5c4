use jr::commit::CommitInfo;
use jr::error::JrError;
use jr::git::CommitId;
use jr::jujutsu::{JujutsuCommit, JujutsuCommitMessage};
use jr::reconcile::PrAction;

fn info(
    title: Option<&str>,
    body: Option<&str>,
    diff: &str,
    pr_tip: Option<&str>,
    pr_diff: Option<&str>,
    base_tip: Option<&str>,
    contains: bool,
) -> CommitInfo {
    let commit = JujutsuCommit {
        change_id: "qrstuvwxyzkl".to_string(),
        commit_id: CommitId("c0ffee".to_string()),
        message: JujutsuCommitMessage {
            title: title.map(|t| t.to_string()),
            body: body.map(|b| b.to_string()),
        },
        parent_change_ids: vec!["parent".to_string()],
    };
    CommitInfo::new(
        commit,
        "me/",
        diff.to_string(),
        pr_tip.map(|t| CommitId(t.to_string())),
        pr_diff.map(|d| d.to_string()),
        "me/parentxx".to_string(),
        base_tip.map(|t| CommitId(t.to_string())),
        contains,
    )
}

#[test]
fn create_builds_single_parent_commit_and_pr() {
    let c = info(Some("Add thing"), Some("Details"), "+x\n", None, None, Some("base1"), false);
    let plan = c.plan_create().unwrap();
    assert_eq!(plan.source, CommitId("c0ffee".to_string()));
    assert_eq!(plan.parents, vec![CommitId("base1".to_string())]);
    assert_eq!(plan.message, "Add thing\n\nDetails");
    assert_eq!(plan.pr_branch, "me/qrstuvwx");
    assert_eq!(plan.base_branch, "me/parentxx");
    match plan.pr {
        PrAction::Create { title, body } => {
            assert_eq!(title, "Add thing");
            assert_eq!(body, "Details");
        }
        PrAction::EditBase => panic!("expected a new pull request"),
    }
    let no_body = info(Some("T"), None, "+x\n", None, None, Some("base1"), false);
    match no_body.plan_create().unwrap().pr {
        PrAction::Create { body, .. } => assert_eq!(body, ""),
        PrAction::EditBase => panic!("expected a new pull request"),
    }
}

#[test]
fn create_refusals() {
    let exists = info(Some("T"), None, "+x\n", Some("tip"), Some("+x\n"), Some("b"), true);
    let e = exists.plan_create().unwrap_err();
    assert!(matches!(&e, JrError::BranchAlreadyExists { branch } if branch == "me/qrstuvwx"));
    assert_eq!(e.message(), "PR branch already exists: me/qrstuvwx");
    let untitled = info(None, Some("body"), "+x\n", None, None, Some("b"), false);
    assert!(matches!(untitled.plan_create(), Err(JrError::EmptyDescription)));
    let no_base = info(Some("T"), None, "+x\n", None, None, None, false);
    assert!(matches!(no_base.plan_create(), Err(JrError::BaseBranchMissing { .. })));
}

#[test]
fn update_plans() {
    let same_base = info(Some("T"), None, "+new\n", Some("tip"), Some("+old\n"), Some("b"), true);
    let plan = same_base.plan_update(true, "Fix it").unwrap();
    assert_eq!(plan.parents, vec![CommitId("tip".to_string())]);
    assert_eq!(plan.message, "Fix it");
    assert!(matches!(plan.pr, PrAction::EditBase));
    let moved = info(Some("T"), None, "+new\n", Some("tip"), Some("+old\n"), Some("b2"), false);
    let plan = moved.plan_update(true, "Fix it").unwrap();
    assert_eq!(plan.parents, vec![CommitId("tip".to_string()), CommitId("b2".to_string())]);
}

#[test]
fn update_refusals() {
    let missing = info(Some("T"), None, "+x\n", None, None, Some("b"), false);
    let e = missing.plan_update(true, "m").unwrap_err();
    assert_eq!(e.message(), "PR branch me/qrstuvwx does not exist. Use 'jr create' to create a new PR.");
    let closed = info(Some("T"), None, "+x\n", Some("tip"), Some("+x\n"), Some("b"), true);
    let e = closed.plan_update(false, "m").unwrap_err();
    assert_eq!(e.message(), "No open PR found for branch me/qrstuvwx. The PR may have been closed or merged.");
    let no_diff = info(Some("T"), None, "+x\n", Some("tip"), None, Some("b"), true);
    assert!(matches!(no_diff.plan_update(true, "m"), Err(JrError::PrDiffUnavailable { .. })));
    let unchanged = info(Some("T"), None, "+x\n", Some("tip"), Some("+x\n"), Some("b"), true);
    let e = unchanged.plan_update(true, "m").unwrap_err();
    assert_eq!(e.message(), "No changes detected");
    let base_only = info(Some("T"), None, "+x\n", Some("tip"), Some("+x\n"), Some("b"), false);
    let e = base_only.plan_update(true, "m").unwrap_err();
    assert_eq!(e.message(), "Commit unchanged; use 'jr restack' instead");
    let no_base = info(Some("T"), None, "+y\n", Some("tip"), Some("+x\n"), None, false);
    assert!(matches!(no_base.plan_update(true, "m"), Err(JrError::BaseBranchMissing { .. })));
}

#[test]
fn restack_plan_and_refusals() {
    let stale = info(Some("T"), None, "+x\n", Some("tip"), Some("+x\n"), Some("b2"), false);
    let plan = stale.plan_restack(true).unwrap();
    assert_eq!(plan.parents, vec![CommitId("tip".to_string()), CommitId("b2".to_string())]);
    assert_eq!(plan.message, "Merge");
    assert!(matches!(plan.pr, PrAction::EditBase));

    let missing = info(Some("T"), None, "+x\n", None, None, Some("b"), false);
    assert!(matches!(missing.plan_restack(true), Err(JrError::PrBranchMissing { .. })));
    assert!(matches!(stale.plan_restack(false), Err(JrError::PrNotOpen { .. })));
    let edited = info(Some("T"), None, "+y\n", Some("tip"), Some("+x\n"), Some("b2"), false);
    let e = edited.plan_restack(true).unwrap_err();
    assert_eq!(
        e.message(),
        "Cannot restack: commit has local changes.\nUse 'jr update -m \"<message>\"' to update with your changes."
    );
    let current = info(Some("T"), None, "+x\n", Some("tip"), Some("+x\n"), Some("b2"), true);
    let e = current.plan_restack(true).unwrap_err();
    assert_eq!(e.message(), "Base hasn't changed; no need to restack");
}

#[test]
fn restack_twice_is_refused() {
    let stale = info(Some("T"), None, "+x\n", Some("tip"), Some("+x\n"), Some("b2"), false);
    assert!(stale.plan_restack(true).is_ok());
    // After the push the PR branch holds the merge commit, which contains the base.
    let mut after = stale.clone();
    after.pr_tip = Some(CommitId("merge1".to_string()));
    after.pr_contains_base = true;
    assert!(matches!(after.plan_restack(true), Err(JrError::BaseUnchanged)));
}
