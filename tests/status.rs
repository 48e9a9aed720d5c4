use jr::commit::{CommitInfo, SyncStatus};
use jr::error::JrError;
use jr::git::CommitId;
use jr::jujutsu::{JujutsuCommit, JujutsuCommitMessage};
use jr::stack::{check_parent_prs_up_to_date, check_statuses_synced, sync_statuses, Stack};

fn change(change_id: &str, commit_id: &str, title: &str, parent: &str) -> JujutsuCommit {
    JujutsuCommit {
        change_id: change_id.to_string(),
        commit_id: CommitId(commit_id.to_string()),
        message: JujutsuCommitMessage { title: Some(title.to_string()), body: None },
        parent_change_ids: vec![parent.to_string()],
    }
}

fn id(s: &str) -> Option<CommitId> {
    Some(CommitId(s.to_string()))
}

const ALPHA_DIFF: &str = "diff --git a/alpha b/alpha\nindex 0000000..1111111 100644\n--- a/alpha\n+++ b/alpha\n@@ -0,0 +1 @@\n+alpha\n";
const ALPHA_PR_DIFF: &str = "diff --git a/alpha b/alpha\nindex 0000000000..1111111111 100644\n--- a/alpha\n+++ b/alpha\n@@ -0,0 +1 @@\n+alpha\n";

fn info(
    commit: JujutsuCommit,
    diff: &str,
    pr_tip: Option<CommitId>,
    pr_diff: Option<&str>,
    base_branch: &str,
    base_tip: Option<CommitId>,
    contains: bool,
) -> CommitInfo {
    CommitInfo::new(
        commit,
        "test/",
        diff.to_string(),
        pr_tip,
        pr_diff.map(|d| d.to_string()),
        base_branch.to_string(),
        base_tip,
        contains,
    )
}

#[test]
fn status_unknown_without_pr_tip() {
    let c = info(change("aaaaaaaaaaaa", "c1", "Alpha", "trunk"), ALPHA_DIFF, None, Some(ALPHA_DIFF), "main", id("m1"), true);
    assert_eq!(c.status(), SyncStatus::Unknown);
}

#[test]
fn status_unknown_without_base_tip_or_pr_diff() {
    let c = info(change("aaaaaaaaaaaa", "c1", "Alpha", "trunk"), ALPHA_DIFF, id("pr1"), Some(ALPHA_DIFF), "main", None, true);
    assert_eq!(c.status(), SyncStatus::Unknown);
    let d = info(change("aaaaaaaaaaaa", "c1", "Alpha", "trunk"), ALPHA_DIFF, id("pr1"), None, "main", id("m1"), true);
    assert_eq!(d.status(), SyncStatus::Unknown);
}

#[test]
fn status_changed_when_diffs_differ() {
    let c = info(change("aaaaaaaaaaaa", "c1", "Alpha", "trunk"), "+alpha1\n", id("pr1"), Some(ALPHA_PR_DIFF), "main", id("m1"), true);
    assert_eq!(c.status(), SyncStatus::Changed);
}

#[test]
fn status_restack_when_base_moved() {
    let c = info(change("aaaaaaaaaaaa", "c1", "Alpha", "trunk"), ALPHA_DIFF, id("pr1"), Some(ALPHA_PR_DIFF), "main", id("m1"), false);
    assert_eq!(c.status(), SyncStatus::Restack);
}

#[test]
fn status_synced_despite_hash_lengths() {
    let c = info(change("aaaaaaaaaaaa", "c1", "Alpha", "trunk"), ALPHA_DIFF, id("pr1"), Some(ALPHA_PR_DIFF), "main", id("m1"), true);
    assert_eq!(c.status(), SyncStatus::Synced);
}

#[test]
fn contains_flag_needs_both_tips() {
    let c = info(change("aaaaaaaaaaaa", "c1", "Alpha", "trunk"), ALPHA_DIFF, None, None, "main", id("m1"), true);
    assert!(!c.pr_contains_base);
    assert_eq!(c.pr_branch, "test/aaaaaaaa");
    assert_eq!(c.commit_diff_norm, "diff --git a/alpha b/alpha\n--- a/alpha\n+++ b/alpha\n@@ -0,0 +1 @@\n+alpha\n");
}

#[test]
fn propagation_marks_descendants() {
    // Newest first: gamma, beta, alpha.
    let alpha = info(change("aaaaaaaaaaaa", "c1", "Alpha", "trunk"), "+a1\n", id("pa"), Some("+a\n"), "main", id("m1"), true);
    let beta = info(change("bbbbbbbbbbbb", "c2", "Beta", "aaaaaaaaaaaa"), "+b\n", id("pb"), Some("+b\n"), "test/aaaaaaaa", id("pa"), true);
    let gamma = info(change("cccccccccccc", "c3", "Gamma", "bbbbbbbbbbbb"), "+c\n", id("pc"), Some("+c\n"), "test/bbbbbbbb", id("pb"), true);
    assert_eq!(beta.status(), SyncStatus::Synced);
    let statuses = sync_statuses(&vec![gamma, beta, alpha]);
    assert_eq!(statuses, vec![SyncStatus::Restack, SyncStatus::Restack, SyncStatus::Changed]);
}

#[test]
fn propagation_keeps_own_non_synced_status() {
    let alpha = info(change("aaaaaaaaaaaa", "c1", "Alpha", "trunk"), "+a\n", None, None, "main", id("m1"), false);
    let beta = info(change("bbbbbbbbbbbb", "c2", "Beta", "aaaaaaaaaaaa"), "+b1\n", id("pb"), Some("+b\n"), "test/aaaaaaaa", id("pa"), true);
    let statuses = sync_statuses(&vec![beta, alpha]);
    assert_eq!(statuses, vec![SyncStatus::Changed, SyncStatus::Unknown]);
}

#[test]
fn propagation_all_synced_and_empty() {
    let alpha = info(change("aaaaaaaaaaaa", "c1", "Alpha", "trunk"), "+a\n", id("pa"), Some("+a\n"), "main", id("m1"), true);
    let beta = info(change("bbbbbbbbbbbb", "c2", "Beta", "aaaaaaaaaaaa"), "+b\n", id("pb"), Some("+b\n"), "test/aaaaaaaa", id("pa"), true);
    assert_eq!(sync_statuses(&vec![beta, alpha]), vec![SyncStatus::Synced, SyncStatus::Synced]);
    assert_eq!(sync_statuses(&vec![]), Vec::<SyncStatus>::new());
}

#[test]
fn write_check_reports_oldest_problem() {
    assert!(check_statuses_synced(&vec![SyncStatus::Synced, SyncStatus::Synced]).is_ok());
    assert!(check_statuses_synced(&vec![]).is_ok());
    assert!(matches!(
        check_statuses_synced(&vec![SyncStatus::Unknown, SyncStatus::Changed]),
        Err(JrError::ParentOutOfDate)
    ));
    assert!(matches!(
        check_statuses_synced(&vec![SyncStatus::Changed, SyncStatus::Unknown, SyncStatus::Synced]),
        Err(JrError::ParentHasNoPr)
    ));
    assert!(matches!(check_statuses_synced(&vec![SyncStatus::Restack]), Err(JrError::ParentNeedsRestack)));
}

#[test]
fn stack_validation() {
    let a = change("aaaaaaaaaaaa", "c1", "Alpha", "trunkid");
    let b = change("bbbbbbbbbbbb", "c2", "Beta", "aaaaaaaaaaaa");
    let trunk = "trunkid".to_string();
    assert!(Stack::new(vec![b.clone(), a.clone()], &trunk, false).is_ok());
    assert!(Stack::new(vec![], &trunk, false).is_ok());
    assert!(matches!(Stack::new(vec![a.clone(), b.clone()], &trunk, false), Err(JrError::TopologyInvalid)));
    let off_trunk = change("aaaaaaaaaaaa", "c1", "Alpha", "oldtrunk");
    assert!(matches!(Stack::new(vec![b.clone(), off_trunk.clone()], &trunk, false), Err(JrError::TopologyInvalid)));
    assert!(Stack::new(vec![b, off_trunk], &trunk, true).is_ok());
}

#[test]
fn status_symbols() {
    assert_eq!(SyncStatus::Unknown.symbol(), "?");
    assert_eq!(SyncStatus::Restack.symbol(), "\u{21bb}");
    assert_eq!(SyncStatus::Changed.symbol(), "\u{2717}");
    assert_eq!(SyncStatus::Synced.symbol(), "\u{2713}");
}

#[test]
fn branch_names_and_short_ids() {
    assert_eq!(CommitInfo::branch_name("klmnopqrstuv", "me/"), "me/klmnopqr");
    assert_eq!(CommitInfo::branch_name("klm", "me/"), "me/klm");
    let c = info(change("zyxwvutsrq", "c1", "Alpha", "trunk"), "", None, None, "main", None, false);
    assert_eq!(c.short_id(), "zyxw");
}

#[test]
fn messages_of_changes() {
    let mut commit = change("aaaaaaaaaaaa", "c1", "Title", "trunk");
    commit.message.body = Some("Body line".to_string());
    assert_eq!(commit.full_message(), "Title\n\nBody line");
    let c = info(commit, "", None, None, "main", None, false);
    assert_eq!(c.full_message(), "Title\n\nBody line");
    let m = c.message();
    assert_eq!(m.title.as_deref(), Some("Title"));
    assert_eq!(m.body.as_deref(), Some("Body line"));
    let mut only_body = change("a", "c", "x", "p");
    only_body.message = JujutsuCommitMessage { title: None, body: Some("b".to_string()) };
    assert_eq!(only_body.full_message(), "b");
    only_body.message.body = None;
    assert_eq!(only_body.full_message(), "");
}

/// Three changes stacked on trunk: statuses through creation, an edit of the
/// bottom change, its update and the restacks above it.
#[test]
fn stacked_workflow_statuses() {
    let alpha_c = change("aaaaaaaaaaaa", "a1", "Alpha", "trunk");
    let beta_c = change("bbbbbbbbbbbb", "b1", "Beta", "aaaaaaaaaaaa");
    let gamma_c = change("cccccccccccc", "g1", "Gamma", "bbbbbbbbbbbb");

    // No PRs at all.
    let stack = vec![
        info(gamma_c.clone(), "+g\n", None, None, "test/bbbbbbbb", None, false),
        info(beta_c.clone(), "+b\n", None, None, "test/aaaaaaaa", None, false),
        info(alpha_c.clone(), "+a\n", None, None, "main", id("m1"), false),
    ];
    assert_eq!(sync_statuses(&stack), vec![SyncStatus::Unknown; 3]);

    // Creating gamma first is refused: its parents have no PR.
    assert!(matches!(check_parent_prs_up_to_date(&stack[1..].to_vec()), Err(JrError::ParentHasNoPr)));

    // Create alpha, then beta, then gamma, bottom-up.
    let plan = stack[2].plan_create().unwrap();
    assert_eq!(plan.parents, vec![CommitId("m1".to_string())]);
    let alpha = info(alpha_c.clone(), "+a\n", id("pa1"), Some("+a\n"), "main", id("m1"), true);
    let beta0 = info(beta_c.clone(), "+b\n", None, None, "test/aaaaaaaa", id("pa1"), false);
    assert!(check_parent_prs_up_to_date(&vec![alpha.clone()]).is_ok());
    let plan = beta0.plan_create().unwrap();
    assert_eq!(plan.base_branch, "test/aaaaaaaa");
    let beta = info(beta_c.clone(), "+b\n", id("pb1"), Some("+b\n"), "test/aaaaaaaa", id("pa1"), true);
    let gamma0 = info(gamma_c.clone(), "+g\n", None, None, "test/bbbbbbbb", id("pb1"), false);
    assert!(check_parent_prs_up_to_date(&vec![beta.clone(), alpha.clone()]).is_ok());
    assert!(gamma0.plan_create().is_ok());
    let gamma = info(gamma_c.clone(), "+g\n", id("pg1"), Some("+g\n"), "test/bbbbbbbb", id("pb1"), true);
    assert_eq!(
        sync_statuses(&vec![gamma.clone(), beta.clone(), alpha.clone()]),
        vec![SyncStatus::Synced; 3]
    );

    // Edit alpha's content.
    let alpha_c2 = change("aaaaaaaaaaaa", "a2", "Alpha", "trunk");
    let alpha_edited = info(alpha_c2.clone(), "+a1\n", id("pa1"), Some("+a\n"), "main", id("m1"), true);
    assert_eq!(
        sync_statuses(&vec![gamma.clone(), beta.clone(), alpha_edited.clone()]),
        vec![SyncStatus::Restack, SyncStatus::Restack, SyncStatus::Changed]
    );

    // Update alpha: one parent (the old PR tip), base unchanged.
    let plan = alpha_edited.plan_update(true, "Update alpha").unwrap();
    assert_eq!(plan.parents, vec![CommitId("pa1".to_string())]);
    let alpha2 = info(alpha_c2.clone(), "+a1\n", id("pa2"), Some("+a1\n"), "main", id("m1"), true);
    // Beta's PR does not contain alpha's new tip.
    let beta_stale = info(beta_c.clone(), "+b\n", id("pb1"), Some("+b\n"), "test/aaaaaaaa", id("pa2"), false);
    assert_eq!(
        sync_statuses(&vec![gamma.clone(), beta_stale.clone(), alpha2.clone()]),
        vec![SyncStatus::Restack, SyncStatus::Restack, SyncStatus::Synced]
    );

    // Restacking gamma first is refused while beta needs a restack.
    assert!(matches!(
        check_parent_prs_up_to_date(&vec![beta_stale.clone(), alpha2.clone()]),
        Err(JrError::ParentNeedsRestack)
    ));

    // Restack beta, then gamma.
    assert!(check_parent_prs_up_to_date(&vec![alpha2.clone()]).is_ok());
    let plan = beta_stale.plan_restack(true).unwrap();
    assert_eq!(plan.parents, vec![CommitId("pb1".to_string()), CommitId("pa2".to_string())]);
    assert_eq!(plan.message, "Merge");
    let beta2 = info(beta_c.clone(), "+b\n", id("pb2"), Some("+b\n"), "test/aaaaaaaa", id("pa2"), true);
    let gamma_stale = info(gamma_c.clone(), "+g\n", id("pg1"), Some("+g\n"), "test/bbbbbbbb", id("pb2"), false);
    assert_eq!(
        sync_statuses(&vec![gamma_stale.clone(), beta2.clone(), alpha2.clone()]),
        vec![SyncStatus::Restack, SyncStatus::Synced, SyncStatus::Synced]
    );
    assert!(check_parent_prs_up_to_date(&vec![beta2.clone(), alpha2.clone()]).is_ok());
    assert!(gamma_stale.plan_restack(true).is_ok());
    let gamma2 = info(gamma_c, "+g\n", id("pg2"), Some("+g\n"), "test/bbbbbbbb", id("pb2"), true);
    assert_eq!(
        sync_statuses(&vec![gamma2, beta2, alpha2]),
        vec![SyncStatus::Synced; 3]
    );
}

/// Restack or update of gamma while beta needs a restack fails with the
/// staleness error that names beta's remedy.
#[test]
fn staleness_blocks_gamma() {
    let alpha = info(change("aaaaaaaaaaaa", "a2", "Alpha", "trunk"), "+a1\n", id("pa2"), Some("+a1\n"), "main", id("m1"), true);
    let beta = info(change("bbbbbbbbbbbb", "b1", "Beta", "aaaaaaaaaaaa"), "+b\n", id("pb1"), Some("+b\n"), "test/aaaaaaaa", id("pa2"), false);
    let statuses = sync_statuses(&vec![beta.clone(), alpha.clone()]);
    assert_eq!(statuses[0], SyncStatus::Restack);
    let err = check_parent_prs_up_to_date(&vec![beta, alpha]).unwrap_err();
    assert!(matches!(err, JrError::ParentNeedsRestack));
    assert_eq!(
        err.message(),
        "Cannot update PR: parent PR needs restacking. Its base branch has been updated. Run 'jr restack' on the parent first."
    );
}

#[test]
fn stack_statuses_need_matching_facts() {
    let a = change("aaaaaaaaaaaa", "c1", "Alpha", "trunkid");
    let b = change("bbbbbbbbbbbb", "c2", "Beta", "aaaaaaaaaaaa");
    let stack = Stack::new(vec![b.clone(), a.clone()], &"trunkid".to_string(), false).unwrap();
    let ia = info(a, "+a\n", id("pa"), Some("+a\n"), "main", id("m1"), true);
    let ib = info(b, "+b\n", None, None, "test/aaaaaaaa", id("pa"), false);
    assert_eq!(
        stack.sync_statuses(&vec![ib.clone(), ia.clone()]),
        Some(vec![SyncStatus::Unknown, SyncStatus::Synced])
    );
    assert_eq!(stack.sync_statuses(&vec![ia.clone(), ib]), None);
    assert_eq!(stack.sync_statuses(&vec![ia]), None);
}
