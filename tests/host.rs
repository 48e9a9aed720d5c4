use jr::error::JrError;
use jr::github::MockGithub;

#[test]
fn mock_host_setup_and_queries() {
    let gh = MockGithub::new("test/".to_string())
        .with_branches(vec!["test/abc".to_string(), "test/abd".to_string(), "other/abc".to_string()])
        .with_pr("test/abc".to_string())
        .with_closed_pr("test/old".to_string())
        .with_pr_diff("test/abc".to_string(), "+x\n".to_string());
    assert_eq!(gh.find_branches_with_prefix("ab"), vec!["test/abc".to_string(), "test/abd".to_string()]);
    assert_eq!(gh.find_branches_with_prefix("abc"), vec!["test/abc".to_string()]);
    assert!(gh.find_branches_with_prefix("z").is_empty());
    assert!(gh.pr_is_open(&"test/abc".to_string()));
    assert!(!gh.pr_is_open(&"test/old".to_string()));
    assert_eq!(gh.pr_url("test/abc").as_deref(), Some("https://github.com/test/repo/pull/test/abc"));
    assert_eq!(gh.pr_url("test/old").as_deref(), Some("https://github.com/test/repo/pull/test/old"));
    assert_eq!(gh.pr_url("test/none"), None);
    assert_eq!(gh.pr_diff("test/abc").unwrap(), "+x\n");
    let e = gh.pr_diff("test/old").unwrap_err();
    assert!(matches!(&e, JrError::PrDiffUnavailable { branch } if branch == "test/old"));
}

#[test]
fn mock_host_records_writes() {
    let mut gh = MockGithub::new("test/".to_string());
    let url = gh.pr_create("test/aaaaaaaa", "main", "Alpha", "");
    assert_eq!(url, "https://github.com/test/repo/pull/123");
    assert_eq!(gh.created_prs, vec![("test/aaaaaaaa".to_string(), "main".to_string())]);
    assert!(gh.pr_is_open(&"test/aaaaaaaa".to_string()));
    assert_eq!(gh.pr_url("test/aaaaaaaa").as_deref(), Some("https://github.com/test/repo/pull/123"));
    let url = gh.pr_edit("test/aaaaaaaa", "main2");
    assert_eq!(url, "https://github.com/test/repo/pull/123");
    assert_eq!(gh.edited_prs, vec![("test/aaaaaaaa".to_string(), "main2".to_string())]);
    // A later diff for the same branch replaces the earlier one.
    let gh = gh
        .with_pr_diff("test/aaaaaaaa".to_string(), "+1\n".to_string())
        .with_pr_diff("test/aaaaaaaa".to_string(), "+2\n".to_string());
    assert_eq!(gh.pr_diff("test/aaaaaaaa").unwrap(), "+2\n");
}
