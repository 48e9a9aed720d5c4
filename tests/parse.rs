use jr::app::{stack_start, status_line, StackStart};
use jr::commit::{CommitInfo, SyncStatus};
use jr::error::JrError;
use jr::git::{remote_branch_names, CommitId};
use jr::github::{branch_of_ref, response_result, split_response, GithubClient};
use jr::jujutsu::{parse_commit, parse_id_pairs, parse_stack_changes, JujutsuCommit, JujutsuCommitMessage};
use jr::text::{lines_of, parse_u16_str, splitn_str, trim_str};

#[test]
fn commit_output_with_title_and_body() {
    let out = "abc123|klmnopqr|Title line\n\nBody one\nBody two\n|parent1,parent2\n";
    let c = parse_commit(out).unwrap();
    assert_eq!(c.commit_id, CommitId("abc123".to_string()));
    assert_eq!(c.change_id, "klmnopqr");
    assert_eq!(c.message.title.as_deref(), Some("Title line"));
    assert_eq!(c.message.body.as_deref(), Some("Body one\nBody two"));
    assert_eq!(c.parent_change_ids, vec!["parent1".to_string(), "parent2".to_string()]);
}

#[test]
fn commit_output_without_description_or_parents() {
    let c = parse_commit("abc|def||").unwrap();
    assert_eq!(c.message.title, None);
    assert_eq!(c.message.body, None);
    assert!(c.parent_change_ids.is_empty());
    let c = parse_commit("abc|def|  Only title  \n|p").unwrap();
    assert_eq!(c.message.title.as_deref(), Some("Only title"));
    assert_eq!(c.message.body, None);
}

#[test]
fn commit_output_with_wrong_field_count() {
    let e = parse_commit("abc|def|desc").unwrap_err();
    assert!(matches!(e, JrError::UnexpectedOutput { parts: 3 }));
    assert_eq!(e.message(), "Unexpected jj output format: expected 4 parts, got 3");
    // A fourth bar stays in the last field.
    let c = parse_commit("a|b|c|d|e").unwrap();
    assert_eq!(c.parent_change_ids, vec!["d|e".to_string()]);
}

#[test]
fn id_pairs_and_stack_changes() {
    let out = "k1|c1\n\nbad line\nk2|c2|x\nk3|c3\n";
    let pairs = parse_id_pairs(out);
    assert_eq!(pairs, vec![("k1".to_string(), "c1".to_string()), ("k3".to_string(), "c3".to_string())]);
    let changes = parse_stack_changes(out);
    assert_eq!(
        changes,
        vec![("k3".to_string(), CommitId("c3".to_string())), ("k1".to_string(), CommitId("c1".to_string()))]
    );
}

#[test]
fn remote_branches_from_listing() {
    let out = "  origin/main\norigin/test/abc12345\nupstream/x\n";
    assert_eq!(remote_branch_names(out, "origin/"), vec!["main".to_string(), "test/abc12345".to_string()]);
    let refs = "refs/remotes/origin/main\nrefs/heads/main";
    assert_eq!(remote_branch_names(refs, "refs/remotes/origin/"), vec!["main".to_string()]);
    assert!(remote_branch_names("", "origin/").is_empty());
}

#[test]
fn github_remote_addresses() {
    let gh = GithubClient::new("tok".to_string(), "git@github.com:owner/repo.git\n").unwrap();
    assert_eq!(gh.owner, "owner");
    assert_eq!(gh.repo, "repo");
    assert_eq!(gh.http_client.token, "tok");
    let gh = GithubClient::new("tok".to_string(), "https://github.com/o2/r2").unwrap();
    assert_eq!((gh.owner.as_str(), gh.repo.as_str()), ("o2", "r2"));
    let e = GithubClient::new("tok".to_string(), "https://gitlab.com/o/r").unwrap_err();
    assert_eq!(e.message(), "Remote URL is not a GitHub URL: https://gitlab.com/o/r");
    assert!(matches!(GithubClient::new("tok".to_string(), "https://github.com/justowner"), Err(JrError::MissingRepo)));
}

#[test]
fn curl_responses() {
    let (body, status) = split_response("{\"a\":1}\n200");
    assert_eq!(body, "{\"a\":1}");
    assert_eq!(status, 200);
    let (body, status) = split_response("line1\nline2\n404");
    assert_eq!(body, "line1\nline2");
    assert_eq!(status, 404);
    let (body, status) = split_response("no status");
    assert_eq!(body, "no status");
    assert_eq!(status, 0);
    assert_eq!(split_response("x\nabc").1, 0);
    assert_eq!(response_result("ok".to_string(), 201, None).unwrap(), "ok");
    let e = response_result("{}".to_string(), 422, Some("Validation Failed".to_string())).unwrap_err();
    assert_eq!(e.message(), "GitHub API error: Validation Failed");
    let e = response_result("oops".to_string(), 500, None).unwrap_err();
    assert_eq!(e.message(), "GitHub API request failed with status 500: oops");
}

#[test]
fn refs_to_branches() {
    assert_eq!(branch_of_ref("refs/heads/me/abc"), "me/abc");
    assert_eq!(branch_of_ref("other"), "other");
}

#[test]
fn text_helpers() {
    assert_eq!(trim_str(" \t a b \n"), "a b");
    assert_eq!(trim_str("\u{3000}x\u{a0}"), "x");
    assert_eq!(lines_of("a\r\nb\n\nc\r"), vec!["a".to_string(), "b".to_string(), "".to_string(), "c\r".to_string()]);
    assert!(lines_of("").is_empty());
    assert_eq!(lines_of("x\n"), vec!["x".to_string()]);
    assert_eq!(splitn_str("a|b|c|d|e", 4, '|'), vec!["a", "b", "c", "d|e"]);
    assert_eq!(parse_u16_str("+65535"), Some(65535));
    assert_eq!(parse_u16_str("65536"), None);
    assert_eq!(parse_u16_str(""), None);
    assert_eq!(parse_u16_str("0404"), Some(404));
}

#[test]
fn status_listing_pieces() {
    assert!(matches!(stack_start(&vec![]), StackStart::OnTrunk));
    match stack_start(&vec![("k".to_string(), "c9".to_string())]) {
        StackStart::Head { commit_id } => assert_eq!(commit_id, "c9"),
        _ => panic!("expected one head"),
    }
    let two = vec![("k".to_string(), "c9".to_string()), ("j".to_string(), "c8".to_string())];
    assert!(matches!(stack_start(&two), StackStart::Ambiguous));

    let commit = JujutsuCommit {
        change_id: "zxcvbnmasd".to_string(),
        commit_id: CommitId("c".to_string()),
        message: JujutsuCommitMessage { title: Some("Gamma".to_string()), body: None },
        parent_change_ids: vec![],
    };
    let info = CommitInfo::new(commit.clone(), "p/", String::new(), None, None, String::new(), None, false);
    assert_eq!(status_line(SyncStatus::Unknown, &info), "? zxcv Gamma");
    let mut untitled = commit;
    untitled.message.title = None;
    let info = CommitInfo::new(untitled, "p/", String::new(), None, None, String::new(), None, false);
    assert_eq!(status_line(SyncStatus::Synced, &info), "\u{2713} zxcv");
}
