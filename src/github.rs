//! The pull-request host: where a repository lives on GitHub, and how its
//! API answers are read.
use vstd::prelude::*;

use crate::error::JrError;
use crate::stack::{contains_id, holds_id};
use crate::text::{
    chars_of, find_last, last_index, parse_u16, parse_u16_str, split_by, split_str, string_of_range,
    strip_prefix, strip_prefix_str, strip_suffix, strip_suffix_str, trim, trim_str, views,
};

verus! {

/// Talks to the GitHub API with one token (the HTTP calls live with the
/// caller).
#[derive(Clone, Debug)]
pub struct GithubCurlClient {
    pub token: String,
}

impl GithubCurlClient {
    pub fn new(token: String) -> (r: GithubCurlClient)
        ensures
            r.token@ == token@,
    {
        GithubCurlClient { token }
    }
}

/// One GitHub repository and the HTTP client that reaches it.
#[derive(Clone, Debug)]
pub struct GithubClient {
    pub owner: String,
    pub repo: String,
    pub http_client: GithubCurlClient,
}

/// The part of a remote address after the GitHub host, for the SSH and the
/// HTTPS forms.
pub open spec fn github_path(url: Seq<char>) -> Option<Seq<char>> {
    match strip_prefix(url, "git@github.com:"@) {
        Some(p) => Some(p),
        None => strip_prefix(url, "https://github.com/"@),
    }
}

/// `owner/repo` with a `.git` suffix dropped, split at `/`.
pub open spec fn github_path_parts(p: Seq<char>) -> Seq<Seq<char>> {
    let q = match strip_suffix(p, ".git"@) {
        Some(q) => q,
        None => p,
    };
    split_by(q, '/')
}

impl GithubClient {
    /// A client for the repository that the `origin` remote address
    /// `remote_url` (trimmed first) names: `git@github.com:owner/repo[.git]`
    /// or `https://github.com/owner/repo[.git]`. Any other address is not a
    /// GitHub address; one without a `/` after the owner names no repository.
    pub fn new(token: String, remote_url: &str) -> (r: Result<GithubClient, JrError>)
        ensures
            ({
                let url = trim(remote_url@);
                match github_path(url) {
                    None => r is Err && (r->Err_0 matches JrError::NotGithubUrl { url: u } && u@ == url),
                    Some(p) => {
                        let parts = github_path_parts(p);
                        if parts.len() < 2 {
                            r is Err && r->Err_0 == JrError::MissingRepo
                        } else {
                            r is Ok && r->Ok_0.owner@ == parts[0] && r->Ok_0.repo@ == parts[1]
                                && r->Ok_0.http_client.token@ == token@
                        }
                    },
                }
            }),
    {
        let url = trim_str(remote_url);
        let path = match strip_prefix_str(url.as_str(), "git@github.com:") {
            Some(p) => p,
            None => match strip_prefix_str(url.as_str(), "https://github.com/") {
                Some(p) => p,
                None => {
                    return Err(JrError::NotGithubUrl { url });
                },
            },
        };
        let bare = match strip_suffix_str(path.as_str(), ".git") {
            Some(q) => q,
            None => path,
        };
        let parts = split_str(bare.as_str(), '/');
        if parts.len() < 2 {
            return Err(JrError::MissingRepo);
        }
        assert(parts@[0]@ == views(parts@)[0]);
        assert(parts@[1]@ == views(parts@)[1]);
        Ok(GithubClient {
            owner: parts[0].clone(),
            repo: parts[1].clone(),
            http_client: GithubCurlClient::new(token),
        })
    }
}

/// The body of curl's output: everything before its last newline (all of it
/// when there is none).
pub open spec fn response_body(out: Seq<char>) -> Seq<char> {
    if last_index(out, '\n') < 0 {
        out
    } else {
        out.take(last_index(out, '\n'))
    }
}

/// The HTTP status curl appended after the last newline; 0 when there is
/// none or it does not read as a number.
pub open spec fn response_status(out: Seq<char>) -> u16 {
    if last_index(out, '\n') < 0 {
        0
    } else {
        match parse_u16(out.skip(last_index(out, '\n') + 1)) {
            Some(n) => n,
            None => 0,
        }
    }
}

/// Splits curl's output (the body, then a newline and the HTTP status code)
/// into the body and the status.
pub fn split_response(out: &str) -> (r: (String, u16))
    ensures
        r.0@ == response_body(out@),
        r.1 == response_status(out@),
{
    let cs = chars_of(out);
    match find_last(&cs, '\n') {
        None => (string_of_range(&cs, 0, cs.len()), 0),
        Some(k) => {
            let body = string_of_range(&cs, 0, k);
            let tail = string_of_range(&cs, k + 1, cs.len());
            assert(cs@.subrange(0, k as int) =~= out@.take(k as int));
            assert(cs@.subrange(k + 1, cs.len() as int) =~= out@.skip(k + 1));
            let status = match parse_u16_str(tail.as_str()) {
                Some(n) => n,
                None => 0,
            };
            (body, status)
        },
    }
}

/// The outcome of an API request with the given body and status: a status
/// of 400 or more is an error, carrying the API's own message when the body
/// holds one (`api_message`), else the status and the body; any other status
/// yields the body.
pub fn response_result(body: String, status: u16, api_message: Option<String>) -> (r: Result<String, JrError>)
    ensures
        status < 400 ==> r is Ok && r->Ok_0@ == body@,
        status >= 400 ==> r is Err && match api_message {
            Some(m) => (r->Err_0 matches JrError::ApiError { message } && message@ == m@),
            None => (r->Err_0 matches JrError::RequestFailed { status: s, body: b } && s == status && b@ == body@),
        },
{
    if status >= 400 {
        match api_message {
            Some(m) => Err(JrError::ApiError { message: m }),
            None => Err(JrError::RequestFailed { status, body }),
        }
    } else {
        Ok(body)
    }
}

/// The branch a `refs/heads/...` ref names (the ref itself when it has
/// another form).
pub fn branch_of_ref(r: &str) -> (b: String)
    ensures
        b@ == match strip_prefix(r@, "refs/heads/"@) {
            Some(x) => x,
            None => r@,
        },
{
    match strip_prefix_str(r, "refs/heads/") {
        Some(x) => x,
        None => String::from_str(r),
    }
}

/// The value stored last for `key` in a list of `(key, value)` pairs.
pub open spec fn lookup(pairs: Seq<(String, String)>, key: Seq<char>) -> Option<Seq<char>>
    decreases pairs.len(),
{
    if pairs.len() == 0 {
        None
    } else if pairs.last().0@ == key {
        Some(pairs.last().1@)
    } else {
        lookup(pairs.drop_last(), key)
    }
}

/// The names in `names` that start with `p`, in order.
pub open spec fn names_with_prefix(names: Seq<String>, p: Seq<char>) -> Seq<Seq<char>>
    decreases names.len(),
{
    if names.len() == 0 {
        Seq::empty()
    } else {
        let rest = names_with_prefix(names.drop_last(), p);
        if strip_prefix(names.last()@, p) is Some {
            rest.push(names.last()@)
        } else {
            rest
        }
    }
}

/// The address of the pull request that the in-memory host opens.
pub open spec fn mock_pr_url() -> Seq<char> {
    "https://github.com/test/repo/pull/123"@
}

/// The address under which a pull request set up on the in-memory host is
/// known.
pub open spec fn mock_url_for(branch: Seq<char>) -> Seq<char> {
    "https://github.com/test/repo/pull/"@ + branch
}

/// An in-memory pull-request host: branches, pull requests (open or
/// closed), their addresses and diffs, and a record of the pull requests
/// created and edited.
#[derive(Clone, Debug)]
pub struct MockGithub {
    pub branch_prefix: String,
    pub branches: Vec<String>,
    pub prs: Vec<String>,
    pub open_prs: Vec<String>,
    pub pr_urls: Vec<(String, String)>,
    pub created_prs: Vec<(String, String)>,
    pub edited_prs: Vec<(String, String)>,
    pub pr_diffs: Vec<(String, String)>,
}

fn lookup_pairs(pairs: &Vec<(String, String)>, key: &str) -> (r: Option<String>)
    ensures
        r is Some <==> lookup(pairs@, key@) is Some,
        r is Some ==> r->0@ == lookup(pairs@, key@)->0,
{
    let wanted = String::from_str(key);
    let mut i = pairs.len();
    assert(pairs@.take(i as int) =~= pairs@);
    while i > 0
        invariant
            i <= pairs.len(),
            wanted@ == key@,
            lookup(pairs@, key@) == lookup(pairs@.take(i as int), key@),
        decreases i,
    {
        let ghost t = pairs@.take(i as int);
        assert(t.last() == pairs@[i - 1]);
        if pairs[i - 1].0 == wanted {
            return Some(pairs[i - 1].1.clone());
        }
        assert(t.drop_last() =~= pairs@.take(i - 1));
        i = i - 1;
    }
    None
}

impl MockGithub {
    /// An empty host whose branch searches use `branch_prefix`.
    pub fn new(branch_prefix: String) -> (r: MockGithub)
        ensures
            r.branch_prefix@ == branch_prefix@,
            r.branches@.len() == 0,
            r.prs@.len() == 0,
            r.open_prs@.len() == 0,
            r.pr_urls@.len() == 0,
            r.created_prs@.len() == 0,
            r.edited_prs@.len() == 0,
            r.pr_diffs@.len() == 0,
    {
        MockGithub {
            branch_prefix,
            branches: Vec::new(),
            prs: Vec::new(),
            open_prs: Vec::new(),
            pr_urls: Vec::new(),
            created_prs: Vec::new(),
            edited_prs: Vec::new(),
            pr_diffs: Vec::new(),
        }
    }

    /// The host with exactly these branches.
    pub fn with_branches(self, branches: Vec<String>) -> (r: MockGithub)
        ensures
            r == (MockGithub { branches, ..self }),
    {
        MockGithub { branches, ..self }
    }

    /// The host with an open pull request for `branch`.
    pub fn with_pr(self, branch: String) -> (r: MockGithub)
        ensures
            views(r.prs@) == views(self.prs@).push(branch@),
            views(r.open_prs@) == views(self.open_prs@).push(branch@),
            lookup(r.pr_urls@, branch@) == Some(mock_url_for(branch@)),
            r.pr_urls@.len() == self.pr_urls@.len() + 1,
            r.pr_urls@.drop_last() == self.pr_urls@,
            r.branch_prefix == self.branch_prefix,
            r.branches == self.branches,
            r.created_prs == self.created_prs,
            r.edited_prs == self.edited_prs,
            r.pr_diffs == self.pr_diffs,
    {
        let mut s = self;
        let ghost before = s;
        s.prs.push(branch.clone());
        s.open_prs.push(branch.clone());
        let url = String::from_str("https://github.com/test/repo/pull/").concat(branch.as_str());
        s.pr_urls.push((branch, url));
        assert(views(s.prs@) =~= views(before.prs@).push(branch@));
        assert(views(s.open_prs@) =~= views(before.open_prs@).push(branch@));
        assert(s.pr_urls@.drop_last() =~= before.pr_urls@);
        s
    }

    /// The host with a closed pull request for `branch`.
    pub fn with_closed_pr(self, branch: String) -> (r: MockGithub)
        ensures
            views(r.prs@) == views(self.prs@).push(branch@),
            r.open_prs == self.open_prs,
            lookup(r.pr_urls@, branch@) == Some(mock_url_for(branch@)),
            r.pr_urls@.len() == self.pr_urls@.len() + 1,
            r.pr_urls@.drop_last() == self.pr_urls@,
            r.branch_prefix == self.branch_prefix,
            r.branches == self.branches,
            r.created_prs == self.created_prs,
            r.edited_prs == self.edited_prs,
            r.pr_diffs == self.pr_diffs,
    {
        let mut s = self;
        let ghost before = s;
        s.prs.push(branch.clone());
        let url = String::from_str("https://github.com/test/repo/pull/").concat(branch.as_str());
        s.pr_urls.push((branch, url));
        assert(views(s.prs@) =~= views(before.prs@).push(branch@));
        assert(s.pr_urls@.drop_last() =~= before.pr_urls@);
        s
    }

    /// The host where the pull request of `branch` has the diff `diff`.
    pub fn with_pr_diff(self, branch: String, diff: String) -> (r: MockGithub)
        ensures
            r == (MockGithub { pr_diffs: r.pr_diffs, ..self }),
            r.pr_diffs@ == self.pr_diffs@.push((branch, diff)),
            lookup(r.pr_diffs@, branch@) == Some(diff@),
    {
        let mut s = self;
        s.pr_diffs.push((branch, diff));
        s
    }

    /// The branches whose names start with the host's branch prefix
    /// followed by `prefix`.
    pub fn find_branches_with_prefix(&self, prefix: &str) -> (r: Vec<String>)
        ensures
            views(r@) == names_with_prefix(self.branches@, self.branch_prefix@ + prefix@),
    {
        let search = self.branch_prefix.clone().concat(prefix);
        let mut r: Vec<String> = Vec::new();
        let mut k: usize = 0;
        assert(self.branches@.take(0) =~= Seq::<String>::empty());
        assert(views(r@) =~= Seq::<Seq<char>>::empty());
        while k < self.branches.len()
            invariant
                k <= self.branches.len(),
                search@ == self.branch_prefix@ + prefix@,
                views(r@) == names_with_prefix(self.branches@.take(k as int), search@),
            decreases self.branches.len() - k,
        {
            let ghost t = self.branches@.take(k as int + 1);
            assert(t.drop_last() =~= self.branches@.take(k as int));
            assert(t.last() == self.branches@[k as int]);
            if strip_prefix_str(self.branches[k].as_str(), search.as_str()).is_some() {
                let ghost before = views(r@);
                r.push(self.branches[k].clone());
                assert(views(r@) =~= before.push(self.branches@[k as int]@));
            }
            k = k + 1;
        }
        assert(self.branches@.take(self.branches.len() as int) =~= self.branches@);
        r
    }

    /// Whether `branch` has an open pull request.
    pub fn pr_is_open(&self, branch: &String) -> (r: bool)
        ensures
            r == holds_id(self.open_prs@, branch@),
    {
        contains_id(&self.open_prs, branch)
    }

    /// The address of the pull request for `branch`, if one is known.
    pub fn pr_url(&self, branch: &str) -> (r: Option<String>)
        ensures
            r is Some <==> lookup(self.pr_urls@, branch@) is Some,
            r is Some ==> r->0@ == lookup(self.pr_urls@, branch@)->0,
    {
        lookup_pairs(&self.pr_urls, branch)
    }

    /// Opens a pull request from `pr_branch` into `base_branch`: records it,
    /// marks it open, and returns its address.
    pub fn pr_create(&mut self, pr_branch: &str, base_branch: &str, title: &str, body: &str) -> (r: String)
        ensures
            r@ == mock_pr_url(),
            final(self).created_prs@.len() == old(self).created_prs@.len() + 1,
            final(self).created_prs@.drop_last() == old(self).created_prs@,
            final(self).created_prs@.last().0@ == pr_branch@,
            final(self).created_prs@.last().1@ == base_branch@,
            views(final(self).prs@) == views(old(self).prs@).push(pr_branch@),
            views(final(self).open_prs@) == views(old(self).open_prs@).push(pr_branch@),
            lookup(final(self).pr_urls@, pr_branch@) == Some(mock_pr_url()),
            final(self).pr_urls@.drop_last() == old(self).pr_urls@,
            final(self).branch_prefix == old(self).branch_prefix,
            final(self).branches == old(self).branches,
            final(self).edited_prs == old(self).edited_prs,
            final(self).pr_diffs == old(self).pr_diffs,
    {
        let ghost before = *self;
        self.created_prs.push((String::from_str(pr_branch), String::from_str(base_branch)));
        self.prs.push(String::from_str(pr_branch));
        self.open_prs.push(String::from_str(pr_branch));
        let url = String::from_str("https://github.com/test/repo/pull/123");
        self.pr_urls.push((String::from_str(pr_branch), url.clone()));
        assert(self.created_prs@.drop_last() =~= before.created_prs@);
        assert(views(self.prs@) =~= views(before.prs@).push(pr_branch@));
        assert(views(self.open_prs@) =~= views(before.open_prs@).push(pr_branch@));
        assert(self.pr_urls@.drop_last() =~= before.pr_urls@);
        url
    }

    /// Points the pull request of `pr_branch` at `base_branch`: records the
    /// edit and returns the address.
    pub fn pr_edit(&mut self, pr_branch: &str, base_branch: &str) -> (r: String)
        ensures
            r@ == mock_pr_url(),
            final(self).edited_prs@.len() == old(self).edited_prs@.len() + 1,
            final(self).edited_prs@.drop_last() == old(self).edited_prs@,
            final(self).edited_prs@.last().0@ == pr_branch@,
            final(self).edited_prs@.last().1@ == base_branch@,
            *final(self) == (MockGithub { edited_prs: final(self).edited_prs, ..*old(self) }),
    {
        let ghost before = *self;
        self.edited_prs.push((String::from_str(pr_branch), String::from_str(base_branch)));
        assert(self.edited_prs@.drop_last() =~= before.edited_prs@);
        String::from_str("https://github.com/test/repo/pull/123")
    }

    /// The diff of the pull request for `pr_branch`; an error when the host
    /// holds none.
    pub fn pr_diff(&self, pr_branch: &str) -> (r: Result<String, JrError>)
        ensures
            r is Ok <==> lookup(self.pr_diffs@, pr_branch@) is Some,
            r is Ok ==> r->Ok_0@ == lookup(self.pr_diffs@, pr_branch@)->0,
            r is Err ==> (r->Err_0 matches JrError::PrDiffUnavailable { branch } && branch@ == pr_branch@),
    {
        match lookup_pairs(&self.pr_diffs, pr_branch) {
            Some(d) => Ok(d),
            None => Err(JrError::PrDiffUnavailable { branch: String::from_str(pr_branch) }),
        }
    }
}

} // verus!
