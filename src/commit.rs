//! One change enriched with the facts about its remote counterpart, and the
//! per-change synchronization rule.
use vstd::prelude::*;

use crate::diff::{normalize, normalize_diff};
use crate::git::CommitId;
use crate::jujutsu::{full_message_of, opt_view, JujutsuCommit, JujutsuCommitMessage};
use crate::text::{chars_of, string_of_range};

verus! {

/// Number of leading characters of a change id used in branch names.
pub const GITHUB_CHANGE_ID_LENGTH: usize = 8;

/// Number of leading characters of a change id shown to the user.
pub const SHORT_ID_LENGTH: usize = 4;

/// How a change stands against its pull request.
#[derive(Clone, Copy, Debug, PartialEq, Eq, Structural)]
pub enum SyncStatus {
    /// No usable remote state: no PR branch, no base branch, or no PR diff.
    Unknown,
    /// Content unchanged from the PR, but the PR lacks the current base tip.
    Restack,
    /// Content differs from the PR; the base may or may not be stale.
    Changed,
    /// Content matches the PR and the PR contains the current base tip.
    Synced,
}

impl SyncStatus {
    /// The one-character mark shown for the status.
    pub open spec fn spec_symbol(self) -> Seq<char> {
        match self {
            SyncStatus::Unknown => "?"@,
            SyncStatus::Restack => "\u{21bb}"@,
            SyncStatus::Changed => "\u{2717}"@,
            SyncStatus::Synced => "\u{2713}"@,
        }
    }

    /// The one-character mark shown for the status.
    pub fn symbol(&self) -> (r: String)
        ensures
            r@ == self.spec_symbol(),
    {
        match self {
            SyncStatus::Unknown => String::from_str("?"),
            SyncStatus::Restack => String::from_str("\u{21bb}"),
            SyncStatus::Changed => String::from_str("\u{2717}"),
            SyncStatus::Synced => String::from_str("\u{2713}"),
        }
    }
}

/// The first `n` characters of `s` (all of it when shorter).
pub open spec fn prefix_chars(s: Seq<char>, n: nat) -> Seq<char> {
    if s.len() <= n {
        s
    } else {
        s.take(n as int)
    }
}

/// The remote branch name of a change: the prefix, then the first eight
/// characters of the change id.
pub open spec fn spec_branch_name(change_id: Seq<char>, prefix: Seq<char>) -> Seq<char> {
    prefix + prefix_chars(change_id, GITHUB_CHANGE_ID_LENGTH as nat)
}

fn leading_chars(s: &str, n: usize) -> (r: String)
    ensures
        r@ == prefix_chars(s@, n as nat),
{
    let cs = chars_of(s);
    let k = if cs.len() < n { cs.len() } else { n };
    let r = string_of_range(&cs, 0, k);
    assert(cs@.subrange(0, k as int) =~= prefix_chars(s@, n as nat));
    r
}

/// An elaborated change: the facts that decide its synchronization status.
#[derive(Clone, Debug)]
pub struct CommitInfo {
    pub commit: JujutsuCommit,
    /// The diff that the change introduces.
    pub commit_diff: String,
    /// Its canonical form.
    pub commit_diff_norm: String,
    /// The name of the change's PR branch, e.g. `prefix/klmnopqr`.
    pub pr_branch: String,
    /// The tip of the remote PR branch, if it exists.
    pub pr_tip: Option<CommitId>,
    /// The PR's cumulative diff, if it could be obtained.
    pub pr_diff: Option<String>,
    /// Its canonical form.
    pub pr_diff_norm: Option<String>,
    /// The parent's PR branch, or trunk's remote branch.
    pub base_branch: String,
    /// The tip of the remote base branch, if it exists.
    pub base_tip: Option<CommitId>,
    /// Whether the base tip is an ancestor of the PR tip.
    pub pr_contains_base: bool,
}

/// Whether the change's canonical diff equals the PR's canonical diff (false
/// when the PR diff is absent).
pub open spec fn diffs_match(c: CommitInfo) -> bool {
    match c.pr_diff {
        Some(d) => normalize(c.commit_diff@) == normalize(d@),
        None => false,
    }
}

impl CommitInfo {
    /// The status of this change on its own, before the stack is considered.
    pub open spec fn base_status(self) -> SyncStatus {
        if self.pr_tip is None {
            SyncStatus::Unknown
        } else if self.base_tip is None {
            SyncStatus::Unknown
        } else if self.pr_diff is None {
            SyncStatus::Unknown
        } else if !diffs_match(self) {
            SyncStatus::Changed
        } else if !self.pr_contains_base {
            SyncStatus::Restack
        } else {
            SyncStatus::Synced
        }
    }

    /// Collects the gathered facts about `commit` into one record. The PR
    /// branch is named from the change id and `prefix`; the canonical diffs
    /// are computed here; `pr_contains_base` only holds where both tips
    /// exist.
    pub fn new(
        commit: JujutsuCommit,
        prefix: &str,
        commit_diff: String,
        pr_tip: Option<CommitId>,
        pr_diff: Option<String>,
        base_branch: String,
        base_tip: Option<CommitId>,
        pr_contains_base: bool,
    ) -> (r: CommitInfo)
        ensures
            r.commit == commit,
            r.commit_diff@ == commit_diff@,
            r.commit_diff_norm@ == normalize(commit_diff@),
            r.pr_branch@ == spec_branch_name(commit.change_id@, prefix@),
            r.pr_tip == pr_tip,
            opt_view(r.pr_diff) == opt_view(pr_diff),
            r.pr_diff_norm is Some <==> pr_diff is Some,
            pr_diff is Some ==> r.pr_diff_norm->0@ == normalize(pr_diff->0@),
            r.base_branch@ == base_branch@,
            r.base_tip == base_tip,
            r.pr_contains_base == (pr_contains_base && pr_tip is Some && base_tip is Some),
    {
        let commit_diff_norm = normalize_diff(commit_diff.as_str());
        let pr_branch = CommitInfo::branch_name(commit.change_id.as_str(), prefix);
        let pr_diff_norm = match &pr_diff {
            Some(d) => Some(normalize_diff(d.as_str())),
            None => None,
        };
        let contains = pr_contains_base && pr_tip.is_some() && base_tip.is_some();
        CommitInfo {
            commit,
            commit_diff,
            commit_diff_norm,
            pr_branch,
            pr_tip,
            pr_diff,
            pr_diff_norm,
            base_branch,
            base_tip,
            pr_contains_base: contains,
        }
    }

    /// The status of this change on its own: `Unknown` without a PR tip, a
    /// base tip or a PR diff; else `Changed` when the canonical diffs differ;
    /// else `Restack` when the PR lacks the base tip; else `Synced`.
    pub fn status(&self) -> (r: SyncStatus)
        ensures
            r == self.base_status(),
    {
        if self.pr_tip.is_none() {
            return SyncStatus::Unknown;
        }
        if self.base_tip.is_none() {
            return SyncStatus::Unknown;
        }
        let pr_diff = match &self.pr_diff {
            Some(d) => d,
            None => {
                return SyncStatus::Unknown;
            },
        };
        let commit_diff_norm = normalize_diff(self.commit_diff.as_str());
        let pr_diff_norm = normalize_diff(pr_diff.as_str());
        if commit_diff_norm != pr_diff_norm {
            return SyncStatus::Changed;
        }
        if !self.pr_contains_base {
            return SyncStatus::Restack;
        }
        SyncStatus::Synced
    }

    /// The remote branch name for a change: `prefix` followed by the first
    /// eight characters of `change_id` (all of it when shorter).
    pub fn branch_name(change_id: &str, prefix: &str) -> (r: String)
        ensures
            r@ == spec_branch_name(change_id@, prefix@),
    {
        let head = leading_chars(change_id, GITHUB_CHANGE_ID_LENGTH);
        String::from_str(prefix).concat(head.as_str())
    }

    /// A copy of the change's message.
    pub fn message(&self) -> (r: JujutsuCommitMessage)
        ensures
            opt_view(r.title) == opt_view(self.commit.message.title),
            opt_view(r.body) == opt_view(self.commit.message.body),
    {
        self.commit.message.duplicate()
    }

    /// The change's full message (title, blank line, body).
    pub fn full_message(&self) -> (r: String)
        ensures
            r@ == full_message_of(self.commit.message),
    {
        self.commit.full_message()
    }

    /// The first four characters of the change id.
    pub fn short_id(&self) -> (r: String)
        ensures
            r@ == prefix_chars(self.commit.change_id@, SHORT_ID_LENGTH as nat),
    {
        leading_chars(self.commit.change_id.as_str(), SHORT_ID_LENGTH)
    }
}

} // verus!
