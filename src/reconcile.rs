//! The three mutating operations, decided from one change's gathered facts:
//! which new commit to build (its tree source, parents and message), which
//! branch to push it to, and what to do with the pull request.
use vstd::prelude::*;

use crate::commit::{diffs_match, CommitInfo, SyncStatus};
use crate::diff::{normalize, normalize_diff};
use crate::error::JrError;
use crate::git::{hash_of, CommitId};
use crate::jujutsu::full_message_of;

verus! {

/// What happens to the pull request once the commit is pushed.
#[derive(Clone, Debug)]
pub enum PrAction {
    /// Open a pull request from the PR branch into the base branch.
    Create { title: String, body: String },
    /// Point the existing pull request at the base branch.
    EditBase,
}

/// One reconciling write: build a commit with the tree of `source`, the
/// given parents and message, push it to `pr_branch`, then apply `pr`
/// against `base_branch`.
#[derive(Clone, Debug)]
pub struct ReconcilePlan {
    pub source: CommitId,
    pub parents: Vec<CommitId>,
    pub message: String,
    pub pr_branch: String,
    pub base_branch: String,
    pub pr: PrAction,
}

/// The hash texts of a list of commit ids.
pub open spec fn id_views(ps: Seq<CommitId>) -> Seq<Seq<char>> {
    ps.map_values(|p: CommitId| p.0@)
}

/// Two errors of the same kind carrying the same text.
pub open spec fn same_error(e: JrError, f: JrError) -> bool {
    match (e, f) {
        (JrError::BranchAlreadyExists { branch: a }, JrError::BranchAlreadyExists { branch: b }) => a@ == b@,
        (JrError::BaseBranchMissing { branch: a }, JrError::BaseBranchMissing { branch: b }) => a@ == b@,
        (JrError::PrBranchMissing { branch: a }, JrError::PrBranchMissing { branch: b }) => a@ == b@,
        (JrError::PrNotOpen { branch: a }, JrError::PrNotOpen { branch: b }) => a@ == b@,
        (JrError::PrDiffUnavailable { branch: a }, JrError::PrDiffUnavailable { branch: b }) => a@ == b@,
        (JrError::AlreadyMerged { commit_id: a }, JrError::AlreadyMerged { commit_id: b }) => a@ == b@,
        (JrError::ApiError { message: a }, JrError::ApiError { message: b }) => a@ == b@,
        (JrError::RequestFailed { status: s, body: a }, JrError::RequestFailed { status: t, body: b }) => s == t && a@ == b@,
        (JrError::NotGithubUrl { url: a }, JrError::NotGithubUrl { url: b }) => a@ == b@,
        _ => e == f,
    }
}

/// Why `create` refuses the change, if it does.
pub open spec fn create_refusal(c: CommitInfo) -> Option<JrError> {
    if c.pr_tip is Some {
        Some(JrError::BranchAlreadyExists { branch: c.pr_branch })
    } else if c.commit.message.title is None {
        Some(JrError::EmptyDescription)
    } else if c.base_tip is None {
        Some(JrError::BaseBranchMissing { branch: c.base_branch })
    } else {
        None
    }
}

/// Why `update` refuses the change, if it does. `pr_open` says whether the
/// PR branch has an open pull request.
pub open spec fn update_refusal(c: CommitInfo, pr_open: bool) -> Option<JrError> {
    if c.pr_tip is None {
        Some(JrError::PrBranchMissing { branch: c.pr_branch })
    } else if !pr_open {
        Some(JrError::PrNotOpen { branch: c.pr_branch })
    } else if c.pr_diff is None {
        Some(JrError::PrDiffUnavailable { branch: c.pr_branch })
    } else if diffs_match(c) {
        if c.pr_contains_base {
            Some(JrError::NoChanges)
        } else {
            Some(JrError::UnchangedUseRestack)
        }
    } else if !c.pr_contains_base && c.base_tip is None {
        Some(JrError::BaseBranchMissing { branch: c.base_branch })
    } else {
        None
    }
}

/// Why `restack` refuses the change, if it does.
pub open spec fn restack_refusal(c: CommitInfo, pr_open: bool) -> Option<JrError> {
    if c.pr_tip is None {
        Some(JrError::PrBranchMissing { branch: c.pr_branch })
    } else if !pr_open {
        Some(JrError::PrNotOpen { branch: c.pr_branch })
    } else if c.pr_diff is None {
        Some(JrError::PrDiffUnavailable { branch: c.pr_branch })
    } else if !diffs_match(c) {
        Some(JrError::HasLocalChanges)
    } else if c.pr_contains_base {
        Some(JrError::BaseUnchanged)
    } else if c.base_tip is None {
        Some(JrError::BaseBranchMissing { branch: c.base_branch })
    } else {
        None
    }
}

/// The message of every restack commit.
pub open spec fn merge_message() -> Seq<char> {
    "Merge"@
}

fn dup_id(c: &CommitId) -> (r: CommitId)
    ensures
        r.0@ == c.0@,
{
    CommitId(c.0.clone())
}

fn canonical_diffs_equal(c: &CommitInfo) -> (r: bool)
    requires
        c.pr_diff is Some,
    ensures
        r == diffs_match(*c),
{
    let local = normalize_diff(c.commit_diff.as_str());
    match &c.pr_diff {
        Some(d) => {
            let remote = normalize_diff(d.as_str());
            local == remote
        },
        None => false,
    }
}

impl CommitInfo {
    /// Plans `create`: a commit with the change's tree and the base tip as
    /// its only parent, carrying the full message, pushed to the new PR
    /// branch; then a pull request into the base branch titled by the first
    /// line of the message, with the rest (or nothing) as its body. Refused
    /// when the branch exists, the description is empty or the base branch
    /// has no tip, in that order.
    pub fn plan_create(&self) -> (r: Result<ReconcilePlan, JrError>)
        ensures
            r is Ok <==> create_refusal(*self) is None,
            r is Err ==> same_error(r->Err_0, create_refusal(*self)->0),
            r is Ok ==> {
                let p = r->Ok_0;
                &&& p.source.0@ == self.commit.commit_id.0@
                &&& id_views(p.parents@) == seq![hash_of(self.base_tip->0)]
                &&& p.message@ == full_message_of(self.commit.message)
                &&& p.pr_branch@ == self.pr_branch@
                &&& p.base_branch@ == self.base_branch@
                &&& p.pr matches PrAction::Create { title, body }
                &&& title@ == self.commit.message.title->0@
                &&& body@ == (match self.commit.message.body {
                    Some(b) => b@,
                    None => Seq::<char>::empty(),
                })
            },
    {
        if self.pr_tip.is_some() {
            return Err(JrError::BranchAlreadyExists { branch: self.pr_branch.clone() });
        }
        let title = match &self.commit.message.title {
            Some(t) => t.clone(),
            None => {
                return Err(JrError::EmptyDescription);
            },
        };
        let base_tip = match &self.base_tip {
            Some(b) => dup_id(b),
            None => {
                return Err(JrError::BaseBranchMissing { branch: self.base_branch.clone() });
            },
        };
        let body = match &self.commit.message.body {
            Some(b) => b.clone(),
            None => String::new(),
        };
        let mut parents: Vec<CommitId> = Vec::new();
        parents.push(base_tip);
        assert(id_views(parents@) =~= seq![hash_of(self.base_tip->0)]);
        Ok(ReconcilePlan {
            source: dup_id(&self.commit.commit_id),
            parents,
            message: self.full_message(),
            pr_branch: self.pr_branch.clone(),
            base_branch: self.base_branch.clone(),
            pr: PrAction::Create { title, body },
        })
    }

    /// Plans `update` with the given commit message: a commit with the
    /// change's tree whose parents are the old PR tip, plus the base tip when
    /// the PR lacks it, pushed to the PR branch; then the pull request is
    /// pointed at the base branch. Refused when there is no PR branch, no
    /// open pull request, no PR diff, nothing to do (content and base both
    /// unchanged, or only the base moved), or a needed base tip is missing.
    pub fn plan_update(&self, pr_open: bool, message: &str) -> (r: Result<ReconcilePlan, JrError>)
        ensures
            r is Ok <==> update_refusal(*self, pr_open) is None,
            r is Err ==> same_error(r->Err_0, update_refusal(*self, pr_open)->0),
            r is Ok ==> {
                let p = r->Ok_0;
                &&& p.source.0@ == self.commit.commit_id.0@
                &&& id_views(p.parents@) == (if self.pr_contains_base {
                    seq![hash_of(self.pr_tip->0)]
                } else {
                    seq![hash_of(self.pr_tip->0), hash_of(self.base_tip->0)]
                })
                &&& p.message@ == message@
                &&& p.pr_branch@ == self.pr_branch@
                &&& p.base_branch@ == self.base_branch@
                &&& p.pr is EditBase
            },
    {
        let pr_tip = match &self.pr_tip {
            Some(t) => dup_id(t),
            None => {
                return Err(JrError::PrBranchMissing { branch: self.pr_branch.clone() });
            },
        };
        if !pr_open {
            return Err(JrError::PrNotOpen { branch: self.pr_branch.clone() });
        }
        if self.pr_diff.is_none() {
            return Err(JrError::PrDiffUnavailable { branch: self.pr_branch.clone() });
        }
        if canonical_diffs_equal(self) {
            if self.pr_contains_base {
                return Err(JrError::NoChanges);
            } else {
                return Err(JrError::UnchangedUseRestack);
            }
        }
        let mut parents: Vec<CommitId> = Vec::new();
        parents.push(pr_tip);
        if !self.pr_contains_base {
            match &self.base_tip {
                Some(b) => {
                    parents.push(dup_id(b));
                },
                None => {
                    return Err(JrError::BaseBranchMissing { branch: self.base_branch.clone() });
                },
            }
        }
        assert(id_views(parents@) =~= (if self.pr_contains_base {
            seq![hash_of(self.pr_tip->0)]
        } else {
            seq![hash_of(self.pr_tip->0), hash_of(self.base_tip->0)]
        }));
        Ok(ReconcilePlan {
            source: dup_id(&self.commit.commit_id),
            parents,
            message: String::from_str(message),
            pr_branch: self.pr_branch.clone(),
            base_branch: self.base_branch.clone(),
            pr: PrAction::EditBase,
        })
    }

    /// Plans `restack`: a two-parent commit (old PR tip, then base tip) with
    /// the change's tree and the message `Merge`, pushed to the PR branch;
    /// then the pull request is pointed at the base branch. Refused when
    /// there is no PR branch, no open pull request, no PR diff, the content
    /// differs from the PR, the PR already contains the base tip, or the base
    /// tip is missing.
    pub fn plan_restack(&self, pr_open: bool) -> (r: Result<ReconcilePlan, JrError>)
        ensures
            r is Ok <==> restack_refusal(*self, pr_open) is None,
            r is Err ==> same_error(r->Err_0, restack_refusal(*self, pr_open)->0),
            r is Ok ==> {
                let p = r->Ok_0;
                &&& p.source.0@ == self.commit.commit_id.0@
                &&& id_views(p.parents@) == seq![hash_of(self.pr_tip->0), hash_of(self.base_tip->0)]
                &&& p.message@ == merge_message()
                &&& p.pr_branch@ == self.pr_branch@
                &&& p.base_branch@ == self.base_branch@
                &&& p.pr is EditBase
            },
    {
        let pr_tip = match &self.pr_tip {
            Some(t) => dup_id(t),
            None => {
                return Err(JrError::PrBranchMissing { branch: self.pr_branch.clone() });
            },
        };
        if !pr_open {
            return Err(JrError::PrNotOpen { branch: self.pr_branch.clone() });
        }
        if self.pr_diff.is_none() {
            return Err(JrError::PrDiffUnavailable { branch: self.pr_branch.clone() });
        }
        if !canonical_diffs_equal(self) {
            return Err(JrError::HasLocalChanges);
        }
        if self.pr_contains_base {
            return Err(JrError::BaseUnchanged);
        }
        let base_tip = match &self.base_tip {
            Some(b) => dup_id(b),
            None => {
                return Err(JrError::BaseBranchMissing { branch: self.base_branch.clone() });
            },
        };
        let mut parents: Vec<CommitId> = Vec::new();
        parents.push(pr_tip);
        parents.push(base_tip);
        assert(id_views(parents@) =~= seq![hash_of(self.pr_tip->0), hash_of(self.base_tip->0)]);
        Ok(ReconcilePlan {
            source: dup_id(&self.commit.commit_id),
            parents,
            message: String::from_str("Merge"),
            pr_branch: self.pr_branch.clone(),
            base_branch: self.base_branch.clone(),
            pr: PrAction::EditBase,
        })
    }
}

/// `p` is one of the parents of `c` in the commit graph `g` (which maps a
/// commit's hash to its parents' hashes).
pub open spec fn is_parent(g: Map<Seq<char>, Seq<Seq<char>>>, p: Seq<char>, c: Seq<char>) -> bool {
    g.contains_key(c) && g[c].contains(p)
}

/// `a` is reached from `b` by following at most `n` parent links.
pub open spec fn reaches(g: Map<Seq<char>, Seq<Seq<char>>>, a: Seq<char>, b: Seq<char>, n: nat) -> bool
    decreases n,
{
    a == b || (n > 0 && exists|p: Seq<char>| is_parent(g, p, b) && reaches(g, a, p, (n - 1) as nat))
}

/// `a` is an ancestor of `b` (or `b` itself) in `g`.
pub open spec fn is_ancestor_in(g: Map<Seq<char>, Seq<Seq<char>>>, a: Seq<char>, b: Seq<char>) -> bool {
    exists|n: nat| reaches(g, a, b, n)
}

/// The facts a fresh look at a change shows right after its restack commit
/// `new_tip` was pushed, in the commit graph `g` of that moment: the PR
/// branch points at `new_tip`, containment is asked of `g`, and the content
/// and everything else are as before.
pub open spec fn after_restack(c: CommitInfo, new_tip: CommitId, g: Map<Seq<char>, Seq<Seq<char>>>) -> CommitInfo {
    CommitInfo {
        pr_tip: Some(new_tip),
        pr_contains_base: is_ancestor_in(g, hash_of(c.base_tip->0), hash_of(new_tip)),
        ..c
    }
}

/// Restacking is idempotent: once a restack goes through and its commit
/// (with the parents it was planned with: old PR tip, then base tip) is the
/// PR tip, restacking again with no edit in between is refused because the
/// base has not changed.
pub proof fn lemma_restack_idempotent(c: CommitInfo, new_tip: CommitId, g: Map<Seq<char>, Seq<Seq<char>>>)
    requires
        restack_refusal(c, true) is None,
        g.contains_key(hash_of(new_tip)),
        g[hash_of(new_tip)] == seq![hash_of(c.pr_tip->0), hash_of(c.base_tip->0)],
    ensures
        restack_refusal(after_restack(c, new_tip, g), true) == Some(JrError::BaseUnchanged),
{
    let base = hash_of(c.base_tip->0);
    let tip = hash_of(new_tip);
    assert(g[tip][1] == base);
    assert(is_parent(g, base, tip));
    assert(reaches(g, base, base, 0));
    assert(reaches(g, base, tip, 1));
    assert(is_ancestor_in(g, base, tip));
}

/// The facts a fresh look at a change shows right after `create` pushed
/// `new_tip` and opened a pull request whose diff is `pr_diff`, in the commit
/// graph `g` of that moment.
pub open spec fn after_create(c: CommitInfo, new_tip: CommitId, pr_diff: String, g: Map<Seq<char>, Seq<Seq<char>>>) -> CommitInfo {
    CommitInfo {
        pr_tip: Some(new_tip),
        pr_diff: Some(pr_diff),
        pr_contains_base: is_ancestor_in(g, hash_of(c.base_tip->0), hash_of(new_tip)),
        ..c
    }
}

/// A created pull request is in sync: once `create` goes through, its commit
/// (whose one parent is the base tip) is the PR tip and the pull request
/// shows the change's content, the change reports `Synced` on its own.
pub proof fn lemma_created_pr_is_synced(c: CommitInfo, new_tip: CommitId, pr_diff: String, g: Map<Seq<char>, Seq<Seq<char>>>)
    requires
        create_refusal(c) is None,
        g.contains_key(hash_of(new_tip)),
        g[hash_of(new_tip)] == seq![hash_of(c.base_tip->0)],
        normalize(pr_diff@) == normalize(c.commit_diff@),
    ensures
        after_create(c, new_tip, pr_diff, g).base_status() == SyncStatus::Synced,
{
    let base = hash_of(c.base_tip->0);
    let tip = hash_of(new_tip);
    assert(g[tip][0] == base);
    assert(is_parent(g, base, tip));
    assert(reaches(g, base, base, 0));
    assert(reaches(g, base, tip, 1));
    assert(is_ancestor_in(g, base, tip));
}

/// A restacked pull request is in sync: once `restack` goes through and its
/// commit is the PR tip, the change reports `Synced` on its own.
pub proof fn lemma_restacked_pr_is_synced(c: CommitInfo, new_tip: CommitId, g: Map<Seq<char>, Seq<Seq<char>>>)
    requires
        restack_refusal(c, true) is None,
        g.contains_key(hash_of(new_tip)),
        g[hash_of(new_tip)] == seq![hash_of(c.pr_tip->0), hash_of(c.base_tip->0)],
    ensures
        after_restack(c, new_tip, g).base_status() == SyncStatus::Synced,
{
    lemma_restack_idempotent(c, new_tip, g);
}

/// With an open pull request, restacking goes through exactly for a change
/// whose own status is `Restack`.
pub proof fn lemma_restack_exactly_when_restack_status(c: CommitInfo)
    ensures
        restack_refusal(c, true) is None <==> c.base_status() == SyncStatus::Restack,
{
}

/// With an open pull request, updating goes through exactly for a change
/// whose own status is `Changed` (for records in which containment implies a
/// base tip, as `CommitInfo::new` builds them).
pub proof fn lemma_update_exactly_when_changed_status(c: CommitInfo)
    requires
        c.pr_contains_base ==> c.base_tip is Some,
    ensures
        update_refusal(c, true) is None <==> c.base_status() == SyncStatus::Changed,
{
}

} // verus!
