//! Gathering the facts about one change, as a state machine. The machine
//! names the next fact it needs (`next_request`); the caller fetches it from
//! the VCS, git or the host and hands it back (`answer`). Each answer either
//! moves the machine on or stops it with the error the facts call for. Once
//! done, `finish` yields the change's `CommitInfo`.
use vstd::prelude::*;

use crate::commit::{spec_branch_name, CommitInfo};
use crate::error::JrError;
use crate::git::{hash_of, CommitId};
use crate::jujutsu::{opt_view, JujutsuCommit};

verus! {

/// The fact that the machine waits for.
#[derive(Clone, Copy, Debug, PartialEq, Eq, Structural)]
pub enum Stage {
    /// The diff the change's commit introduces.
    Diff,
    /// Trunk's commit id.
    Trunk,
    /// Whether the change's commit is an ancestor of trunk.
    Merged,
    /// The tip of the change's PR branch.
    PrTip,
    /// The PR diff of that branch.
    PrDiff,
    /// The commit id of the parent change.
    Parent,
    /// Whether the parent's commit is an ancestor of trunk.
    ParentOnTrunk,
    /// The remote branches pointing at trunk.
    TrunkBranches,
    /// The tip of the base branch.
    BaseTip,
    /// Whether the base tip is an ancestor of the PR tip.
    Contains,
    /// All facts are in.
    Done,
    /// An answer stopped the machine.
    Failed,
}

/// What the caller must fetch next.
#[derive(Clone, Debug)]
pub enum EnrichRequest {
    /// The diff that `commit_id` introduces; answer `Text`.
    CommitDiff { commit_id: CommitId },
    /// Trunk's commit id; answer `Commit`.
    TrunkCommit,
    /// Whether `ancestor` is an ancestor of `descendant`; answer `Flag`.
    IsAncestor { ancestor: CommitId, descendant: CommitId },
    /// The remote tip of `branch`, if the branch exists; answer `Tip`.
    BranchTip { branch: String },
    /// The cumulative diff of the PR for `branch`, if it can be had; answer
    /// `MaybeText`.
    PrDiff { branch: String },
    /// The commit id of the change `change_id`; answer `Commit`.
    ChangeCommit { change_id: String },
    /// The remote branches pointing at `commit_id`; answer `Names`.
    RemoteBranches { commit_id: CommitId },
    /// Nothing more.
    Nothing,
}

/// A fetched fact.
#[derive(Clone, Debug)]
pub enum EnrichAnswer {
    Text(String),
    Commit(CommitId),
    Flag(bool),
    Tip(Option<CommitId>),
    MaybeText(Option<String>),
    Names(Vec<String>),
}

/// The state of the fact gathering for one change.
#[derive(Clone, Debug)]
pub struct Enricher {
    pub commit: JujutsuCommit,
    pub prefix: String,
    pub stage: Stage,
    pub commit_diff: String,
    pub trunk: CommitId,
    pub pr_branch: String,
    pub pr_tip: Option<CommitId>,
    pub pr_diff: Option<String>,
    pub parent: CommitId,
    pub base_branch: String,
    pub base_tip: Option<CommitId>,
    pub pr_contains_base: bool,
}

fn dup(c: &CommitId) -> (r: CommitId)
    ensures
        r.0@ == c.0@,
{
    CommitId(c.0.clone())
}

fn dup_opt(c: &Option<CommitId>) -> (r: Option<CommitId>)
    ensures
        r is Some <==> c is Some,
        r is Some ==> hash_of(r->0) == hash_of(c->0),
{
    match c {
        Some(x) => Some(dup(x)),
        None => None,
    }
}

impl Enricher {
    /// Starts gathering facts for `commit`, whose PR branch is named with
    /// `prefix`.
    pub fn new(commit: JujutsuCommit, prefix: &str) -> (r: Enricher)
        ensures
            r.commit == commit,
            r.prefix@ == prefix@,
            r.stage == Stage::Diff,
            r.pr_branch@ == spec_branch_name(commit.change_id@, prefix@),
            r.pr_tip is None,
            r.pr_diff is None,
            r.base_tip is None,
            !r.pr_contains_base,
    {
        let pr_branch = CommitInfo::branch_name(commit.change_id.as_str(), prefix);
        Enricher {
            commit,
            prefix: String::from_str(prefix),
            stage: Stage::Diff,
            commit_diff: String::new(),
            trunk: CommitId(String::new()),
            pr_branch,
            pr_tip: None,
            pr_diff: None,
            parent: CommitId(String::new()),
            base_branch: String::new(),
            base_tip: None,
            pr_contains_base: false,
        }
    }

    /// The fact to fetch next, as the stage calls for it.
    pub fn next_request(&self) -> (r: EnrichRequest)
        ensures
            match self.stage {
                Stage::Diff => r matches EnrichRequest::CommitDiff { commit_id } && commit_id.0@ == self.commit.commit_id.0@,
                Stage::Trunk => r is TrunkCommit,
                Stage::Merged => r matches EnrichRequest::IsAncestor { ancestor, descendant }
                    && ancestor.0@ == self.commit.commit_id.0@ && descendant.0@ == self.trunk.0@,
                Stage::PrTip => r matches EnrichRequest::BranchTip { branch } && branch@ == self.pr_branch@,
                Stage::PrDiff => r matches EnrichRequest::PrDiff { branch } && branch@ == self.pr_branch@,
                Stage::Parent => if self.commit.parent_change_ids.len() > 0 {
                    r matches EnrichRequest::ChangeCommit { change_id } && change_id@ == self.commit.parent_change_ids@[0]@
                } else {
                    r is Nothing
                },
                Stage::ParentOnTrunk => r matches EnrichRequest::IsAncestor { ancestor, descendant }
                    && ancestor.0@ == self.parent.0@ && descendant.0@ == self.trunk.0@,
                Stage::TrunkBranches => r matches EnrichRequest::RemoteBranches { commit_id } && commit_id.0@ == self.trunk.0@,
                Stage::BaseTip => r matches EnrichRequest::BranchTip { branch } && branch@ == self.base_branch@,
                Stage::Contains => if self.base_tip is Some && self.pr_tip is Some {
                    r matches EnrichRequest::IsAncestor { ancestor, descendant }
                        && ancestor.0@ == hash_of(self.base_tip->0) && descendant.0@ == hash_of(self.pr_tip->0)
                } else {
                    r is Nothing
                },
                _ => r is Nothing,
            },
    {
        match self.stage {
            Stage::Diff => EnrichRequest::CommitDiff { commit_id: dup(&self.commit.commit_id) },
            Stage::Trunk => EnrichRequest::TrunkCommit,
            Stage::Merged => EnrichRequest::IsAncestor {
                ancestor: dup(&self.commit.commit_id),
                descendant: dup(&self.trunk),
            },
            Stage::PrTip => EnrichRequest::BranchTip { branch: self.pr_branch.clone() },
            Stage::PrDiff => EnrichRequest::PrDiff { branch: self.pr_branch.clone() },
            Stage::Parent => {
                if self.commit.parent_change_ids.len() > 0 {
                    EnrichRequest::ChangeCommit { change_id: self.commit.parent_change_ids[0].clone() }
                } else {
                    EnrichRequest::Nothing
                }
            },
            Stage::ParentOnTrunk => EnrichRequest::IsAncestor {
                ancestor: dup(&self.parent),
                descendant: dup(&self.trunk),
            },
            Stage::TrunkBranches => EnrichRequest::RemoteBranches { commit_id: dup(&self.trunk) },
            Stage::BaseTip => EnrichRequest::BranchTip { branch: self.base_branch.clone() },
            Stage::Contains => match (&self.base_tip, &self.pr_tip) {
                (Some(b), Some(p)) => EnrichRequest::IsAncestor { ancestor: dup(b), descendant: dup(p) },
                _ => EnrichRequest::Nothing,
            },
            _ => EnrichRequest::Nothing,
        }
    }
}


impl Enricher {
    /// Takes the fact the stage waited for and moves on:
    /// - the diff, then trunk's commit id, are recorded;
    /// - a change whose commit is already on trunk stops the machine;
    /// - the PR tip and PR diff are recorded (absence included); a change
    ///   without a parent stops the machine;
    /// - the parent's commit id is recorded; a parent on trunk's history
    ///   makes the base the first remote branch at trunk (none stops the
    ///   machine), any other parent makes it the parent's own PR branch;
    /// - the base tip is recorded, and only where both tips exist is the
    ///   containment asked for; otherwise the PR does not contain the base.
    /// An answer of another kind than the stage waits for, or one given
    /// after the end, changes nothing and is refused.
    pub fn answer(&mut self, a: EnrichAnswer) -> (r: Result<(), JrError>)
        ensures
            ({
                let s = *old(self);
                let f = *final(self);
                match (s.stage, a) {
                    (Stage::Diff, EnrichAnswer::Text(d)) => r is Ok && f == Enricher { stage: Stage::Trunk, commit_diff: d, ..s },
                    (Stage::Trunk, EnrichAnswer::Commit(t)) => r is Ok && f == Enricher { stage: Stage::Merged, trunk: t, ..s },
                    (Stage::Merged, EnrichAnswer::Flag(b)) => if b {
                        r is Err && (r->Err_0 matches JrError::AlreadyMerged { commit_id } && commit_id@ == s.commit.commit_id.0@)
                            && f == Enricher { stage: Stage::Failed, ..s }
                    } else {
                        r is Ok && f == Enricher { stage: Stage::PrTip, ..s }
                    },
                    (Stage::PrTip, EnrichAnswer::Tip(o)) => r is Ok && f == Enricher { stage: Stage::PrDiff, pr_tip: o, ..s },
                    (Stage::PrDiff, EnrichAnswer::MaybeText(o)) => if s.commit.parent_change_ids.len() == 0 {
                        r is Err && r->Err_0 == JrError::TopologyInvalid && f == Enricher { stage: Stage::Failed, pr_diff: o, ..s }
                    } else {
                        r is Ok && f == Enricher { stage: Stage::Parent, pr_diff: o, ..s }
                    },
                    (Stage::Parent, EnrichAnswer::Commit(p)) => r is Ok && f == Enricher { stage: Stage::ParentOnTrunk, parent: p, ..s },
                    (Stage::ParentOnTrunk, EnrichAnswer::Flag(b)) => if b {
                        r is Ok && f == Enricher { stage: Stage::TrunkBranches, ..s }
                    } else if s.commit.parent_change_ids.len() == 0 {
                        r is Err && r->Err_0 == JrError::TopologyInvalid && f == Enricher { stage: Stage::Failed, ..s }
                    } else {
                        r is Ok && f == Enricher { stage: Stage::BaseTip, base_branch: f.base_branch, ..s }
                            && f.base_branch@ == spec_branch_name(s.commit.parent_change_ids@[0]@, s.prefix@)
                    },
                    (Stage::TrunkBranches, EnrichAnswer::Names(v)) => if v.len() == 0 {
                        r is Err && r->Err_0 == JrError::TrunkHasNoRemoteBranch && f == Enricher { stage: Stage::Failed, ..s }
                    } else {
                        r is Ok && f == Enricher { stage: Stage::BaseTip, base_branch: f.base_branch, ..s }
                            && f.base_branch@ == v@[0]@
                    },
                    (Stage::BaseTip, EnrichAnswer::Tip(o)) => r is Ok && f == Enricher {
                        stage: if o is Some && s.pr_tip is Some { Stage::Contains } else { Stage::Done },
                        base_tip: o,
                        ..s
                    },
                    (Stage::Contains, EnrichAnswer::Flag(b)) => r is Ok && f == Enricher { stage: Stage::Done, pr_contains_base: b, ..s },
                    _ => r is Err && r->Err_0 == JrError::UnexpectedAnswer && f == s,
                }
            }),
    {
        match (self.stage, a) {
            (Stage::Diff, EnrichAnswer::Text(d)) => {
                self.commit_diff = d;
                self.stage = Stage::Trunk;
                Ok(())
            },
            (Stage::Trunk, EnrichAnswer::Commit(t)) => {
                self.trunk = t;
                self.stage = Stage::Merged;
                Ok(())
            },
            (Stage::Merged, EnrichAnswer::Flag(b)) => {
                if b {
                    self.stage = Stage::Failed;
                    Err(JrError::AlreadyMerged { commit_id: self.commit.commit_id.0.clone() })
                } else {
                    self.stage = Stage::PrTip;
                    Ok(())
                }
            },
            (Stage::PrTip, EnrichAnswer::Tip(o)) => {
                self.pr_tip = o;
                self.stage = Stage::PrDiff;
                Ok(())
            },
            (Stage::PrDiff, EnrichAnswer::MaybeText(o)) => {
                self.pr_diff = o;
                if self.commit.parent_change_ids.len() == 0 {
                    self.stage = Stage::Failed;
                    Err(JrError::TopologyInvalid)
                } else {
                    self.stage = Stage::Parent;
                    Ok(())
                }
            },
            (Stage::Parent, EnrichAnswer::Commit(p)) => {
                self.parent = p;
                self.stage = Stage::ParentOnTrunk;
                Ok(())
            },
            (Stage::ParentOnTrunk, EnrichAnswer::Flag(b)) => {
                if b {
                    self.stage = Stage::TrunkBranches;
                    Ok(())
                } else if self.commit.parent_change_ids.len() == 0 {
                    self.stage = Stage::Failed;
                    Err(JrError::TopologyInvalid)
                } else {
                    self.base_branch = CommitInfo::branch_name(
                        self.commit.parent_change_ids[0].as_str(),
                        self.prefix.as_str(),
                    );
                    self.stage = Stage::BaseTip;
                    Ok(())
                }
            },
            (Stage::TrunkBranches, EnrichAnswer::Names(v)) => {
                if v.len() == 0 {
                    self.stage = Stage::Failed;
                    Err(JrError::TrunkHasNoRemoteBranch)
                } else {
                    self.base_branch = v[0].clone();
                    self.stage = Stage::BaseTip;
                    Ok(())
                }
            },
            (Stage::BaseTip, EnrichAnswer::Tip(o)) => {
                let both = o.is_some() && self.pr_tip.is_some();
                self.base_tip = o;
                self.stage = if both { Stage::Contains } else { Stage::Done };
                Ok(())
            },
            (Stage::Contains, EnrichAnswer::Flag(b)) => {
                self.pr_contains_base = b;
                self.stage = Stage::Done;
                Ok(())
            },
            _ => Err(JrError::UnexpectedAnswer),
        }
    }

    /// The gathered facts as a `CommitInfo`, once every fact is in.
    pub fn finish(self) -> (r: Option<CommitInfo>)
        ensures
            r is Some <==> self.stage == Stage::Done,
            r is Some ==> {
                let c = r->0;
                &&& c.commit == self.commit
                &&& c.commit_diff@ == self.commit_diff@
                &&& c.pr_branch@ == spec_branch_name(self.commit.change_id@, self.prefix@)
                &&& c.pr_tip == self.pr_tip
                &&& opt_view(c.pr_diff) == opt_view(self.pr_diff)
                &&& c.base_branch@ == self.base_branch@
                &&& c.base_tip == self.base_tip
                &&& c.pr_contains_base == (self.pr_contains_base && self.pr_tip is Some && self.base_tip is Some)
            },
    {
        if self.stage != Stage::Done {
            return None;
        }
        let prefix = self.prefix;
        Some(CommitInfo::new(
            self.commit,
            prefix.as_str(),
            self.commit_diff,
            self.pr_tip,
            self.pr_diff,
            self.base_branch,
            self.base_tip,
            self.pr_contains_base,
        ))
    }
}

} // verus!
