//! The stack: a chain of changes from a tip down to trunk, its validation,
//! and the statuses of all its changes with propagation toward the tip.
use vstd::prelude::*;

use crate::commit::{diffs_match, CommitInfo, SyncStatus};
use crate::diff::normalize;
use crate::error::JrError;
use crate::jujutsu::JujutsuCommit;

verus! {

/// The stand-alone status of each change, in the order given (newest first).
pub open spec fn base_statuses(infos: Seq<CommitInfo>) -> Seq<SyncStatus> {
    Seq::new(infos.len(), |i: int| infos[i].base_status())
}

/// Some change older than position `i` (closer to trunk) is not `Synced`.
pub open spec fn unsynced_below(bs: Seq<SyncStatus>, i: int) -> bool {
    exists|j: int| i < j < bs.len() && bs[j] != SyncStatus::Synced
}

/// A change that would be `Synced` on its own reads `Restack` while an older
/// change is not `Synced`; every other status stays.
pub open spec fn propagate(bs: Seq<SyncStatus>) -> Seq<SyncStatus> {
    Seq::new(
        bs.len(),
        |i: int|
            if bs[i] == SyncStatus::Synced && unsynced_below(bs, i) {
                SyncStatus::Restack
            } else {
                bs[i]
            },
    )
}

/// The reported status of each change of a stack given newest first.
pub open spec fn stack_statuses(infos: Seq<CommitInfo>) -> Seq<SyncStatus> {
    propagate(base_statuses(infos))
}

/// The statuses of a stack given newest first (tip to trunk), in the same
/// order. Each change gets its own status, except that one that would be
/// `Synced` reads `Restack` while any older change is not `Synced`.
pub fn sync_statuses(infos: &Vec<CommitInfo>) -> (r: Vec<SyncStatus>)
    ensures
        r@ == stack_statuses(infos@),
{
    let ghost bs = base_statuses(infos@);
    let n = infos.len();
    let mut oldest_first: Vec<SyncStatus> = Vec::new();
    let mut restack = false;
    let mut k: usize = 0;
    while k < n
        invariant
            n == infos.len(),
            bs == base_statuses(infos@),
            k <= n,
            oldest_first.len() == k,
            forall|t: int| 0 <= t < k ==> oldest_first@[t] == propagate(bs)[n - 1 - t],
            restack == (exists|j: int| n - k <= j < n && bs[j] != SyncStatus::Synced),
        decreases n - k,
    {
        let i = n - 1 - k;
        let s = infos[i].status();
        assert(s == bs[i as int]);
        let reported = match s {
            SyncStatus::Synced => {
                if restack {
                    SyncStatus::Restack
                } else {
                    SyncStatus::Synced
                }
            },
            _ => s,
        };
        assert(unsynced_below(bs, i as int) == restack) by {
            if restack {
                let j = choose|j: int| n - k <= j < n && bs[j] != SyncStatus::Synced;
                assert(i < j < bs.len() && bs[j] != SyncStatus::Synced);
            }
        }
        assert(reported == propagate(bs)[i as int]);
        oldest_first.push(reported);
        if s != SyncStatus::Synced {
            restack = true;
        }
        k = k + 1;
        assert(restack == (exists|j: int| n - k <= j < n && bs[j] != SyncStatus::Synced)) by {
            if s != SyncStatus::Synced {
                assert(bs[i as int] != SyncStatus::Synced);
            }
        }
    }
    let mut r: Vec<SyncStatus> = Vec::new();
    let mut t: usize = 0;
    while t < n
        invariant
            n == oldest_first.len(),
            t <= n,
            r.len() == t,
            forall|u: int| 0 <= u < n ==> oldest_first@[u] == propagate(bs)[n - 1 - u],
            forall|u: int| 0 <= u < t ==> r@[u] == propagate(bs)[u],
        decreases n - t,
    {
        r.push(oldest_first[n - 1 - t]);
        t = t + 1;
    }
    assert(r@ =~= stack_statuses(infos@));
    r
}

/// The error that a non-synced ancestor raises before a write.
pub open spec fn staleness_error(s: SyncStatus) -> JrError {
    match s {
        SyncStatus::Unknown => JrError::ParentHasNoPr,
        SyncStatus::Changed => JrError::ParentOutOfDate,
        _ => JrError::ParentNeedsRestack,
    }
}

/// Position `j` holds the oldest status that is not `Synced`.
pub open spec fn oldest_unsynced(ss: Seq<SyncStatus>, j: int) -> bool {
    &&& 0 <= j < ss.len()
    &&& ss[j] != SyncStatus::Synced
    &&& forall|k: int| j < k < ss.len() ==> ss[k] == SyncStatus::Synced
}

pub open spec fn all_synced(ss: Seq<SyncStatus>) -> bool {
    forall|k: int| 0 <= k < ss.len() ==> ss[k] == SyncStatus::Synced
}

/// The check before a write: succeeds when every status (newest first) is `Synced`,
/// else fails for the oldest status that is not, naming its remedy.
pub fn check_statuses_synced(ss: &Vec<SyncStatus>) -> (r: Result<(), JrError>)
    ensures
        r is Ok <==> all_synced(ss@),
        r is Err ==> exists|j: int| oldest_unsynced(ss@, j) && r->Err_0 == staleness_error(ss@[j]),
{
    let n = ss.len();
    let mut k: usize = 0;
    while k < n
        invariant
            n == ss.len(),
            k <= n,
            forall|u: int| n - k <= u < n ==> ss@[u] == SyncStatus::Synced,
        decreases n - k,
    {
        let i = n - 1 - k;
        match ss[i] {
            SyncStatus::Unknown => {
                assert(oldest_unsynced(ss@, i as int));
                return Err(JrError::ParentHasNoPr);
            },
            SyncStatus::Restack => {
                assert(oldest_unsynced(ss@, i as int));
                return Err(JrError::ParentNeedsRestack);
            },
            SyncStatus::Changed => {
                assert(oldest_unsynced(ss@, i as int));
                return Err(JrError::ParentOutOfDate);
            },
            SyncStatus::Synced => {},
        }
        k = k + 1;
    }
    Ok(())
}

/// The check run before any write: the ancestors of the target change (newest
/// first, target excluded) must all report `Synced` once propagation is
/// applied; otherwise the oldest one that does not decides the error.
pub fn check_parent_prs_up_to_date(ancestors: &Vec<CommitInfo>) -> (r: Result<(), JrError>)
    ensures
        r is Ok <==> all_synced(stack_statuses(ancestors@)),
        r is Err ==> exists|j: int|
            oldest_unsynced(stack_statuses(ancestors@), j) && r->Err_0 == staleness_error(
                stack_statuses(ancestors@)[j],
            ),
{
    let statuses = sync_statuses(ancestors);
    check_statuses_synced(&statuses)
}

/// A change without a resolvable PR branch tip reports `Unknown`.
pub proof fn lemma_no_pr_tip_is_unknown(infos: Seq<CommitInfo>, i: int)
    requires
        0 <= i < infos.len(),
        infos[i].pr_tip is None,
    ensures
        stack_statuses(infos)[i] == SyncStatus::Unknown,
{
}

/// A change with a PR tip and a base tip whose canonical diff differs from
/// the PR's canonical diff reports `Changed`.
pub proof fn lemma_diff_mismatch_is_changed(infos: Seq<CommitInfo>, i: int)
    requires
        0 <= i < infos.len(),
        infos[i].pr_tip is Some,
        infos[i].base_tip is Some,
        infos[i].pr_diff is Some,
        normalize(infos[i].commit_diff@) != normalize(infos[i].pr_diff->0@),
    ensures
        stack_statuses(infos)[i] == SyncStatus::Changed,
{
}

/// A change whose diffs match but whose PR lacks the current base tip reports
/// `Restack`.
pub proof fn lemma_stale_base_is_restack(infos: Seq<CommitInfo>, i: int)
    requires
        0 <= i < infos.len(),
        infos[i].pr_tip is Some,
        infos[i].base_tip is Some,
        diffs_match(infos[i]),
        !infos[i].pr_contains_base,
    ensures
        stack_statuses(infos)[i] == SyncStatus::Restack,
{
}

/// No change reports `Synced` while an older change (closer to trunk) reports
/// anything else.
pub proof fn lemma_unsynced_ancestor_blocks_synced(infos: Seq<CommitInfo>, i: int, j: int)
    requires
        0 <= i < j < infos.len(),
        stack_statuses(infos)[j] != SyncStatus::Synced,
    ensures
        stack_statuses(infos)[i] != SyncStatus::Synced,
{
    let bs = base_statuses(infos);
    if bs[j] != SyncStatus::Synced {
        assert(unsynced_below(bs, i));
    } else {
        assert(unsynced_below(bs, j));
        let k = choose|k: int| j < k < bs.len() && bs[k] != SyncStatus::Synced;
        assert(unsynced_below(bs, i));
    }
}

/// `ids` holds `id`.
pub open spec fn holds_id(ids: Seq<String>, id: Seq<char>) -> bool {
    exists|k: int| 0 <= k < ids.len() && ids[k]@ == id
}

pub(crate) fn contains_id(ids: &Vec<String>, id: &String) -> (r: bool)
    ensures
        r == holds_id(ids@, id@),
{
    let mut k: usize = 0;
    while k < ids.len()
        invariant
            k <= ids.len(),
            forall|u: int| 0 <= u < k ==> ids@[u]@ != id@,
        decreases ids.len() - k,
    {
        if ids[k] == *id {
            return true;
        }
        k = k + 1;
    }
    false
}

/// Each change's parents hold the next (older) change, and the oldest
/// change's parents hold trunk's change id unless the VCS reported that
/// parent to be on trunk's history.
pub open spec fn valid_chain(commits: Seq<JujutsuCommit>, trunk_change_id: Seq<char>, last_parent_on_trunk: bool) -> bool {
    &&& forall|i: int|
        0 <= i < commits.len() - 1 ==> holds_id(#[trigger] commits[i].parent_change_ids@, commits[i + 1].change_id@)
    &&& commits.len() > 0 ==> (holds_id(commits.last().parent_change_ids@, trunk_change_id)
        || last_parent_on_trunk)
}

/// Each gathered record belongs to the change at the same position.
pub open spec fn facts_match(commits: Seq<JujutsuCommit>, infos: Seq<CommitInfo>) -> bool {
    &&& infos.len() == commits.len()
    &&& forall|k: int| 0 <= k < infos.len() ==> #[trigger] infos[k].commit.change_id@ == commits[k].change_id@
}

/// A chain of changes ordered from child to parent (newest to oldest).
#[derive(Clone, Debug)]
pub struct Stack {
    pub commits: Vec<JujutsuCommit>,
}

impl Stack {
    /// Validates the chain: every change's parents hold the change after it,
    /// and the last change's parents hold trunk's change id (or the VCS
    /// reported, in `last_parent_on_trunk`, that its parent is on trunk's
    /// history). Anything else is an invalid topology.
    pub fn new(commits: Vec<JujutsuCommit>, trunk_change_id: &String, last_parent_on_trunk: bool) -> (r: Result<Stack, JrError>)
        ensures
            r is Ok <==> valid_chain(commits@, trunk_change_id@, last_parent_on_trunk),
            r is Ok ==> r->Ok_0.commits@ == commits@,
            r is Err ==> r->Err_0 == JrError::TopologyInvalid,
    {
        let n = commits.len();
        let mut i: usize = 0;
        while i < n
            invariant
                n == commits.len(),
                i <= n,
                forall|u: int| 0 <= u < i && u < n - 1 ==> holds_id(#[trigger] commits@[u].parent_change_ids@, commits@[u + 1].change_id@),
                i == n && n > 0 ==> (holds_id(commits@[n - 1].parent_change_ids@, trunk_change_id@) || last_parent_on_trunk),
            decreases n - i,
        {
            let ok = if i == n - 1 {
                contains_id(&commits[i].parent_change_ids, trunk_change_id) || last_parent_on_trunk
            } else {
                contains_id(&commits[i].parent_change_ids, &commits[i + 1].change_id)
            };
            if !ok {
                return Err(JrError::TopologyInvalid);
            }
            i = i + 1;
        }
        Ok(Stack { commits })
    }

    /// The reported status of every change of the stack, newest first, from
    /// the facts gathered for each; `None` unless `infos[i]` is about
    /// `commits[i]` (the same change id) for every position.
    pub fn sync_statuses(&self, infos: &Vec<CommitInfo>) -> (r: Option<Vec<SyncStatus>>)
        ensures
            r is Some <==> facts_match(self.commits@, infos@),
            r is Some ==> r->0@ == stack_statuses(infos@),
    {
        if infos.len() != self.commits.len() {
            return None;
        }
        let mut i: usize = 0;
        while i < infos.len()
            invariant
                infos.len() == self.commits.len(),
                i <= infos.len(),
                forall|k: int| 0 <= k < i ==> #[trigger] infos@[k].commit.change_id@ == self.commits@[k].change_id@,
            decreases infos.len() - i,
        {
            if infos[i].commit.change_id != self.commits[i].change_id {
                return None;
            }
            i = i + 1;
        }
        Some(sync_statuses(infos))
    }
}

} // verus!
