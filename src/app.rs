//! The pieces one invocation works with, and the decisions of the read-only
//! status listing.
use vstd::prelude::*;

use crate::commit::{CommitInfo, SyncStatus};
use crate::config::Config;
use crate::git::GitClient;
use crate::github::GithubClient;
use crate::jujutsu::JujutsuClient;
use crate::text::{trim_end, trim_end_str};

verus! {

/// The configuration and the three collaborators of one invocation.
#[derive(Clone, Debug)]
pub struct App {
    pub config: Config,
    pub gh: GithubClient,
    pub jj: JujutsuClient,
    pub git: GitClient,
}

impl App {
    /// An invocation in the working copy at `path`.
    pub fn new(config: Config, gh: GithubClient, path: String) -> (r: App)
        ensures
            r.config == config,
            r.gh == gh,
            r.jj.path@ == path@,
            r.git.path@ == path@,
    {
        let jj = JujutsuClient::new(path.clone());
        App { config, gh, jj, git: GitClient::new(path) }
    }
}

/// Where the status listing takes its stack from.
#[derive(Clone, Debug)]
pub enum StackStart {
    /// The working copy is on trunk: the stack is empty.
    OnTrunk,
    /// One stack head: the stack runs from that commit down to trunk.
    Head { commit_id: String },
    /// Several heads: warn, and take the stack from the working copy.
    Ambiguous,
}

/// Picks the stack to list from the stack heads (`(change_id, commit_id)`
/// pairs) reachable from the working copy.
pub fn stack_start(heads: &Vec<(String, String)>) -> (r: StackStart)
    ensures
        heads.len() == 0 ==> r is OnTrunk,
        heads.len() == 1 ==> (r matches StackStart::Head { commit_id } && commit_id@ == heads@[0].1@),
        heads.len() > 1 ==> r is Ambiguous,
{
    if heads.len() == 0 {
        StackStart::OnTrunk
    } else if heads.len() == 1 {
        StackStart::Head { commit_id: heads[0].1.clone() }
    } else {
        StackStart::Ambiguous
    }
}

/// One line of the listing: the status mark, the short change id and the
/// title, separated by spaces, without trailing whitespace.
pub open spec fn spec_status_line(status: SyncStatus, short_id: Seq<char>, title: Seq<char>) -> Seq<char> {
    trim_end(status.spec_symbol() + " "@ + short_id + " "@ + title)
}

/// One line of the listing for a change (its title is empty when it has
/// none).
pub fn status_line(status: SyncStatus, info: &CommitInfo) -> (r: String)
    ensures
        r@ == spec_status_line(
            status,
            crate::commit::prefix_chars(info.commit.change_id@, crate::commit::SHORT_ID_LENGTH as nat),
            match info.commit.message.title {
                Some(t) => t@,
                None => Seq::<char>::empty(),
            },
        ),
{
    let id = info.short_id();
    let title: &str = match &info.commit.message.title {
        Some(t) => t.as_str(),
        None => "",
    };
    proof {
        reveal_strlit("");
    }
    let line = status.symbol().concat(" ").concat(id.as_str()).concat(" ").concat(title);
    trim_end_str(line.as_str())
}

} // verus!
