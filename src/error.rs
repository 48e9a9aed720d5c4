//! The failures that the engine reports.
use vstd::prelude::*;

use crate::text::{decimal, decimal_string};

verus! {

/// Why an operation stopped. Each value reads as one message (see
/// [`JrError::message`]).
#[derive(Clone, Debug)]
pub enum JrError {
    /// The stack is not a single parent chain down to trunk.
    TopologyInvalid,
    /// The change's commit is already an ancestor of trunk.
    AlreadyMerged { commit_id: String },
    /// Trunk's commit carries no remote branch.
    TrunkHasNoRemoteBranch,
    /// An ancestor change has no pull request branch yet.
    ParentHasNoPr,
    /// An ancestor change's pull request must be restacked first.
    ParentNeedsRestack,
    /// An ancestor change's pull request no longer matches its content.
    ParentOutOfDate,
    /// Creating: the change's remote branch exists already.
    BranchAlreadyExists { branch: String },
    /// Creating: the change has no description to title the pull request.
    EmptyDescription,
    /// The base branch has no remote tip.
    BaseBranchMissing { branch: String },
    /// Updating or restacking: the change has no remote branch.
    PrBranchMissing { branch: String },
    /// Updating or restacking: no open pull request for the branch.
    PrNotOpen { branch: String },
    /// Updating or restacking: the pull request's diff could not be obtained.
    PrDiffUnavailable { branch: String },
    /// Updating: neither the content nor the base moved.
    NoChanges,
    /// Updating: the content is unchanged but the base moved.
    UnchangedUseRestack,
    /// Restacking: the content differs from the pull request.
    HasLocalChanges,
    /// Restacking: the pull request already contains the base tip.
    BaseUnchanged,
    /// A tool printed something other than the expected fields.
    UnexpectedOutput { parts: usize },
    /// The remote host answered with an error message.
    ApiError { message: String },
    /// The remote host answered with a failing status and no readable message.
    RequestFailed { status: u16, body: String },
    /// The `origin` remote is not a GitHub repository.
    NotGithubUrl { url: String },
    /// A fact handed to the fact gathering was not the one it waited for.
    UnexpectedAnswer,
    /// The GitHub remote address names no repository.
    MissingRepo,
}

impl JrError {
    /// The message shown to the user.
    pub open spec fn spec_message(&self) -> Seq<char> {
        match self {
            JrError::TopologyInvalid => "Branch topology invalid: each change in the stack must have the next change, or trunk, as its single parent."@,
            JrError::AlreadyMerged { commit_id } => "Commit "@ + commit_id@ + " is an ancestor of trunk; this commit is already merged."@,
            JrError::TrunkHasNoRemoteBranch => "Trunk has no remote branch. Push trunk to remote first."@,
            JrError::ParentHasNoPr => "Parent commit has no PR branch. Create parent PR first (bottom-up)."@,
            JrError::ParentNeedsRestack => "Cannot update PR: parent PR needs restacking. Its base branch has been updated. Run 'jr restack' on the parent first."@,
            JrError::ParentOutOfDate => "Cannot update PR: parent PR is out of date. Update parent PRs first (starting from the bottom of the stack)."@,
            JrError::BranchAlreadyExists { branch } => "PR branch already exists: "@ + branch@,
            JrError::EmptyDescription => "Cannot create PR with empty description"@,
            JrError::BaseBranchMissing { branch } => "Base branch "@ + branch@ + " does not exist on the remote."@,
            JrError::PrBranchMissing { branch } => "PR branch "@ + branch@ + " does not exist. Use 'jr create' to create a new PR."@,
            JrError::PrNotOpen { branch } => "No open PR found for branch "@ + branch@ + ". The PR may have been closed or merged."@,
            JrError::PrDiffUnavailable { branch } => "Could not get the diff of the PR for branch "@ + branch@ + "."@,
            JrError::NoChanges => "No changes detected"@,
            JrError::UnchangedUseRestack => "Commit unchanged; use 'jr restack' instead"@,
            JrError::HasLocalChanges => "Cannot restack: commit has local changes.\nUse 'jr update -m \"<message>\"' to update with your changes."@,
            JrError::BaseUnchanged => "Base hasn't changed; no need to restack"@,
            JrError::UnexpectedOutput { parts } => "Unexpected jj output format: expected 4 parts, got "@ + decimal(*parts as nat),
            JrError::ApiError { message } => "GitHub API error: "@ + message@,
            JrError::RequestFailed { status, body } => "GitHub API request failed with status "@ + decimal(*status as nat) + ": "@ + body@,
            JrError::NotGithubUrl { url } => "Remote URL is not a GitHub URL: "@ + url@,
            JrError::UnexpectedAnswer => "Internal error: a fetched fact did not match the request."@,
            JrError::MissingRepo => "Could not parse repo from GitHub URL"@,
        }
    }

    /// The message shown to the user.
    pub fn message(&self) -> (r: String)
        ensures
            r@ == self.spec_message(),
    {
        match self {
            JrError::TopologyInvalid => String::from_str("Branch topology invalid: each change in the stack must have the next change, or trunk, as its single parent."),
            JrError::AlreadyMerged { commit_id } => String::from_str("Commit ").concat(commit_id.as_str()).concat(" is an ancestor of trunk; this commit is already merged."),
            JrError::TrunkHasNoRemoteBranch => String::from_str("Trunk has no remote branch. Push trunk to remote first."),
            JrError::ParentHasNoPr => String::from_str("Parent commit has no PR branch. Create parent PR first (bottom-up)."),
            JrError::ParentNeedsRestack => String::from_str("Cannot update PR: parent PR needs restacking. Its base branch has been updated. Run 'jr restack' on the parent first."),
            JrError::ParentOutOfDate => String::from_str("Cannot update PR: parent PR is out of date. Update parent PRs first (starting from the bottom of the stack)."),
            JrError::BranchAlreadyExists { branch } => String::from_str("PR branch already exists: ").concat(branch.as_str()),
            JrError::EmptyDescription => String::from_str("Cannot create PR with empty description"),
            JrError::BaseBranchMissing { branch } => String::from_str("Base branch ").concat(branch.as_str()).concat(" does not exist on the remote."),
            JrError::PrBranchMissing { branch } => String::from_str("PR branch ").concat(branch.as_str()).concat(" does not exist. Use 'jr create' to create a new PR."),
            JrError::PrNotOpen { branch } => String::from_str("No open PR found for branch ").concat(branch.as_str()).concat(". The PR may have been closed or merged."),
            JrError::PrDiffUnavailable { branch } => String::from_str("Could not get the diff of the PR for branch ").concat(branch.as_str()).concat("."),
            JrError::NoChanges => String::from_str("No changes detected"),
            JrError::UnchangedUseRestack => String::from_str("Commit unchanged; use 'jr restack' instead"),
            JrError::HasLocalChanges => String::from_str("Cannot restack: commit has local changes.\nUse 'jr update -m \"<message>\"' to update with your changes."),
            JrError::BaseUnchanged => String::from_str("Base hasn't changed; no need to restack"),
            JrError::UnexpectedOutput { parts } => {
                let d = decimal_string(*parts as u64);
                String::from_str("Unexpected jj output format: expected 4 parts, got ").concat(d.as_str())
            },
            JrError::ApiError { message } => String::from_str("GitHub API error: ").concat(message.as_str()),
            JrError::RequestFailed { status, body } => {
                let d = decimal_string(*status as u64);
                String::from_str("GitHub API request failed with status ").concat(d.as_str()).concat(": ").concat(body.as_str())
            },
            JrError::NotGithubUrl { url } => String::from_str("Remote URL is not a GitHub URL: ").concat(url.as_str()),
            JrError::UnexpectedAnswer => String::from_str("Internal error: a fetched fact did not match the request."),
            JrError::MissingRepo => String::from_str("Could not parse repo from GitHub URL"),
        }
    }
}

} // verus!
