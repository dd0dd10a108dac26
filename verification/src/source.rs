//! Source-tree preparation for the two sides of a comparison.
//!
//! A source provider turns two version identifiers into two directories
//! holding the corresponding trees.  Running the version-control tool is
//! an outside concern; the path layout of the worktree provider is fixed
//! here.

use vstd::prelude::*;
use vstd::string::StringExecFns;

verus! {

/// Errors that can occur while preparing or cleaning up sources.
#[derive(Debug, Clone)]
pub enum SourceError {
    /// Failed to create a worktree.
    WorktreeCreation(String),
    /// Failed to check out a reference; carries the reference and the
    /// underlying reason.
    Checkout(String, String),
    /// Failed to clean up.
    Cleanup(String),
    /// The version-control command itself failed.
    GitCommand(String),
}

/// A provider of baseline and candidate source trees.  Implementations
/// run outside this crate; the trait fixes only the shape: two version
/// identifiers in, two directory paths out, and a cleanup step.
pub trait SourceProvider {
    /// Prepare the two source trees and return their paths, baseline
    /// first.
    fn prepare_sources(&self, baseline: &str, candidate: &str) -> Result<
        (String, String),
        SourceError,
    >;

    /// Remove whatever `prepare_sources` created.
    fn cleanup(&self) -> Result<(), SourceError>;
}

/// The path layout of a worktree-based source provider: both trees live
/// under one hidden directory at the repository root.
#[derive(Debug, Clone)]
pub struct GitWorktreeProvider {
    /// The root directory of the repository.
    pub repo_root: String,
}

impl GitWorktreeProvider {
    /// Create a provider rooted at the given repository root.
    pub fn with_repo_root(repo_root: String) -> (r: GitWorktreeProvider)
        ensures
            r.repo_root == repo_root,
    {
        GitWorktreeProvider { repo_root }
    }

    /// The directory all worktrees live under.
    pub fn worktree_base(&self) -> (r: String)
        ensures
            r@ == self.repo_root@ + "/.criterion-hypothesis"@,
    {
        let mut out = self.repo_root.clone();
        out.append("/.criterion-hypothesis");
        out
    }

    /// The path of the baseline worktree.
    pub fn baseline_path(&self) -> (r: String)
        ensures
            r@ == self.repo_root@ + "/.criterion-hypothesis"@ + "/baseline"@,
    {
        let mut out = self.worktree_base();
        out.append("/baseline");
        out
    }

    /// The path of the candidate worktree.
    pub fn candidate_path(&self) -> (r: String)
        ensures
            r@ == self.repo_root@ + "/.criterion-hypothesis"@ + "/candidate"@,
    {
        let mut out = self.worktree_base();
        out.append("/candidate");
        out
    }
}

} // verus!
