//! The git side of the server: configuration, errors, reference names and
//! the decisions of the clone/checkout/merge/sync/commit steps.
use vstd::prelude::*;
use crate::text::{concat2, concat3};

verus! {

#[verifier::external_type_specification]
#[verifier::external_body]
pub struct ExPathBuf(std::path::PathBuf);

/// Configuration for git operations.
pub struct GitConfig {
    pub repo_path: std::path::PathBuf,
    pub remote_url: String,
    pub branch: String,
    pub token: String,
}

/// Why a git operation failed.
pub enum GitError {
    /// libgit2 reported an error; its message.
    Git2(String),
    /// Merging origin/main left conflicts.
    MergeConflicts,
    /// The working tree matched the last commit.
    NothingToCommit,
    /// The blocking task could not be joined; its message.
    Join(String),
}

/// Display text of a git error.
pub open spec fn git_error_text(e: GitError) -> Seq<char> {
    match e {
        GitError::Git2(m) => "git error: "@ + m@,
        GitError::MergeConflicts => "merge conflicts between origin/main and mcp branch (resolve manually)"@,
        GitError::NothingToCommit => "nothing to commit"@,
        GitError::Join(m) => "task join error: "@ + m@,
    }
}

impl GitError {
    /// The error's display text.
    pub fn message(&self) -> (r: String)
        ensures
            r@ == git_error_text(*self),
    {
        match self {
            GitError::Git2(m) => concat2("git error: ", m.as_str()),
            GitError::MergeConflicts => "merge conflicts between origin/main and mcp branch (resolve manually)".to_owned(),
            GitError::NothingToCommit => "nothing to commit".to_owned(),
            GitError::Join(m) => concat2("task join error: ", m.as_str()),
        }
    }
}

/// User name presented, with the token as password, to the git remote.
pub fn credential_username() -> (r: String)
    ensures
        r@ == "oauth2"@,
{
    "oauth2".to_owned()
}

/// Refspec that fetches every branch of origin into `refs/remotes/origin/`.
pub fn fetch_refspec() -> (r: String)
    ensures
        r@ == "refs/heads/*:refs/remotes/origin/*"@,
{
    "refs/heads/*:refs/remotes/origin/*".to_owned()
}

/// Name and email of the commits the server makes.
pub fn commit_signature() -> (r: (String, String))
    ensures
        r.0@ == "Firm MCP"@,
        r.1@ == "mcp@firm.bot"@,
{
    ("Firm MCP".to_owned(), "mcp@firm.bot".to_owned())
}

/// Message of the commit that merges origin/main.
pub fn merge_commit_message() -> (r: String)
    ensures
        r@ == "Merge origin/main into mcp"@,
{
    "Merge origin/main into mcp".to_owned()
}

/// Reflog message of a fast-forward to origin/main.
pub fn fast_forward_message() -> (r: String)
    ensures
        r@ == "Fast-forward merge of origin/main"@,
{
    "Fast-forward merge of origin/main".to_owned()
}

/// The local reference of `branch`.
pub fn local_branch_ref(branch: &str) -> (r: String)
    ensures
        r@ == "refs/heads/"@ + branch@,
{
    concat2("refs/heads/", branch)
}

/// The remote-tracking reference of `branch` on origin.
pub fn remote_branch_ref(branch: &str) -> (r: String)
    ensures
        r@ == "refs/remotes/origin/"@ + branch@,
{
    concat2("refs/remotes/origin/", branch)
}

/// The remote-tracking reference of origin's `main`.
pub fn origin_main_ref() -> (r: String)
    ensures
        r@ == "refs/remotes/origin/main"@,
{
    "refs/remotes/origin/main".to_owned()
}

/// The force-push refspec of `branch` onto the same branch of origin.
pub fn push_refspec(branch: &str) -> (r: String)
    ensures
        r@ == "+refs/heads/"@ + branch@ + ":refs/heads/"@ + branch@,
{
    let s = concat3("+refs/heads/", branch, ":refs/heads/");
    concat2(s.as_str(), branch)
}

/// Where a missing local working branch is created from: origin's copy of
/// the branch when it has one, origin/main otherwise. The same reference is
/// what a sync resets the branch to.
pub open spec fn base_ref(branch: Seq<char>, remote_branch_exists: bool) -> Seq<char> {
    if remote_branch_exists {
        "refs/remotes/origin/"@ + branch
    } else {
        "refs/remotes/origin/main"@
    }
}

/// The reference a local working branch is created from, or reset to.
pub fn branch_base_ref(branch: &str, remote_branch_exists: bool) -> (r: String)
    ensures
        r@ == base_ref(branch@, remote_branch_exists),
        remote_branch_exists ==> r@ == "refs/remotes/origin/"@ + branch@,
        !remote_branch_exists ==> r@ == "refs/remotes/origin/main"@,
{
    if remote_branch_exists {
        remote_branch_ref(branch)
    } else {
        origin_main_ref()
    }
}

/// The base of a working branch that origin has is origin's copy of that
/// very branch: its remote-tracking reference, which names the branch, so
/// two different branches never share a base. Without a copy on origin the
/// base is origin/main whatever the branch.
pub proof fn lemma_base_ref_names_branch(b1: Seq<char>, b2: Seq<char>)
    ensures
        base_ref(b1, true) == "refs/remotes/origin/"@ + b1,
        base_ref(b1, true).len() == 20 + b1.len(),
        base_ref(b1, true).subrange(20, base_ref(b1, true).len() as int) == b1,
        b1 != b2 ==> base_ref(b1, true) != base_ref(b2, true),
        base_ref(b1, false) == base_ref(b2, false),
{
    reveal_strlit("refs/remotes/origin/");
    let p = "refs/remotes/origin/"@;
    assert((p + b1).subrange(20, (p + b1).len() as int) =~= b1);
    assert((p + b2).subrange(20, (p + b2).len() as int) =~= b2);
}

/// What checking out the working branch needs first.
pub enum CheckoutPlan {
    /// The local branch exists; check it out.
    CheckOut,
    /// Create the local branch at the commit of this reference, then check it out.
    CreateFrom(String),
}

/// Checking out the working branch: create it when it is missing, from
/// origin's copy of it if there is one, else from origin/main.
pub fn checkout_plan(branch: &str, local_exists: bool, remote_branch_exists: bool) -> (r:
    CheckoutPlan)
    ensures
        match r {
            CheckoutPlan::CheckOut => local_exists,
            CheckoutPlan::CreateFrom(base) => !local_exists && base@ == base_ref(
                branch@,
                remote_branch_exists,
            ),
        },
        !local_exists ==> r is CreateFrom,
        !local_exists && remote_branch_exists ==> (r matches CheckoutPlan::CreateFrom(base)
            && base@ == "refs/remotes/origin/"@ + branch@),
        !local_exists && !remote_branch_exists ==> (r matches CheckoutPlan::CreateFrom(base)
            && base@ == "refs/remotes/origin/main"@),
{
    if local_exists {
        CheckoutPlan::CheckOut
    } else {
        CheckoutPlan::CreateFrom(branch_base_ref(branch, remote_branch_exists))
    }
}

/// What merging origin/main into the working branch does.
pub enum MergeStep {
    /// There is no origin/main: nothing to merge.
    NoOriginMain,
    /// The branch already contains origin/main.
    UpToDate,
    /// Move the branch to origin/main and check it out.
    FastForward,
    /// Merge and, without conflicts, commit the merge.
    Merge,
    /// The analysis allows none of these: leave the branch as it is.
    Nothing,
}

/// The merge step for origin/main, from libgit2's merge analysis; the
/// analysis flags are consulted in this order.
pub fn merge_step(origin_main_found: bool, up_to_date: bool, fast_forward: bool, normal: bool) -> (r:
    MergeStep)
    ensures
        !origin_main_found ==> r is NoOriginMain,
        origin_main_found && up_to_date ==> r is UpToDate,
        origin_main_found && !up_to_date && fast_forward ==> r is FastForward,
        origin_main_found && !up_to_date && !fast_forward && normal ==> r is Merge,
        origin_main_found && !up_to_date && !fast_forward && !normal ==> r is Nothing,
{
    if !origin_main_found {
        MergeStep::NoOriginMain
    } else if up_to_date {
        MergeStep::UpToDate
    } else if fast_forward {
        MergeStep::FastForward
    } else if normal {
        MergeStep::Merge
    } else {
        MergeStep::Nothing
    }
}

/// After a merge: conflicts abort it with an error, otherwise the merge is
/// committed.
pub fn merge_outcome(has_conflicts: bool) -> (r: Result<(), GitError>)
    ensures
        has_conflicts <==> r matches Err(GitError::MergeConflicts),
        !has_conflicts <==> r is Ok,
{
    if has_conflicts {
        Err(GitError::MergeConflicts)
    } else {
        Ok(())
    }
}

/// Before committing: a tree equal to the parent's means there is nothing
/// to commit.
pub fn commit_needed(tree_equals_parent: bool) -> (r: Result<(), GitError>)
    ensures
        tree_equals_parent <==> r matches Err(GitError::NothingToCommit),
        !tree_equals_parent <==> r is Ok,
{
    if tree_equals_parent {
        Err(GitError::NothingToCommit)
    } else {
        Ok(())
    }
}

} // verus!
