//! Decisions of the MCP tool handlers that wrap a Firm workspace with git:
//! commit messages, warnings, and what follows a write.
use vstd::prelude::*;
use crate::git::{git_error_text, GitError};
use crate::text::{concat2, concat3};

verus! {

/// The warning a failed commit/push adds to a tool result; none when it
/// succeeded or when there was nothing to commit.
pub open spec fn spec_commit_warning(result: Result<(), GitError>) -> Option<Seq<char>> {
    match result {
        Ok(()) => None,
        Err(GitError::NothingToCommit) => None,
        Err(e) => Some("Warning: git commit/push failed: "@ + git_error_text(e)),
    }
}

/// The warning for the outcome of a commit and push.
pub fn commit_warning(result: &Result<(), GitError>) -> (r: Option<String>)
    ensures
        r.deep_view() == spec_commit_warning(*result),
{
    match result {
        Ok(()) => None,
        Err(GitError::NothingToCommit) => None,
        Err(e) => {
            let m = e.message();
            Some(concat2("Warning: git commit/push failed: ", m.as_str()))
        },
    }
}

/// The warning a failed fetch adds to the `build` tool's result.
pub fn fetch_warning(e: &GitError) -> (r: String)
    ensures
        r@ == "Git fetch failed: "@ + git_error_text(*e),
{
    let m = e.message();
    concat2("Git fetch failed: ", m.as_str())
}

/// The warning a failed sync adds to the `build` tool's result.
pub fn sync_warning(e: &GitError) -> (r: String)
    ensures
        r@ == "Git sync failed: "@ + git_error_text(*e),
{
    let m = e.message();
    concat2("Git sync failed: ", m.as_str())
}

/// ` (force)` when a write was forced through failed validation.
pub open spec fn force_suffix(force: bool) -> Seq<char> {
    if force {
        " (force)"@
    } else {
        Seq::empty()
    }
}

fn with_force(s: String, force: bool) -> (r: String)
    ensures
        r@ == s@ + force_suffix(force),
{
    if force {
        concat2(s.as_str(), " (force)")
    } else {
        assert(s@ + force_suffix(force) =~= s@);
        s
    }
}

/// Commit message for an entity added through MCP.
pub fn add_entity_message(entity_type: &str, id: &str) -> (r: String)
    ensures
        r@ == "Add "@ + entity_type@ + "/"@ + id@ + " via MCP"@,
{
    let s = concat3("Add ", entity_type, "/");
    concat3(s.as_str(), id, " via MCP")
}

/// Commit message for a source file written through MCP.
pub fn update_source_message(path: &str, force: bool) -> (r: String)
    ensures
        r@ == "Update source '"@ + path@ + "' via MCP"@ + force_suffix(force),
{
    with_force(concat3("Update source '", path, "' via MCP"), force)
}

/// Commit message for a replacement in a source file made through MCP.
pub fn replace_source_message(path: &str, force: bool) -> (r: String)
    ensures
        r@ == "Replace in source '"@ + path@ + "' via MCP"@ + force_suffix(force),
{
    with_force(concat3("Replace in source '", path, "' via MCP"), force)
}

/// What follows a source write once the workspace has been rebuilt.
pub enum WriteFollowUp {
    /// The workspace is valid: report success and commit.
    Commit,
    /// It is invalid but the write was forced: report that, and commit.
    CommitForced,
    /// It is invalid: restore the file and report the errors.
    RollBack,
}

/// A valid rebuild commits; an invalid one commits only a forced write and
/// otherwise rolls the file back.
pub fn after_rebuild(rebuild_ok: bool, force: bool) -> (r: WriteFollowUp)
    ensures
        rebuild_ok ==> r is Commit,
        !rebuild_ok && force ==> r is CommitForced,
        !rebuild_ok && !force ==> r is RollBack,
{
    if rebuild_ok {
        WriteFollowUp::Commit
    } else if force {
        WriteFollowUp::CommitForced
    } else {
        WriteFollowUp::RollBack
    }
}

} // verus!
