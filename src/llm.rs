//! The operations a model backend offers.

use vstd::prelude::*;
use crate::change::FileChange;
use crate::error::LlmError;
use crate::git::{PrItem, PrSummaryMode};

verus! {

/// A chat-model backend: one implementation per wire protocol.
pub trait LlmClient {
    /// A summary of one file's change.
    fn summarize_file(
        &self,
        branch: &str,
        file: &FileChange,
        ticket_summary: Option<&str>,
    ) -> Result<String, LlmError>;

    /// A commit message from the per-file summaries.
    fn generate_commit_message(
        &self,
        branch: &str,
        files: &[FileChange],
        ticket_summary: Option<&str>,
    ) -> Result<String, LlmError>;

    /// A commit message from the whole staged diff.
    fn generate_commit_message_simple(
        &self,
        branch: &str,
        diff: &str,
        ticket_summary: Option<&str>,
    ) -> Result<String, LlmError>;

    /// A pull-request description from the commits of a range.
    fn generate_pr_message(
        &self,
        base_branch: &str,
        from_branch: &str,
        mode: PrSummaryMode,
        items: &[PrItem],
        ticket_summary: Option<&str>,
    ) -> Result<String, LlmError>;
}

} // verus!
