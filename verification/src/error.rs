use vstd::prelude::*;

verus! {

/// Every failure the summarization pipeline can report.
///
/// The first three variants are configuration errors: they are raised before
/// any completion request is prepared. `NoFolders`, `FolderNotFound` and
/// `FileNotFound` report a lookup against content that does not hold the
/// requested node. `TokenBudgetExceeded` is raised only when a single file is
/// summarized directly and its content is over the token limit; during a full
/// run an oversized file is skipped instead. `InvalidResponse` carries the raw
/// model output that failed to parse as the required JSON schema, together
/// with a description of the parse failure for diagnosis.
#[derive(Debug, PartialEq, Eq)]
pub enum SummarizeError {
    MissingUsername,
    MissingRepoName,
    MissingKey,
    NoFolders,
    FolderNotFound,
    FileNotFound,
    TokenBudgetExceeded,
    InvalidResponse { raw: String, parse_error: String },
}

} // verus!
