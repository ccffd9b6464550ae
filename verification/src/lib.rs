//! Hierarchical summarization of a source-code repository.
//!
//! The crate models a repository as folders of files, decides per file whether
//! its content fits the model's token budget, and drives a bottom-up
//! summarization order: each eligible file is summarized first, the file
//! summaries are joined into the folder's context, each folder is summarized
//! next, and the folder summaries are joined into the context of one final
//! repository-level call. The actual completion requests are performed by the
//! caller; the pipeline hands out one request at a time and consumes the raw
//! response text, validating it against the required JSON schema.

pub mod content;
pub mod error;
pub mod gpt;
pub mod pipeline;
pub mod prompts;
pub mod response;
pub mod strings;
pub mod tokens;
