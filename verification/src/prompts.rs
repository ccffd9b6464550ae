use vstd::prelude::*;

use crate::error::SummarizeError;
use crate::response::{parse_summary, summary_field};
use crate::strings::{replace_all, replaced};

verus! {

/// Template of the repository-level prompt; the folder summaries take the
/// place of the `{{summaries}}` marker.
pub const REPOSITORY_SUMMARY_PROMPT: &'static str = "Thoroughly summarize this github repository given summaries of its folders: {{summaries}}. \nMake sure to consider every file in the repository. Return a JSON object for your answer. \nMake sure your entire answer is in the JSON object! Use the below schema for your answer.\n{\n    \"summary\": \"\"\n}";

/// Template of the folder-level prompt; the file summaries take the place of
/// the `{{files}}` marker.
pub const FOLDER_WIDE_SUMMARY_PROMPT: &'static str = "Thoroughly summarize this folder given summaries of the files inside it: {{files}}. \nMake sure to consider every file in the repository. Return a JSON object for your answer. \nMake sure your entire answer is in the JSON object! Use the below schema for your answer.\n{\n    \"summary\": \"\"\n}";

/// Template of the file-level prompt; the file's content takes the place of
/// the `{{file}}` marker.
pub const FILE_SUMMARY_PROMPT: &'static str = "Thoroughly summarize this code file given the contents: {{file}}. \nMake sure to consider every file in the repository. Return a JSON object for your answer. \nMake sure your entire answer is in the JSON object! Use the below schema for your answer.\n{\n    \"summary\": \"\"\n}";

/// The repository-level prompt for a given context.
pub open spec fn repository_prompt_text(context: Seq<char>) -> Seq<char> {
    replaced(REPOSITORY_SUMMARY_PROMPT@, "{{summaries}}"@, context)
}

/// The folder-level prompt for a given context.
pub open spec fn folder_prompt_text(context: Seq<char>) -> Seq<char> {
    replaced(FOLDER_WIDE_SUMMARY_PROMPT@, "{{files}}"@, context)
}

/// The file-level prompt for a given context.
pub open spec fn file_prompt_text(context: Seq<char>) -> Seq<char> {
    replaced(FILE_SUMMARY_PROMPT@, "{{file}}"@, context)
}

/// The text after substituting, pair by pair in order, each key by its value.
pub open spec fn replaced_pairs(text: Seq<char>, pairs: Seq<(Seq<char>, Seq<char>)>) -> Seq<char>
    decreases pairs.len(),
{
    if pairs.len() == 0 {
        text
    } else {
        replaced_pairs(replaced(text, pairs[0].0, pairs[0].1), pairs.drop_first())
    }
}

/// The repository-level prompt, ready to send.
#[derive(Debug)]
pub struct RepositorySummaryPrompt {
    pub prompt: String,
}

/// A parsed repository-level model response.
#[derive(Debug)]
pub struct RepositorySummaryResponse {
    pub summary: String,
}

/// The folder-level prompt, ready to send.
#[derive(Debug)]
pub struct FolderWideSummaryPrompt {
    pub prompt: String,
}

/// A parsed folder-level model response.
#[derive(Debug)]
pub struct FolderWideSummaryResponse {
    pub summary: String,
}

/// The file-level prompt, ready to send.
#[derive(Debug)]
pub struct FileSummaryPrompt {
    pub prompt: String,
}

/// A parsed file-level model response.
#[derive(Debug)]
pub struct FileSummaryResponse {
    pub summary: String,
}

impl View for RepositorySummaryResponse {
    type V = Seq<char>;

    open spec fn view(&self) -> Seq<char> {
        self.summary@
    }
}

impl DeepView for RepositorySummaryResponse {
    type V = Seq<char>;

    open spec fn deep_view(&self) -> Seq<char> {
        self.view()
    }
}

impl View for FolderWideSummaryResponse {
    type V = Seq<char>;

    open spec fn view(&self) -> Seq<char> {
        self.summary@
    }
}

impl DeepView for FolderWideSummaryResponse {
    type V = Seq<char>;

    open spec fn deep_view(&self) -> Seq<char> {
        self.view()
    }
}

impl View for FileSummaryResponse {
    type V = Seq<char>;

    open spec fn view(&self) -> Seq<char> {
        self.summary@
    }
}

impl DeepView for FileSummaryResponse {
    type V = Seq<char>;

    open spec fn deep_view(&self) -> Seq<char> {
        self.view()
    }
}

/// Substitutes, pair by pair in order, each key of `attributes` by its value
/// throughout `prompt`.
fn replace_attribute_pairs(prompt: &mut String, attributes: &Vec<(String, String)>)
    ensures
        final(prompt)@ == replaced_pairs(old(prompt)@, attributes.deep_view()),
{
    let ghost pairs = attributes.deep_view();
    let ghost orig = prompt@;
    proof {
        assert(pairs.skip(0) =~= pairs);
    }
    let mut i: usize = 0;
    while i < attributes.len()
        invariant
            0 <= i <= attributes.len(),
            pairs == attributes.deep_view(),
            pairs.len() == attributes.len(),
            replaced_pairs(prompt@, pairs.skip(i as int)) == replaced_pairs(orig, pairs),
        decreases attributes.len() - i,
    {
        proof {
            assert(attributes@[i as int].deep_view() == pairs[i as int]);
            assert(pairs.skip(i as int)[0] == pairs[i as int]);
            assert(pairs.skip(i as int).drop_first() =~= pairs.skip(i + 1));
        }
        let next = replace_all(
            prompt.as_str(),
            attributes[i].0.as_str(),
            attributes[i].1.as_str(),
        );
        *prompt = next;
        i = i + 1;
    }
    proof {
        assert(pairs.skip(attributes.len() as int) =~= Seq::<(Seq<char>, Seq<char>)>::empty());
    }
}

impl RepositorySummaryPrompt {
    /// Builds the repository-level prompt: `contents` takes the place of the
    /// `{{summaries}}` marker in the template.
    pub fn new(contents: &str) -> (p: Self)
        ensures
            p.prompt@ == repository_prompt_text(contents@),
    {
        RepositorySummaryPrompt {
            prompt: replace_all(REPOSITORY_SUMMARY_PROMPT, "{{summaries}}", contents),
        }
    }

    /// Substitutes, pair by pair in order, each key of `attributes` by its
    /// value throughout the prompt.
    pub fn replace_attributes(&mut self, attributes: Vec<(String, String)>)
        ensures
            final(self).prompt@ == replaced_pairs(old(self).prompt@, attributes.deep_view()),
    {
        replace_attribute_pairs(&mut self.prompt, &attributes);
    }
}

impl Default for RepositorySummaryPrompt {
    /// The bare template, with the `{{summaries}}` marker still in place.
    fn default() -> (p: Self)
        ensures
            p.prompt@ == REPOSITORY_SUMMARY_PROMPT@,
    {
        RepositorySummaryPrompt { prompt: REPOSITORY_SUMMARY_PROMPT.to_owned() }
    }
}

impl RepositorySummaryResponse {
    /// Validates a raw model response against the `{ "summary": string }`
    /// schema; when the schema is not met the error keeps the raw text
    /// verbatim beside a description of the parse failure.
    pub fn parse(raw: &str) -> (r: Result<Self, SummarizeError>)
        ensures
            ({
                match r {
                    Ok(resp) => summary_field(raw@) == Some(resp.summary@),
                    Err(e) => summary_field(raw@) is None && (e matches
                        SummarizeError::InvalidResponse { raw: kept, .. } && kept@ == raw@),
                }
            }),
    {
        match parse_summary(raw) {
            Ok(s) => Ok(RepositorySummaryResponse { summary: s }),
            Err(e) => Err(e),
        }
    }
}

impl FolderWideSummaryPrompt {
    /// Builds the folder-level prompt: `contents` takes the place of the
    /// `{{files}}` marker in the template.
    pub fn new(contents: &str) -> (p: Self)
        ensures
            p.prompt@ == folder_prompt_text(contents@),
    {
        FolderWideSummaryPrompt {
            prompt: replace_all(FOLDER_WIDE_SUMMARY_PROMPT, "{{files}}", contents),
        }
    }

    /// Substitutes, pair by pair in order, each key of `attributes` by its
    /// value throughout the prompt.
    pub fn replace_attributes(&mut self, attributes: Vec<(String, String)>)
        ensures
            final(self).prompt@ == replaced_pairs(old(self).prompt@, attributes.deep_view()),
    {
        replace_attribute_pairs(&mut self.prompt, &attributes);
    }
}

impl Default for FolderWideSummaryPrompt {
    /// The bare template, with the `{{files}}` marker still in place.
    fn default() -> (p: Self)
        ensures
            p.prompt@ == FOLDER_WIDE_SUMMARY_PROMPT@,
    {
        FolderWideSummaryPrompt { prompt: FOLDER_WIDE_SUMMARY_PROMPT.to_owned() }
    }
}

impl FolderWideSummaryResponse {
    /// Validates a raw model response against the `{ "summary": string }`
    /// schema; when the schema is not met the error keeps the raw text
    /// verbatim beside a description of the parse failure.
    pub fn parse(raw: &str) -> (r: Result<Self, SummarizeError>)
        ensures
            ({
                match r {
                    Ok(resp) => summary_field(raw@) == Some(resp.summary@),
                    Err(e) => summary_field(raw@) is None && (e matches
                        SummarizeError::InvalidResponse { raw: kept, .. } && kept@ == raw@),
                }
            }),
    {
        match parse_summary(raw) {
            Ok(s) => Ok(FolderWideSummaryResponse { summary: s }),
            Err(e) => Err(e),
        }
    }
}

impl FileSummaryPrompt {
    /// Builds the file-level prompt: `contents` takes the place of the
    /// `{{file}}` marker in the template.
    pub fn new(contents: &str) -> (p: Self)
        ensures
            p.prompt@ == file_prompt_text(contents@),
    {
        FileSummaryPrompt { prompt: replace_all(FILE_SUMMARY_PROMPT, "{{file}}", contents) }
    }

    /// Substitutes, pair by pair in order, each key of `attributes` by its
    /// value throughout the prompt.
    pub fn replace_attributes(&mut self, attributes: Vec<(String, String)>)
        ensures
            final(self).prompt@ == replaced_pairs(old(self).prompt@, attributes.deep_view()),
    {
        replace_attribute_pairs(&mut self.prompt, &attributes);
    }
}

impl Default for FileSummaryPrompt {
    /// The bare template, with the `{{file}}` marker still in place.
    fn default() -> (p: Self)
        ensures
            p.prompt@ == FILE_SUMMARY_PROMPT@,
    {
        FileSummaryPrompt { prompt: FILE_SUMMARY_PROMPT.to_owned() }
    }
}

impl FileSummaryResponse {
    /// Validates a raw model response against the `{ "summary": string }`
    /// schema; when the schema is not met the error keeps the raw text
    /// verbatim beside a description of the parse failure.
    pub fn parse(raw: &str) -> (r: Result<Self, SummarizeError>)
        ensures
            ({
                match r {
                    Ok(resp) => summary_field(raw@) == Some(resp.summary@),
                    Err(e) => summary_field(raw@) is None && (e matches
                        SummarizeError::InvalidResponse { raw: kept, .. } && kept@ == raw@),
                }
            }),
    {
        match parse_summary(raw) {
            Ok(s) => Ok(FileSummaryResponse { summary: s }),
            Err(e) => Err(e),
        }
    }
}

} // verus!
