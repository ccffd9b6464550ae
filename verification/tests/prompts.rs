use gitsum::error::SummarizeError;
use gitsum::prompts::{
    FileSummaryPrompt, FileSummaryResponse, FolderWideSummaryPrompt, FolderWideSummaryResponse,
    RepositorySummaryPrompt, RepositorySummaryResponse, FILE_SUMMARY_PROMPT,
    FOLDER_WIDE_SUMMARY_PROMPT, REPOSITORY_SUMMARY_PROMPT,
};

#[test]
fn repository_prompt_substitutes_summaries_marker() {
    let p = RepositorySummaryPrompt::new("folder one folder two");
    assert_eq!(
        p.prompt,
        REPOSITORY_SUMMARY_PROMPT.replace("{{summaries}}", "folder one folder two")
    );
    assert!(!p.prompt.contains("{{summaries}}"));
}

#[test]
fn folder_prompt_substitutes_files_marker() {
    let p = FolderWideSummaryPrompt::new("file one file two");
    assert_eq!(
        p.prompt,
        FOLDER_WIDE_SUMMARY_PROMPT.replace("{{files}}", "file one file two")
    );
}

#[test]
fn file_prompt_substitutes_file_marker() {
    let p = FileSummaryPrompt::new("fn main() {}");
    assert_eq!(p.prompt, FILE_SUMMARY_PROMPT.replace("{{file}}", "fn main() {}"));
}

#[test]
fn default_prompts_keep_markers() {
    assert_eq!(RepositorySummaryPrompt::default().prompt, REPOSITORY_SUMMARY_PROMPT);
    assert_eq!(FolderWideSummaryPrompt::default().prompt, FOLDER_WIDE_SUMMARY_PROMPT);
    assert_eq!(FileSummaryPrompt::default().prompt, FILE_SUMMARY_PROMPT);
}

#[test]
fn replace_attributes_applies_pairs_in_order() {
    let mut p = RepositorySummaryPrompt::default();
    p.replace_attributes(vec![
        (String::from("{{summaries}}"), String::from("{{a}} and {{a}}")),
        (String::from("{{a}}"), String::from("b")),
    ]);
    let expected = REPOSITORY_SUMMARY_PROMPT
        .replace("{{summaries}}", "{{a}} and {{a}}")
        .replace("{{a}}", "b");
    assert_eq!(p.prompt, expected);
}

#[test]
fn parse_round_trips_summary_value() {
    let r = FileSummaryResponse::parse("{\"summary\": \"X\"}").unwrap();
    assert_eq!(r.summary, "X");
    let r = FolderWideSummaryResponse::parse("{\"summary\": \"folder text\"}").unwrap();
    assert_eq!(r.summary, "folder text");
    let r = RepositorySummaryResponse::parse("{\"summary\": \"\"}").unwrap();
    assert_eq!(r.summary, "");
}

#[test]
fn parse_allows_extra_members() {
    let r = FileSummaryResponse::parse("{\"summary\": \"X\", \"extra\": 1}").unwrap();
    assert_eq!(r.summary, "X");
}

#[test]
fn parse_rejects_invalid_json_and_keeps_raw_text_with_parse_error() {
    let e = FileSummaryResponse::parse("not json").unwrap_err();
    match e {
        SummarizeError::InvalidResponse { raw, parse_error } => {
            assert_eq!(raw, "not json");
            assert!(!parse_error.is_empty());
        }
        other => panic!("expected an invalid-response error, got {:?}", other),
    }
}

#[test]
fn parse_rejects_missing_summary_member() {
    let e = RepositorySummaryResponse::parse("{\"other\": \"X\"}").unwrap_err();
    match e {
        SummarizeError::InvalidResponse { raw, parse_error } => {
            assert_eq!(raw, "{\"other\": \"X\"}");
            assert!(!parse_error.is_empty());
        }
        other => panic!("expected an invalid-response error, got {:?}", other),
    }
}

#[test]
fn parse_rejects_non_string_summary() {
    let e = FolderWideSummaryResponse::parse("{\"summary\": 3}").unwrap_err();
    assert!(matches!(e, SummarizeError::InvalidResponse { .. }));
}

#[test]
fn parse_rejects_trailing_garbage() {
    let e = FileSummaryResponse::parse("{\"summary\": \"X\"} tail").unwrap_err();
    assert!(matches!(e, SummarizeError::InvalidResponse { .. }));
}
