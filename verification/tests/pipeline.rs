use gitsum::content::{File, Folder, RepositoryContent};
use gitsum::error::SummarizeError;
use gitsum::gpt::{ChatChoice, ChatMessage, ChatResponse, ChatUsage};
use gitsum::pipeline::{
    oversized_files, resolve_credential, FolderRun, FolderStep, Git, ModelCall, RepoStep,
    SummaryKind,
};
use gitsum::prompts::{
    FILE_SUMMARY_PROMPT, FOLDER_WIDE_SUMMARY_PROMPT, REPOSITORY_SUMMARY_PROMPT,
};
use gitsum::tokens::{is_eligible, DEFAULT_TOKEN_LIMIT};

fn folder_with(name: &str, files: Vec<File>) -> Folder {
    let mut folder = Folder::new(name);
    for f in files {
        folder.insert_file(f);
    }
    folder
}

fn git_with_folders(folders: Vec<Folder>) -> Git {
    let mut content = RepositoryContent::default();
    for f in folders {
        content.insert_folder(f);
    }
    Git {
        git_key: String::from("git-credential"),
        branch: String::from("main"),
        open_ai_key: String::from("model-credential"),
        repository_username: String::from("owner"),
        repository_name: String::from("repo"),
        repository_content: content,
    }
}

fn file_prompt(content: &str) -> String {
    FILE_SUMMARY_PROMPT.replace("{{file}}", content)
}

fn folder_prompt(context: &str) -> String {
    FOLDER_WIDE_SUMMARY_PROMPT.replace("{{files}}", context)
}

fn repository_prompt(context: &str) -> String {
    REPOSITORY_SUMMARY_PROMPT.replace("{{summaries}}", context)
}

fn summary_json(text: &str) -> String {
    format!("{{\"summary\": \"{}\"}}", text)
}

/// Drives a full-repository run, answering the i-th request with the i-th
/// response; returns every request made and the outcome.
fn drive_repository(
    git: Git,
    responses: &[String],
) -> (Vec<ModelCall>, Result<String, SummarizeError>) {
    let (mut run, first) = match git.start_repository_run() {
        Ok(p) => p,
        Err(e) => return (vec![], Err(e)),
    };
    let mut calls = vec![first];
    let mut i: usize = 0;
    while run.in_progress() {
        let response = &responses[i];
        i += 1;
        match run.step(response.as_str()) {
            Ok(RepoStep::Next { call, .. }) => calls.push(call),
            Ok(RepoStep::FolderDone { call, .. }) => calls.push(call),
            Ok(RepoStep::Finished { summary }) => return (calls, Ok(summary.summary)),
            Err(e) => return (calls, Err(e)),
        }
    }
    panic!("run ended without finishing");
}

fn oversized_text() -> String {
    "the quick brown fox jumps over the lazy dog. ".repeat(1000)
}

/// Smallest limit that still admits `text`, found through the public gate.
fn measured_token_count(text: &str) -> usize {
    let mut lo: usize = 0;
    let mut hi: usize = text.len() + 1;
    while lo < hi {
        let mid = lo + (hi - lo) / 2;
        if is_eligible(text, mid) {
            hi = mid;
        } else {
            lo = mid + 1;
        }
    }
    lo
}

#[test]
fn token_gate_boundary_exactly_at_limit_is_eligible() {
    let text = "hello world, token gate boundary";
    let count = measured_token_count(text);
    assert!(count > 0);
    assert!(is_eligible(text, count));
    assert!(!is_eligible(text, count - 1));
}

#[test]
fn token_gate_counts_tokens_not_characters() {
    let text = "the quick brown fox jumps over the lazy dog. ".repeat(10);
    assert!(text.len() > 200);
    assert!(is_eligible(&text, 200));
    assert!(!is_eligible(&text, 20));
}

#[test]
fn token_gate_rejects_oversized_text() {
    assert!(!is_eligible(&oversized_text(), DEFAULT_TOKEN_LIMIT));
}

#[test]
fn repository_run_without_folders_fails_before_any_call() {
    let git = git_with_folders(vec![]);
    let r = git.start_repository_run();
    assert!(matches!(r, Err(SummarizeError::NoFolders)));
}

#[test]
fn repository_run_checks_configuration_in_order() {
    let mut git = git_with_folders(vec![Folder::new("src")]);
    git.repository_username = String::new();
    git.open_ai_key = String::new();
    assert!(matches!(git.start_repository_run(), Err(SummarizeError::MissingUsername)));

    let mut git = git_with_folders(vec![Folder::new("src")]);
    git.repository_name = String::new();
    assert!(matches!(git.start_repository_run(), Err(SummarizeError::MissingRepoName)));

    let mut git = git_with_folders(vec![Folder::new("src")]);
    git.open_ai_key = String::new();
    assert!(matches!(git.start_repository_run(), Err(SummarizeError::MissingKey)));
}

#[test]
fn folder_without_eligible_files_gets_one_call_with_empty_context() {
    let git = git_with_folders(vec![folder_with(
        "big",
        vec![File::new("huge.rs", &oversized_text(), "")],
    )]);
    let (mut run, first) = git.start_folder_run("big").unwrap();
    assert_eq!(first.kind, SummaryKind::Folder);
    assert_eq!(first.prompt, folder_prompt(""));
    let step = run.step(&summary_json("B")).unwrap();
    match step {
        FolderStep::Complete { folder_name, folder_summary, file_summaries } => {
            assert_eq!(folder_name, "big");
            assert_eq!(folder_summary.summary, "B");
            assert_eq!(file_summaries.len(), 0);
        }
        _ => panic!("expected the pass to complete"),
    }
    assert!(!run.in_progress());
}

#[test]
fn folder_run_skips_ineligible_files_and_joins_summaries() {
    let git = git_with_folders(vec![folder_with(
        "src",
        vec![
            File::new("a.rs", "fn a() {}", ""),
            File::new("huge.rs", &oversized_text(), ""),
            File::new("b.rs", "fn b() {}", ""),
        ],
    )]);
    let (mut run, first) = git.start_folder_run("src").unwrap();
    assert_eq!(first.kind, SummaryKind::File);
    assert_eq!(first.prompt, file_prompt("fn a() {}"));

    let step = run.step(&summary_json("A")).unwrap();
    let call = match step {
        FolderStep::Next { file_name, file_summary, call } => {
            assert_eq!(file_name, "a.rs");
            assert_eq!(file_summary.summary, "A");
            call
        }
        _ => panic!("expected the next request"),
    };
    assert_eq!(call.kind, SummaryKind::File);
    assert_eq!(call.prompt, file_prompt("fn b() {}"));

    let step = run.step(&summary_json("B")).unwrap();
    let call = match step {
        FolderStep::Next { file_name, file_summary, call } => {
            assert_eq!(file_name, "b.rs");
            assert_eq!(file_summary.summary, "B");
            call
        }
        _ => panic!("expected the folder request"),
    };
    assert_eq!(call.kind, SummaryKind::Folder);
    assert_eq!(call.prompt, folder_prompt("A B"));

    let step = run.step(&summary_json("S")).unwrap();
    match step {
        FolderStep::Complete { folder_summary, file_summaries, .. } => {
            assert_eq!(folder_summary.summary, "S");
            assert_eq!(file_summaries.len(), 2);
            assert_eq!(file_summaries[0].summary, "A");
            assert_eq!(file_summaries[1].summary, "B");
        }
        _ => panic!("expected the pass to complete"),
    }
}

#[test]
fn folder_run_on_absent_folder_fails() {
    let git = git_with_folders(vec![Folder::new("src")]);
    assert!(matches!(git.start_folder_run("docs"), Err(SummarizeError::FolderNotFound)));
    let git = git_with_folders(vec![]);
    assert!(matches!(git.start_folder_run("src"), Err(SummarizeError::NoFolders)));
}

#[test]
fn repository_scenario_bottom_up_order_and_contexts() {
    let git = git_with_folders(vec![
        folder_with("src", vec![File::new("a.rs", "fn main() {}", "")]),
        Folder::new("docs"),
    ]);
    let responses = vec![
        summary_json("file summary"),
        summary_json("src summary"),
        summary_json("docs summary"),
        summary_json("repository summary"),
    ];
    let (calls, outcome) = drive_repository(git, &responses);
    assert_eq!(calls.len(), 4);
    assert_eq!(calls[0].kind, SummaryKind::File);
    assert_eq!(calls[0].prompt, file_prompt("fn main() {}"));
    assert_eq!(calls[1].kind, SummaryKind::Folder);
    assert_eq!(calls[1].prompt, folder_prompt("file summary"));
    assert_eq!(calls[2].kind, SummaryKind::Folder);
    assert_eq!(calls[2].prompt, folder_prompt(""));
    assert_eq!(calls[3].kind, SummaryKind::Repository);
    assert_eq!(calls[3].prompt, repository_prompt(" src summary docs summary"));
    assert_eq!(outcome.unwrap(), "repository summary");
}

#[test]
fn repository_run_twice_gives_identical_calls_and_output() {
    let build = || {
        git_with_folders(vec![
            folder_with(
                "src",
                vec![
                    File::new("a.rs", "fn a() {}", ""),
                    File::new("huge.rs", &oversized_text(), ""),
                ],
            ),
            folder_with("lib", vec![File::new("b.rs", "fn b() {}", "")]),
        ])
    };
    let responses: Vec<String> =
        vec![summary_json("s"), summary_json("s"), summary_json("s"), summary_json("s"), summary_json("s")];
    let (calls_one, out_one) = drive_repository(build(), &responses);
    let (calls_two, out_two) = drive_repository(build(), &responses);

    let prompts_one: Vec<&str> = calls_one.iter().map(|c| c.prompt.as_str()).collect();
    let prompts_two: Vec<&str> = calls_two.iter().map(|c| c.prompt.as_str()).collect();
    assert_eq!(prompts_one, prompts_two);
    assert_eq!(out_one.unwrap(), out_two.unwrap());

    let file_calls = calls_one.iter().filter(|c| c.kind == SummaryKind::File).count();
    let folder_calls = calls_one.iter().filter(|c| c.kind == SummaryKind::Folder).count();
    let repo_calls = calls_one.iter().filter(|c| c.kind == SummaryKind::Repository).count();
    assert_eq!(file_calls, 2);
    assert_eq!(folder_calls, 2);
    assert_eq!(repo_calls, 1);
    assert_eq!(calls_one.len(), 5);
}

#[test]
fn oversized_single_file_request_fails_without_any_call() {
    let git = git_with_folders(vec![folder_with(
        "src",
        vec![File::new("oversized.rs", &oversized_text(), "")],
    )]);
    let r = git.file_summary_request("src", "oversized.rs");
    assert!(matches!(r, Err(SummarizeError::TokenBudgetExceeded)));
}

#[test]
fn single_file_request_builds_the_file_prompt() {
    let git = git_with_folders(vec![folder_with(
        "src",
        vec![File::new("a.rs", "fn main() {}", "")],
    )]);
    let call = git.file_summary_request("src", "a.rs").unwrap();
    assert_eq!(call.kind, SummaryKind::File);
    assert_eq!(call.prompt, file_prompt("fn main() {}"));
}

#[test]
fn single_file_request_reports_missing_nodes() {
    let git = git_with_folders(vec![]);
    assert!(matches!(git.file_summary_request("src", "a.rs"), Err(SummarizeError::NoFolders)));
    let git = git_with_folders(vec![Folder::new("src")]);
    assert!(matches!(
        git.file_summary_request("docs", "a.rs"),
        Err(SummarizeError::FolderNotFound)
    ));
    assert!(matches!(
        git.file_summary_request("src", "a.rs"),
        Err(SummarizeError::FileNotFound)
    ));
}

#[test]
fn invalid_folder_response_aborts_before_repository_call() {
    let git = git_with_folders(vec![
        folder_with("src", vec![File::new("a.rs", "fn main() {}", "")]),
        Folder::new("docs"),
    ]);
    let responses = vec![summary_json("file summary"), String::from("not json")];
    let (calls, outcome) = drive_repository(git, &responses);
    match outcome.unwrap_err() {
        SummarizeError::InvalidResponse { raw, parse_error } => {
            assert_eq!(raw, "not json");
            assert!(!parse_error.is_empty());
        }
        other => panic!("expected an invalid-response error, got {:?}", other),
    }
    assert!(calls.iter().all(|c| c.kind != SummaryKind::Repository));
}

#[test]
fn folder_run_keeps_state_on_invalid_response() {
    let git = git_with_folders(vec![folder_with(
        "src",
        vec![File::new("a.rs", "fn main() {}", "")],
    )]);
    let (mut run, _first) = git.start_folder_run("src").unwrap();
    let e = run.step("{\"summary\": 1}").unwrap_err();
    assert!(matches!(e, SummarizeError::InvalidResponse { raw, .. } if raw == "{\"summary\": 1}"));
    assert!(run.in_progress());
    // The pass is unchanged: the same request can still be answered.
    let step = run.step(&summary_json("A")).unwrap();
    assert!(matches!(step, FolderStep::Next { .. }));
}

#[test]
fn first_choice_content_picks_the_first_choice() {
    let response = ChatResponse {
        id: Some(String::from("id-1")),
        object: String::from("chat.completion"),
        created: 0,
        choices: vec![
            ChatChoice {
                index: 0,
                message: ChatMessage {
                    role: String::from("assistant"),
                    content: String::from("first"),
                },
                finish_reason: String::from("stop"),
            },
            ChatChoice {
                index: 1,
                message: ChatMessage {
                    role: String::from("assistant"),
                    content: String::from("second"),
                },
                finish_reason: String::from("stop"),
            },
        ],
        usage: ChatUsage { prompt_tokens: 1, completion_tokens: 1, total_tokens: 2 },
    };
    assert_eq!(response.first_choice_content(), Some(&String::from("first")));
}

#[test]
fn first_choice_content_is_none_without_choices() {
    let response = ChatResponse {
        id: None,
        object: String::new(),
        created: 0,
        choices: vec![],
        usage: ChatUsage { prompt_tokens: 0, completion_tokens: 0, total_tokens: 0 },
    };
    assert_eq!(response.first_choice_content(), None);
}

#[test]
fn resolve_credential_prefers_supplied_non_empty_value() {
    let supplied = Some(String::from("given"));
    let environment = Some(String::from("from-env"));
    assert_eq!(resolve_credential(supplied, environment), Some(String::from("given")));
}

#[test]
fn resolve_credential_falls_back_to_environment() {
    assert_eq!(
        resolve_credential(Some(String::new()), Some(String::from("from-env"))),
        Some(String::from("from-env"))
    );
    assert_eq!(
        resolve_credential(None, Some(String::from("from-env"))),
        Some(String::from("from-env"))
    );
    assert_eq!(resolve_credential(None, None), None);
}

#[test]
fn folder_run_start_on_owned_folder_gates_files() {
    let folder = folder_with("solo", vec![File::new("x.rs", "fn x() {}", "")]);
    let (run, call) = FolderRun::start(folder);
    assert_eq!(call.kind, SummaryKind::File);
    assert_eq!(call.prompt, file_prompt("fn x() {}"));
    let _ = run;
}

fn drive_folder(
    mut run: FolderRun,
    first: ModelCall,
    responses: &[String],
) -> (Vec<ModelCall>, Result<String, SummarizeError>) {
    let mut calls = vec![first];
    let mut i: usize = 0;
    while run.in_progress() {
        let response = &responses[i];
        i += 1;
        match run.step(response.as_str()) {
            Ok(FolderStep::Next { call, .. }) => calls.push(call),
            Ok(FolderStep::Complete { folder_summary, .. }) => {
                return (calls, Ok(folder_summary.summary))
            }
            Err(e) => return (calls, Err(e)),
        }
    }
    panic!("pass ended without completing");
}

#[test]
fn folder_run_counts_one_call_per_eligible_file_plus_one() {
    let git = git_with_folders(vec![folder_with(
        "src",
        vec![
            File::new("a.rs", "fn a() {}", ""),
            File::new("huge.rs", &oversized_text(), ""),
            File::new("b.rs", "fn b() {}", ""),
        ],
    )]);
    let (run, first) = git.start_folder_run("src").unwrap();
    let responses = vec![summary_json("1"), summary_json("2"), summary_json("F")];
    let (calls, outcome) = drive_folder(run, first, &responses);
    assert_eq!(calls.len(), 3);
    assert_eq!(calls.iter().filter(|c| c.kind == SummaryKind::File).count(), 2);
    assert_eq!(calls.iter().filter(|c| c.kind == SummaryKind::Folder).count(), 1);
    assert_eq!(outcome.unwrap(), "F");
}

#[test]
fn oversized_files_lists_exactly_the_gated_out_files() {
    let folder = folder_with(
        "src",
        vec![
            File::new("a.rs", "fn a() {}", ""),
            File::new("huge.rs", &oversized_text(), ""),
            File::new("b.rs", "fn b() {}", ""),
        ],
    );
    let skipped = oversized_files(&folder);
    assert_eq!(skipped, vec![String::from("huge.rs")]);
    assert_eq!(oversized_files(&Folder::new("empty")), Vec::<String>::new());
}
