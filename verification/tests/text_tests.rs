use yestergit::ai::build_prompt;
use yestergit::db::ManuelEntry;
use yestergit::git_ops::CommitLog;
use yestergit::report::{basename, collect_logs_as_string};
use yestergit::settings::{apply_updates, AppConfig};
use yestergit::textutil::{ci_match, first_line, replace, str_contains, trim};

#[test]
fn trim_removes_leading_and_trailing_whitespace() {
    assert_eq!(trim("  a b \t\r\n"), "a b");
    assert_eq!(trim("plain"), "plain");
    assert_eq!(trim("   "), "");
    assert_eq!(trim(""), "");
}

#[test]
fn first_line_stops_at_newline() {
    assert_eq!(first_line("one\ntwo\nthree"), "one");
    assert_eq!(first_line("no newline"), "no newline");
    assert_eq!(first_line("\nrest"), "");
    assert_eq!(first_line(""), "");
}

#[test]
fn str_contains_finds_substrings() {
    assert!(str_contains("hello world", "lo wo"));
    assert!(str_contains("hello", ""));
    assert!(!str_contains("hello", "world"));
    assert!(!str_contains("ab", "abc"));
}

#[test]
fn ci_match_ignores_case() {
    assert!(ci_match("Alice Smith", "ALICE"));
    assert!(ci_match("Alice Smith", "smith"));
    assert!(ci_match("ALICE SMITH", "Alice Smith"));
    assert!(!ci_match("Alice Smith", "Bob"));
}

#[test]
fn replace_substitutes_every_occurrence() {
    assert_eq!(replace("a-b-c", "-", "+"), "a+b+c");
    assert_eq!(replace("aaa", "aa", "b"), "ba");
    assert_eq!(replace("none here", "xyz", "q"), "none here");
}

#[test]
fn build_prompt_fills_placeholders() {
    let r = build_prompt("Speak {LANGUAGE}. Logs:\n{LOGS}", "English", "- did it\n");
    assert_eq!(r, "Speak English. Logs:\n- did it\n");
}

#[test]
fn default_settings_match_expectations() {
    let cfg = AppConfig::default();
    assert_eq!(cfg.ai.api_url, "http://localhost:11434/v1/chat/completions");
    assert_eq!(cfg.ai.model, "llama3");
    assert_eq!(cfg.ai.api_key, "");
    assert_eq!(cfg.ai.language, "English");
    assert!(cfg.ai.prompt.contains("{LANGUAGE}"));
    assert!(cfg.ai.prompt.contains("{LOGS}"));
}

#[test]
fn apply_updates_sets_only_given_fields() {
    let mut cfg = AppConfig::default();
    let changed = apply_updates(&mut cfg, None, None, Some("mistral".to_string()), None, None);
    assert!(changed);
    assert_eq!(cfg.ai.model, "mistral");
    assert_eq!(cfg.ai.language, "English");

    let unchanged = apply_updates(&mut cfg, None, None, None, None, None);
    assert!(!unchanged);
    assert_eq!(cfg.ai.model, "mistral");
}

#[test]
fn basename_takes_the_last_segment() {
    assert_eq!(basename("/home/user/proj"), "proj");
    assert_eq!(basename("proj"), "proj");
    assert_eq!(basename(""), "");
}

#[test]
fn collect_logs_builds_the_expected_text() {
    let groups = vec![
        (
            "proj".to_string(),
            vec![CommitLog {
                message: "Did thing".to_string(),
                author: "A".to_string(),
                date: 10,
                hash: "0123456".to_string(),
            }],
        ),
        ("empty".to_string(), Vec::new()),
    ];
    let notes = vec![
        ManuelEntry { message: "  Note A ".to_string(), date: 10 },
        ManuelEntry { message: "too old".to_string(), date: 1 },
    ];

    let text = collect_logs_as_string(&groups, &notes, 5);

    assert_eq!(text, "Project: proj\n- Did thing\n\n\n --- Manual Notes --\nNote: Note A\n");
}

#[test]
fn collect_logs_without_kept_notes_has_no_notes_header() {
    let groups: Vec<(String, Vec<CommitLog>)> = Vec::new();
    let notes = vec![ManuelEntry { message: "old".to_string(), date: 1 }];

    let text = collect_logs_as_string(&groups, &notes, 5);

    assert_eq!(text, "");
}
