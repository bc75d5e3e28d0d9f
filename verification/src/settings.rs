//! Settings for the summarization collaborator, and how the `config` command
//! updates them.

use vstd::prelude::*;

verus! {

/// Settings of the summarization service: where to send the request, which
/// model to name, the credential, and how the prompt is built.
#[derive(Debug)]
pub struct AiConfig {
    pub api_url: String,
    pub model: String,
    pub api_key: String,
    pub language: String,
    pub prompt: String,
}

/// The application's configuration value, built once at start and passed to
/// whatever needs it.
#[derive(Debug)]
pub struct AppConfig {
    pub ai: AiConfig,
}

impl Default for AppConfig {
    /// The settings used when no configuration file exists yet.
    fn default() -> (r: Self)
        ensures
            r.ai.api_url@ == "http://localhost:11434/v1/chat/completions"@,
            r.ai.model@ == "llama3"@,
            r.ai.api_key@ == ""@,
            r.ai.language@ == "English"@,
            r.ai.prompt@ == spec_default_prompt(),
    {
        AppConfig {
            ai: AiConfig {
                api_url: "http://localhost:11434/v1/chat/completions".to_owned(),
                model: "llama3".to_owned(),
                api_key: "".to_owned(),
                language: "English".to_owned(),
                prompt: default_prompt_text().to_owned(),
            },
        }
    }
}

/// The default prompt template; `{LANGUAGE}` and `{LOGS}` are the
/// placeholders the summarization call fills in.
pub open spec fn spec_default_prompt() -> Seq<char> {
    r#"Act as a software developer giving a quick verbal update at a Daily Scrum meeting.
Based on the commit logs below, draft a ** short, conversational summary**  in {LANGUAGE}.
Use the first person ("I finished...", "I fixed...").
Group related tasks together. Mention the project name when describing the work.
Do NOT use bullet points, commit hashes, or technical jargon. Keep it casual and compact.

Commit Logs:
{LOGS}"#@
}

/// Executable twin of [`spec_default_prompt`].
pub fn default_prompt_text() -> (r: &'static str)
    ensures
        r@ == spec_default_prompt(),
{
    r#"Act as a software developer giving a quick verbal update at a Daily Scrum meeting.
Based on the commit logs below, draft a ** short, conversational summary**  in {LANGUAGE}.
Use the first person ("I finished...", "I fixed...").
Group related tasks together. Mention the project name when describing the work.
Do NOT use bullet points, commit hashes, or technical jargon. Keep it casual and compact.

Commit Logs:
{LOGS}"#
}

/// Applies the requested setting changes, each given value replacing its
/// field; returns whether anything changed.
pub fn apply_updates(
    cfg: &mut AppConfig,
    set_key: Option<String>,
    set_url: Option<String>,
    set_model: Option<String>,
    set_prompt: Option<String>,
    set_lang: Option<String>,
) -> (changed: bool)
    ensures
        final(cfg).ai.api_key == (match set_key {
            Some(v) => v,
            None => old(cfg).ai.api_key,
        }),
        final(cfg).ai.api_url == (match set_url {
            Some(v) => v,
            None => old(cfg).ai.api_url,
        }),
        final(cfg).ai.model == (match set_model {
            Some(v) => v,
            None => old(cfg).ai.model,
        }),
        final(cfg).ai.prompt == (match set_prompt {
            Some(v) => v,
            None => old(cfg).ai.prompt,
        }),
        final(cfg).ai.language == (match set_lang {
            Some(v) => v,
            None => old(cfg).ai.language,
        }),
        changed == (set_key is Some || set_url is Some || set_model is Some || set_prompt is Some
            || set_lang is Some),
{
    let mut changed = false;
    if let Some(v) = set_url {
        cfg.ai.api_url = v;
        changed = true;
    }
    if let Some(v) = set_key {
        cfg.ai.api_key = v;
        changed = true;
    }
    if let Some(v) = set_model {
        cfg.ai.model = v;
        changed = true;
    }
    if let Some(v) = set_prompt {
        cfg.ai.prompt = v;
        changed = true;
    }
    if let Some(v) = set_lang {
        cfg.ai.language = v;
        changed = true;
    }
    changed
}

} // verus!
