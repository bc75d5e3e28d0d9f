//! Building the prompt handed to the summarization service. The service
//! itself is an outside collaborator: sending the request and reading the
//! response stay with the callers.

use vstd::prelude::*;

use crate::textutil::{replace, spec_replace};

verus! {

/// The full prompt text: the template with `{LANGUAGE}` replaced by the
/// configured language, then `{LOGS}` replaced by the collected log text.
pub open spec fn spec_prompt(template: Seq<char>, language: Seq<char>, logs: Seq<char>) -> Seq<
    char,
> {
    spec_replace(spec_replace(template, "{LANGUAGE}"@, language), "{LOGS}"@, logs)
}

/// Fills the prompt template's placeholders.
pub fn build_prompt(template: &str, language: &str, logs: &str) -> (r: String)
    ensures
        r@ == spec_prompt(template@, language@, logs@),
{
    proof {
        reveal_strlit("{LANGUAGE}");
        reveal_strlit("{LOGS}");
    }
    let first = replace(template, "{LANGUAGE}", language);
    replace(first.as_str(), "{LOGS}", logs)
}

} // verus!
