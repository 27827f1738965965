//! The AI semantic analysis of a command: its types, and the text sent to and received from the model.
use vstd::prelude::*;
use crate::text::{char_count, ends_with, has_prefix, has_suffix, owned, push_str, skip_chars, starts_with, take_chars, trim, trimmed};

verus! {

/// The course of action the AI analysis recommends.
#[derive(Clone, Copy, Debug, PartialEq, Eq, Structural)]
pub enum AIRecommendation {
    Proceed,
    ProceedWithTransaction,
    Block,
    Escalate,
}

/// The AI analysis of a command.
pub struct AIAnalysis {
    pub intent: String,
    pub explanation: String,
    pub recommendation: AIRecommendation,
}

/// The endpoint of the model that analyses commands, for the given API key.
pub open spec fn analysis_url(api_key: Seq<char>) -> Seq<char> {
    "https://generativelanguage.googleapis.com/v1beta/models/gemini-3.5-flash:generateContent?key="@
        + api_key
}

/// The endpoint of the model that analyses commands (see [`analysis_url`]).
pub fn gemini_url(api_key: &str) -> (r: String)
    ensures
        r@ == analysis_url(api_key@),
{
    let mut r = owned(
        "https://generativelanguage.googleapis.com/v1beta/models/gemini-3.5-flash:generateContent?key=",
    );
    push_str(&mut r, api_key);
    r
}

/// The instructions sent to the model: the command, its risk profile and the state of
/// its targets (both as JSON text), and the shape of the answer expected.
pub open spec fn spec_analysis_prompt(command: Seq<char>, risk_json: Seq<char>, targets_json: Seq<char>) -> Seq<
    char,
> {
    "You are the AI Semantic Layer for Chronos, a transactional POSIX shell.\nAnalyze the following command context:\n\nCommand: "@
        + command + "\nDeterministic Risk Profile:\n"@ + risk_json + "\nFilesystem Targets State:\n"@
        + targets_json
        + "\n\nReturn ONLY a raw JSON object with exactly three keys:\n- 'intent': A one-sentence summary of what the user is trying to accomplish.\n- 'explanation': A brief breakdown of how the command works and what it impacts.\n- 'recommendation': Advise exactly one of these string values: 'Proceed', 'ProceedWithTransaction', 'Block', or 'Escalate'.\nDo NOT output markdown, backticks, or conversational text."@
}

/// The instructions sent to the model (see [`spec_analysis_prompt`]).
pub fn analysis_prompt(command: &str, risk_json: &str, targets_json: &str) -> (r: String)
    ensures
        r@ == spec_analysis_prompt(command@, risk_json@, targets_json@),
{
    let mut r = owned(
        "You are the AI Semantic Layer for Chronos, a transactional POSIX shell.\nAnalyze the following command context:\n\nCommand: ",
    );
    push_str(&mut r, command);
    push_str(&mut r, "\nDeterministic Risk Profile:\n");
    push_str(&mut r, risk_json);
    push_str(&mut r, "\nFilesystem Targets State:\n");
    push_str(&mut r, targets_json);
    push_str(
        &mut r,
        "\n\nReturn ONLY a raw JSON object with exactly three keys:\n- 'intent': A one-sentence summary of what the user is trying to accomplish.\n- 'explanation': A brief breakdown of how the command works and what it impacts.\n- 'recommendation': Advise exactly one of these string values: 'Proceed', 'ProceedWithTransaction', 'Block', or 'Escalate'.\nDo NOT output markdown, backticks, or conversational text.",
    );
    r
}

/// The answer text without blanks around it and without a Markdown code fence (an
/// opening ```` ```json ```` or ```` ``` ````, a closing ```` ``` ````).
pub open spec fn spec_strip_fence(text: Seq<char>) -> Seq<char> {
    let a = trim(text);
    let b = if has_prefix(a, "```json"@) {
        a.skip("```json"@.len() as int)
    } else if has_prefix(a, "```"@) {
        a.skip("```"@.len() as int)
    } else {
        a
    };
    let c = if has_suffix(b, "```"@) {
        b.take(b.len() - "```"@.len())
    } else {
        b
    };
    trim(c)
}

/// Removes the blanks and the code fence around the model's answer (see
/// [`spec_strip_fence`]).
pub fn strip_code_fence(text: &str) -> (r: String)
    ensures
        r@ == spec_strip_fence(text@),
{
    let a = trimmed(text);
    let b = if starts_with(a.as_str(), "```json") {
        skip_chars(a.as_str(), char_count("```json"))
    } else if starts_with(a.as_str(), "```") {
        skip_chars(a.as_str(), char_count("```"))
    } else {
        a
    };
    let c = if ends_with(b.as_str(), "```") {
        let n = char_count(b.as_str()) - char_count("```");
        take_chars(b.as_str(), n)
    } else {
        b
    };
    trimmed(c.as_str())
}

/// The message for an answer that is not a valid analysis: what the JSON parser said and
/// the text it was given.
pub fn parse_error_message(error: &str, text: &str) -> (r: String)
    ensures
        r@ == "JSON Parse Error: "@ + error@ + ". Raw text: "@ + text@,
{
    let mut r = owned("JSON Parse Error: ");
    push_str(&mut r, error);
    push_str(&mut r, ". Raw text: ");
    push_str(&mut r, text);
    r
}

} // verus!
