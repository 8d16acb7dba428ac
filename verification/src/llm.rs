//! What the library decides around the black-box completion provider: how a
//! conversation is assembled into the provider's message list, the prompts
//! for dreams and reflections, and how the provider's free-text mood reply
//! is normalized into the fixed vocabulary.

use vstd::prelude::*;
use crate::models::{ChatMessage, OllamaMessage};
use crate::text::{chars_vec, contains_chars, contains_seq};
use crate::chunking::{trim_chars, trim_spec};
use crate::state::UNIT;

verus! {

use vstd::string::StringExecFns;

/// The persona prompt used when none is configured.
pub fn default_system_prompt() -> (r: String)
    ensures
        r@
            == "You are Azera, a thoughtful and curious AI entity. Respond with wisdom, empathy, and intellectual rigor. Be concise but meaningful."@,
{
    "You are Azera, a thoughtful and curious AI entity. Respond with wisdom, empathy, and intellectual rigor. Be concise but meaningful.".to_owned()
}

/// Assembles the provider's message list: the system prompt first, the chat
/// history in order, and the user's new message last.
pub fn build_messages(system_prompt: &str, history: &Vec<ChatMessage>, user_input: &str) -> (r:
    Vec<OllamaMessage>)
    ensures
        r@.len() == history@.len() + 2,
        r@[0].role@ == "system"@,
        r@[0].content@ == system_prompt@,
        forall|i: int|
            0 <= i < history@.len() ==> (#[trigger] r@[i + 1]).role@ == history@[i].role@ && r@[i
                + 1].content@ == history@[i].content@,
        r@[r@.len() - 1].role@ == "user"@,
        r@[r@.len() - 1].content@ == user_input@,
{
    let mut r: Vec<OllamaMessage> = Vec::new();
    r.push(OllamaMessage { role: "system".to_owned(), content: system_prompt.to_owned() });
    let n = history.len();
    for i in it: 0..n
        invariant
            n == history@.len(),
            r@.len() == i + 1,
            r@[0].role@ == "system"@,
            r@[0].content@ == system_prompt@,
            forall|j: int|
                0 <= j < i ==> (#[trigger] r@[j + 1]).role@ == history@[j].role@ && r@[j
                    + 1].content@ == history@[j].content@,
    {
        r.push(
            OllamaMessage { role: history[i].role.clone(), content: history[i].content.clone() },
        );
    }
    r.push(OllamaMessage { role: "user".to_owned(), content: user_input.to_owned() });
    r
}

/// The prompt that asks for a daily reflection over the day's context.
pub fn build_reflection_prompt(context: &str) -> (r: String)
    ensures
        r@
            == "Based on the following context, provide a thoughtful reflection about the day's interactions and what was learned:\n\n"@
            + context@ + "\n\nProvide your reflection in markdown format."@,
{
    "Based on the following context, provide a thoughtful reflection about the day's interactions and what was learned:\n\n".to_owned().concat(
        context,
    ).concat("\n\nProvide your reflection in markdown format.")
}

/// The prompt that asks for a dream around a concept and recent context.
pub fn build_dream_prompt(random_concept: &str, context: &str) -> (r: String)
    ensures
        r@ == "Hallucinate a creative and abstract connection between '"@ + random_concept@
            + "' and this recent context: "@ + context@
            + "\n\nMake it poetic and introspective. 1-2 paragraphs."@,
{
    "Hallucinate a creative and abstract connection between '".to_owned().concat(
        random_concept,
    ).concat("' and this recent context: ").concat(context).concat(
        "\n\nMake it poetic and introspective. 1-2 paragraphs.",
    )
}

/// The classification prompt for inferring a reply's mood: the fixed
/// instruction naming the eight-label vocabulary, around the text to
/// analyze capped at five hundred characters. The provider answers it in a
/// low-temperature, short-output mode; `normalize_mood_reply` reads the
/// answer.
pub fn build_mood_prompt(response_text: &str) -> (r: String)
    ensures
        r@
            == "Analyze the emotional tone of the following text and respond with ONLY ONE word from this list:\nhappy, content, thoughtful, melancholy, curious, excited, calm, concerned\n\nText to analyze:\n\""@
            + crate::text::take_prefix(response_text@, 500)
            + "\"\n\nRespond with only the single mood word, nothing else."@,
{
    let capped = crate::text::truncate_chars(response_text, 500);
    "Analyze the emotional tone of the following text and respond with ONLY ONE word from this list:\nhappy, content, thoughtful, melancholy, curious, excited, calm, concerned\n\nText to analyze:\n\"".to_owned().concat(
        capped.as_str(),
    ).concat("\"\n\nRespond with only the single mood word, nothing else.")
}

/// What lowercasing makes of a text; a function of the characters alone.
pub uninterp spec fn lower_of(s: Seq<char>) -> Seq<char>;

/// Relies on str::to_lowercase: the result depends on the characters alone,
/// the same in every process.
#[verifier::external_body]
pub(crate) fn lowercase(s: &str) -> (r: String)
    ensures
        r@ == lower_of(s@),
{
    s.to_lowercase()
}

/// The mood vocabulary, checked in this order; a reply matching none of the
/// eight labels falls back to the default.
pub open spec fn spec_normalize_mood(lowered: Seq<char>) -> Seq<char> {
    if contains_seq(lowered, "happy"@) {
        "happy"@
    } else if contains_seq(lowered, "content"@) {
        "content"@
    } else if contains_seq(lowered, "thoughtful"@) {
        "thoughtful"@
    } else if contains_seq(lowered, "melancholy"@) {
        "melancholy"@
    } else if contains_seq(lowered, "curious"@) {
        "curious"@
    } else if contains_seq(lowered, "excited"@) {
        "excited"@
    } else if contains_seq(lowered, "calm"@) {
        "calm"@
    } else if contains_seq(lowered, "concerned"@) {
        "concerned"@
    } else {
        "content"@
    }
}

/// Normalizes the provider's free-text mood reply: the reply is trimmed and
/// lowercased, and the first vocabulary label it mentions wins; a reply
/// mentioning none yields the default label.
pub fn normalize_mood_reply(raw: &str) -> (r: String)
    ensures
        r@ == spec_normalize_mood(lower_of(trim_spec(raw@))),
{
    let raw_chars = chars_vec(raw);
    let trimmed = trim_chars(&raw_chars);
    let trimmed_str = crate::text::string_from_chars(&trimmed);
    let lowered = lowercase(trimmed_str.as_str());
    let lv = chars_vec(lowered.as_str());
    if contains_chars(&lv, &chars_vec("happy")) {
        "happy".to_owned()
    } else if contains_chars(&lv, &chars_vec("content")) {
        "content".to_owned()
    } else if contains_chars(&lv, &chars_vec("thoughtful")) {
        "thoughtful".to_owned()
    } else if contains_chars(&lv, &chars_vec("melancholy")) {
        "melancholy".to_owned()
    } else if contains_chars(&lv, &chars_vec("curious")) {
        "curious".to_owned()
    } else if contains_chars(&lv, &chars_vec("excited")) {
        "excited".to_owned()
    } else if contains_chars(&lv, &chars_vec("calm")) {
        "calm".to_owned()
    } else if contains_chars(&lv, &chars_vec("concerned")) {
        "concerned".to_owned()
    } else {
        "content".to_owned()
    }
}

/// The mood value behind each label, in affect units of one millionth.
pub open spec fn spec_mood_value(label: Seq<char>) -> u32 {
    if label == "happy"@ {
        850_000u32
    } else if label == "excited"@ {
        900_000u32
    } else if label == "content"@ {
        700_000u32
    } else if label == "calm"@ {
        650_000u32
    } else if label == "curious"@ {
        750_000u32
    } else if label == "thoughtful"@ {
        600_000u32
    } else if label == "melancholy"@ {
        300_000u32
    } else if label == "concerned"@ {
        400_000u32
    } else {
        600_000u32
    }
}

/// Maps a mood label to the value written to the mental-state store.
pub fn mood_value_for(label: &str) -> (r: u32)
    ensures
        r == spec_mood_value(label@),
        r <= UNIT,
{
    let l = label.to_owned();
    if l == "happy".to_owned() {
        850_000
    } else if l == "excited".to_owned() {
        900_000
    } else if l == "content".to_owned() {
        700_000
    } else if l == "calm".to_owned() {
        650_000
    } else if l == "curious".to_owned() {
        750_000
    } else if l == "thoughtful".to_owned() {
        600_000
    } else if l == "melancholy".to_owned() {
        300_000
    } else if l == "concerned".to_owned() {
        400_000
    } else {
        600_000
    }
}

} // verus!
