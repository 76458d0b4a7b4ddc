//! Language-model adapters and the clean-up of their replies.
use vstd::prelude::*;

use crate::text::{chars_of, strip_and_trim, strip_leading, strip_trailing, trim_white};

verus! {

/// An adapter for OpenAI models. It does not call the service yet: every
/// completion is a fixed mocked reply.
#[derive(Debug)]
pub struct OpenAiAdapter {
    api_key: String,
    model: String,
}

impl OpenAiAdapter {
    /// The key the adapter was made with.
    pub closed spec fn key(&self) -> Seq<char> {
        self.api_key@
    }

    /// The model the adapter was made with.
    pub closed spec fn model_name(&self) -> Seq<char> {
        self.model@
    }

    /// An adapter using `api_key` and `model`.
    pub fn new(api_key: String, model: String) -> (adapter: Self)
        ensures
            adapter.key() == api_key@,
            adapter.model_name() == model@,
    {
        OpenAiAdapter { api_key, model }
    }

    /// The reply to `prompt`: always the mocked OpenAI reply.
    pub fn reply(&self, prompt: &str) -> (reply: Result<String, String>)
        ensures
            reply matches Ok(text) && text@ == "Mocked response from OpenAI"@,
    {
        Ok("Mocked response from OpenAI".to_string())
    }
}

/// An adapter for Gemini models. It does not call the service yet: every
/// completion is a fixed mocked reply.
#[derive(Debug)]
pub struct GeminiAdapter {
    api_key: String,
    model: String,
}

impl GeminiAdapter {
    /// The key the adapter was made with.
    pub closed spec fn key(&self) -> Seq<char> {
        self.api_key@
    }

    /// The model the adapter was made with.
    pub closed spec fn model_name(&self) -> Seq<char> {
        self.model@
    }

    /// An adapter using `api_key` and `model`.
    pub fn new(api_key: String, model: String) -> (adapter: Self)
        ensures
            adapter.key() == api_key@,
            adapter.model_name() == model@,
    {
        GeminiAdapter { api_key, model }
    }

    /// The reply to `prompt`: always the mocked Gemini reply.
    pub fn reply(&self, prompt: &str) -> (reply: Result<String, String>)
        ensures
            reply matches Ok(text) && text@ == "Mocked response from Gemini"@,
    {
        Ok("Mocked response from Gemini".to_string())
    }
}

/// The opening fence of a JSON code block: three backticks and `json`.
pub open spec fn json_fence() -> Seq<char> {
    seq!['`', '`', '`', 'j', 's', 'o', 'n']
}

/// The closing fence of a code block: three backticks.
pub open spec fn code_fence() -> Seq<char> {
    seq!['`', '`', '`']
}

/// A model's reply with leading JSON fences, trailing fences and the
/// surrounding white space removed.
pub open spec fn cleaned_reply(reply: Seq<char>) -> Seq<char> {
    trim_white(strip_trailing(strip_leading(reply, json_fence()), code_fence()))
}

/// Removes the markdown fences a model may wrap JSON in, then the white
/// space around it.
pub fn clean_json_reply(reply: &str) -> (cleaned: String)
    ensures
        cleaned@ == cleaned_reply(reply@),
{
    let text = chars_of(reply);
    let open_fence = vec!['`', '`', '`', 'j', 's', 'o', 'n'];
    let close_fence = vec!['`', '`', '`'];
    assert(open_fence@ =~= json_fence());
    assert(close_fence@ =~= code_fence());
    strip_and_trim(&text, &open_fence, &close_fence)
}

} // verus!
