//! Records of provider calls.
use crate::model::usage::Usage;
use crate::text;
use vstd::prelude::*;

verus! {

/// Which protocol a provider speaks.
#[derive(Clone, Copy, Debug, PartialEq, Eq, Structural)]
pub enum ProviderType {
    OpenAiChat,
    OpenAiResponses,
    Anthropic,
}

impl ProviderType {
    /// The name under which a protocol is filed.
    pub open spec fn name(self) -> Seq<char> {
        match self {
            ProviderType::OpenAiChat => "openai-chat"@,
            ProviderType::OpenAiResponses => "openai-responses"@,
            ProviderType::Anthropic => "anthropic"@,
        }
    }

    /// The name under which a protocol is filed.
    pub fn as_str(self) -> (r: &'static str)
        ensures
            r@ == self.name(),
    {
        match self {
            ProviderType::OpenAiChat => "openai-chat",
            ProviderType::OpenAiResponses => "openai-responses",
            ProviderType::Anthropic => "anthropic",
        }
    }

    /// The protocol that is filed under a name.
    pub fn from_name(name: &str) -> (r: Option<ProviderType>)
        ensures
            match r {
                Some(kind) => kind.name() == name@,
                None => forall|kind: ProviderType| #[trigger] kind.name() != name@,
            },
    {
        if text::same(name, "openai-chat") {
            Some(ProviderType::OpenAiChat)
        } else if text::same(name, "openai-responses") {
            Some(ProviderType::OpenAiResponses)
        } else if text::same(name, "anthropic") {
            Some(ProviderType::Anthropic)
        } else {
            None
        }
    }
}

/// No two protocols are filed under the same name.
pub proof fn law_provider_names_differ(a: ProviderType, b: ProviderType)
    ensures
        a.name() == b.name() ==> a == b,
{
    reveal_strlit("openai-chat");
    reveal_strlit("openai-responses");
    reveal_strlit("anthropic");
    assert("openai-chat"@.len() == 11);
    assert("openai-responses"@.len() == 16);
    assert("anthropic"@.len() == 9);
}

/// A provider call that is about to be made.
#[derive(Debug)]
pub struct NewLlmCall {
    pub call_id: String,
    pub run_id: String,
    pub conversation_id: String,
    pub provider_call_index: i64,
    pub model_hash: String,
    pub provider_type: ProviderType,
    pub provider_url: String,
    pub request_type: ProviderType,
    pub request_url: String,
    pub model_id: String,
    pub display_name: String,
    pub reasoning_effort: Option<String>,
    pub fast: bool,
    pub message_count: usize,
    pub tool_count: usize,
    pub detailed: bool,
}

/// The usage that a provider reported for a known number of messages and tools.
#[derive(Clone, Copy, Debug, PartialEq, Eq, Structural)]
pub struct LlmCallUsageAnchor {
    pub request_type: ProviderType,
    pub usage: Usage,
    pub message_count: usize,
    pub tool_count: usize,
}

/// A piece of a provider's response as it is stored.
#[derive(Debug)]
pub struct LlmCallResponseChunk {
    pub seq: i64,
    pub received_offset_ms: i64,
    pub data: String,
    pub byte_count: i64,
}

} // verus!
