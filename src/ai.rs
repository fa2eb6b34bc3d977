use vstd::prelude::*;

use crate::text::{byte_len, contains};

verus! {

/// Sender role of a chat message.
#[derive(PartialEq, Eq, Structural, Clone, Copy, Debug)]
pub enum Role {
    System,
    User,
    Assistant,
    Tool,
}

/// Name and JSON-encoded arguments of a requested function invocation.
pub struct FunctionCall {
    pub name: String,
    pub arguments: String,
}

/// A tool invocation emitted by the gateway; the caller echoes `id` back.
pub struct ToolCall {
    pub id: String,
    pub kind: String,
    pub function: FunctionCall,
}

/// One message of a conversation.
pub struct ChatMessage {
    pub role: Role,
    pub content: Option<String>,
    pub tool_calls: Option<Vec<ToolCall>>,
    pub tool_call_id: Option<String>,
    pub name: Option<String>,
}

/// Schema of a callable function; `parameters` is JSON schema text.
pub struct FunctionDefinition {
    pub name: String,
    pub description: String,
    pub parameters: String,
}

/// A tool offered to the model, in OpenAI shape.
pub struct Tool {
    pub kind: String,
    pub function: FunctionDefinition,
}

/// Function pinned by a tool choice.
pub struct FunctionChoice {
    pub name: String,
}

/// Caller's tool-choice constraint: a mode keyword or a pinned function.
pub enum ToolChoice {
    Auto(String),
    Function { kind: String, function: FunctionChoice },
}

/// An OpenAI-compatible chat completion request.
pub struct ChatCompletionRequest {
    pub model: String,
    pub messages: Vec<ChatMessage>,
    pub max_tokens: Option<u32>,
    pub stream: Option<bool>,
    pub tools: Option<Vec<Tool>>,
    pub tool_choice: Option<ToolChoice>,
}

/// Why generation stopped for a choice.
#[derive(PartialEq, Eq, Structural, Clone, Copy, Debug)]
pub enum FinishReason {
    Stop,
    Length,
    ToolCalls,
    ContentFilter,
}

/// The single choice of a completion response.
pub struct ChatChoice {
    pub index: u32,
    pub message: ChatMessage,
    pub finish_reason: FinishReason,
}

/// Token accounting of a completion.
pub struct Usage {
    pub prompt_tokens: u32,
    pub completion_tokens: u32,
    pub total_tokens: u32,
}

/// An OpenAI-compatible chat completion response.
pub struct ChatCompletionResponse {
    pub id: String,
    pub object: String,
    pub created: u64,
    pub model: String,
    pub choices: Vec<ChatChoice>,
    pub usage: Usage,
}

/// Estimated prompt tokens of one message: a quarter of its content bytes,
/// plus ten per tool call.
pub open spec fn message_tokens(m: ChatMessage) -> nat {
    (match m.content {
        Some(c) => byte_len(c@) / 4,
        None => 0,
    }) + (match m.tool_calls {
        Some(calls) => 10 * calls@.len(),
        None => 0,
    })
}

/// Estimated prompt tokens of a message list.
pub open spec fn prompt_tokens(msgs: Seq<ChatMessage>) -> nat
    decreases msgs.len(),
{
    if msgs.len() == 0 {
        0
    } else {
        prompt_tokens(msgs.drop_last()) + message_tokens(msgs.last())
    }
}

/// Content of the last user message (empty when it has none, or there is none).
pub open spec fn user_query(msgs: Seq<ChatMessage>) -> Seq<char>
    decreases msgs.len(),
{
    if msgs.len() == 0 {
        Seq::empty()
    } else if msgs.last().role == Role::User {
        match msgs.last().content {
            Some(c) => c@,
            None => Seq::empty(),
        }
    } else {
        user_query(msgs.drop_last())
    }
}

/// Whether some message has the given role.
pub open spec fn has_role(msgs: Seq<ChatMessage>, role: Role) -> bool {
    exists|i: int| 0 <= i < msgs.len() && #[trigger] msgs[i].role == role
}

fn message_token_count(m: &ChatMessage) -> (r: u128)
    ensures
        r == message_tokens(*m),
{
    let c: u128 = match &m.content {
        Some(c) => (c.as_str().len() / 4) as u128,
        None => 0,
    };
    let t: u128 = match &m.tool_calls {
        Some(calls) => 10 * (calls.len() as u128),
        None => 0,
    };
    c + t
}

/// Prompt tokens of `messages` when they do not exceed `budget`, else `None`.
pub fn checked_tokens(messages: &Vec<ChatMessage>, budget: u32) -> (r: Option<u32>)
    ensures
        match r {
            Some(t) => t == prompt_tokens(messages@) && prompt_tokens(messages@) <= budget,
            None => prompt_tokens(messages@) > budget,
        },
{
    let mut total: u64 = 0;
    let mut i: usize = 0;
    while i < messages.len()
        invariant
            i <= messages@.len(),
            total == prompt_tokens(messages@.subrange(0, i as int)),
            total <= budget,
        decreases messages@.len() - i,
    {
        let t = message_token_count(&messages[i]);
        proof {
            let s = messages@.subrange(0, i + 1);
            assert(s.drop_last() =~= messages@.subrange(0, i as int));
        }
        if t > (budget as u128) - (total as u128) {
            proof { lemma_prompt_tokens_prefix(messages@, i + 1); }
            return None;
        }
        total = total + t as u64;
        i = i + 1;
    }
    assert(messages@.subrange(0, i as int) =~= messages@);
    Some(total as u32)
}

/// Tokens of a prefix never exceed those of the whole list.
pub proof fn lemma_prompt_tokens_prefix(msgs: Seq<ChatMessage>, k: int)
    requires
        0 <= k <= msgs.len(),
    ensures
        prompt_tokens(msgs.subrange(0, k)) <= prompt_tokens(msgs),
    decreases msgs.len() - k,
{
    if k < msgs.len() {
        lemma_prompt_tokens_prefix(msgs, k + 1);
        assert(msgs.subrange(0, k + 1).drop_last() =~= msgs.subrange(0, k));
    } else {
        assert(msgs.subrange(0, k) =~= msgs);
    }
}

/// Estimated prompt tokens of `messages`.
pub fn calculate_tokens(messages: &Vec<ChatMessage>) -> (r: u32)
    requires
        prompt_tokens(messages@) <= u32::MAX,
    ensures
        r == prompt_tokens(messages@),
{
    match checked_tokens(messages, u32::MAX) {
        Some(t) => t,
        None => 0,
    }
}

/// Content of the last user message, or an empty string.
pub fn extract_user_query(messages: &Vec<ChatMessage>) -> (r: String)
    ensures
        r@ == user_query(messages@),
{
    let mut i: usize = messages.len();
    assert(messages@.subrange(0, i as int) =~= messages@);
    while i > 0
        invariant
            i <= messages@.len(),
            user_query(messages@) == user_query(messages@.subrange(0, i as int)),
        decreases i,
    {
        proof {
            let s = messages@.subrange(0, i as int);
            assert(s.drop_last() =~= messages@.subrange(0, i - 1));
        }
        let m = &messages[i - 1];
        if m.role == Role::User {
            return match &m.content {
                Some(c) => c.clone(),
                None => String::new(),
            };
        }
        i = i - 1;
    }
    String::new()
}

/// Whether some message of the list has the given role.
pub fn any_with_role(messages: &Vec<ChatMessage>, role: Role) -> (r: bool)
    ensures
        r == has_role(messages@, role),
{
    let mut i: usize = 0;
    while i < messages.len()
        invariant
            i <= messages@.len(),
            forall|k: int| 0 <= k < i ==> #[trigger] messages@[k].role != role,
        decreases messages@.len() - i,
    {
        if messages[i].role == role {
            return true;
        }
        i = i + 1;
    }
    false
}

} // verus!
