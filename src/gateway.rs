use vstd::prelude::*;

use crate::ai::{
    any_with_role, checked_tokens, extract_user_query, has_role, message_tokens, prompt_tokens,
    user_query, ChatChoice, ChatCompletionRequest, ChatCompletionResponse, ChatMessage,
    FinishReason, FunctionCall, Role, Tool, ToolCall, Usage,
};
use crate::error::{GatewayError, GatewayErrorKind};
use crate::mcp::{describes, McpRegistry};
use crate::outside::{json_quote, json_string_of, unix_now};
use crate::rag::{context_tag, first_user_at, retrieved, format_context, injected_at, RagContext, RagService};
use crate::text::{byte_len, contains, decimal, push_decimal, str_contains};

verus! {

/// How the gateway decides between a tool call and a direct answer.
pub enum DecisionPolicy {
    /// Routes on words of the user query: a mention of searching calls
    /// `search_web`; one of a file or of reading calls `read_file`.
    KeywordHeuristic,
    /// A model backend has decided already: call this function, or answer
    /// directly when there is none.
    ModelBacked(Option<FunctionCall>),
}

/// The query asks for a tool: it mentions searching, a file or reading.
pub open spec fn keyword_hit(q: Seq<char>) -> bool {
    contains(q, "search"@) || contains(q, "file"@) || contains(q, "read"@)
}

/// Tools available to the request: the caller's own when given, else the
/// registry's when it has any.
pub open spec fn resolved_tools(req: ChatCompletionRequest, registry_tools: Seq<Tool>) -> Option<Seq<Tool>> {
    match req.tools {
        Some(t) => Some(t@),
        None => if registry_tools.len() > 0 { Some(registry_tools) } else { None },
    }
}

/// Number of tools available to the request.
pub open spec fn tool_count(req: ChatCompletionRequest, registry_tools: Seq<Tool>) -> Option<nat> {
    match resolved_tools(req, registry_tools) {
        Some(t) => Some(t.len()),
        None => None,
    }
}

/// Some tool of `tools` is a function named `name`.
pub open spec fn offers(tools: Seq<Tool>, name: Seq<char>) -> bool {
    exists|i: int| 0 <= i < tools.len() && #[trigger] tools[i].function.name@ == name
}

/// The policy asks for a tool call on query `q`.
pub open spec fn policy_calls(policy: DecisionPolicy, q: Seq<char>) -> bool {
    match policy {
        DecisionPolicy::KeywordHeuristic => keyword_hit(q),
        DecisionPolicy::ModelBacked(c) => c is Some,
    }
}

/// The request is answered with a tool call: tools are available, no tool
/// result is in the conversation yet, the policy asks for a call, and the
/// function it names is one of the available tools.
pub open spec fn calls_tool(req: ChatCompletionRequest, registry_tools: Seq<Tool>, policy: DecisionPolicy) -> bool {
    &&& resolved_tools(req, registry_tools) is Some
    &&& !has_role(req.messages@, Role::Tool)
    &&& policy_calls(policy, user_query(req.messages@))
    &&& offers(resolved_tools(req, registry_tools)->0, policy_target(policy, user_query(req.messages@)))
}

/// Retrieved context is injected into the request.
pub open spec fn injects(req: ChatCompletionRequest, ctx: Option<RagContext>) -> bool {
    &&& user_query(req.messages@).len() > 0
    &&& ctx is Some
    &&& ctx->0.documents@.len() > 0
}

/// Prompt tokens of the request after injection.
pub open spec fn request_tokens(req: ChatCompletionRequest, ctx: Option<RagContext>) -> nat {
    prompt_tokens(req.messages@) + if injects(req, ctx) {
        byte_len(format_context(ctx->0)) / 4
    } else {
        0
    }
}

/// Largest prompt-token count a response reports, so that the total fits a `u32`.
pub const MAX_REPORTED_PROMPT_TOKENS: u32 = 4294967220;

/// Prompt tokens a response reports: the request's, saturated at
/// `MAX_REPORTED_PROMPT_TOKENS`.
pub open spec fn reported_tokens(req: ChatCompletionRequest, ctx: Option<RagContext>) -> nat {
    if request_tokens(req, ctx) <= MAX_REPORTED_PROMPT_TOKENS {
        request_tokens(req, ctx)
    } else {
        MAX_REPORTED_PROMPT_TOKENS as nat
    }
}

/// Name of the tool a call is routed to.
pub open spec fn target_tool(q: Seq<char>) -> Seq<char> {
    if contains(q, "search"@) { "search_web"@ } else { "read_file"@ }
}

/// JSON arguments of a search call, given the query as a JSON string.
pub open spec fn search_arguments_text(quoted: Seq<char>) -> Seq<char> {
    "{\"max_results\":3,\"query\":"@ + quoted + "}"@
}

/// JSON arguments of the call routed for `q`.
pub open spec fn call_arguments(q: Seq<char>) -> Seq<char> {
    if contains(q, "search"@) {
        search_arguments_text(json_string_of(q))
    } else {
        "{\"path\":\"/example/file.txt\"}"@
    }
}

/// Some message carries the context tag as its name.
pub open spec fn has_context_tag(msgs: Seq<ChatMessage>) -> bool {
    exists|i: int| 0 <= i < msgs.len() && #[trigger] msgs[i].name is Some && msgs[i].name->0@ == context_tag()
}

/// Name of the function the policy calls on query `q`.
pub open spec fn policy_target(policy: DecisionPolicy, q: Seq<char>) -> Seq<char> {
    match policy {
        DecisionPolicy::KeywordHeuristic => target_tool(q),
        DecisionPolicy::ModelBacked(c) => c->0.name@,
    }
}

/// JSON arguments of the call the policy makes on query `q`.
pub open spec fn policy_arguments(policy: DecisionPolicy, q: Seq<char>) -> Seq<char> {
    match policy {
        DecisionPolicy::KeywordHeuristic => call_arguments(q),
        DecisionPolicy::ModelBacked(c) => c->0.arguments@,
    }
}

/// Text of a direct answer.
pub open spec fn reply_text(req: ChatCompletionRequest, registry_tools: Seq<Tool>, ctx: Option<RagContext>) -> Seq<char> {
    let count = req.messages@.len() + if injects(req, ctx) { 1nat } else { 0nat };
    "This is a response from the shared Rust handler with full tool calling and RAG support. You sent "@
        + decimal(count) + " messages to model '"@ + req.model@ + "'."@
        + (if has_context_tag(req.messages@) || injects(req, ctx) {
            " (Enhanced with RAG context from your documents)"@
        } else {
            Seq::empty()
        })
        + (match tool_count(req, registry_tools) {
            Some(n) => " "@ + decimal(n) + " MCP tools are available."@,
            None => Seq::empty(),
        })
        + " This response is compatible with assistant-ui and ag-ui."@
}

/// `resp` is the answer to `req`, given the registry's tool count, the retrieved
/// context and the creation time.
pub open spec fn response_ok(
    req: ChatCompletionRequest,
    registry_tools: Seq<Tool>,
    policy: DecisionPolicy,
    ctx: Option<RagContext>,
    created: u64,
    resp: ChatCompletionResponse,
) -> bool {
    let q = user_query(req.messages@);
    let m = resp.choices@[0].message;
    let completion: nat = if calls_tool(req, registry_tools, policy) { 25 } else { 75 };
    &&& resp.id@ == "chatcmpl-"@ + decimal(created as nat)
    &&& resp.object@ == "chat.completion"@
    &&& resp.created == created
    &&& resp.model@ == req.model@
    &&& resp.choices@.len() == 1
    &&& resp.choices@[0].index == 0
    &&& m.role == Role::Assistant
    &&& m.tool_call_id is None
    &&& m.name is None
    &&& resp.usage.prompt_tokens == reported_tokens(req, ctx)
    &&& resp.usage.completion_tokens == completion
    &&& resp.usage.total_tokens == reported_tokens(req, ctx) + completion
    &&& if calls_tool(req, registry_tools, policy) {
        &&& resp.choices@[0].finish_reason == FinishReason::ToolCalls
        &&& m.content is None
        &&& m.tool_calls is Some
        &&& m.tool_calls->0@.len() == 1
        &&& m.tool_calls->0@[0].id@ == "call_"@ + decimal(created as nat)
        &&& m.tool_calls->0@[0].kind@ == "function"@
        &&& m.tool_calls->0@[0].function.name@ == policy_target(policy, q)
        &&& m.tool_calls->0@[0].function.arguments@ == policy_arguments(policy, q)
    } else {
        &&& resp.choices@[0].finish_reason == FinishReason::Stop
        &&& m.content is Some
        &&& m.content->0@ == reply_text(req, registry_tools, ctx)
        &&& m.tool_calls is None
    }
}

/// `r` is the outcome of `req`: `InvalidRequest` for a streaming request or one
/// else the answer.
pub open spec fn completes(
    req: ChatCompletionRequest,
    registry_tools: Seq<Tool>,
    policy: DecisionPolicy,
    ctx: Option<RagContext>,
    created: u64,
    r: Result<ChatCompletionResponse, GatewayError>,
) -> bool {
    if req.stream == Some(true) {
        r is Err && r->Err_0.kind == GatewayErrorKind::InvalidRequest
    } else {
        r is Ok && response_ok(req, registry_tools, policy, ctx, created, r->Ok_0)
    }
}

/// Tokens of a concatenation are the sum of the parts' tokens.
pub proof fn lemma_prompt_tokens_concat(a: Seq<ChatMessage>, b: Seq<ChatMessage>)
    ensures
        prompt_tokens(a + b) == prompt_tokens(a) + prompt_tokens(b),
    decreases b.len(),
{
    if b.len() == 0 {
        assert(a + b =~= a);
    } else {
        assert((a + b).drop_last() =~= a + b.drop_last());
        assert((a + b).last() == b.last());
        lemma_prompt_tokens_concat(a, b.drop_last());
    }
}

proof fn lemma_prompt_tokens_single(m: ChatMessage)
    ensures
        prompt_tokens(seq![m]) == message_tokens(m),
{
    assert(seq![m].drop_last() =~= Seq::<ChatMessage>::empty());
    assert(seq![m].last() == m);
    assert(prompt_tokens(Seq::<ChatMessage>::empty()) == 0);
}

proof fn lemma_injection_tokens(old_msgs: Seq<ChatMessage>, new_msgs: Seq<ChatMessage>, k: int, ctx: RagContext)
    requires
        injected_at(old_msgs, new_msgs, k, ctx),
    ensures
        prompt_tokens(new_msgs) == prompt_tokens(old_msgs) + byte_len(format_context(ctx)) / 4,
{
    let head = old_msgs.subrange(0, k);
    let tail = old_msgs.subrange(k, old_msgs.len() as int);
    assert(old_msgs =~= head + tail);
    assert(new_msgs =~= head + seq![new_msgs[k]] + tail);
    lemma_prompt_tokens_concat(head, tail);
    lemma_prompt_tokens_concat(head + seq![new_msgs[k]], tail);
    lemma_prompt_tokens_concat(head, seq![new_msgs[k]]);
    lemma_prompt_tokens_single(new_msgs[k]);
}

proof fn lemma_no_user_empty_query(msgs: Seq<ChatMessage>)
    requires
        !has_role(msgs, Role::User),
    ensures
        user_query(msgs).len() == 0,
    decreases msgs.len(),
{
    if msgs.len() > 0 {
        assert(msgs[msgs.len() - 1].role != Role::User);
        let d = msgs.drop_last();
        assert forall|i: int| 0 <= i < d.len() implies #[trigger] d[i].role != Role::User by {
            assert(d[i] == msgs[i]);
        }
        lemma_no_user_empty_query(d);
    }
}

/// A request with no user message gets the same outcome as if no context had
/// been retrieved: nothing is injected, its own messages are what the prompt
/// tokens count, and a direct answer does not mention retrieved context unless a
/// message already carried the context tag.
pub proof fn lemma_no_user_no_context(
    req: ChatCompletionRequest,
    registry_tools: Seq<Tool>,
    policy: DecisionPolicy,
    ctx: Option<RagContext>,
    created: u64,
    r: Result<ChatCompletionResponse, GatewayError>,
)
    requires
        !has_role(req.messages@, Role::User),
    ensures
        !injects(req, ctx),
        completes(req, registry_tools, policy, ctx, created, r) == completes(
            req,
            registry_tools,
            policy,
            None,
            created,
            r,
        ),
        completes(req, registry_tools, policy, ctx, created, r) && req.stream != Some(true)
            && prompt_tokens(req.messages@) <= MAX_REPORTED_PROMPT_TOKENS ==> r is Ok
            && r->Ok_0.usage.prompt_tokens == prompt_tokens(req.messages@),
        completes(req, registry_tools, policy, ctx, created, r) && req.stream != Some(true)
            && !has_context_tag(req.messages@) && !calls_tool(req, registry_tools, policy) ==> r is Ok
            && r->Ok_0.choices@[0].message.content->0@ == reply_text(req, registry_tools, None),
{
    lemma_no_user_empty_query(req.messages@);
}

/// Once a tool result is in the conversation, the answer carries no new tool call.
pub proof fn lemma_tool_result_no_new_call(
    req: ChatCompletionRequest,
    registry_tools: Seq<Tool>,
    policy: DecisionPolicy,
    ctx: Option<RagContext>,
    created: u64,
    r: Result<ChatCompletionResponse, GatewayError>,
)
    requires
        has_role(req.messages@, Role::Tool),
        completes(req, registry_tools, policy, ctx, created, r),
    ensures
        req.stream != Some(true) ==> r is Ok,
        r is Ok ==> r->Ok_0.choices@[0].message.tool_calls is None
            && r->Ok_0.choices@[0].finish_reason == FinishReason::Stop,
{
}

/// Adding one tool call to a message raises its prompt tokens by exactly ten.
pub proof fn lemma_tool_call_tokens(m: ChatMessage, more: ChatMessage)
    requires
        more.content == m.content,
        m.tool_calls is Some ==> more.tool_calls is Some && more.tool_calls->0@.len() == m.tool_calls->0@.len() + 1,
        m.tool_calls is None ==> more.tool_calls is Some && more.tool_calls->0@.len() == 1,
    ensures
        prompt_tokens(seq![more]) == prompt_tokens(seq![m]) + 10,
{
    lemma_prompt_tokens_single(m);
    lemma_prompt_tokens_single(more);
}

/// JSON arguments of a search call, from the query already quoted as JSON.
pub fn search_arguments(quoted: &str) -> (r: String)
    ensures
        r@ == search_arguments_text(quoted@),
{
    let mut s = String::from_str("{\"max_results\":3,\"query\":");
    s.append(quoted);
    s.append("}");
    s
}

fn any_context_tag(messages: &Vec<ChatMessage>) -> (r: bool)
    ensures
        r == has_context_tag(messages@),
{
    let tag = String::from_str("rag_context");
    let mut i: usize = 0;
    while i < messages.len()
        invariant
            i <= messages@.len(),
            tag@ == context_tag(),
            forall|j: int| 0 <= j < i ==> !(#[trigger] messages@[j].name is Some && messages@[j].name->0@ == context_tag()),
        decreases messages@.len() - i,
    {
        match &messages[i].name {
            Some(n) => {
                if *n == tag {
                    return true;
                }
            },
            None => {},
        }
        i = i + 1;
    }
    false
}

/// Function name and JSON arguments of the call `policy` makes on `query`.
fn routed_call(policy: &DecisionPolicy, query: &String) -> (r: (String, String))
    requires
        policy_calls(*policy, query@),
    ensures
        r.0@ == policy_target(*policy, query@),
        r.1@ == policy_arguments(*policy, query@),
{
    match policy {
        DecisionPolicy::KeywordHeuristic => {
            if str_contains(query.as_str(), "search") {
                let quoted = json_quote(query.as_str());
                (String::from_str("search_web"), search_arguments(quoted.as_str()))
            } else {
                (String::from_str("read_file"), String::from_str("{\"path\":\"/example/file.txt\"}"))
            }
        },
        DecisionPolicy::ModelBacked(c) => match c {
            Some(call) => (call.name.clone(), call.arguments.clone()),
            None => (String::new(), String::new()),
        },
    }
}

fn offers_tool(tools: &Vec<Tool>, name: &String) -> (r: bool)
    ensures
        r == offers(tools@, name@),
{
    let mut i: usize = 0;
    while i < tools.len()
        invariant
            i <= tools@.len(),
            forall|j: int| 0 <= j < i ==> #[trigger] tools@[j].function.name@ != name@,
        decreases tools@.len() - i,
    {
        if tools[i].function.name == *name {
            return true;
        }
        i = i + 1;
    }
    false
}

fn invalid_request(detail: &str) -> (r: GatewayError)
    ensures
        r.kind == GatewayErrorKind::InvalidRequest,
{
    GatewayError { kind: GatewayErrorKind::InvalidRequest, detail: String::from_str(detail) }
}

/// Answers `request`: injects `context` ahead of the first user message when the
/// request has a user query, resolves the tool set (the caller's tools, else the
/// `registry_tools`), lets `policy` decide between a tool call and a direct
/// answer, and counts tokens. `created` stamps the response.
#[verifier::rlimit(60)]
pub fn complete_chat(
    request: ChatCompletionRequest,
    registry_tools: &Vec<Tool>,
    policy: &DecisionPolicy,
    context: Option<RagContext>,
    created: u64,
    rag: &RagService,
) -> (r: Result<ChatCompletionResponse, GatewayError>)
    ensures
        completes(request, registry_tools@, *policy, context, created, r),
{
    let ghost req = request;
    if let Some(true) = request.stream {
        return Err(invalid_request("streaming responses are not supported"));
    }
    let ChatCompletionRequest { model, messages, max_tokens: _, stream: _, tools, tool_choice: _ } = request;
    let mut messages = messages;
    let query = extract_user_query(&messages);
    let has_tool = any_with_role(&messages, Role::Tool);
    let tagged = any_context_tag(&messages);
    let mut injected = false;
    if query.as_str().unicode_len() > 0 {
        match &context {
            Some(ctx) => {
                injected = ctx.documents.len() > 0;
                rag.enhance_messages_with_context(&mut messages, ctx);
                proof {
                    if injected {
                        let k = choose|k: int| first_user_at(req.messages@, k)
                            && #[trigger] injected_at(req.messages@, messages@, k, *ctx);
                        lemma_injection_tokens(req.messages@, messages@, k, *ctx);
                    }
                }
            },
            None => {},
        }
    }
    assert(injected == injects(req, context));
    let prompt = match checked_tokens(&messages, MAX_REPORTED_PROMPT_TOKENS) {
        Some(t) => t,
        None => MAX_REPORTED_PROMPT_TOKENS,
    };
    assert(prompt == reported_tokens(req, context));
    let count: Option<usize> = match &tools {
        Some(t) => Some(t.len()),
        None => if registry_tools.len() > 0 { Some(registry_tools.len()) } else { None },
    };
    let wants_call = match policy {
        DecisionPolicy::KeywordHeuristic => str_contains(query.as_str(), "search")
            || str_contains(query.as_str(), "file") || str_contains(query.as_str(), "read"),
        DecisionPolicy::ModelBacked(c) => c.is_some(),
    };
    let mut id = String::from_str("chatcmpl-");
    push_decimal(&mut id, created);
    let decided: Option<(String, String)> = if count.is_some() && !has_tool && wants_call {
        let (name, arguments) = routed_call(policy, &query);
        let offered = match &tools {
            Some(t) => offers_tool(t, &name),
            None => offers_tool(registry_tools, &name),
        };
        if offered { Some((name, arguments)) } else { None }
    } else {
        None
    };
    if let Some((name, arguments)) = decided {
        let mut call_id = String::from_str("call_");
        push_decimal(&mut call_id, created);
        let call = ToolCall {
            id: call_id,
            kind: String::from_str("function"),
            function: FunctionCall { name, arguments },
        };
        let message = ChatMessage {
            role: Role::Assistant,
            content: None,
            tool_calls: Some(vec![call]),
            tool_call_id: None,
            name: None,
        };
        Ok(ChatCompletionResponse {
            id,
            object: String::from_str("chat.completion"),
            created,
            model,
            choices: vec![ChatChoice { index: 0, message, finish_reason: FinishReason::ToolCalls }],
            usage: Usage { prompt_tokens: prompt, completion_tokens: 25, total_tokens: prompt + 25 },
        })
    } else {
        let mut text = String::from_str(
            "This is a response from the shared Rust handler with full tool calling and RAG support. You sent ",
        );
        push_decimal(&mut text, messages.len() as u64);
        text.append(" messages to model '");
        text.append(model.as_str());
        text.append("'.");
        if tagged || injected {
            text.append(" (Enhanced with RAG context from your documents)");
        }
        match count {
            Some(n) => {
                text.append(" ");
                push_decimal(&mut text, n as u64);
                text.append(" MCP tools are available.");
            },
            None => {},
        }
        text.append(" This response is compatible with assistant-ui and ag-ui.");
        assert(text@ =~= reply_text(req, registry_tools@, context));
        assert(!calls_tool(req, registry_tools@, *policy));
        let message = ChatMessage {
            role: Role::Assistant,
            content: Some(text),
            tool_calls: None,
            tool_call_id: None,
            name: None,
        };
        Ok(ChatCompletionResponse {
            id,
            object: String::from_str("chat.completion"),
            created,
            model,
            choices: vec![ChatChoice { index: 0, message, finish_reason: FinishReason::Stop }],
            usage: Usage { prompt_tokens: prompt, completion_tokens: 75, total_tokens: prompt + 75 },
        })
    }
}

} // verus!

verus! {

/// Handles one chat completion request: retrieves context for the user query
/// (skipped when it is empty; a failed retrieval is treated as no context), lists
/// the registry's tools (`tools` below), stamps the response with the current time and answers
/// as `complete_chat` does under `policy`.
pub fn chat_completions_handler(
    request: ChatCompletionRequest,
    registry: &McpRegistry,
    rag: &RagService,
    policy: &DecisionPolicy,
) -> (r: Result<ChatCompletionResponse, GatewayError>)
    ensures
        exists|tools: Seq<Tool>, ctx: Option<RagContext>, created: u64|
            #[trigger] completes(request, tools, *policy, ctx, created, r)
                && tools.len() == registry.tools_view().len()
                && (forall|i: int| 0 <= i < tools.len() ==> describes(#[trigger] tools[i], registry.tools_view()[i]))
                && (user_query(request.messages@).len() == 0 ==> ctx is None)
                && (user_query(request.messages@).len() > 0 ==> ctx is Some && retrieved(
                    rag.config,
                    user_query(request.messages@),
                    None,
                    ctx->0,
                )),
{
    let query = extract_user_query(&request.messages);
    let context = if query.as_str().unicode_len() > 0 {
        match rag.retrieve_context(query.as_str(), None) {
            Ok(ctx) => Some(ctx),
            Err(_) => None,
        }
    } else {
        None
    };
    let tools = registry.get_available_tools();
    let now = unix_now();
    let created: u64 = if now < 0 { 0 } else { now as u64 };
    let ghost ctx = context;
    let r = complete_chat(request, &tools, policy, context, created, rag);
    let ghost ts = tools@;
    assert(completes(request, ts, *policy, ctx, created, r));
    r
}

} // verus!
