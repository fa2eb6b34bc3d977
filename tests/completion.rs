use shared_handlers::ai::{calculate_tokens, ChatCompletionRequest, ChatMessage, FinishReason, FunctionCall, FunctionDefinition, Role, Tool, ToolCall};
use shared_handlers::error::GatewayErrorKind;
use shared_handlers::gateway::{chat_completions_handler, complete_chat, search_arguments, DecisionPolicy};
use shared_handlers::mcp::{initialize_default_mcp_servers, McpRegistry};
use shared_handlers::rag::{initialize_rag_service, Document, RagContext};

fn message(role: Role, content: &str) -> ChatMessage {
    ChatMessage { role, content: Some(content.to_string()), tool_calls: None, tool_call_id: None, name: None }
}

fn request(messages: Vec<ChatMessage>) -> ChatCompletionRequest {
    ChatCompletionRequest {
        model: "gpt-4".to_string(),
        messages,
        max_tokens: None,
        stream: None,
        tools: None,
        tool_choice: None,
    }
}

fn default_registry() -> McpRegistry {
    let mut registry = McpRegistry::new();
    initialize_default_mcp_servers(&mut registry);
    registry
}

fn call(id: &str) -> ToolCall {
    ToolCall {
        id: id.to_string(),
        kind: "function".to_string(),
        function: FunctionCall { name: "search_web".to_string(), arguments: "{}".to_string() },
    }
}

fn one_doc_context(query: &str) -> RagContext {
    RagContext {
        documents: vec![Document {
            id: "d".to_string(),
            title: "T".to_string(),
            content: "body".to_string(),
            metadata: "{}".to_string(),
            created_at: 0,
        }],
        query: query.to_string(),
        relevance_scores: vec![90],
        total_tokens: 1,
    }
}

#[test]
fn search_query_routes_to_search_web() {
    let registry = default_registry();
    let rag = initialize_rag_service();
    let req = request(vec![message(Role::User, "search for rust async patterns")]);
    let resp = chat_completions_handler(req, &registry, &rag, &DecisionPolicy::KeywordHeuristic).ok().unwrap();
    let choice = &resp.choices[0];
    assert_eq!(choice.finish_reason, FinishReason::ToolCalls);
    assert!(choice.message.content.is_none());
    let calls = choice.message.tool_calls.as_ref().unwrap();
    assert_eq!(calls.len(), 1);
    assert_eq!(calls[0].function.name, "search_web");
    assert_eq!(calls[0].kind, "function");
    assert_eq!(calls[0].function.arguments, "{\"max_results\":3,\"query\":\"search for rust async patterns\"}");
    assert_eq!(resp.usage.completion_tokens, 25);
    assert_eq!(resp.usage.total_tokens, resp.usage.prompt_tokens + 25);
    assert_eq!(resp.object, "chat.completion");
    assert_eq!(resp.model, "gpt-4");
    assert_eq!(resp.id, format!("chatcmpl-{}", resp.created));
    assert_eq!(calls[0].id, format!("call_{}", resp.created));
}

#[test]
fn greeting_gets_a_direct_answer() {
    let registry = default_registry();
    let rag = initialize_rag_service();
    let req = request(vec![message(Role::User, "hello there")]);
    let resp = chat_completions_handler(req, &registry, &rag, &DecisionPolicy::KeywordHeuristic).ok().unwrap();
    let choice = &resp.choices[0];
    assert_eq!(choice.finish_reason, FinishReason::Stop);
    assert!(choice.message.tool_calls.is_none());
    let content = choice.message.content.as_ref().unwrap();
    assert!(!content.is_empty());
    assert!(content.contains("You sent 2 messages to model 'gpt-4'."));
    assert!(content.contains(" (Enhanced with RAG context from your documents)"));
    assert!(content.contains(" 3 MCP tools are available."));
    assert_eq!(resp.usage.completion_tokens, 75);
}

#[test]
fn file_query_routes_to_read_file() {
    let registry = default_registry();
    let rag = initialize_rag_service();
    let req = request(vec![message(Role::User, "please read my notes")]);
    let resp = complete_chat(req, &registry.get_available_tools(), &DecisionPolicy::KeywordHeuristic, None, 7, &rag).ok().unwrap();
    let calls = resp.choices[0].message.tool_calls.as_ref().unwrap();
    assert_eq!(calls[0].function.name, "read_file");
    assert_eq!(calls[0].function.arguments, "{\"path\":\"/example/file.txt\"}");
    assert_eq!(calls[0].id, "call_7");
    assert_eq!(resp.id, "chatcmpl-7");
    assert_eq!(resp.created, 7);
}

#[test]
fn no_tools_means_no_tool_call() {
    let rag = initialize_rag_service();
    let req = request(vec![message(Role::User, "search the docs")]);
    let resp = complete_chat(req, &Vec::new(), &DecisionPolicy::KeywordHeuristic, None, 1, &rag).ok().unwrap();
    assert_eq!(resp.choices[0].finish_reason, FinishReason::Stop);
    let content = resp.choices[0].message.content.as_ref().unwrap();
    assert_eq!(
        content,
        "This is a response from the shared Rust handler with full tool calling and RAG support. \
         You sent 1 messages to model 'gpt-4'. This response is compatible with assistant-ui and ag-ui."
    );
}

#[test]
fn tool_result_turn_gets_no_new_call() {
    let registry = default_registry();
    let rag = initialize_rag_service();
    let mut tool_msg = message(Role::Tool, "results");
    tool_msg.tool_call_id = Some("call_1".to_string());
    let req = request(vec![message(Role::User, "search for rust"), tool_msg]);
    let resp = chat_completions_handler(req, &registry, &rag, &DecisionPolicy::KeywordHeuristic).ok().unwrap();
    assert_eq!(resp.choices[0].finish_reason, FinishReason::Stop);
    assert!(resp.choices[0].message.tool_calls.is_none());
}

#[test]
fn no_user_message_skips_context() {
    let rag = initialize_rag_service();
    let req = request(vec![message(Role::System, "be brief")]);
    let resp = complete_chat(req, &Vec::new(), &DecisionPolicy::KeywordHeuristic, Some(one_doc_context("q")), 1, &rag).ok().unwrap();
    let content = resp.choices[0].message.content.as_ref().unwrap();
    assert!(content.contains("You sent 1 messages"));
    assert!(!content.contains("Enhanced"));
    assert_eq!(resp.usage.prompt_tokens, 2);
}

#[test]
fn streaming_is_rejected() {
    let rag = initialize_rag_service();
    let mut req = request(vec![message(Role::User, "hi")]);
    req.stream = Some(true);
    let err = complete_chat(req, &Vec::new(), &DecisionPolicy::KeywordHeuristic, None, 1, &rag).err().unwrap();
    assert_eq!(err.kind, GatewayErrorKind::InvalidRequest);
}

#[test]
fn prompt_tokens_count_content_and_tool_calls() {
    let forty = "a".repeat(40);
    let mut msgs = vec![message(Role::User, &forty)];
    assert_eq!(calculate_tokens(&msgs), 10);
    msgs[0].tool_calls = Some(vec![call("c1")]);
    assert_eq!(calculate_tokens(&msgs), 20);
    msgs[0].tool_calls = Some(vec![call("c1"), call("c2")]);
    assert_eq!(calculate_tokens(&msgs), 30);
    assert_eq!(calculate_tokens(&vec![message(Role::User, "abc")]), 0);
    assert_eq!(calculate_tokens(&Vec::new()), 0);
}

#[test]
fn injected_context_counts_in_usage() {
    let rag = initialize_rag_service();
    let req = request(vec![message(Role::User, "hello")]);
    let ctx = one_doc_context("hello");
    let text = rag.format_context_for_llm(&ctx);
    let resp = complete_chat(req, &Vec::new(), &DecisionPolicy::KeywordHeuristic, Some(ctx), 3, &rag).ok().unwrap();
    assert_eq!(resp.usage.prompt_tokens as usize, 1 + text.len() / 4);
    let content = resp.choices[0].message.content.as_ref().unwrap();
    assert!(content.contains("You sent 2 messages"));
    assert!(content.contains("Enhanced with RAG context"));
}

#[test]
fn search_arguments_wrap_quoted_query() {
    assert_eq!(search_arguments("\"x\""), "{\"max_results\":3,\"query\":\"x\"}");
}

#[test]
fn search_query_with_quote_is_escaped() {
    let registry = default_registry();
    let rag = initialize_rag_service();
    let req = request(vec![message(Role::User, "search \"rust\"")]);
    let resp = chat_completions_handler(req, &registry, &rag, &DecisionPolicy::KeywordHeuristic).ok().unwrap();
    let calls = resp.choices[0].message.tool_calls.as_ref().unwrap();
    assert_eq!(calls[0].function.arguments, "{\"max_results\":3,\"query\":\"search \\\"rust\\\"\"}");
}

#[test]
fn model_backed_policy_picks_the_call() {
    let registry = default_registry();
    let rag = initialize_rag_service();
    let decided = DecisionPolicy::ModelBacked(Some(FunctionCall {
        name: "write_file".to_string(),
        arguments: "{\"path\":\"/tmp/x\"}".to_string(),
    }));
    let req = request(vec![message(Role::User, "hello there")]);
    let resp = complete_chat(req, &registry.get_available_tools(), &decided, None, 5, &rag).ok().unwrap();
    assert_eq!(resp.choices[0].finish_reason, FinishReason::ToolCalls);
    let calls = resp.choices[0].message.tool_calls.as_ref().unwrap();
    assert_eq!(calls[0].function.name, "write_file");
    assert_eq!(calls[0].function.arguments, "{\"path\":\"/tmp/x\"}");

    let answer = DecisionPolicy::ModelBacked(None);
    let req = request(vec![message(Role::User, "search for rust")]);
    let resp = complete_chat(req, &registry.get_available_tools(), &answer, None, 5, &rag).ok().unwrap();
    assert_eq!(resp.choices[0].finish_reason, FinishReason::Stop);
}

fn caller_tool(name: &str) -> Tool {
    Tool {
        kind: "function".to_string(),
        function: FunctionDefinition { name: name.to_string(), description: String::new(), parameters: "{}".to_string() },
    }
}

#[test]
fn routes_only_to_offered_tools() {
    let rag = initialize_rag_service();
    let mut req = request(vec![message(Role::User, "search for rust")]);
    req.tools = Some(vec![caller_tool("read_file")]);
    let resp = complete_chat(req, &Vec::new(), &DecisionPolicy::KeywordHeuristic, None, 1, &rag).ok().unwrap();
    assert_eq!(resp.choices[0].finish_reason, FinishReason::Stop);
    assert!(resp.choices[0].message.tool_calls.is_none());
    assert!(resp.choices[0].message.content.as_ref().unwrap().contains(" 1 MCP tools are available."));

    let mut req = request(vec![message(Role::User, "search for rust")]);
    req.tools = Some(vec![caller_tool("search_web")]);
    let resp = complete_chat(req, &Vec::new(), &DecisionPolicy::KeywordHeuristic, None, 1, &rag).ok().unwrap();
    assert_eq!(resp.choices[0].finish_reason, FinishReason::ToolCalls);
    assert_eq!(resp.choices[0].message.tool_calls.as_ref().unwrap()[0].function.name, "search_web");
}

#[test]
fn model_backed_call_to_unknown_tool_answers_directly() {
    let registry = default_registry();
    let rag = initialize_rag_service();
    let decided = DecisionPolicy::ModelBacked(Some(FunctionCall { name: "nope".to_string(), arguments: "{}".to_string() }));
    let req = request(vec![message(Role::User, "hello")]);
    let resp = complete_chat(req, &registry.get_available_tools(), &decided, None, 1, &rag).ok().unwrap();
    assert_eq!(resp.choices[0].finish_reason, FinishReason::Stop);
}
