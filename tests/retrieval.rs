use shared_handlers::ai::{ChatMessage, Role};
use shared_handlers::rag::{initialize_rag_service, Document, RagConfig, RagContext, RagService};
use shared_handlers::text::{decimal_string, str_contains};

fn msg(role: Role, content: &str) -> ChatMessage {
    ChatMessage { role, content: Some(content.to_string()), tool_calls: None, tool_call_id: None, name: None }
}

fn doc(id: &str, content: &str) -> Document {
    Document {
        id: id.to_string(),
        title: format!("Title {}", id),
        content: content.to_string(),
        metadata: "{}".to_string(),
        created_at: 0,
    }
}

fn context(docs: Vec<Document>, scores: Vec<u32>) -> RagContext {
    RagContext { documents: docs, query: "q".to_string(), relevance_scores: scores, total_tokens: 0 }
}

fn roles(msgs: &[ChatMessage]) -> Vec<Role> {
    msgs.iter().map(|m| m.role).collect()
}

#[test]
fn empty_context_leaves_messages_alone() {
    let rag = initialize_rag_service();
    let mut msgs = vec![msg(Role::System, "s"), msg(Role::User, "u")];
    rag.enhance_messages_with_context(&mut msgs, &context(vec![], vec![]));
    assert_eq!(roles(&msgs), vec![Role::System, Role::User]);
}

#[test]
fn context_goes_before_first_user_message() {
    let rag = initialize_rag_service();
    let mut msgs = vec![msg(Role::System, "s"), msg(Role::User, "u1"), msg(Role::Assistant, "a"), msg(Role::User, "u2")];
    rag.enhance_messages_with_context(&mut msgs, &context(vec![doc("1", "body")], vec![85]));
    assert_eq!(roles(&msgs), vec![Role::System, Role::System, Role::User, Role::Assistant, Role::User]);
    assert_eq!(msgs[1].name.as_deref(), Some("rag_context"));
    assert_eq!(msgs[0].content.as_deref(), Some("s"));
    assert_eq!(msgs[2].content.as_deref(), Some("u1"));
}

#[test]
fn context_is_appended_without_user_message() {
    let rag = initialize_rag_service();
    let mut msgs = vec![msg(Role::System, "s"), msg(Role::Assistant, "a")];
    rag.enhance_messages_with_context(&mut msgs, &context(vec![doc("1", "body")], vec![85]));
    assert_eq!(msgs.len(), 3);
    assert_eq!(msgs[2].name.as_deref(), Some("rag_context"));
}

#[test]
fn formatted_context_text() {
    let rag = initialize_rag_service();
    let text = rag.format_context_for_llm(&context(vec![doc("1", "first"), doc("2", "second")], vec![85, 7]));
    assert_eq!(
        text,
        "# Relevant Context Documents\n\nQuery: q\n\n\
         ## Document 1: Title 1 (Relevance: 0.85)\nfirst\n\n\
         ## Document 2: Title 2 (Relevance: 0.07)\nsecond\n\n\
         Use the above context to provide more accurate and relevant responses.\n"
    );
}

#[test]
fn missing_score_reads_as_zero() {
    let rag = initialize_rag_service();
    let text = rag.format_context_for_llm(&context(vec![doc("1", "x")], vec![]));
    assert!(text.contains("(Relevance: 0.00)"));
}

#[test]
fn document_cap_applies() {
    let rag = RagService::new(RagConfig { max_documents: 2, ..RagConfig::default() });
    let ctx = rag.limit_context(context(vec![doc("1", "aaaa"), doc("2", "bbbb"), doc("3", "cccc")], vec![90, 80, 75]));
    assert_eq!(ctx.documents.len(), 2);
    assert_eq!(ctx.relevance_scores, vec![90, 80]);
    assert_eq!(ctx.total_tokens, 2);
}

#[test]
fn token_budget_drops_least_relevant() {
    let rag = RagService::new(RagConfig { max_context_tokens: 4, ..RagConfig::default() });
    let ctx = rag.limit_context(context(
        vec![doc("1", &"a".repeat(12)), doc("2", &"b".repeat(8)), doc("3", "c")],
        vec![90, 80, 75],
    ));
    assert_eq!(ctx.documents.len(), 1);
    assert_eq!(ctx.documents[0].id, "1");
    assert_eq!(ctx.total_tokens, 3);
}

#[test]
fn default_config_values() {
    assert_eq!(initialize_rag_service().config.embedding_model, "text-embedding-ada-002");
    let cfg = RagConfig::default();
    assert_eq!(cfg.max_documents, 5);
    assert_eq!(cfg.relevance_threshold, 70);
    assert_eq!(cfg.max_context_tokens, 4000);
    assert_eq!(cfg.embedding_model, "text-embedding-ada-002");
}

#[test]
fn retrieval_stand_in_mentions_query() {
    let rag = initialize_rag_service();
    let ctx = rag.retrieve_context("tauri", Some("u\"1")).ok().unwrap();
    assert_eq!(ctx.documents.len(), 2);
    assert_eq!(ctx.query, "tauri");
    assert_eq!(ctx.relevance_scores, vec![85, 78]);
    assert!(ctx.documents[0].content.starts_with("This document contains relevant information about tauri."));
    assert_eq!(
        ctx.documents[0].metadata,
        "{\"source\":\"user_documents\",\"type\":\"architecture_doc\",\"user_id\":\"u\\\"1\"}"
    );
    let expected: usize = ctx.documents.iter().map(|d| d.content.len() / 4).sum();
    assert_eq!(ctx.total_tokens, expected);
    let anon = rag.retrieve_context("x", None).ok().unwrap();
    assert!(anon.documents[1].metadata.ends_with("\"user_id\":null}"));
}

#[test]
fn store_and_search() {
    let rag = initialize_rag_service();
    assert_eq!(rag.store_document(doc("abc", "x"), None).ok().unwrap(), "abc");
    let found = rag.search_documents("rust", None, 3).ok().unwrap();
    assert_eq!(found.len(), 2);
}

#[test]
fn decimal_and_contains() {
    assert_eq!(decimal_string(0), "0");
    assert_eq!(decimal_string(1234567890), "1234567890");
    assert!(str_contains("search for rust", "for"));
    assert!(!str_contains("search", "searching"));
    assert!(str_contains("abc", ""));
}

#[test]
fn search_respects_limit() {
    let rag = initialize_rag_service();
    let one = rag.search_documents("rust", None, 1).ok().unwrap();
    assert_eq!(one.len(), 1);
    assert_eq!(one[0].id, "doc_1");
    assert_eq!(rag.search_documents("rust", None, 0).ok().unwrap().len(), 0);
    assert_eq!(rag.search_documents("rust", None, 10).ok().unwrap().len(), 2);
}
