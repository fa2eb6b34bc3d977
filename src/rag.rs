use vstd::prelude::*;

use crate::ai::{ChatMessage, Role};
use crate::error::GatewayError;
use crate::outside::{json_quote, json_string_of, unix_now};
use crate::text::{byte_len, decimal, digit_char, digit_str, push_decimal};

verus! {

/// A stored document. `metadata` is JSON text; `created_at` is in epoch seconds.
pub struct Document {
    pub id: String,
    pub title: String,
    pub content: String,
    pub metadata: String,
    pub created_at: i64,
}

/// Documents retrieved for a query, most relevant first. `relevance_scores` runs
/// parallel to `documents`, in hundredths (85 stands for 0.85).
pub struct RagContext {
    pub documents: Vec<Document>,
    pub query: String,
    pub relevance_scores: Vec<u32>,
    pub total_tokens: usize,
}

/// Retrieval limits. `relevance_threshold` is in hundredths.
pub struct RagConfig {
    pub max_documents: usize,
    pub relevance_threshold: u32,
    pub max_context_tokens: usize,
    pub embedding_model: String,
}

impl Default for RagConfig {
    fn default() -> (r: RagConfig)
        ensures
            r.max_documents == 5,
            r.relevance_threshold == 70,
            r.max_context_tokens == 4000,
            r.embedding_model@ == "text-embedding-ada-002"@,
    {
        RagConfig {
            max_documents: 5,
            relevance_threshold: 70,
            max_context_tokens: 4000,
            embedding_model: String::from_str("text-embedding-ada-002"),
        }
    }
}

/// The retrieval context service.
pub struct RagService {
    pub config: RagConfig,
}

/// Tag carried in the `name` of an injected context message.
pub open spec fn context_tag() -> Seq<char> {
    "rag_context"@
}

/// A relevance score in hundredths, written with two decimals ("0.85").
pub open spec fn score_text(s: nat) -> Seq<char> {
    decimal(s / 100) + "."@ + seq![digit_char((s / 10) % 10), digit_char(s % 10)]
}

/// Score of the `i`-th document, zero where the scores run short.
pub open spec fn score_at(scores: Seq<u32>, i: int) -> nat {
    if 0 <= i < scores.len() { scores[i] as nat } else { 0 }
}

/// The numbered section of one document.
pub open spec fn document_section(d: Document, i: int, score: nat) -> Seq<char> {
    "## Document "@ + decimal((i + 1) as nat) + ": "@ + d.title@ + " (Relevance: "@
        + score_text(score) + ")\n"@ + d.content@ + "\n\n"@
}

/// Sections of the first `n` documents, in order.
pub open spec fn sections(docs: Seq<Document>, scores: Seq<u32>, n: nat) -> Seq<char>
    decreases n,
{
    if n == 0 {
        Seq::empty()
    } else {
        sections(docs, scores, (n - 1) as nat) + document_section(
            docs[n - 1],
            n - 1,
            score_at(scores, n - 1),
        )
    }
}

/// Closing instruction of the injected text.
pub open spec fn closing_line() -> Seq<char> {
    "Use the above context to provide more accurate and relevant responses.\n"@
}

/// Text of the injected context message.
pub open spec fn format_context(ctx: RagContext) -> Seq<char> {
    "# Relevant Context Documents\n\n"@ + "Query: "@ + ctx.query@ + "\n\n"@
        + sections(ctx.documents@, ctx.relevance_scores@, ctx.documents@.len()) + closing_line()
}

/// `k` is the index of the first user message of `msgs`, or its length if none.
pub open spec fn first_user_at(msgs: Seq<ChatMessage>, k: int) -> bool {
    &&& 0 <= k <= msgs.len()
    &&& forall|j: int| 0 <= j < k ==> #[trigger] msgs[j].role != Role::User
    &&& k < msgs.len() ==> msgs[k].role == Role::User
}

/// `m` is the system message that carries `ctx`.
pub open spec fn is_context_message(m: ChatMessage, ctx: RagContext) -> bool {
    &&& m.role == Role::System
    &&& m.content is Some && m.content->0@ == format_context(ctx)
    &&& m.tool_calls is None
    &&& m.tool_call_id is None
    &&& m.name is Some && m.name->0@ == context_tag()
}

/// `new` is `old` with the context message of `ctx` inserted at `k`.
pub open spec fn injected_at(
    old_msgs: Seq<ChatMessage>,
    new_msgs: Seq<ChatMessage>,
    k: int,
    ctx: RagContext,
) -> bool {
    &&& 0 <= k <= old_msgs.len()
    &&& new_msgs.len() == old_msgs.len() + 1
    &&& new_msgs.subrange(0, k) == old_msgs.subrange(0, k)
    &&& new_msgs.subrange(k + 1, new_msgs.len() as int) == old_msgs.subrange(k, old_msgs.len() as int)
    &&& is_context_message(new_msgs[k], ctx)
}

/// What enhancing `old` with `ctx` yields: `old` itself when there are no
/// documents, else `old` with the context message before the first user message.
pub open spec fn enhanced(old_msgs: Seq<ChatMessage>, new_msgs: Seq<ChatMessage>, ctx: RagContext) -> bool {
    if ctx.documents@.len() == 0 {
        new_msgs == old_msgs
    } else {
        exists|k: int| first_user_at(old_msgs, k) && #[trigger] injected_at(old_msgs, new_msgs, k, ctx)
    }
}


/// Estimated token cost of each document: a quarter of its content bytes.
pub open spec fn doc_costs(docs: Seq<Document>) -> Seq<nat> {
    docs.map_values(|d: Document| byte_len(d.content@) / 4)
}

/// Sum of token costs.
pub open spec fn cost_sum(c: Seq<nat>) -> nat
    decreases c.len(),
{
    if c.len() == 0 { 0 } else { cost_sum(c.drop_last()) + c.last() }
}

/// `k` documents of costs `c` are kept under `cfg`: the first `k` fit the
/// document cap and the token budget, and one more would not (or none is left).
pub open spec fn kept(c: Seq<nat>, k: int, cfg: RagConfig) -> bool {
    &&& 0 <= k <= c.len()
    &&& k <= cfg.max_documents
    &&& cost_sum(c.subrange(0, k)) <= cfg.max_context_tokens
    &&& k == c.len() || k == cfg.max_documents || cost_sum(c.subrange(0, k + 1)) > cfg.max_context_tokens
}

/// Content of the first stand-in document for `q`.
pub open spec fn overview_text(q: Seq<char>) -> Seq<char> {
    "This document contains relevant information about "@ + q
        + ". The ONE reference architecture uses React, Rust, and Tauri for cross-platform development."@
}

/// Content of the second stand-in document for `q`.
pub open spec fn details_text(q: Seq<char>) -> Seq<char> {
    "Implementation details related to "@ + q
        + ". The shared Rust handlers provide consistent API responses across web and desktop platforms."@
}

/// JSON metadata of a stand-in document of the given type, for an optional actor.
pub open spec fn metadata_text(doc_type: Seq<char>, user: Option<Seq<char>>) -> Seq<char> {
    "{\"source\":\"user_documents\",\"type\":\""@ + doc_type + "\",\"user_id\":"@
        + match user {
            Some(u) => json_string_of(u),
            None => "null"@,
        } + "}"@
}

/// The actor a retrieval is made for, as text.
pub open spec fn actor_of(user_id: Option<&str>) -> Option<Seq<char>> {
    match user_id {
        Some(u) => Some(u@),
        None => None,
    }
}

/// `ctx` is what retrieval under `cfg` yields for `query` and the optional actor
/// `user`: the two stand-in documents, as many as `kept` allows, with their scores.
pub open spec fn retrieved(cfg: RagConfig, query: Seq<char>, user: Option<Seq<char>>, ctx: RagContext) -> bool {
    let k = ctx.documents@.len();
    &&& ctx.query@ == query
    &&& kept(seq![byte_len(overview_text(query)) / 4, byte_len(details_text(query)) / 4], k as int, cfg)
    &&& ctx.relevance_scores@ == seq![85u32, 78u32].subrange(0, k as int)
    &&& ctx.total_tokens == cost_sum(doc_costs(ctx.documents@))
    &&& k >= 1 ==> ctx.documents@[0].id@ == "doc_1"@ && ctx.documents@[0].title@ == "Architecture Overview"@
        && ctx.documents@[0].content@ == overview_text(query)
        && ctx.documents@[0].metadata@ == metadata_text("architecture_doc"@, user)
    &&& k >= 2 ==> ctx.documents@[1].id@ == "doc_2"@ && ctx.documents@[1].title@ == "Implementation Details"@
        && ctx.documents@[1].content@ == details_text(query)
        && ctx.documents@[1].metadata@ == metadata_text("implementation_doc"@, user)
}

fn document_metadata(doc_type: &str, user_id: Option<&str>) -> (r: String)
    ensures
        r@ == metadata_text(doc_type@, actor_of(user_id)),
{
    let mut m = String::from_str("{\"source\":\"user_documents\",\"type\":\"");
    m.append(doc_type);
    m.append("\",\"user_id\":");
    match user_id {
        Some(u) => {
            let quoted = json_quote(u);
            m.append(quoted.as_str());
        },
        None => {
            m.append("null");
        },
    }
    m.append("}");
    m
}

fn push_score(out: &mut String, s: u32)
    ensures
        final(out)@ == old(out)@ + score_text(s as nat),
{
    push_decimal(out, (s / 100) as u64);
    out.append(".");
    out.append(digit_str(((s / 10) % 10) as u64));
    out.append(digit_str((s % 10) as u64));
    assert(final(out)@ =~= old(out)@ + score_text(s as nat));
}

fn first_user_index(msgs: &Vec<ChatMessage>) -> (r: usize)
    ensures
        first_user_at(msgs@, r as int),
{
    let mut i: usize = 0;
    while i < msgs.len()
        invariant
            i <= msgs@.len(),
            forall|j: int| 0 <= j < i ==> #[trigger] msgs@[j].role != Role::User,
        decreases msgs@.len() - i,
    {
        if msgs[i].role == Role::User {
            return i;
        }
        i = i + 1;
    }
    i
}

impl RagService {
    pub fn new(config: RagConfig) -> (r: RagService)
        ensures
            r.config == config,
    {
        RagService { config }
    }

    /// Keeps the longest prefix of `context.documents` (most relevant first) within
    /// the document cap and the token budget, drops the scores of the rest, and
    /// sets `total_tokens` to the cost of what is kept.
    pub fn limit_context(&self, context: RagContext) -> (r: RagContext)
        ensures
            kept(doc_costs(context.documents@), r.documents@.len() as int, self.config),
            r.documents@ == context.documents@.subrange(0, r.documents@.len() as int),
            r.documents@.len() <= context.relevance_scores@.len() ==> r.relevance_scores@
                == context.relevance_scores@.subrange(0, r.documents@.len() as int),
            r.documents@.len() > context.relevance_scores@.len() ==> r.relevance_scores@
                == context.relevance_scores@,
            r.query == context.query,
            r.total_tokens == cost_sum(doc_costs(r.documents@)),
    {
        let RagContext { documents, query, relevance_scores, total_tokens: _ } = context;
        let mut documents = documents;
        let mut relevance_scores = relevance_scores;
        let ghost costs = doc_costs(documents@);
        let n = documents.len();
        let max_docs = self.config.max_documents;
        let budget = self.config.max_context_tokens;
        let mut total: usize = 0;
        let mut i: usize = 0;
        let mut full = false;
        while i < n && i < max_docs && !full
            invariant
                n == documents@.len(),
                costs == doc_costs(documents@),
                max_docs == self.config.max_documents,
                budget == self.config.max_context_tokens,
                i <= n,
                i <= max_docs,
                total == cost_sum(costs.subrange(0, i as int)),
                total <= budget,
                full ==> i < n && cost_sum(costs.subrange(0, i + 1)) > budget,
            decreases n - i, if full { 0int } else { 1int },
        {
            let t = documents[i].content.as_str().len() / 4;
            proof {
                assert(costs.subrange(0, i + 1).drop_last() =~= costs.subrange(0, i as int));
                assert(costs[i as int] == t);
            }
            if t > budget - total {
                full = true;
            } else {
                total = total + t;
                i = i + 1;
            }
        }
        documents.truncate(i);
        relevance_scores.truncate(i);
        assert(doc_costs(documents@) =~= costs.subrange(0, i as int));
        RagContext { documents, query, relevance_scores, total_tokens: total }
    }

    /// Retrieves context documents for `query`. This stand-in for a retrieval
    /// backend always succeeds: it offers two documents that mention the query,
    /// scored 0.85 and 0.78, and keeps what `limit_context` keeps of them.
    pub fn retrieve_context(&self, query: &str, user_id: Option<&str>) -> (r: Result<RagContext, GatewayError>)
        ensures
            r is Ok,
            retrieved(self.config, query@, actor_of(user_id), r->Ok_0),
    {
        let ghost user = actor_of(user_id);
        let mut overview = String::from_str("This document contains relevant information about ");
        overview.append(query);
        overview.append(". The ONE reference architecture uses React, Rust, and Tauri for cross-platform development.");
        let mut details = String::from_str("Implementation details related to ");
        details.append(query);
        details.append(". The shared Rust handlers provide consistent API responses across web and desktop platforms.");
        let d1 = Document {
            id: String::from_str("doc_1"),
            title: String::from_str("Architecture Overview"),
            content: overview,
            metadata: document_metadata("architecture_doc", user_id),
            created_at: unix_now(),
        };
        let d2 = Document {
            id: String::from_str("doc_2"),
            title: String::from_str("Implementation Details"),
            content: details,
            metadata: document_metadata("implementation_doc", user_id),
            created_at: unix_now(),
        };
        let candidates = RagContext {
            documents: vec![d1, d2],
            query: String::from_str(query),
            relevance_scores: vec![85, 78],
            total_tokens: 0,
        };
        let ghost docs = candidates.documents@;
        assert(doc_costs(docs) =~= seq![byte_len(overview_text(query@)) / 4, byte_len(details_text(query@)) / 4]);
        let ctx = self.limit_context(candidates);
        proof {
            let k = ctx.documents@.len() as int;
            if k >= 1 {
                assert(ctx.documents@[0] == docs[0]);
            }
            if k >= 2 {
                assert(ctx.documents@[1] == docs[1]);
            }
        }
        Ok(ctx)
    }

    /// Stores `document` for later retrieval and returns its id. This stand-in
    /// keeps nothing.
    pub fn store_document(&self, document: Document, user_id: Option<&str>) -> (r: Result<String, GatewayError>)
        ensures
            r is Ok && r->Ok_0 == document.id,
    {
        Ok(document.id)
    }

    /// Documents matching `query`: the first `limit` of those that
    /// `retrieve_context` returns.
    pub fn search_documents(&self, query: &str, user_id: Option<&str>, limit: usize) -> (r: Result<Vec<Document>, GatewayError>)
        ensures
            r is Ok,
            exists|ctx: RagContext| #[trigger]
                retrieved(self.config, query@, actor_of(user_id), ctx)
                    && r->Ok_0@ == ctx.documents@.subrange(
                    0,
                    if limit < ctx.documents@.len() { limit as int } else { ctx.documents@.len() as int },
                ),
    {
        match self.retrieve_context(query, user_id) {
            Ok(ctx) => {
                let ghost found = ctx;
                let mut docs = ctx.documents;
                docs.truncate(limit);
                assert(limit >= found.documents@.len() ==> docs@ =~= found.documents@.subrange(0, found.documents@.len() as int));
                Ok(docs)
            },
            Err(e) => Err(e),
        }
    }

    /// Renders `context` as the text of an injected message.
    pub fn format_context_for_llm(&self, context: &RagContext) -> (r: String)
        ensures
            r@ == format_context(*context),
    {
        let mut out = String::from_str("# Relevant Context Documents\n\n");
        out.append("Query: ");
        out.append(context.query.as_str());
        out.append("\n\n");
        let ghost head = out@;
        let n = context.documents.len();
        let mut i: usize = 0;
        while i < n
            invariant
                n == context.documents@.len(),
                i <= n,
                out@ == head + sections(context.documents@, context.relevance_scores@, i as nat),
            decreases n - i,
        {
            let doc = &context.documents[i];
            let score: u32 = if i < context.relevance_scores.len() {
                context.relevance_scores[i]
            } else {
                0
            };
            let ghost before = out@;
            out.append("## Document ");
            push_decimal(&mut out, (i + 1) as u64);
            out.append(": ");
            out.append(doc.title.as_str());
            out.append(" (Relevance: ");
            push_score(&mut out, score);
            out.append(")\n");
            out.append(doc.content.as_str());
            out.append("\n\n");
            assert(out@ =~= before + document_section(*doc, i as int, score as nat));
            i = i + 1;
        }
        out.append("Use the above context to provide more accurate and relevant responses.\n");
        assert(out@ =~= format_context(*context));
        out
    }

    /// Inserts a system message carrying `context` before the first user message
    /// (at the end if there is none); leaves `messages` alone when `context` has no
    /// documents.
    pub fn enhance_messages_with_context(&self, messages: &mut Vec<ChatMessage>, context: &RagContext)
        ensures
            enhanced(old(messages)@, final(messages)@, *context),
    {
        if context.documents.len() == 0 {
            return;
        }
        let content = self.format_context_for_llm(context);
        let context_message = ChatMessage {
            role: Role::System,
            content: Some(content),
            tool_calls: None,
            tool_call_id: None,
            name: Some(String::from_str("rag_context")),
        };
        let pos = first_user_index(messages);
        messages.insert(pos, context_message);
        assert(final(messages)@.subrange(0, pos as int) =~= old(messages)@.subrange(0, pos as int));
        assert(final(messages)@.subrange(pos + 1, final(messages)@.len() as int)
            =~= old(messages)@.subrange(pos as int, old(messages)@.len() as int));
        assert(injected_at(old(messages)@, final(messages)@, pos as int, *context));
    }
}

/// The retrieval service with its default limits.
pub fn initialize_rag_service() -> (r: RagService)
    ensures
        r.config.max_documents == 5,
        r.config.relevance_threshold == 70,
        r.config.max_context_tokens == 4000,
        r.config.embedding_model@ == "text-embedding-ada-002"@,
{
    RagService::new(RagConfig::default())
}

} // verus!
