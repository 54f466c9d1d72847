use dieah_memory::error::Error;
use dieah_memory::labels::{MemoryScope, MemoryType, Role, ToolStatus};
use dieah_memory::memory::{default_true, shape_holds, CreateMemoryRequest, Memory, MemoryRow};
use dieah_memory::message::{Message, MessageMetadata, TokenUsage, ToolCall};
use dieah_memory::tokens::TokenCounter;

fn request(scope: &str, memory_type: &str, agent: Option<&str>, topic: Option<&str>) -> CreateMemoryRequest {
    CreateMemoryRequest {
        scope: scope.to_string(),
        memory_type: memory_type.to_string(),
        agent_id: agent.map(|s| s.to_string()),
        topic_id: topic.map(|s| s.to_string()),
        content: "Prefer kebab-case".to_string(),
        context: None,
        tags: None,
    }
}

fn row(scope: &str, memory_type: &str, id: &str, tags: &str, created: &str) -> MemoryRow {
    MemoryRow {
        id: id.to_string(),
        scope: scope.to_string(),
        memory_type: memory_type.to_string(),
        agent_id: Some("a1".to_string()),
        topic_id: None,
        content: "use tabs".to_string(),
        context: Some("ctx".to_string()),
        tags: tags.to_string(),
        created_at: created.to_string(),
        last_used_at: Some("not a time".to_string()),
        retrieval_count: 4,
        active: false,
    }
}

const ID: &str = "67e55044-10b1-426f-9247-bb680e5fe0c8";

#[test]
fn labels_round_trip() {
    for s in [MemoryScope::Global, MemoryScope::Agent, MemoryScope::Topic, MemoryScope::Personal] {
        assert_eq!(MemoryScope::parse(s.as_str()), Some(s));
    }
    for t in [MemoryType::Correction, MemoryType::Preference, MemoryType::Fact, MemoryType::Workflow, MemoryType::Constraint] {
        assert_eq!(MemoryType::parse(t.as_str()), Some(t));
    }
    for r in [Role::System, Role::User, Role::Assistant, Role::Tool] {
        assert_eq!(Role::parse(r.as_str()), Some(r));
    }
    for s in [ToolStatus::Pending, ToolStatus::Running, ToolStatus::Success, ToolStatus::Error] {
        assert_eq!(ToolStatus::parse(s.as_str()), Some(s));
    }
    assert_eq!(MemoryScope::Personal.as_str(), "personal");
    assert_eq!(MemoryType::Constraint.as_str(), "constraint");
}

#[test]
fn labels_only_canonical_spellings() {
    assert_eq!(MemoryScope::parse("Global"), None);
    assert_eq!(MemoryScope::parse("globals"), None);
    assert_eq!(MemoryType::parse(""), None);
    assert_eq!(Role::parse("USER"), None);
    assert_eq!(ToolStatus::parse("done"), None);
}

#[test]
fn create_global_correction() {
    let m = Memory::from_request(request("global", "correction", None, None)).ok().unwrap();
    assert_eq!(m.scope, MemoryScope::Global);
    assert_eq!(m.memory_type, MemoryType::Correction);
    assert_eq!(m.content, "Prefer kebab-case");
    assert!(m.agent_id.is_none() && m.topic_id.is_none());
    assert!(m.active);
    assert_eq!(m.retrieval_count, 0);
    assert!(m.last_used_at.is_none());
    assert!(shape_holds(m.scope, &m.agent_id, &m.topic_id));
}

#[test]
fn create_personal_is_stored_as_global() {
    let m = Memory::from_request(request("personal", "fact", Some("a1"), Some("t1"))).ok().unwrap();
    assert_eq!(m.scope, MemoryScope::Global);
    assert!(m.agent_id.is_none() && m.topic_id.is_none());
}

#[test]
fn create_agent_and_topic_scopes() {
    let a = Memory::from_request(request("agent", "preference", Some("a1"), Some("t1"))).ok().unwrap();
    assert_eq!(a.scope, MemoryScope::Agent);
    assert_eq!(a.agent_id.as_deref(), Some("a1"));
    assert!(a.topic_id.is_none());
    let t = Memory::from_request(request("topic", "workflow", Some("a1"), Some("t1"))).ok().unwrap();
    assert_eq!(t.scope, MemoryScope::Topic);
    assert_eq!(t.topic_id.as_deref(), Some("t1"));
    assert!(a.id != t.id);
}

#[test]
fn create_rejects_bad_input() {
    let bad = [
        request("everyone", "fact", None, None),
        request("global", "opinion", None, None),
        request("agent", "fact", None, None),
        request("topic", "fact", Some("a1"), None),
        request("topic", "fact", None, Some("t1")),
    ];
    for req in bad {
        assert!(matches!(Memory::from_request(req), Err(Error::InvalidInput(_))));
    }
}

#[test]
fn create_keeps_context_and_tags() {
    let mut req = request("global", "fact", None, None);
    req.context = Some("from chat".to_string());
    req.tags = Some(vec!["style".to_string(), "naming".to_string()]);
    let m = Memory::from_request(req).ok().unwrap();
    assert_eq!(m.context.as_deref(), Some("from chat"));
    assert_eq!(m.tags, vec!["style".to_string(), "naming".to_string()]);
}

#[test]
fn shape_rule() {
    let some = Some("x".to_string());
    assert!(shape_holds(MemoryScope::Global, &None, &None));
    assert!(!shape_holds(MemoryScope::Global, &some, &None));
    assert!(shape_holds(MemoryScope::Agent, &some, &None));
    assert!(!shape_holds(MemoryScope::Agent, &some, &some));
    assert!(shape_holds(MemoryScope::Topic, &some, &some));
    assert!(!shape_holds(MemoryScope::Topic, &None, &some));
    assert!(!shape_holds(MemoryScope::Personal, &None, &some));
}

#[test]
fn builders_and_use() {
    let m = Memory::for_agent("a1".to_string(), MemoryType::Fact, "x".to_string())
        .with_context("c".to_string())
        .with_tags(vec!["t".to_string()]);
    assert_eq!(m.context.as_deref(), Some("c"));
    assert_eq!(m.tags.len(), 1);
    let mut m = m;
    m.mark_used_at(42);
    m.mark_used();
    assert_eq!(m.retrieval_count, 2);
    assert!(m.last_used_at.is_some());
    m.set_active(false);
    assert!(!m.active);
    m.set_active(true);
    assert!(m.active);
    assert!(default_true());
}

#[test]
fn upsert_keeps_identity() {
    let stored = Memory::for_topic("a1".to_string(), "t1".to_string(), MemoryType::Fact, "old".to_string());
    let mut incoming = Memory::global(MemoryType::Constraint, "new".to_string()).with_tags(vec!["k".to_string()]);
    incoming.set_active(false);
    let merged = Memory::upsert_into(&stored, incoming);
    assert_eq!(merged.id, stored.id);
    assert_eq!(merged.scope, MemoryScope::Topic);
    assert_eq!(merged.memory_type, MemoryType::Fact);
    assert_eq!(merged.agent_id.as_deref(), Some("a1"));
    assert_eq!(merged.topic_id.as_deref(), Some("t1"));
    assert_eq!(merged.created_at, stored.created_at);
    assert_eq!(merged.content, "new");
    assert_eq!(merged.tags, vec!["k".to_string()]);
    assert!(!merged.active);
}

#[test]
fn row_decodes() {
    let m = row("agent", "workflow", ID, "[\"a\",\"b\"]", "2024-05-01T10:00:00Z").into_memory().ok().unwrap();
    assert_eq!(m.id, 0x67e55044_10b1_426f_9247_bb680e5fe0c8u128);
    assert_eq!(m.scope, MemoryScope::Agent);
    assert_eq!(m.memory_type, MemoryType::Workflow);
    assert_eq!(m.tags, vec!["a".to_string(), "b".to_string()]);
    assert_eq!(m.created_at, 1_714_557_600_000_000);
    assert_eq!(m.last_used_at, None);
    assert_eq!(m.retrieval_count, 4);
    assert!(!m.active);
    assert_eq!(m.context.as_deref(), Some("ctx"));
}

#[test]
fn row_errors() {
    let ok_time = "2024-05-01T10:00:00+02:00";
    assert!(matches!(row("team", "fact", ID, "[]", ok_time).into_memory(), Err(Error::Storage(_))));
    assert!(matches!(row("agent", "rumour", ID, "[]", ok_time).into_memory(), Err(Error::Storage(_))));
    assert!(matches!(row("agent", "fact", "nope", "[]", ok_time).into_memory(), Err(Error::Storage(_))));
    assert!(matches!(row("agent", "fact", ID, "{not json", ok_time).into_memory(), Err(Error::Json(_))));
    assert!(matches!(row("agent", "fact", ID, "[]", "yesterday").into_memory(), Err(Error::Storage(_))));
    let m = row("agent", "fact", ID, "[]", ok_time).into_memory().ok().unwrap();
    assert_eq!(m.created_at, 1_714_550_400_000_000);
}

#[test]
fn message_from_request() {
    let counter = TokenCounter::for_gpt().ok().unwrap();
    let m = Message::from_request("a1".to_string(), "t1".to_string(), "user", "hello".to_string(), &counter)
        .ok()
        .unwrap();
    assert_eq!(m.role, Role::User);
    assert!(m.tokens > 0);
    assert_eq!(m.content, "hello");
    let bad = Message::from_request("a1".to_string(), "t1".to_string(), "robot", "hi".to_string(), &counter);
    assert!(matches!(bad, Err(Error::InvalidInput(_))));
}

#[test]
fn message_builders() {
    let m = Message::new("a".to_string(), "t".to_string(), Role::Tool, "x".to_string()).with_tokens(7);
    assert_eq!(m.tokens, 7);
    assert!(m.metadata.is_none());
    let call = ToolCall {
        id: "c1".to_string(),
        name: "search".to_string(),
        input: "{\"q\":1}".to_string(),
        output: None,
        status: ToolStatus::Running,
    };
    let md = MessageMetadata { tool_calls: vec![call], thinking: None, model: Some("m".to_string()), triggered_memory: true };
    let m = m.with_metadata(md);
    let md = m.metadata.unwrap();
    assert!(md.triggered_memory);
    assert_eq!(md.tool_calls[0].status, ToolStatus::Running);
    assert_eq!(m.tokens, 7);
}

#[test]
fn token_usage_by_role() {
    let mut u = TokenUsage::new(100);
    u.add(Role::User, 30);
    u.add(Role::Assistant, 50);
    u.add(Role::User, 5);
    assert_eq!(u.total, 85);
    assert_eq!(u.user, 35);
    assert_eq!(u.assistant, 50);
    assert_eq!(u.system, 0);
    assert!(u.is_warning(800_000));
    assert!(!u.is_critical(950_000));
}

#[test]
fn token_counts() {
    let counter = TokenCounter::new("gpt-4").ok().unwrap();
    assert_eq!(counter.count(""), 0);
    assert_eq!(counter.count("hello world"), 2);
    assert_eq!(counter.count_or_estimate("hello world"), 2);
    assert_eq!(TokenCounter::estimate("abcdefghi"), 2);
    assert_eq!(TokenCounter::estimate("é"), 0);
    assert!(TokenCounter::for_claude().is_ok());
    assert!(matches!(TokenCounter::new("no-such-model"), Err(Error::Config(_))));
}

#[test]
fn error_constructors() {
    assert!(matches!(Error::storage("s"), Error::Storage(_)));
    assert!(matches!(Error::embedding("e"), Error::Embedding(_)));
    assert!(matches!(Error::vector_db("v"), Error::VectorDb(_)));
    assert!(matches!(Error::config("c"), Error::Config(_)));
    assert!(matches!(Error::not_found("n"), Error::NotFound(_)));
    assert_eq!(Error::invalid_input("bad role").message(), "bad role");
}
