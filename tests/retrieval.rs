use dieah_memory::config::Config;
use dieah_memory::labels::{MemoryType, Role};
use dieah_memory::log::{frame_record, split_records, JsonlStorage};
use dieah_memory::message::Message;
use dieah_memory::retrieval::{
    estimate_context_tokens, rank_memories, topic_budget, ContextBudget, RetrievalContext, RetrievalEngine,
    RetrievedMemory,
};
use dieah_memory::error::Error;
use dieah_memory::vector::{check_embedding, delete_filter, keep_scored, search_filter, SearchResult};

fn hit(id: u128, score: u32, content: &str) -> RetrievedMemory {
    RetrievedMemory {
        id,
        content: content.to_string(),
        scope: "global".to_string(),
        memory_type: "correction".to_string(),
        score,
    }
}

fn msg(content: &str, tokens: u32) -> Message {
    Message::new("a1".to_string(), "t1".to_string(), Role::User, content.to_string()).with_tokens(tokens)
}

fn engine() -> RetrievalEngine {
    RetrievalEngine::new(Config::with_data_dir("/tmp/dm".to_string()))
}

#[test]
fn framed_records_read_back_in_order() {
    let lines = ["{\"a\":1}", "{\"b\":2}", "{\"c\":\"é\"}"];
    let mut text = String::new();
    for l in lines {
        text.push_str(&frame_record(l));
    }
    assert!(text.ends_with('\n'));
    assert_eq!(split_records(&text), lines.to_vec());
    assert_eq!(JsonlStorage::count(&text), 3);
}

#[test]
fn blank_and_partial_lines_are_skipped() {
    let text = "one\n\n   \ntwo\nthr";
    assert_eq!(split_records(text), vec!["one".to_string(), "two".to_string()]);
    assert_eq!(JsonlStorage::count(text), 2);
    assert_eq!(split_records(""), Vec::<String>::new());
}

#[test]
fn last_n_is_a_stable_tail() {
    let all = vec![msg("m0", 1), msg("m1", 2), msg("m2", 3)];
    let tail = JsonlStorage::read_last_n(all, 2);
    assert_eq!(tail.iter().map(|m| m.content.as_str()).collect::<Vec<_>>(), vec!["m1", "m2"]);
    let all = vec![msg("m0", 1), msg("m1", 2)];
    assert_eq!(JsonlStorage::read_last_n(all, 5).len(), 2);
    let all = vec![msg("m0", 1)];
    assert_eq!(JsonlStorage::read_last_n(all, 0).len(), 0);
}

#[test]
fn append_then_read_last() {
    let log = vec![msg("hello", 1)];
    let last = JsonlStorage::read_last_n(log, 1);
    assert_eq!(last.len(), 1);
    assert_eq!(last[0].content, "hello");
}

#[test]
fn total_tokens_sums_the_log() {
    let log = vec![msg("a", 30), msg("b", 40), msg("c", 0)];
    assert_eq!(JsonlStorage::total_tokens(&log), Some(70));
    assert_eq!(JsonlStorage::total_tokens(&Vec::new()), Some(0));
    let huge = vec![msg("a", u32::MAX), msg("b", 1)];
    assert_eq!(JsonlStorage::total_tokens(&huge), None);
}

#[test]
fn log_paths() {
    let s = JsonlStorage::new("/data");
    assert_eq!(s.base_path, "/data/conversations");
    assert_eq!(s.agent_dir("a1"), "/data/conversations/a1");
    assert_eq!(s.log_path("a1", "t1"), "/data/conversations/a1/t1.jsonl");
    let c = Config::with_data_dir("/data".to_string());
    assert_eq!(c.conversation_log_path("a1", "t1"), s.log_path("a1", "t1"));
    assert_eq!(c.sqlite_path(), "/data/metadata.db");
    assert_eq!(c.vector_db_path(), "/data/vectors");
    assert_eq!(c.required_dirs(), vec!["/data", "/data/conversations", "/data/vectors"]);
    assert_eq!(c.embedding_dimensions, 384);
    assert_eq!(c.server_port, 8420);
    assert!(Config::default().data_dir.ends_with("/dieah-memory"));
}

#[test]
fn relabel_and_topics() {
    let moved = JsonlStorage::relabel(vec![msg("x", 3), msg("y", 4)], "b2", "t9");
    assert!(moved.iter().all(|m| m.agent_id == "b2" && m.topic_id == "t9"));
    assert_eq!(moved[1].content, "y");
    assert_eq!(moved[1].tokens, 4);
    let names = vec!["t1.jsonl".to_string(), ".jsonl".to_string(), "notes.txt".to_string(), "a.b.jsonl".to_string()];
    assert_eq!(JsonlStorage::topic_names(&names), vec!["t1".to_string(), "a.b".to_string()]);
}

#[test]
fn search_ignores_case() {
    let log = vec![msg("Deploy on Friday", 1), msg("lunch", 1), msg("DEPLOYMENT done", 1)];
    let found = JsonlStorage::search(log, "deploy");
    assert_eq!(found.iter().map(|m| m.content.as_str()).collect::<Vec<_>>(), vec!["Deploy on Friday", "DEPLOYMENT done"]);
}

#[test]
fn ranking_is_stable_and_bounded() {
    let hits = vec![hit(1, 500, "a"), hit(2, 900, "b"), hit(3, 500, "c"), hit(4, 950, "d")];
    let ranked = rank_memories(hits, 3);
    assert_eq!(ranked.iter().map(|h| h.id).collect::<Vec<_>>(), vec![4, 2, 1]);
    let hits = vec![hit(1, 500, "a"), hit(3, 500, "c")];
    assert_eq!(rank_memories(hits, 10).iter().map(|h| h.id).collect::<Vec<_>>(), vec![1, 3]);
}

#[test]
fn prompt_format() {
    let ctx = RetrievalContext {
        memories: vec![hit(1, 1_000_000, "Prefer kebab-case")],
        recent_messages: vec![msg("hi", 1)],
        total_tokens: 5,
    };
    assert_eq!(
        ctx.format_for_prompt(),
        "## Relevant Memories\n- [correction] Prefer kebab-case\n\n## Recent Conversation Context\nuser: hi\n"
    );
    let empty = RetrievalContext::empty();
    assert!(empty.is_empty());
    assert_eq!(empty.format_for_prompt(), "");
    assert!(!ctx.is_empty());
}

#[test]
fn global_correction_is_retrieved() {
    let e = engine();
    let plan = e.plan(None, None);
    assert_eq!(plan.search_limit, 5);
    assert!(plan.agent_search.is_none() && plan.recent_from.is_none());
    let ctx = e.assemble(vec![hit(7, 800_000, "Prefer kebab-case")], Vec::new(), Vec::new(), 10);
    assert_eq!(ctx.memories.len(), 1);
    assert!(ctx.total_tokens > 0);
    assert!(ctx.format_for_prompt().starts_with("## Relevant Memories\n- [correction] Prefer kebab-case\n"));
}

#[test]
fn agent_scope_isolation() {
    let e = engine();
    let plan_a1 = e.plan(Some("a1".to_string()), None);
    assert_eq!(plan_a1.agent_search.as_deref(), Some("a1"));
    assert_eq!(
        search_filter(Some("agent"), plan_a1.agent_search.as_deref()).unwrap(),
        "scope = 'agent' AND agent_id = 'a1'"
    );
    let plan_a2 = e.plan(Some("a2".to_string()), Some("t1".to_string()));
    assert_eq!(search_filter(Some("agent"), plan_a2.agent_search.as_deref()).unwrap(), "scope = 'agent' AND agent_id = 'a2'");
    assert_eq!(plan_a2.recent_from, Some(("a2".to_string(), "t1".to_string())));
    assert_eq!(search_filter(Some("global"), None).unwrap(), "scope = 'global'");
    assert_eq!(search_filter(None, None), None);
}

#[test]
fn assemble_merges_and_counts() {
    let e = engine();
    let global = vec![hit(1, 700_000, "aaaaaaaa"), hit(2, 600_000, "b")];
    let agent = vec![hit(3, 650_000, "cccc")];
    let log = vec![msg("old", 10), msg("new", 20)];
    let ctx = e.assemble(global, agent, log, 1);
    assert_eq!(ctx.memories.iter().map(|h| h.id).collect::<Vec<_>>(), vec![1, 3, 2]);
    assert_eq!(ctx.recent_messages.len(), 1);
    assert_eq!(ctx.recent_messages[0].content, "new");
    assert_eq!(ctx.total_tokens, 2 + 1 + 0 + 20);
    assert_eq!(estimate_context_tokens(&ctx.memories, &ctx.recent_messages), 23);
}

#[test]
fn budget_bands() {
    let mut b = ContextBudget::new(100, 800_000, 950_000);
    b.add(70);
    assert_eq!(b.status(), "ok");
    assert_eq!(b.remaining(), 30);
    b.add(15);
    assert_eq!(b.status(), "warning");
    b.add(12);
    assert_eq!(b.status(), "critical");
    assert!(b.is_critical() && b.is_warning());
    b.add(10);
    assert_eq!(b.remaining(), 0);
}

#[test]
fn budget_band_edges() {
    let mut b = ContextBudget::new(100, 800_000, 950_000);
    b.add(80);
    assert_eq!(b.status(), "warning");
    b.add(15);
    assert_eq!(b.status(), "critical");
    let t = topic_budget(1000, &Config::with_data_dir("/d".to_string()));
    assert_eq!(t.limit, 128_000);
    assert_eq!(t.used, 1000);
    assert_eq!(t.status(), "ok");
    assert_eq!(t.remaining(), 127_000);
}

#[test]
fn corrections_are_detected() {
    let e = engine();
    let note = e.detect_correction("No, use tabs", "I used spaces").unwrap();
    assert_eq!(note, "User corrected: \"No, use tabs\"\nOriginal context: \"I used spaces\"");
    assert!(e.detect_correction("Well ACTUALLY, it is blue", "x").is_some());
    assert!(e.detect_correction("thanks, looks good", "x").is_none());
    assert!(e.detect_correction("knowing this", "x").is_none());
    let long = "z".repeat(300);
    let note = e.detect_correction("That's wrong", &long).unwrap();
    assert!(note.ends_with(&format!("\"{}\"", "z".repeat(200))));
}

#[test]
fn suggestions_take_the_first_phrase() {
    let e = engine();
    let m = e.suggest_memory_from_correction("Always use snake_case", "a1").unwrap();
    assert_eq!(m.memory_type, MemoryType::Preference);
    assert_eq!(m.agent_id.as_deref(), Some("a1"));
    assert_eq!(m.content, "Always use snake_case");
    let m = e.suggest_memory_from_correction("never push; always rebase", "a1").unwrap();
    assert_eq!(m.memory_type, MemoryType::Preference);
    let m = e.suggest_memory_from_correction("Never push to main", "a1").unwrap();
    assert_eq!(m.memory_type, MemoryType::Constraint);
    let m = e.suggest_memory_from_correction("Make sure tests pass", "a1").unwrap();
    assert_eq!(m.memory_type, MemoryType::Workflow);
    let m = e.suggest_memory_from_correction("Don't forget the docs", "a1").unwrap();
    assert_eq!(m.memory_type, MemoryType::Fact);
    assert!(e.suggest_memory_from_correction("hello there", "a1").is_none());
}

#[test]
fn dimension_mismatch_rejected() {
    assert!(check_embedding(Some(384), 384).is_ok());
    assert!(matches!(check_embedding(Some(3), 384), Err(Error::VectorDb(_))));
    assert!(matches!(check_embedding(None, 384), Err(Error::VectorDb(_))));
}

#[test]
fn exact_match_passes_floor() {
    let hits = vec![
        SearchResult { id: 1, content: "x".to_string(), scope: "global".to_string(), memory_type: "fact".to_string(), score: 1_000_000 },
        SearchResult { id: 2, content: "y".to_string(), scope: "global".to_string(), memory_type: "fact".to_string(), score: 699_999 },
        SearchResult { id: 3, content: "z".to_string(), scope: "agent".to_string(), memory_type: "fact".to_string(), score: 700_000 },
    ];
    let kept = keep_scored(hits, 700_000);
    assert_eq!(kept.iter().map(|h| h.id).collect::<Vec<_>>(), vec![1, 3]);
    let r = RetrievedMemory::from_hit(kept.into_iter().next().unwrap());
    assert_eq!(r.score, 1_000_000);
    assert_eq!(r.content, "x");
}

#[test]
fn delete_predicate_names_the_id() {
    assert_eq!(delete_filter(0x67e55044_10b1_426f_9247_bb680e5fe0c8), "id = '67e55044-10b1-426f-9247-bb680e5fe0c8'");
    assert_eq!(delete_filter(5), delete_filter(5));
}
