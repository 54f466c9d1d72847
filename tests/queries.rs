use dieah_memory::labels::MemoryScope;
use dieah_memory::meta::list_memories_query;
use dieah_memory::shell::{extract_first_url, json_candidates, normalize_profile, token_from_url, trim, trim_url};

const BASE: &str = "SELECT id, scope, memory_type, agent_id, topic_id, content, context, tags, created_at, last_used_at, retrieval_count, active FROM memories WHERE 1=1";

#[test]
fn list_query_with_all_filters() {
    let q = list_memories_query(Some(MemoryScope::Agent), Some("a1"), Some("t1"), true);
    assert_eq!(
        q.sql,
        format!("{BASE} AND scope = ? AND agent_id = ? AND topic_id = ? AND active = 1 ORDER BY created_at DESC")
    );
    assert_eq!(q.params, vec!["agent".to_string(), "a1".to_string(), "t1".to_string()]);
}

#[test]
fn list_query_without_filters() {
    let q = list_memories_query(None, None, None, false);
    assert_eq!(q.sql, format!("{BASE} ORDER BY created_at DESC"));
    assert!(q.params.is_empty());
    let q = list_memories_query(None, Some("a1"), None, true);
    assert_eq!(q.sql, format!("{BASE} AND agent_id = ? AND active = 1 ORDER BY created_at DESC"));
    assert_eq!(q.params, vec!["a1".to_string()]);
}

#[test]
fn profiles_are_normalised() {
    assert_eq!(normalize_profile(Some("  work ")), Some("work".to_string()));
    assert_eq!(normalize_profile(Some(" default ")), None);
    assert_eq!(normalize_profile(Some("   ")), None);
    assert_eq!(normalize_profile(None), None);
    assert_eq!(trim("\t a b \n"), "a b");
}

#[test]
fn urls_are_cleaned() {
    assert_eq!(trim_url("  \"http://x.io/a?token=1\"). "), "http://x.io/a?token=1");
    assert_eq!(trim_url("(http://x.io)"), "(http://x.io");
    assert_eq!(trim_url("'http://x.io/path';"), "http://x.io/path");
    assert_eq!(trim_url("\"\""), "");
}

#[test]
fn first_url_of_output() {
    assert_eq!(
        extract_first_url("Dashboard ready:\n  open https://127.0.0.1:18789/?token=abc.\n"),
        Some("https://127.0.0.1:18789/?token=abc".to_string())
    );
    assert_eq!(
        extract_first_url("see (http://a.b/c) or http://d.e"),
        Some("http://d.e".to_string())
    );
    assert_eq!(extract_first_url("at:http://a.b/c\r\nnext"), Some("http://a.b/c".to_string()));
    assert_eq!(extract_first_url("no links here"), None);
}

#[test]
fn json_candidates_in_order() {
    let out = "Loading...\n{\"a\": 1}\n  done  \n";
    let c = json_candidates(out, "");
    assert_eq!(
        c,
        vec![
            "Loading...\n{\"a\": 1}\n  done".to_string(),
            "done".to_string(),
            "{\"a\": 1}".to_string(),
            "Loading...".to_string(),
            "{\"a\": 1}".to_string(),
        ]
    );
    let c = json_candidates("", " warn\n[1,2] ");
    assert_eq!(c, vec!["warn\n[1,2]".to_string(), "[1,2]".to_string(), "warn".to_string()]);
    let c = json_candidates("x ] y [", "");
    assert_eq!(c, vec!["x ] y [".to_string(), "x ] y [".to_string()]);
    assert!(json_candidates("  ", "\n").is_empty());
}

#[test]
fn dashboard_token_from_url() {
    assert_eq!(token_from_url("http://127.0.0.1:18789/?token=abc123"), Some("abc123".to_string()));
    assert_eq!(token_from_url("http://h/?x=1&authToken=%20zz%20"), Some("zz".to_string()));
    assert_eq!(token_from_url("http://h/?Token=&TOKEN=q"), Some("q".to_string()));
    assert_eq!(token_from_url("http://h/?page=1"), None);
    assert_eq!(token_from_url("not a url"), None);
    let url = extract_first_url("open http://h:1/?token=t9).").unwrap();
    assert_eq!(token_from_url(&url), Some("t9".to_string()));
}
