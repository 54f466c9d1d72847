//! Records and queries of the relational metadata store.

use vstd::prelude::*;
use vstd::string::StringExecFns;
use crate::json::strings_view;
use crate::labels::{MemoryScope, scope_label};

verus! {

/// An agent as the metadata store records it.
pub struct AgentRecord {
    pub id: String,
    pub name: String,
    pub model: String,
    pub context_limit: u32,
    pub color: String,
    /// Microseconds since the Unix epoch (UTC).
    pub created_at: i64,
}

/// A topic as the metadata store records it; its counts may lag the log.
pub struct TopicRecord {
    pub id: String,
    pub agent_id: String,
    pub name: String,
    pub created_at: i64,
    pub last_message_at: Option<i64>,
    pub message_count: u32,
    pub token_count: u32,
}

/// A statement and its positional parameters.
pub struct ListQuery {
    pub sql: String,
    pub params: Vec<String>,
}

pub open spec fn select_memories_sql() -> Seq<char> {
    "SELECT id, scope, memory_type, agent_id, topic_id, content, context, tags, created_at, last_used_at, retrieval_count, active FROM memories WHERE 1=1"@
}

pub open spec fn when<T>(c: bool, s: Seq<T>) -> Seq<T> {
    if c {
        s
    } else {
        seq![]
    }
}

/// The listing statement: the conjunction of the given filters, newest
/// first.
pub open spec fn list_sql(has_scope: bool, has_agent: bool, has_topic: bool, active_only: bool) -> Seq<char> {
    select_memories_sql()
        + when(has_scope, " AND scope = ?"@)
        + when(has_agent, " AND agent_id = ?"@)
        + when(has_topic, " AND topic_id = ?"@)
        + when(active_only, " AND active = 1"@)
        + " ORDER BY created_at DESC"@
}

pub open spec fn opt_seq(o: Option<Seq<char>>) -> Seq<Seq<char>> {
    match o {
        Some(s) => seq![s],
        None => seq![],
    }
}

pub open spec fn str_opt(o: Option<&str>) -> Option<Seq<char>> {
    match o {
        Some(s) => Some(s@),
        None => None,
    }
}

pub open spec fn scope_opt(o: Option<MemoryScope>) -> Option<Seq<char>> {
    match o {
        Some(s) => Some(scope_label(s)),
        None => None,
    }
}

/// Builds the statement that lists memories under optional filters on
/// scope, agent and topic, and on the active flag.
pub fn list_memories_query(
    scope: Option<MemoryScope>,
    agent_id: Option<&str>,
    topic_id: Option<&str>,
    active_only: bool,
) -> (r: ListQuery)
    ensures
        r.sql@ == list_sql(scope is Some, agent_id is Some, topic_id is Some, active_only),
        strings_view(r.params@) == opt_seq(scope_opt(scope)) + opt_seq(str_opt(agent_id))
            + opt_seq(str_opt(topic_id)),
{
    let mut sql = String::from_str(
        "SELECT id, scope, memory_type, agent_id, topic_id, content, context, tags, created_at, last_used_at, retrieval_count, active FROM memories WHERE 1=1",
    );
    let mut params: Vec<String> = Vec::new();
    let ghost s0 = sql@;
    if let Some(s) = scope {
        sql.append(" AND scope = ?");
        params.push(String::from_str(s.as_str()));
    }
    assert(sql@ =~= s0 + when(scope is Some, " AND scope = ?"@));
    assert(strings_view(params@) =~= opt_seq(scope_opt(scope)));
    let ghost s1 = sql@;
    let ghost prev_params = strings_view(params@);
    if let Some(a) = agent_id {
        sql.append(" AND agent_id = ?");
        params.push(String::from_str(a));
    }
    assert(sql@ =~= s1 + when(agent_id is Some, " AND agent_id = ?"@));
    assert(strings_view(params@) =~= prev_params + opt_seq(str_opt(agent_id)));
    let ghost s2 = sql@;
    let ghost mid_params = strings_view(params@);
    if let Some(t) = topic_id {
        sql.append(" AND topic_id = ?");
        params.push(String::from_str(t));
    }
    assert(sql@ =~= s2 + when(topic_id is Some, " AND topic_id = ?"@));
    assert(strings_view(params@) =~= mid_params + opt_seq(str_opt(topic_id)));
    let ghost s3 = sql@;
    if active_only {
        sql.append(" AND active = 1");
    }
    assert(sql@ =~= s3 + when(active_only, " AND active = 1"@));
    sql.append(" ORDER BY created_at DESC");
    ListQuery { sql, params }
}

} // verus!
