//! Learned memories: creation rules, the scope-shape rule, upserts and
//! decoding of stored rows.

use vstd::prelude::*;
use crate::error::Error;
use crate::ident::{new_id, parse_id, uuid_of_text};
use crate::labels::{MemoryScope, MemoryType, scope_of_label, type_of_label};
use crate::time::{now_micros, parse_rfc3339, rfc3339_micros};
use crate::json::{parse_string_list, json_string_list, strings_view};

verus! {

/// A learned memory that persists across conversations.
///
/// Its embedding is not held here: the vector index owns it, and metadata
/// reads never carry it.
pub struct Memory {
    pub id: u128,
    pub scope: MemoryScope,
    pub memory_type: MemoryType,
    pub agent_id: Option<String>,
    pub topic_id: Option<String>,
    pub content: String,
    pub context: Option<String>,
    pub tags: Vec<String>,
    /// Creation instant, microseconds since the Unix epoch (UTC).
    pub created_at: i64,
    pub last_used_at: Option<i64>,
    pub retrieval_count: u32,
    pub active: bool,
}

/// The scope-shape rule: which of agent and topic a scope carries.
pub open spec fn shape_ok(scope: MemoryScope, agent: Option<String>, topic: Option<String>) -> bool {
    match scope {
        MemoryScope::Global | MemoryScope::Personal => agent is None && topic is None,
        MemoryScope::Agent => agent is Some && topic is None,
        MemoryScope::Topic => agent is Some && topic is Some,
    }
}

pub(crate) fn clone_opt(o: &Option<String>) -> (r: Option<String>)
    ensures
        r == *o,
{
    match o {
        Some(s) => Some(s.clone()),
        None => None,
    }
}

impl Memory {
    pub open spec fn well_shaped(&self) -> bool {
        shape_ok(self.scope, self.agent_id, self.topic_id)
    }

    /// A fresh memory: new identifier, created now, unused and active.
    pub open spec fn is_fresh(&self, scope: MemoryScope, memory_type: MemoryType, agent: Option<String>, topic: Option<String>, content: Seq<char>) -> bool {
        &&& self.scope == scope
        &&& self.memory_type == memory_type
        &&& self.agent_id == agent
        &&& self.topic_id == topic
        &&& self.content@ == content
        &&& self.context is None
        &&& self.tags@ == Seq::<String>::empty()
        &&& self.last_used_at is None
        &&& self.retrieval_count == 0
        &&& self.active
    }

    fn fresh(scope: MemoryScope, memory_type: MemoryType, agent_id: Option<String>, topic_id: Option<String>, content: String) -> (r: Memory)
        ensures
            r.is_fresh(scope, memory_type, agent_id, topic_id, content@),
    {
        Memory {
            id: new_id(),
            scope,
            memory_type,
            agent_id,
            topic_id,
            content,
            context: None,
            tags: Vec::new(),
            created_at: now_micros(),
            last_used_at: None,
            retrieval_count: 0,
            active: true,
        }
    }

    /// A new global memory.
    pub fn global(memory_type: MemoryType, content: String) -> (r: Memory)
        ensures
            r.is_fresh(MemoryScope::Global, memory_type, None, None, content@),
            r.well_shaped(),
    {
        Memory::fresh(MemoryScope::Global, memory_type, None, None, content)
    }

    /// A new memory scoped to one agent.
    pub fn for_agent(agent_id: String, memory_type: MemoryType, content: String) -> (r: Memory)
        ensures
            r.is_fresh(MemoryScope::Agent, memory_type, Some(agent_id), None, content@),
            r.well_shaped(),
    {
        Memory::fresh(MemoryScope::Agent, memory_type, Some(agent_id), None, content)
    }

    /// A new memory scoped to one topic of one agent.
    pub fn for_topic(agent_id: String, topic_id: String, memory_type: MemoryType, content: String) -> (r: Memory)
        ensures
            r.is_fresh(MemoryScope::Topic, memory_type, Some(agent_id), Some(topic_id), content@),
            r.well_shaped(),
    {
        Memory::fresh(MemoryScope::Topic, memory_type, Some(agent_id), Some(topic_id), content)
    }

    /// This memory with its triggering context set.
    pub fn with_context(self, context: String) -> (r: Memory)
        ensures
            r == (Memory { context: Some(context), ..self }),
    {
        Memory { context: Some(context), ..self }
    }

    /// This memory with its tags replaced.
    pub fn with_tags(self, tags: Vec<String>) -> (r: Memory)
        ensures
            r == (Memory { tags: tags, ..self }),
    {
        Memory { tags, ..self }
    }

    /// Records one retrieval at the instant `now`.
    pub fn mark_used_at(&mut self, now: i64)
        requires
            old(self).retrieval_count < u32::MAX,
        ensures
            *final(self) == (Memory {
                last_used_at: Some(now),
                retrieval_count: (old(self).retrieval_count + 1) as u32,
                ..*old(self)
            }),
    {
        self.last_used_at = Some(now);
        self.retrieval_count = self.retrieval_count + 1;
    }

    /// Records one retrieval now.
    pub fn mark_used(&mut self)
        requires
            old(self).retrieval_count < u32::MAX,
        ensures
            final(self).last_used_at is Some,
            *final(self) == (Memory {
                last_used_at: final(self).last_used_at,
                retrieval_count: (old(self).retrieval_count + 1) as u32,
                ..*old(self)
            }),
    {
        let now = now_micros();
        self.mark_used_at(now);
    }

    /// The record that an upsert leaves when a record with the same id is
    /// already stored: identity (id, scope, type, agent, topic, creation
    /// instant) stays as stored; the rest comes from `incoming`.
    pub open spec fn upsert_spec(stored: Memory, incoming: Memory) -> Memory {
        Memory {
            id: stored.id,
            scope: stored.scope,
            memory_type: stored.memory_type,
            agent_id: stored.agent_id,
            topic_id: stored.topic_id,
            created_at: stored.created_at,
            ..incoming
        }
    }

    /// Merges an incoming write into the stored record of the same id.
    pub fn upsert_into(stored: &Memory, incoming: Memory) -> (r: Memory)
        ensures
            r == Memory::upsert_spec(*stored, incoming),
    {
        Memory {
            id: stored.id,
            scope: stored.scope,
            memory_type: stored.memory_type,
            agent_id: clone_opt(&stored.agent_id),
            topic_id: clone_opt(&stored.topic_id),
            created_at: stored.created_at,
            ..incoming
        }
    }

    /// This memory with its active flag set (deactivate / reactivate).
    pub fn set_active(&mut self, active: bool)
        ensures
            *final(self) == (Memory { active: active, ..*old(self) }),
    {
        self.active = active;
    }
}

/// Whether a memory is well shaped, checked at run time.
pub fn shape_holds(scope: MemoryScope, agent_id: &Option<String>, topic_id: &Option<String>) -> (r: bool)
    ensures
        r == shape_ok(scope, *agent_id, *topic_id),
{
    match scope {
        MemoryScope::Global | MemoryScope::Personal => agent_id.is_none() && topic_id.is_none(),
        MemoryScope::Agent => agent_id.is_some() && topic_id.is_none(),
        MemoryScope::Topic => agent_id.is_some() && topic_id.is_some(),
    }
}

} // verus!

verus! {

/// A request to create a memory, with its enumerated fields still as text.
pub struct CreateMemoryRequest {
    pub scope: String,
    pub memory_type: String,
    pub agent_id: Option<String>,
    pub topic_id: Option<String>,
    pub content: String,
    pub context: Option<String>,
    pub tags: Option<Vec<String>>,
}

/// A request is accepted when both labels are canonical and the scope's
/// required identifiers are present.
pub open spec fn request_valid(req: CreateMemoryRequest) -> bool {
    &&& scope_of_label(req.scope@) is Some
    &&& type_of_label(req.memory_type@) is Some
    &&& match scope_of_label(req.scope@)->Some_0 {
        MemoryScope::Agent => req.agent_id is Some,
        MemoryScope::Topic => req.agent_id is Some && req.topic_id is Some,
        _ => true,
    }
}

/// What a valid request creates: personal is stored as global, an agent
/// memory drops any topic, and the memory starts unused and active.
pub open spec fn created_from(m: Memory, req: CreateMemoryRequest) -> bool {
    let t = type_of_label(req.memory_type@)->Some_0;
    let tags = match req.tags {
        Some(v) => v@,
        None => Seq::<String>::empty(),
    };
    &&& match scope_of_label(req.scope@)->Some_0 {
        MemoryScope::Global | MemoryScope::Personal => m.scope == MemoryScope::Global
            && m.agent_id is None && m.topic_id is None,
        MemoryScope::Agent => m.scope == MemoryScope::Agent && m.agent_id == req.agent_id
            && m.topic_id is None,
        MemoryScope::Topic => m.scope == MemoryScope::Topic && m.agent_id == req.agent_id
            && m.topic_id == req.topic_id,
    }
    &&& m.memory_type == t
    &&& m.content@ == req.content@
    &&& m.context == req.context
    &&& m.tags@ == tags
    &&& m.last_used_at is None
    &&& m.retrieval_count == 0
    &&& m.active
}

impl Memory {
    /// Validates a creation request and builds the memory it asks for.
    pub fn from_request(req: CreateMemoryRequest) -> (r: Result<Memory, Error>)
        ensures
            r is Ok <==> request_valid(req),
            r is Ok ==> created_from(r->Ok_0, req) && r->Ok_0.well_shaped(),
            r is Err ==> r->Err_0 is InvalidInput,
    {
        let scope = match MemoryScope::parse(req.scope.as_str()) {
            Some(s) => s,
            None => return Err(Error::invalid_input("unknown scope")),
        };
        let memory_type = match MemoryType::parse(req.memory_type.as_str()) {
            Some(t) => t,
            None => return Err(Error::invalid_input("unknown memory type")),
        };
        let CreateMemoryRequest { scope: _, memory_type: _, agent_id, topic_id, content, context, tags } = req;
        let memory = match scope {
            MemoryScope::Global | MemoryScope::Personal => Memory::global(memory_type, content),
            MemoryScope::Agent => match agent_id {
                Some(a) => Memory::for_agent(a, memory_type, content),
                None => return Err(Error::invalid_input("agent scope needs an agent id")),
            },
            MemoryScope::Topic => match (agent_id, topic_id) {
                (Some(a), Some(t)) => Memory::for_topic(a, t, memory_type, content),
                _ => return Err(Error::invalid_input("topic scope needs agent and topic ids")),
            },
        };
        let memory = match context {
            Some(c) => memory.with_context(c),
            None => memory,
        };
        let memory = match tags {
            Some(t) => memory.with_tags(t),
            None => memory,
        };
        Ok(memory)
    }
}

/// A memory row as the relational index stores it: every field as text
/// or a plain value.
pub struct MemoryRow {
    pub id: String,
    pub scope: String,
    pub memory_type: String,
    pub agent_id: Option<String>,
    pub topic_id: Option<String>,
    pub content: String,
    pub context: Option<String>,
    pub tags: String,
    pub created_at: String,
    pub last_used_at: Option<String>,
    pub retrieval_count: u32,
    pub active: bool,
}

/// A row decodes when its labels are canonical, its id is a UUID, its tags
/// are a JSON array of strings and its creation instant is RFC 3339.
pub open spec fn row_decodes(row: MemoryRow) -> bool {
    &&& scope_of_label(row.scope@) is Some
    &&& type_of_label(row.memory_type@) is Some
    &&& uuid_of_text(row.id@) is Some
    &&& json_string_list(row.tags@) is Some
    &&& rfc3339_micros(row.created_at@) is Some
}

/// An unreadable last-use instant is read as never used.
pub open spec fn last_used_of(s: Option<String>) -> Option<i64> {
    match s {
        Some(t) => rfc3339_micros(t@),
        None => None,
    }
}

pub open spec fn decoded_from(m: Memory, row: MemoryRow) -> bool {
    &&& m.id == uuid_of_text(row.id@)->Some_0
    &&& m.scope == scope_of_label(row.scope@)->Some_0
    &&& m.memory_type == type_of_label(row.memory_type@)->Some_0
    &&& m.agent_id == row.agent_id
    &&& m.topic_id == row.topic_id
    &&& m.content == row.content
    &&& m.context == row.context
    &&& strings_view(m.tags@) == json_string_list(row.tags@)->Some_0
    &&& m.created_at == rfc3339_micros(row.created_at@)->Some_0
    &&& m.last_used_at == last_used_of(row.last_used_at)
    &&& m.retrieval_count == row.retrieval_count
    &&& m.active == row.active
}

impl MemoryRow {
    /// Decodes a stored row. Unknown labels, a malformed id or creation
    /// instant are storage errors (corrupt data); malformed tags are a JSON
    /// error.
    pub fn into_memory(self) -> (r: Result<Memory, Error>)
        ensures
            r is Ok <==> row_decodes(self),
            r is Ok ==> decoded_from(r->Ok_0, self),
            r is Err ==> match r->Err_0 {
                Error::Json(_) => scope_of_label(self.scope@) is Some
                    && type_of_label(self.memory_type@) is Some
                    && uuid_of_text(self.id@) is Some
                    && json_string_list(self.tags@) is None,
                Error::Storage(_) => !(scope_of_label(self.scope@) is Some
                    && type_of_label(self.memory_type@) is Some
                    && uuid_of_text(self.id@) is Some)
                    || (json_string_list(self.tags@) is Some
                    && rfc3339_micros(self.created_at@) is None),
                _ => false,
            },
    {
        let scope = match MemoryScope::parse(self.scope.as_str()) {
            Some(s) => s,
            None => return Err(Error::storage("unknown scope")),
        };
        let memory_type = match MemoryType::parse(self.memory_type.as_str()) {
            Some(t) => t,
            None => return Err(Error::storage("unknown memory type")),
        };
        let id = match parse_id(self.id.as_str()) {
            Some(i) => i,
            None => return Err(Error::storage("malformed memory id")),
        };
        let tags = match parse_string_list(self.tags.as_str()) {
            Ok(t) => t,
            Err(e) => return Err(Error::Json(e)),
        };
        let created_at = match parse_rfc3339(self.created_at.as_str()) {
            Some(c) => c,
            None => return Err(Error::storage("malformed creation time")),
        };
        let last_used_at = match &self.last_used_at {
            Some(s) => parse_rfc3339(s.as_str()),
            None => None,
        };
        Ok(Memory {
            id,
            scope,
            memory_type,
            agent_id: self.agent_id,
            topic_id: self.topic_id,
            content: self.content,
            context: self.context,
            tags,
            created_at,
            last_used_at,
            retrieval_count: self.retrieval_count,
            active: self.active,
        })
    }
}

} // verus!

verus! {

/// Every memory the metadata store holds or hands back is well shaped:
/// creation yields a well-shaped memory; an upsert keeps the stored scope,
/// agent and topic; a flag change or a recorded use keeps them too; and a
/// row read back carries the scope and identifiers it was written with.
pub proof fn lemma_store_keeps_shape(
    req: CreateMemoryRequest,
    created: Memory,
    stored: Memory,
    incoming: Memory,
    active: bool,
    now: i64,
    row: MemoryRow,
    read: Memory,
)
    ensures
        request_valid(req) && created_from(created, req) ==> created.well_shaped(),
        stored.well_shaped() ==> Memory::upsert_spec(stored, incoming).well_shaped(),
        stored.well_shaped() ==> (Memory { active: active, ..stored }).well_shaped(),
        stored.well_shaped() ==> (Memory { last_used_at: Some(now), ..stored }).well_shaped(),
        row_decodes(row) && decoded_from(read, row)
            && shape_ok(scope_of_label(row.scope@)->Some_0, row.agent_id, row.topic_id)
            ==> read.well_shaped(),
{
}

} // verus!

verus! {

/// The value a stored memory's active flag takes when it is missing.
pub fn default_true() -> (r: bool)
    ensures
        r,
{
    true
}

} // verus!
