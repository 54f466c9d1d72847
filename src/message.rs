//! Conversation messages and per-role token usage.

use vstd::prelude::*;
use crate::ident::new_id;
use crate::labels::{Role, ToolStatus};
use crate::time::now_micros;
use crate::error::Error;
use crate::labels::role_of_label;
use crate::tokens::{TokenCounter, count_spec};

verus! {

/// One entry of a conversation log. Immutable once appended.
pub struct Message {
    pub id: u128,
    pub agent_id: String,
    pub topic_id: String,
    pub role: Role,
    pub content: String,
    /// Token count, filled in when the message is appended.
    pub tokens: u32,
    /// Creation instant, microseconds since the Unix epoch (UTC).
    pub timestamp: i64,
    pub metadata: Option<MessageMetadata>,
}

/// Optional details of a message.
pub struct MessageMetadata {
    pub tool_calls: Vec<ToolCall>,
    pub thinking: Option<String>,
    pub model: Option<String>,
    /// Whether this message led to a memory being saved.
    pub triggered_memory: bool,
}

/// A tool call within a message; input and output are JSON texts.
pub struct ToolCall {
    pub id: String,
    pub name: String,
    pub input: String,
    pub output: Option<String>,
    pub status: ToolStatus,
}

impl Message {
    /// A new message with a fresh id, stamped now, with no tokens counted yet.
    pub fn new(agent_id: String, topic_id: String, role: Role, content: String) -> (r: Message)
        ensures
            r.agent_id == agent_id,
            r.topic_id == topic_id,
            r.role == role,
            r.content == content,
            r.tokens == 0,
            r.metadata is None,
    {
        Message {
            id: new_id(),
            agent_id,
            topic_id,
            role,
            content,
            tokens: 0,
            timestamp: now_micros(),
            metadata: None,
        }
    }

    /// This message with its token count set.
    pub fn with_tokens(self, tokens: u32) -> (r: Message)
        ensures
            r == (Message { tokens: tokens, ..self }),
    {
        Message { tokens, ..self }
    }

    /// This message with its metadata set.
    pub fn with_metadata(self, metadata: MessageMetadata) -> (r: Message)
        ensures
            r == (Message { metadata: Some(metadata), ..self }),
    {
        Message { metadata: Some(metadata), ..self }
    }
}

/// Token usage of a topic, by role, against a context limit.
pub struct TokenUsage {
    pub total: u32,
    pub system: u32,
    pub user: u32,
    pub assistant: u32,
    pub tool: u32,
    pub limit: u32,
}

/// Whether `used / limit` reaches a threshold given in millionths.
pub open spec fn reaches(used: nat, limit: nat, threshold_ppm: nat) -> bool {
    used * 1_000_000 >= threshold_ppm * limit
}

pub fn reaches_exec(used: u32, limit: u32, threshold_ppm: u32) -> (r: bool)
    ensures
        r == reaches(used as nat, limit as nat, threshold_ppm as nat),
{
    let t: u64 = threshold_ppm as u64;
    let l: u64 = limit as u64;
    proof {
        assert(t * l <= 0xffff_ffff * 0xffff_ffff) by (nonlinear_arith)
            requires t <= 0xffff_ffff, l <= 0xffff_ffff;
    }
    let a: u64 = used as u64 * 1_000_000u64;
    let b: u64 = t * l;
    a >= b
}

impl TokenUsage {
    pub open spec fn parts_sum(&self) -> bool {
        self.total as int == self.system + self.user + self.assistant + self.tool
    }

    /// No tokens yet against `limit`.
    pub fn new(limit: u32) -> (r: TokenUsage)
        ensures
            r == (TokenUsage { total: 0, system: 0, user: 0, assistant: 0, tool: 0, limit: limit }),
            r.parts_sum(),
    {
        TokenUsage { total: 0, system: 0, user: 0, assistant: 0, tool: 0, limit }
    }

    /// Counts `tokens` for `role`.
    pub fn add(&mut self, role: Role, tokens: u32)
        requires
            old(self).total + tokens <= u32::MAX,
            old(self).parts_sum(),
        ensures
            final(self).parts_sum(),
            final(self).total == old(self).total + tokens,
            final(self).limit == old(self).limit,
            final(self).system == old(self).system + (if role == Role::System { tokens } else { 0 }),
            final(self).user == old(self).user + (if role == Role::User { tokens } else { 0 }),
            final(self).assistant == old(self).assistant + (if role == Role::Assistant { tokens } else { 0 }),
            final(self).tool == old(self).tool + (if role == Role::Tool { tokens } else { 0 }),
    {
        self.total = self.total + tokens;
        match role {
            Role::System => self.system = self.system + tokens,
            Role::User => self.user = self.user + tokens,
            Role::Assistant => self.assistant = self.assistant + tokens,
            Role::Tool => self.tool = self.tool + tokens,
        }
    }

    /// Whether utilisation has reached a warning threshold (millionths).
    pub fn is_warning(&self, threshold_ppm: u32) -> (r: bool)
        ensures
            r == reaches(self.total as nat, self.limit as nat, threshold_ppm as nat),
    {
        reaches_exec(self.total, self.limit, threshold_ppm)
    }

    /// Whether utilisation has reached a critical threshold (millionths).
    pub fn is_critical(&self, threshold_ppm: u32) -> (r: bool)
        ensures
            r == reaches(self.total as nat, self.limit as nat, threshold_ppm as nat),
    {
        reaches_exec(self.total, self.limit, threshold_ppm)
    }
}

} // verus!

verus! {

impl Message {
    /// Validates an append request and builds the message to append, its
    /// tokens counted by `counter`.
    pub fn from_request(
        agent_id: String,
        topic_id: String,
        role: &str,
        content: String,
        counter: &TokenCounter,
    ) -> (r: Result<Message, Error>)
        ensures
            r is Ok <==> role_of_label(role@) is Some,
            r is Err ==> r->Err_0 is InvalidInput,
            r is Ok ==> ({
                let m = r->Ok_0;
                &&& m.agent_id == agent_id
                &&& m.topic_id == topic_id
                &&& m.role == role_of_label(role@)->Some_0
                &&& m.content == content
                &&& m.tokens == count_spec(counter.model(), content@)
                &&& m.metadata is None
            }),
    {
        let role = match Role::parse(role) {
            Some(r) => r,
            None => return Err(Error::invalid_input("unknown role")),
        };
        let tokens = counter.count(content.as_str());
        Ok(Message::new(agent_id, topic_id, role, content).with_tokens(tokens))
    }
}

} // verus!
