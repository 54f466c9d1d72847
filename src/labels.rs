//! The closed vocabularies (scope, memory type, role, tool status) and
//! their canonical lowercase labels.

use vstd::prelude::*;

verus! {

/// Visibility envelope of a memory.
#[derive(Debug, Clone, Copy, PartialEq, Eq, Structural)]
pub enum MemoryScope {
    /// Applies to all agents and topics.
    Global,
    /// Applies to one agent.
    Agent,
    /// Applies to one topic within an agent.
    Topic,
    /// User-specific; shaped like a global memory.
    Personal,
}

/// Kind of knowledge a memory holds.
#[derive(Debug, Clone, Copy, PartialEq, Eq, Structural)]
pub enum MemoryType {
    Correction,
    Preference,
    Fact,
    Workflow,
    Constraint,
}

/// Sender of a conversation message.
#[derive(Debug, Clone, Copy, PartialEq, Eq, Structural)]
pub enum Role {
    System,
    User,
    Assistant,
    Tool,
}

/// Progress of a tool call.
#[derive(Debug, Clone, Copy, PartialEq, Eq, Structural)]
pub enum ToolStatus {
    Pending,
    Running,
    Success,
    Error,
}

pub open spec fn scope_label(s: MemoryScope) -> Seq<char> {
    match s {
        MemoryScope::Global => "global"@,
        MemoryScope::Agent => "agent"@,
        MemoryScope::Topic => "topic"@,
        MemoryScope::Personal => "personal"@,
    }
}

pub open spec fn type_label(t: MemoryType) -> Seq<char> {
    match t {
        MemoryType::Correction => "correction"@,
        MemoryType::Preference => "preference"@,
        MemoryType::Fact => "fact"@,
        MemoryType::Workflow => "workflow"@,
        MemoryType::Constraint => "constraint"@,
    }
}

pub open spec fn role_label(r: Role) -> Seq<char> {
    match r {
        Role::System => "system"@,
        Role::User => "user"@,
        Role::Assistant => "assistant"@,
        Role::Tool => "tool"@,
    }
}

pub open spec fn status_label(s: ToolStatus) -> Seq<char> {
    match s {
        ToolStatus::Pending => "pending"@,
        ToolStatus::Running => "running"@,
        ToolStatus::Success => "success"@,
        ToolStatus::Error => "error"@,
    }
}

/// The scope whose canonical label is `s`, if any.
pub open spec fn scope_of_label(s: Seq<char>) -> Option<MemoryScope> {
    if s == "global"@ {
        Some(MemoryScope::Global)
    } else if s == "agent"@ {
        Some(MemoryScope::Agent)
    } else if s == "topic"@ {
        Some(MemoryScope::Topic)
    } else if s == "personal"@ {
        Some(MemoryScope::Personal)
    } else {
        None
    }
}

pub open spec fn type_of_label(s: Seq<char>) -> Option<MemoryType> {
    if s == "correction"@ {
        Some(MemoryType::Correction)
    } else if s == "preference"@ {
        Some(MemoryType::Preference)
    } else if s == "fact"@ {
        Some(MemoryType::Fact)
    } else if s == "workflow"@ {
        Some(MemoryType::Workflow)
    } else if s == "constraint"@ {
        Some(MemoryType::Constraint)
    } else {
        None
    }
}

pub open spec fn role_of_label(s: Seq<char>) -> Option<Role> {
    if s == "system"@ {
        Some(Role::System)
    } else if s == "user"@ {
        Some(Role::User)
    } else if s == "assistant"@ {
        Some(Role::Assistant)
    } else if s == "tool"@ {
        Some(Role::Tool)
    } else {
        None
    }
}

pub open spec fn status_of_label(s: Seq<char>) -> Option<ToolStatus> {
    if s == "pending"@ {
        Some(ToolStatus::Pending)
    } else if s == "running"@ {
        Some(ToolStatus::Running)
    } else if s == "success"@ {
        Some(ToolStatus::Success)
    } else if s == "error"@ {
        Some(ToolStatus::Error)
    } else {
        None
    }
}

/// Exact comparison of a string with a literal.
pub fn str_eq(a: &str, b: &str) -> (r: bool)
    ensures
        r == (a@ == b@),
{
    let n = a.unicode_len();
    if n != b.unicode_len() {
        return false;
    }
    let mut i: usize = 0;
    while i < n
        invariant
            n == a@.len(),
            n == b@.len(),
            i <= n,
            a@.subrange(0, i as int) == b@.subrange(0, i as int),
        decreases n - i,
    {
        if a.get_char(i) != b.get_char(i) {
            return false;
        }
        assert(a@.subrange(0, i + 1) == a@.subrange(0, i as int).push(a@[i as int]));
        assert(b@.subrange(0, i + 1) == b@.subrange(0, i as int).push(b@[i as int]));
        i = i + 1;
    }
    assert(a@ == a@.subrange(0, n as int));
    assert(b@ == b@.subrange(0, n as int));
    true
}

impl MemoryScope {
    /// The canonical lowercase label.
    pub fn as_str(&self) -> (r: &'static str)
        ensures
            r@ == scope_label(*self),
    {
        match self {
            MemoryScope::Global => "global",
            MemoryScope::Agent => "agent",
            MemoryScope::Topic => "topic",
            MemoryScope::Personal => "personal",
        }
    }

    /// The scope named by a canonical label; other spellings are refused.
    pub fn parse(s: &str) -> (r: Option<MemoryScope>)
        ensures
            r == scope_of_label(s@),
    {
        if str_eq(s, "global") {
            Some(MemoryScope::Global)
        } else if str_eq(s, "agent") {
            Some(MemoryScope::Agent)
        } else if str_eq(s, "topic") {
            Some(MemoryScope::Topic)
        } else if str_eq(s, "personal") {
            Some(MemoryScope::Personal)
        } else {
            None
        }
    }
}

impl MemoryType {
    /// The canonical lowercase label.
    pub fn as_str(&self) -> (r: &'static str)
        ensures
            r@ == type_label(*self),
    {
        match self {
            MemoryType::Correction => "correction",
            MemoryType::Preference => "preference",
            MemoryType::Fact => "fact",
            MemoryType::Workflow => "workflow",
            MemoryType::Constraint => "constraint",
        }
    }

    /// The value named by a canonical label; other spellings are refused.
    pub fn parse(s: &str) -> (r: Option<MemoryType>)
        ensures
            r == type_of_label(s@),
    {
        if str_eq(s, "correction") {
            Some(MemoryType::Correction)
        } else if str_eq(s, "preference") {
            Some(MemoryType::Preference)
        } else if str_eq(s, "fact") {
            Some(MemoryType::Fact)
        } else if str_eq(s, "workflow") {
            Some(MemoryType::Workflow)
        } else if str_eq(s, "constraint") {
            Some(MemoryType::Constraint)
        } else {
            None
        }
    }
}

impl Role {
    /// The canonical lowercase label.
    pub fn as_str(&self) -> (r: &'static str)
        ensures
            r@ == role_label(*self),
    {
        match self {
            Role::System => "system",
            Role::User => "user",
            Role::Assistant => "assistant",
            Role::Tool => "tool",
        }
    }

    /// The value named by a canonical label; other spellings are refused.
    pub fn parse(s: &str) -> (r: Option<Role>)
        ensures
            r == role_of_label(s@),
    {
        if str_eq(s, "system") {
            Some(Role::System)
        } else if str_eq(s, "user") {
            Some(Role::User)
        } else if str_eq(s, "assistant") {
            Some(Role::Assistant)
        } else if str_eq(s, "tool") {
            Some(Role::Tool)
        } else {
            None
        }
    }
}

impl ToolStatus {
    /// The canonical lowercase label.
    pub fn as_str(&self) -> (r: &'static str)
        ensures
            r@ == status_label(*self),
    {
        match self {
            ToolStatus::Pending => "pending",
            ToolStatus::Running => "running",
            ToolStatus::Success => "success",
            ToolStatus::Error => "error",
        }
    }

    /// The value named by a canonical label; other spellings are refused.
    pub fn parse(s: &str) -> (r: Option<ToolStatus>)
        ensures
            r == status_of_label(s@),
    {
        if str_eq(s, "pending") {
            Some(ToolStatus::Pending)
        } else if str_eq(s, "running") {
            Some(ToolStatus::Running)
        } else if str_eq(s, "success") {
            Some(ToolStatus::Success)
        } else if str_eq(s, "error") {
            Some(ToolStatus::Error)
        } else {
            None
        }
    }
}

/// Every scope, type, role and status is read back from its label.
pub proof fn lemma_labels_round_trip(s: MemoryScope, t: MemoryType, r: Role, st: ToolStatus)
    ensures
        scope_of_label(scope_label(s)) == Some(s),
        type_of_label(type_label(t)) == Some(t),
        role_of_label(role_label(r)) == Some(r),
        status_of_label(status_label(st)) == Some(st),
{
    reveal_strlit("global");
    assert("global"@.len() == 6 && "global"@[0] == 'g');
    reveal_strlit("agent");
    assert("agent"@.len() == 5 && "agent"@[0] == 'a');
    reveal_strlit("topic");
    assert("topic"@.len() == 5 && "topic"@[0] == 't');
    reveal_strlit("personal");
    assert("personal"@.len() == 8 && "personal"@[0] == 'p');
    reveal_strlit("correction");
    assert("correction"@.len() == 10 && "correction"@[0] == 'c' && "correction"@[2] == 'r');
    reveal_strlit("preference");
    assert("preference"@.len() == 10 && "preference"@[0] == 'p');
    reveal_strlit("fact");
    assert("fact"@.len() == 4 && "fact"@[0] == 'f');
    reveal_strlit("workflow");
    assert("workflow"@.len() == 8 && "workflow"@[0] == 'w');
    reveal_strlit("constraint");
    assert("constraint"@.len() == 10 && "constraint"@[0] == 'c' && "constraint"@[2] == 'n');
    reveal_strlit("system");
    assert("system"@.len() == 6 && "system"@[0] == 's');
    reveal_strlit("user");
    assert("user"@.len() == 4 && "user"@[0] == 'u');
    reveal_strlit("assistant");
    assert("assistant"@.len() == 9 && "assistant"@[0] == 'a');
    reveal_strlit("tool");
    assert("tool"@.len() == 4 && "tool"@[0] == 't');
    reveal_strlit("pending");
    assert("pending"@.len() == 7 && "pending"@[0] == 'p');
    reveal_strlit("running");
    assert("running"@.len() == 7 && "running"@[0] == 'r');
    reveal_strlit("success");
    assert("success"@.len() == 7 && "success"@[0] == 's');
    reveal_strlit("error");
    assert("error"@.len() == 5 && "error"@[0] == 'e');
}

} // verus!
