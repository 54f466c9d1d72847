//! Retrieval: ranking of hits, context assembly and prompt formatting,
//! correction detection, and context budgets.

use vstd::prelude::*;
use vstd::string::StringExecFns;
use crate::message::Message;
use crate::labels::role_label;
use crate::config::Config;
use crate::log::{JsonlStorage, last_n};
use vstd::utf8::encode_utf8;
use crate::text::{occurs, occurs_at, matches_at, contains, lower_of, to_lower};
use crate::message::{reaches, reaches_exec};
use crate::memory::Memory;
use crate::labels::{MemoryScope, MemoryType};

verus! {

/// A memory found by retrieval, with its similarity in millionths
/// (`1_000_000` is an exact match).
pub struct RetrievedMemory {
    pub id: u128,
    pub content: String,
    pub scope: String,
    pub memory_type: String,
    pub score: u32,
}

/// Stable insertion of `x` into a sequence ordered by descending score: `x`
/// goes after every item whose score is at least its own.
pub open spec fn insert_by_score(s: Seq<RetrievedMemory>, x: RetrievedMemory) -> Seq<RetrievedMemory>
    decreases s.len(),
{
    if s.len() == 0 || s.last().score >= x.score {
        s.push(x)
    } else {
        insert_by_score(s.drop_last(), x).push(s.last())
    }
}

/// The stable sort of `s` by descending score: equal scores keep their
/// order of arrival.
pub open spec fn sort_by_score(s: Seq<RetrievedMemory>) -> Seq<RetrievedMemory>
    decreases s.len(),
{
    if s.len() == 0 {
        s
    } else {
        insert_by_score(sort_by_score(s.drop_last()), s.last())
    }
}

pub open spec fn take<T>(s: Seq<T>, n: nat) -> Seq<T> {
    if n >= s.len() {
        s
    } else {
        s.subrange(0, n as int)
    }
}

pub open spec fn sorted_desc(s: Seq<RetrievedMemory>) -> bool {
    forall|i: int, j: int| 0 <= i < j < s.len() ==> s[i].score >= s[j].score
}

proof fn lemma_insert_at(s: Seq<RetrievedMemory>, x: RetrievedMemory, j: int)
    requires
        0 <= j <= s.len(),
        j == 0 || s[j - 1].score >= x.score,
        forall|k: int| j <= k < s.len() ==> s[k].score < x.score,
    ensures
        insert_by_score(s, x) == s.subrange(0, j) + seq![x] + s.subrange(j, s.len() as int),
    decreases s.len(),
{
    if s.len() == 0 {
        assert(s.push(x) =~= s.subrange(0, j) + seq![x] + s.subrange(j, s.len() as int));
    } else if s.last().score >= x.score {
        assert(j == s.len());
        assert(s.push(x) =~= s.subrange(0, j) + seq![x] + s.subrange(j, s.len() as int));
    } else {
        let t = s.drop_last();
        lemma_insert_at(t, x, j);
        assert(insert_by_score(t, x).push(s.last()) =~= s.subrange(0, j) + seq![x] + s.subrange(j, s.len() as int));
    }
}

proof fn lemma_insert_sorted(s: Seq<RetrievedMemory>, x: RetrievedMemory)
    requires
        sorted_desc(s),
    ensures
        sorted_desc(insert_by_score(s, x)),
        insert_by_score(s, x).len() == s.len() + 1,
    decreases s.len(),
{
    lemma_insert_len(s, x);
    if s.len() == 0 || s.last().score >= x.score {
    } else {
        let t = s.drop_last();
        lemma_insert_sorted(t, x);
        let r = insert_by_score(t, x);
        assert forall|k: int| 0 <= k < r.len() implies r[k].score >= s.last().score by {
            lemma_insert_members(t, x, k);
        }
    }
}

proof fn lemma_insert_len(s: Seq<RetrievedMemory>, x: RetrievedMemory)
    ensures
        insert_by_score(s, x).len() == s.len() + 1,
    decreases s.len(),
{
    if s.len() > 0 && s.last().score < x.score {
        lemma_insert_len(s.drop_last(), x);
    }
}

proof fn lemma_insert_members(s: Seq<RetrievedMemory>, x: RetrievedMemory, k: int)
    requires
        0 <= k < s.len() + 1,
    ensures
        insert_by_score(s, x).len() == s.len() + 1,
        insert_by_score(s, x)[k] == x || exists|m: int| 0 <= m < s.len() && insert_by_score(s, x)[k] == s[m],
    decreases s.len(),
{
    lemma_insert_len(s, x);
    if s.len() == 0 || s.last().score >= x.score {
        if k < s.len() {
            assert(insert_by_score(s, x)[k] == s[k]);
        }
    } else {
        let t = s.drop_last();
        if k < s.len() {
            lemma_insert_members(t, x, k);
            if insert_by_score(t, x)[k] != x {
                let m = choose|m: int| 0 <= m < t.len() && insert_by_score(t, x)[k] == t[m];
                assert(s[m] == t[m]);
            }
        } else {
            lemma_insert_len(t, x);
            assert(insert_by_score(s, x)[k] == s[s.len() - 1]);
        }
    }
}

/// The ranked result is ordered by descending score.
pub proof fn lemma_sort_by_score_sorted(s: Seq<RetrievedMemory>)
    ensures
        sorted_desc(sort_by_score(s)),
        sort_by_score(s).len() == s.len(),
    decreases s.len(),
{
    if s.len() > 0 {
        lemma_sort_by_score_sorted(s.drop_last());
        lemma_insert_sorted(sort_by_score(s.drop_last()), s.last());
    }
}

/// Orders hits by descending score, keeping the order of arrival among equal
/// scores, and keeps the first `max`.
pub fn rank_memories(hits: Vec<RetrievedMemory>, max: usize) -> (r: Vec<RetrievedMemory>)
    ensures
        r@ == take(sort_by_score(hits@), max as nat),
{
    let total = hits.len();
    let ghost orig = hits@;
    let mut rest = hits;
    let mut out: Vec<RetrievedMemory> = Vec::new();
    let mut i: usize = 0;
    while rest.len() > 0
        invariant
            orig.len() == total,
            i + rest@.len() == total,
            rest@ == orig.subrange(i as int, total as int),
            out@ == sort_by_score(orig.subrange(0, i as int)),
            out@.len() == i,
        decreases rest@.len(),
    {
        let x = rest.remove(0);
        assert(x == orig[i as int]);
        let mut j: usize = out.len();
        while j > 0 && out[j - 1].score < x.score
            invariant
                j <= out@.len(),
                forall|k: int| j <= k < out@.len() ==> out@[k].score < x.score,
            decreases j,
        {
            j = j - 1;
        }
        proof {
            lemma_insert_at(out@, x, j as int);
            assert(orig.subrange(0, i + 1).drop_last() =~= orig.subrange(0, i as int));
            assert(orig.subrange(0, i + 1).last() == x);
        }
        out.insert(j, x);
        assert(out@ =~= sort_by_score(orig.subrange(0, i + 1)));
        i = i + 1;
    }
    assert(orig.subrange(0, i as int) =~= orig);
    if max < out.len() {
        out.truncate(max);
    }
    out
}

} // verus!

verus! {

/// Retrieved context, ready to be placed in a prompt.
pub struct RetrievalContext {
    pub memories: Vec<RetrievedMemory>,
    pub recent_messages: Vec<Message>,
    /// Estimated tokens of the whole context.
    pub total_tokens: u32,
}

pub open spec fn memory_lines(ms: Seq<RetrievedMemory>) -> Seq<char>
    decreases ms.len(),
{
    if ms.len() == 0 {
        seq![]
    } else {
        memory_lines(ms.drop_last()) + "- ["@ + ms.last().memory_type@ + "] "@ + ms.last().content@ + "\n"@
    }
}

pub open spec fn message_lines(ms: Seq<Message>) -> Seq<char>
    decreases ms.len(),
{
    if ms.len() == 0 {
        seq![]
    } else {
        message_lines(ms.drop_last()) + role_label(ms.last().role) + ": "@ + ms.last().content@ + "\n"@
    }
}

/// The prompt text of a context: a memories section, then a conversation
/// section, each left out when it would be empty.
pub open spec fn prompt_text(ms: Seq<RetrievedMemory>, msgs: Seq<Message>) -> Seq<char> {
    (if ms.len() > 0 {
        "## Relevant Memories\n"@ + memory_lines(ms)
    } else {
        seq![]
    }) + (if msgs.len() > 0 {
        "\n## Recent Conversation Context\n"@ + message_lines(msgs)
    } else {
        seq![]
    })
}

/// Coarse token estimate of a memory: a quarter of its UTF-8 byte length
/// (a length in memory, hence a `usize`).
pub open spec fn memory_estimate(m: RetrievedMemory) -> nat {
    ((encode_utf8(m.content@).len() as usize) / 4) as nat
}

pub open spec fn memory_estimates(ms: Seq<RetrievedMemory>) -> nat
    decreases ms.len(),
{
    if ms.len() == 0 {
        0
    } else {
        memory_estimates(ms.drop_last()) + memory_estimate(ms.last())
    }
}

pub open spec fn message_tokens(ms: Seq<Message>) -> nat
    decreases ms.len(),
{
    if ms.len() == 0 {
        0
    } else {
        message_tokens(ms.drop_last()) + ms.last().tokens as nat
    }
}

pub open spec fn saturate(n: nat) -> u32 {
    if n <= u32::MAX {
        n as u32
    } else {
        u32::MAX
    }
}

/// Token figure of a context: estimated memory tokens plus the counted tokens
/// of the recent messages, saturating at `u32::MAX`.
pub open spec fn context_tokens(ms: Seq<RetrievedMemory>, msgs: Seq<Message>) -> u32 {
    saturate(memory_estimates(ms) + message_tokens(msgs))
}

fn sat_add(a: u32, b: u32) -> (r: u32)
    ensures
        r == saturate((a + b) as nat),
{
    if b > u32::MAX - a {
        u32::MAX
    } else {
        a + b
    }
}

proof fn lemma_saturate_step(x: nat, y: nat)
    ensures
        saturate((saturate(x) + y) as nat) == saturate(x + y),
{
}

/// Tokens of a context, computed in one pass.
pub fn estimate_context_tokens(ms: &Vec<RetrievedMemory>, msgs: &Vec<Message>) -> (r: u32)
    ensures
        r == context_tokens(ms@, msgs@),
{
    let mut acc: u32 = 0;
    let mut i: usize = 0;
    while i < ms.len()
        invariant
            i <= ms@.len(),
            acc == saturate(memory_estimates(ms@.subrange(0, i as int))),
        decreases ms@.len() - i,
    {
        assert(ms@.subrange(0, i + 1).drop_last() =~= ms@.subrange(0, i as int));
        let bytes = ms[i].content.as_str().len();
        let est = bytes / 4;
        let wide: usize = est;
        let e: u32 = if wide > 0xffff_ffff { u32::MAX } else { wide as u32 };
        proof {
            lemma_saturate_step(memory_estimates(ms@.subrange(0, i as int)), memory_estimate(ms@[i as int]));
            assert(saturate(memory_estimate(ms@[i as int])) == e);
        }
        acc = sat_add(acc, e);
        i = i + 1;
    }
    assert(ms@.subrange(0, i as int) =~= ms@);
    let mut j: usize = 0;
    while j < msgs.len()
        invariant
            j <= msgs@.len(),
            acc == saturate(memory_estimates(ms@) + message_tokens(msgs@.subrange(0, j as int))),
        decreases msgs@.len() - j,
    {
        assert(msgs@.subrange(0, j + 1).drop_last() =~= msgs@.subrange(0, j as int));
        proof {
            lemma_saturate_step(memory_estimates(ms@) + message_tokens(msgs@.subrange(0, j as int)), msgs@[j as int].tokens as nat);
        }
        acc = sat_add(acc, msgs[j].tokens);
        j = j + 1;
    }
    assert(msgs@.subrange(0, j as int) =~= msgs@);
    acc
}

impl RetrievalContext {
    /// A context with nothing in it.
    pub fn empty() -> (r: RetrievalContext)
        ensures
            r.memories@.len() == 0,
            r.recent_messages@.len() == 0,
            r.total_tokens == 0,
    {
        RetrievalContext { memories: Vec::new(), recent_messages: Vec::new(), total_tokens: 0 }
    }

    /// Whether the context holds neither memories nor messages.
    pub fn is_empty(&self) -> (r: bool)
        ensures
            r == (self.memories@.len() == 0 && self.recent_messages@.len() == 0),
    {
        self.memories.len() == 0 && self.recent_messages.len() == 0
    }

    /// The context as prompt text.
    pub fn format_for_prompt(&self) -> (r: String)
        ensures
            r@ == prompt_text(self.memories@, self.recent_messages@),
    {
        let mut out = String::new();
        if self.memories.len() > 0 {
            out.append("## Relevant Memories\n");
            let ghost head = out@;
            let mut i: usize = 0;
            while i < self.memories.len()
                invariant
                    i <= self.memories@.len(),
                    out@ == head + memory_lines(self.memories@.subrange(0, i as int)),
                decreases self.memories@.len() - i,
            {
                let m = &self.memories[i];
                assert(self.memories@.subrange(0, i + 1).drop_last() =~= self.memories@.subrange(0, i as int));
                out.append("- [");
                out.append(m.memory_type.as_str());
                out.append("] ");
                out.append(m.content.as_str());
                out.append("\n");
                assert(out@ =~= head + memory_lines(self.memories@.subrange(0, i + 1)));
                i = i + 1;
            }
            assert(self.memories@.subrange(0, i as int) =~= self.memories@);
        }
        let ghost first = out@;
        if self.recent_messages.len() > 0 {
            out.append("\n## Recent Conversation Context\n");
            let ghost head = out@;
            let mut j: usize = 0;
            while j < self.recent_messages.len()
                invariant
                    j <= self.recent_messages@.len(),
                    out@ == head + message_lines(self.recent_messages@.subrange(0, j as int)),
                decreases self.recent_messages@.len() - j,
            {
                let m = &self.recent_messages[j];
                assert(self.recent_messages@.subrange(0, j + 1).drop_last() =~= self.recent_messages@.subrange(0, j as int));
                out.append(m.role.as_str());
                out.append(": ");
                out.append(m.content.as_str());
                out.append("\n");
                assert(out@ =~= head + message_lines(self.recent_messages@.subrange(0, j + 1)));
                j = j + 1;
            }
            assert(self.recent_messages@.subrange(0, j as int) =~= self.recent_messages@);
        }
        assert(out@ =~= prompt_text(self.memories@, self.recent_messages@));
        out
    }
}

} // verus!

verus! {

pub const CONTEXT_LIMIT: u32 = 128_000;
pub const NOTE_CONTEXT_CHARS: usize = 200;

/// Lead-ins that mark a user message as a correction.
pub open spec fn correction_markers() -> Seq<Seq<char>> {
    seq![
        "no,"@,
        "no that's"@,
        "that's wrong"@,
        "that's not"@,
        "actually,"@,
        "actually "@,
        "incorrect"@,
        "not quite"@,
        "you're wrong"@,
        "wrong,"@,
        "nope,"@,
        "i meant"@,
        "what i meant"@,
        "let me clarify"@,
        "to clarify"@,
        "correction:"@,
        "i should have said"@,
        "remember that"@,
        "don't forget"@,
        "always "@,
        "never "@,
        "make sure to"@,
        "please remember"@,
    ]
}

fn correction_marker(i: usize) -> (r: &'static str)
    requires
        i < 23,
    ensures
        r@ == correction_markers()[i as int],
{
    match i {
        0 => "no,",
        1 => "no that's",
        2 => "that's wrong",
        3 => "that's not",
        4 => "actually,",
        5 => "actually ",
        6 => "incorrect",
        7 => "not quite",
        8 => "you're wrong",
        9 => "wrong,",
        10 => "nope,",
        11 => "i meant",
        12 => "what i meant",
        13 => "let me clarify",
        14 => "to clarify",
        15 => "correction:",
        16 => "i should have said",
        17 => "remember that",
        18 => "don't forget",
        19 => "always ",
        20 => "never ",
        21 => "make sure to",
        22 => "please remember",
        _ => "please remember",
    }
}

/// Phrases that suggest a memory, and the type each one gives, in the order
/// they are tried.
pub open spec fn suggestion_phrases() -> Seq<Seq<char>> {
    seq![
        "always "@,
        "never "@,
        "remember "@,
        "don't forget"@,
        "i prefer"@,
        "i like"@,
        "i don't like"@,
        "make sure"@,
        "when you"@,
    ]
}

pub open spec fn suggestion_types() -> Seq<MemoryType> {
    seq![
        MemoryType::Preference,
        MemoryType::Constraint,
        MemoryType::Fact,
        MemoryType::Fact,
        MemoryType::Preference,
        MemoryType::Preference,
        MemoryType::Preference,
        MemoryType::Workflow,
        MemoryType::Workflow,
    ]
}

fn suggestion(i: usize) -> (r: (&'static str, MemoryType))
    requires
        i < 9,
    ensures
        r.0@ == suggestion_phrases()[i as int],
        r.1 == suggestion_types()[i as int],
{
    match i {
        0 => ("always ", MemoryType::Preference),
        1 => ("never ", MemoryType::Constraint),
        2 => ("remember ", MemoryType::Fact),
        3 => ("don't forget", MemoryType::Fact),
        4 => ("i prefer", MemoryType::Preference),
        5 => ("i like", MemoryType::Preference),
        6 => ("i don't like", MemoryType::Preference),
        7 => ("make sure", MemoryType::Workflow),
        8 => ("when you", MemoryType::Workflow),
        _ => ("when you", MemoryType::Workflow),
    }
}

/// A lowercased message reads as a correction when it starts with a marker,
/// or holds one right after a space.
pub open spec fn flags_correction(lower: Seq<char>) -> bool {
    exists|i: int| 0 <= i < correction_markers().len() && (
        occurs_at(lower, #[trigger] correction_markers()[i], 0)
        || occurs(lower, " "@ + correction_markers()[i]))
}

/// The note recorded for a detected correction.
pub open spec fn correction_note(user: Seq<char>, assistant: Seq<char>) -> Seq<char> {
    "User corrected: \""@ + user + "\"\nOriginal context: \""@
        + take(assistant, NOTE_CONTEXT_CHARS as nat) + "\""@
}

/// The first suggestion phrase, from position `i` on, that a lowercased
/// message holds.
pub open spec fn first_phrase(lower: Seq<char>, i: int) -> Option<int>
    decreases 9 - i,
{
    if i < 0 || i >= 9 {
        None
    } else if occurs(lower, suggestion_phrases()[i]) {
        Some(i)
    } else {
        first_phrase(lower, i + 1)
    }
}

} // verus!

verus! {

/// Which band a budget is in: critical is checked first, then warning.
pub open spec fn budget_status(used: nat, limit: nat, warning_ppm: nat, critical_ppm: nat) -> Seq<char> {
    if reaches(used, limit, critical_ppm) {
        "critical"@
    } else if reaches(used, limit, warning_ppm) {
        "warning"@
    } else {
        "ok"@
    }
}

/// Token accounting of one topic against a context limit; thresholds in
/// millionths of the limit.
pub struct ContextBudget {
    pub limit: u32,
    pub used: u32,
    pub warning_threshold: u32,
    pub critical_threshold: u32,
}

impl ContextBudget {
    pub fn new(limit: u32, warning_threshold: u32, critical_threshold: u32) -> (r: ContextBudget)
        ensures
            r == (ContextBudget { limit, used: 0, warning_threshold, critical_threshold }),
    {
        ContextBudget { limit, used: 0, warning_threshold, critical_threshold }
    }

    /// Counts `tokens` as used.
    pub fn add(&mut self, tokens: u32)
        requires
            old(self).used + tokens <= u32::MAX,
        ensures
            *final(self) == (ContextBudget { used: (old(self).used + tokens) as u32, ..*old(self) }),
    {
        self.used = self.used + tokens;
    }

    /// Whether utilisation (`used / limit`) has reached the warning threshold.
    pub fn is_warning(&self) -> (r: bool)
        ensures
            r == reaches(self.used as nat, self.limit as nat, self.warning_threshold as nat),
    {
        reaches_exec(self.used, self.limit, self.warning_threshold)
    }

    /// Whether utilisation has reached the critical threshold.
    pub fn is_critical(&self) -> (r: bool)
        ensures
            r == reaches(self.used as nat, self.limit as nat, self.critical_threshold as nat),
    {
        reaches_exec(self.used, self.limit, self.critical_threshold)
    }

    /// Tokens left before the limit, zero once it is reached.
    pub fn remaining(&self) -> (r: u32)
        ensures
            r == (if self.used >= self.limit { 0 } else { self.limit - self.used }),
    {
        if self.used >= self.limit {
            0
        } else {
            self.limit - self.used
        }
    }

    /// `"critical"`, `"warning"` or `"ok"`.
    pub fn status(&self) -> (r: &'static str)
        ensures
            r@ == budget_status(self.used as nat, self.limit as nat,
                self.warning_threshold as nat, self.critical_threshold as nat),
    {
        if self.is_critical() {
            "critical"
        } else if self.is_warning() {
            "warning"
        } else {
            "ok"
        }
    }
}

/// The status bands: with the warning threshold at or below the critical
/// one, a budget is ok exactly below the warning threshold, warning from
/// there up to the critical threshold, and critical beyond.
pub proof fn lemma_status_bands(used: nat, limit: nat, warning_ppm: nat, critical_ppm: nat)
    requires
        warning_ppm <= critical_ppm,
    ensures
        (budget_status(used, limit, warning_ppm, critical_ppm) == "ok"@)
            <==> !reaches(used, limit, warning_ppm),
        (budget_status(used, limit, warning_ppm, critical_ppm) == "warning"@)
            <==> (reaches(used, limit, warning_ppm) && !reaches(used, limit, critical_ppm)),
        (budget_status(used, limit, warning_ppm, critical_ppm) == "critical"@)
            <==> reaches(used, limit, critical_ppm),
{
    reveal_strlit("ok");
    reveal_strlit("warning");
    reveal_strlit("critical");
    assert("ok"@.len() == 2);
    assert("warning"@.len() == 7);
    assert("critical"@.len() == 8);
    if reaches(used, limit, critical_ppm) {
        assert(warning_ppm * limit <= critical_ppm * limit) by (nonlinear_arith)
            requires warning_ppm <= critical_ppm;
    }
}

/// The budget of a topic whose log holds `used` tokens.
pub fn topic_budget(used: u32, config: &Config) -> (r: ContextBudget)
    ensures
        r == (ContextBudget {
            limit: CONTEXT_LIMIT,
            used,
            warning_threshold: config.context_warning_ppm,
            critical_threshold: config.context_critical_ppm,
        }),
{
    let mut b = ContextBudget::new(CONTEXT_LIMIT, config.context_warning_ppm, config.context_critical_ppm);
    b.add(used);
    b
}

/// The searches and reads a retrieval performs.
pub struct RetrievalPlan {
    /// Hits asked of each vector search.
    pub search_limit: usize,
    /// Similarity floor of both searches, in millionths.
    pub min_score: u32,
    /// The agent whose agent-scoped memories are searched too, if any.
    pub agent_search: Option<String>,
    /// The (agent, topic) whose recent messages are read, if any.
    pub recent_from: Option<(String, String)>,
}

/// Orchestrates retrieval: what to search, and how the results combine.
pub struct RetrievalEngine {
    pub config: Config,
}

impl RetrievalEngine {
    pub fn new(config: Config) -> (r: RetrievalEngine)
        ensures
            r.config == config,
    {
        RetrievalEngine { config }
    }

    /// Global memories are always searched; an agent's memories when an
    /// agent is named; recent messages when both agent and topic are named.
    /// Each search asks for half the result bound.
    pub fn plan(&self, agent_id: Option<String>, topic_id: Option<String>) -> (r: RetrievalPlan)
        ensures
            r.search_limit == self.config.max_retrieval_results / 2,
            r.min_score == self.config.min_similarity_ppm,
            r.agent_search == agent_id,
            r.recent_from == (match (agent_id, topic_id) {
                (Some(a), Some(t)) => Some((a, t)),
                _ => None,
            }),
    {
        let recent_from = match (&agent_id, &topic_id) {
            (Some(a), Some(t)) => Some((a.clone(), t.clone())),
            _ => None,
        };
        RetrievalPlan {
            search_limit: self.config.max_retrieval_results / 2,
            min_score: self.config.min_similarity_ppm,
            agent_search: agent_id,
            recent_from,
        }
    }

    /// Combines the hits of the global search and of the agent search with
    /// the topic's log: hits ranked by score and cut to the result bound,
    /// the last `max_recent` messages, and the token figure of both.
    pub fn assemble(
        &self,
        global_hits: Vec<RetrievedMemory>,
        agent_hits: Vec<RetrievedMemory>,
        log: Vec<Message>,
        max_recent: usize,
    ) -> (r: RetrievalContext)
        ensures
            r.memories@ == take(sort_by_score(global_hits@ + agent_hits@), self.config.max_retrieval_results as nat),
            r.recent_messages@ == last_n(log@, max_recent as nat),
            r.total_tokens == context_tokens(r.memories@, r.recent_messages@),
    {
        let mut hits = global_hits;
        let mut more = agent_hits;
        let ghost g = hits@;
        let ghost a = more@;
        hits.append(&mut more);
        assert(hits@ == g + a);
        let memories = rank_memories(hits, self.config.max_retrieval_results);
        let recent_messages = JsonlStorage::read_last_n(log, max_recent);
        let total_tokens = estimate_context_tokens(&memories, &recent_messages);
        RetrievalContext { memories, recent_messages, total_tokens }
    }

    /// A note on a user message that reads as a correction, quoting it and
    /// the first characters of the reply it corrects.
    pub fn detect_correction(&self, user_message: &str, assistant_message: &str) -> (r: Option<String>)
        ensures
            r is Some <==> flags_correction(lower_of(user_message@)),
            r is Some ==> r->Some_0@ == correction_note(user_message@, assistant_message@),
    {
        let lower = to_lower(user_message);
        let mut i: usize = 0;
        let mut found = false;
        while i < 23 && !found
            invariant
                i <= 23,
                lower@ == lower_of(user_message@),
                correction_markers().len() == 23,
                found ==> flags_correction(lower@),
                !found ==> forall|k: int| 0 <= k < i ==> !(
                    occurs_at(lower@, #[trigger] correction_markers()[k], 0)
                    || occurs(lower@, " "@ + correction_markers()[k])),
            decreases 23 - i,
        {
            let marker = correction_marker(i);
            let mut spaced = String::from_str(" ");
            spaced.append(marker);
            if matches_at(lower.as_str(), marker, 0) || contains(lower.as_str(), spaced.as_str()) {
                found = true;
            }
            i = i + 1;
        }
        if !found {
            assert forall|k: int| 0 <= k < correction_markers().len() implies !(
                occurs_at(lower@, #[trigger] correction_markers()[k], 0)
                || occurs(lower@, " "@ + correction_markers()[k])) by {
                assert(k < i);
            }
            return None;
        }
        let mut note = String::from_str("User corrected: \"");
        note.append(user_message);
        note.append("\"\nOriginal context: \"");
        let n = assistant_message.unicode_len();
        let k = if n < NOTE_CONTEXT_CHARS { n } else { NOTE_CONTEXT_CHARS };
        note.append(assistant_message.substring_char(0, k));
        note.append("\"");
        Some(note)
    }

    /// A memory suggested by a user message: the first suggestion phrase the
    /// lowercased message holds gives its type; the memory is scoped to the
    /// agent and holds the message itself.
    pub fn suggest_memory_from_correction(&self, user_message: &str, agent_id: &str) -> (r: Option<Memory>)
        ensures
            r is Some <==> first_phrase(lower_of(user_message@), 0) is Some,
            r is Some ==> ({
                let m = r->Some_0;
                &&& m.scope == MemoryScope::Agent
                &&& m.memory_type == suggestion_types()[first_phrase(lower_of(user_message@), 0)->Some_0]
                &&& m.agent_id is Some && m.agent_id->Some_0@ == agent_id@
                &&& m.topic_id is None
                &&& m.content@ == user_message@
                &&& m.context is None
                &&& m.tags@.len() == 0
                &&& m.last_used_at is None
                &&& m.retrieval_count == 0
                &&& m.active
            }),
    {
        let lower = to_lower(user_message);
        let mut i: usize = 0;
        while i < 9
            invariant
                i <= 9,
                lower@ == lower_of(user_message@),
                suggestion_phrases().len() == 9,
                suggestion_types().len() == 9,
                first_phrase(lower@, 0) == first_phrase(lower@, i as int),
            decreases 9 - i,
        {
            let (phrase, memory_type) = suggestion(i);
            if contains(lower.as_str(), phrase) {
                assert(first_phrase(lower@, i as int) == Some(i as int));
                return Some(Memory::for_agent(String::from_str(agent_id), memory_type, String::from_str(user_message)));
            }
            i = i + 1;
        }
        None
    }
}

} // verus!
