//! The append-only conversation log: file layout, record framing and
//! reading, and the derived queries over a topic's messages.

use vstd::prelude::*;
use vstd::string::StringExecFns;
use crate::message::Message;
use crate::json::strings_view;
use crate::text::{is_blank, blank_between, occurs, lower_of, to_lower, contains};

verus! {

/// Position of the last newline of `t`, or -1.
pub open spec fn last_nl(t: Seq<char>) -> int
    decreases t.len(),
{
    if t.len() == 0 {
        -1
    } else if t.last() == '\n' {
        t.len() - 1
    } else {
        last_nl(t.drop_last())
    }
}

/// Length of the prefix of `t` that ends with its last newline.
pub open spec fn cut(t: Seq<char>) -> int {
    let j = last_nl(t);
    if -1 <= j && j < t.len() {
        j + 1
    } else {
        0
    }
}

/// A line read from a log, unless it is blank.
pub open spec fn keep(line: Seq<char>) -> Seq<Seq<char>> {
    if is_blank(line) {
        seq![]
    } else {
        seq![line]
    }
}

/// The records of a log text: its newline-terminated, non-blank lines, in
/// order. An unterminated last line (a write still in progress) is not a
/// record.
pub open spec fn records_of(t: Seq<char>) -> Seq<Seq<char>>
    decreases t.len(),
{
    if t.len() == 0 {
        seq![]
    } else if t.last() == '\n' {
        let u = t.drop_last();
        let k = cut(u);
        records_of(u.subrange(0, k)) + keep(u.subrange(k, u.len() as int))
    } else {
        let k = cut(t);
        if k < t.len() {
            records_of(t.subrange(0, k))
        } else {
            seq![]
        }
    }
}

/// The text that appending `recs` in order writes: each record and a newline.
pub open spec fn framed(recs: Seq<Seq<char>>) -> Seq<char>
    decreases recs.len(),
{
    if recs.len() == 0 {
        seq![]
    } else {
        framed(recs.drop_last()) + recs.last() + seq!['\n']
    }
}

pub open spec fn no_newline(s: Seq<char>) -> bool {
    forall|i: int| 0 <= i < s.len() ==> s[i] != '\n'
}

/// A text at a record boundary: empty, or ending with a newline.
pub open spec fn at_boundary(t: Seq<char>) -> bool {
    t.len() == 0 || t.last() == '\n'
}

pub(crate) proof fn lemma_last_nl_bounds(t: Seq<char>)
    ensures
        -1 <= last_nl(t) < t.len(),
    decreases t.len(),
{
    if t.len() > 0 && t.last() != '\n' {
        lemma_last_nl_bounds(t.drop_last());
    }
}

pub(crate) proof fn lemma_last_nl_concat(p: Seq<char>, l: Seq<char>)
    requires
        at_boundary(p),
        no_newline(l),
    ensures
        last_nl(p + l) == p.len() - 1,
    decreases l.len(),
{
    if l.len() == 0 {
        assert(p + l =~= p);
    } else {
        assert((p + l).last() == l.last());
        assert((p + l).drop_last() =~= p + l.drop_last());
        lemma_last_nl_concat(p, l.drop_last());
    }
}

proof fn lemma_records_step(p: Seq<char>, l: Seq<char>)
    requires
        at_boundary(p),
        no_newline(l),
    ensures
        records_of(p + l + seq!['\n']) == records_of(p) + keep(l),
{
    let t = p + l + seq!['\n'];
    let u = t.drop_last();
    assert(u =~= p + l);
    lemma_last_nl_concat(p, l);
    assert(cut(u) == p.len());
    assert(u.subrange(0, p.len() as int) =~= p);
    assert(u.subrange(p.len() as int, u.len() as int) =~= l);
}

proof fn lemma_records_tail(p: Seq<char>, r: Seq<char>)
    requires
        at_boundary(p),
        no_newline(r),
    ensures
        records_of(p + r) == records_of(p),
{
    if r.len() == 0 {
        assert(p + r =~= p);
    } else {
        let t = p + r;
        assert(t.last() == r.last());
        lemma_last_nl_concat(p, r);
        assert(cut(t) == p.len());
        assert(t.subrange(0, p.len() as int) =~= p);
    }
}

/// Reading back what was appended: after any log text that ends at a record
/// boundary, records appended in order (each without a newline and not
/// blank) are read back unchanged and in append order, after the records
/// already there; a record still being written is not read.
pub proof fn lemma_append_read_back(prior: Seq<char>, recs: Seq<Seq<char>>, partial: Seq<char>)
    requires
        at_boundary(prior),
        forall|i: int| 0 <= i < recs.len() ==> no_newline(#[trigger] recs[i]) && !is_blank(recs[i]),
        no_newline(partial),
    ensures
        records_of(prior + framed(recs)) == records_of(prior) + recs,
        records_of(prior + framed(recs) + partial) == records_of(prior) + recs,
    decreases recs.len(),
{
    if recs.len() == 0 {
        assert(prior + framed(recs) =~= prior);
        assert(records_of(prior) + recs =~= records_of(prior));
        lemma_records_tail(prior, partial);
    } else {
        let init = recs.drop_last();
        lemma_append_read_back(prior, init, seq![]);
        let q = prior + framed(init);
        assert(at_boundary(q)) by {
            if framed(init).len() > 0 {
                assert(q.last() == framed(init).last());
            } else {
                assert(q =~= prior);
            }
        }
        assert(prior + framed(recs) =~= q + recs.last() + seq!['\n']);
        lemma_records_step(q, recs.last());
        assert(records_of(prior) + init + keep(recs.last()) =~= records_of(prior) + recs);
        let full = prior + framed(recs);
        assert(at_boundary(full));
        lemma_records_tail(full, partial);
    }
}

/// Frames one serialised record as a log line.
pub fn frame_record(line: &str) -> (r: String)
    ensures
        r@ == line@ + seq!['\n'],
{
    let mut s = String::from_str(line);
    s.append("\n");
    proof {
        reveal_strlit("\n");
    }
    s
}

/// Splits a log text into its records.
pub fn split_records(text: &str) -> (r: Vec<String>)
    ensures
        strings_view(r@) == records_of(text@),
{
    let n = text.unicode_len();
    let mut out: Vec<String> = Vec::new();
    let mut start: usize = 0;
    let mut i: usize = 0;
    while i < n
        invariant
            n == text@.len(),
            start <= i <= n,
            at_boundary(text@.subrange(0, start as int)),
            no_newline(text@.subrange(start as int, i as int)),
            strings_view(out@) == records_of(text@.subrange(0, start as int)),
        decreases n - i,
    {
        if text.get_char(i) == '\n' {
            let ghost p = text@.subrange(0, start as int);
            let ghost l = text@.subrange(start as int, i as int);
            proof {
                lemma_records_step(p, l);
                assert(text@.subrange(0, i + 1) =~= p + l + seq!['\n']);
            }
            if !blank_between(text, start, i) {
                let line = text.substring_char(start, i).to_owned();
                out.push(line);
                assert(strings_view(out@) =~= records_of(p) + keep(l));
            } else {
                assert(records_of(p) + keep(l) =~= records_of(p));
            }
            start = i + 1;
            assert(text@.subrange(start as int, start as int) =~= seq![]);
        } else {
            assert(text@.subrange(start as int, i + 1) =~= text@.subrange(start as int, i as int).push(text@[i as int]));
        }
        i = i + 1;
    }
    proof {
        lemma_records_tail(text@.subrange(0, start as int), text@.subrange(start as int, n as int));
        assert(text@ =~= text@.subrange(0, start as int) + text@.subrange(start as int, n as int));
    }
    out
}

} // verus!

verus! {

/// Sum of the token counts of a sequence of messages.
pub open spec fn sum_tokens(s: Seq<Message>) -> nat
    decreases s.len(),
{
    if s.len() == 0 {
        0
    } else {
        sum_tokens(s.drop_last()) + s.last().tokens as nat
    }
}

/// The last `n` items of `s` (all of them when there are fewer).
pub open spec fn last_n<T>(s: Seq<T>, n: nat) -> Seq<T> {
    if n >= s.len() {
        s
    } else {
        s.subrange(s.len() - n, s.len() as int)
    }
}

/// A message moved to another agent and topic; nothing else changes.
pub open spec fn relabelled(m: Message, agent: Seq<char>, topic: Seq<char>, r: Message) -> bool {
    &&& r.agent_id@ == agent
    &&& r.topic_id@ == topic
    &&& r.id == m.id
    &&& r.role == m.role
    &&& r.content == m.content
    &&& r.tokens == m.tokens
    &&& r.timestamp == m.timestamp
    &&& r.metadata == m.metadata
}

/// File names of an agent directory that hold topic logs: `<topic>.jsonl`
/// with a non-empty topic.
pub open spec fn topic_of_file(name: Seq<char>) -> Option<Seq<char>> {
    if name.len() > 6 && name.subrange(name.len() - 6, name.len() as int) == ".jsonl"@ {
        Some(name.subrange(0, name.len() - 6))
    } else {
        None
    }
}

/// The topics that a listing of file names holds, in listing order.
pub open spec fn topics_of(names: Seq<Seq<char>>) -> Seq<Seq<char>>
    decreases names.len(),
{
    if names.len() == 0 {
        seq![]
    } else {
        topics_of(names.drop_last()) + match topic_of_file(names.last()) {
            Some(t) => seq![t],
            None => seq![],
        }
    }
}

/// The conversation logs: one append-only file per (agent, topic) at
/// `<base>/<agent>/<topic>.jsonl`.
pub struct JsonlStorage {
    pub base_path: String,
}

impl JsonlStorage {
    /// Logs kept under `<data_dir>/conversations`.
    pub fn new(data_dir: &str) -> (r: JsonlStorage)
        ensures
            r.base_path@ == data_dir@ + "/conversations"@,
    {
        let mut base = String::from_str(data_dir);
        base.append("/conversations");
        JsonlStorage { base_path: base }
    }

    pub open spec fn agent_dir_spec(&self, agent_id: Seq<char>) -> Seq<char> {
        self.base_path@ + "/"@ + agent_id
    }

    pub open spec fn log_path_spec(&self, agent_id: Seq<char>, topic_id: Seq<char>) -> Seq<char> {
        self.agent_dir_spec(agent_id) + "/"@ + topic_id + ".jsonl"@
    }

    /// The directory that holds an agent's topic logs.
    pub fn agent_dir(&self, agent_id: &str) -> (r: String)
        ensures
            r@ == self.agent_dir_spec(agent_id@),
    {
        let mut p = self.base_path.clone();
        p.append("/");
        p.append(agent_id);
        p
    }

    /// The log file of one topic.
    pub fn log_path(&self, agent_id: &str, topic_id: &str) -> (r: String)
        ensures
            r@ == self.log_path_spec(agent_id@, topic_id@),
    {
        let mut p = self.agent_dir(agent_id);
        p.append("/");
        p.append(topic_id);
        p.append(".jsonl");
        p
    }

    /// The last `n` messages of a log read in full, oldest first.
    pub fn read_last_n(all: Vec<Message>, n: usize) -> (r: Vec<Message>)
        ensures
            r@ == last_n(all@, n as nat),
    {
        let len = all.len();
        if n >= len {
            all
        } else {
            let mut all = all;
            all.split_off(len - n)
        }
    }

    /// Number of records in a log text; equals the length of what
    /// `split_records` returns for it.
    pub fn count(text: &str) -> (r: usize)
        ensures
            r == records_of(text@).len(),
    {
        let recs = split_records(text);
        recs.len()
    }

    /// Sum of the token counts of a log's messages; `None` when the sum does
    /// not fit in 32 bits.
    pub fn total_tokens(messages: &Vec<Message>) -> (r: Option<u32>)
        ensures
            r == (if sum_tokens(messages@) <= u32::MAX {
                Some(sum_tokens(messages@) as u32)
            } else {
                None::<u32>
            }),
    {
        let mut total: u32 = 0;
        let mut i: usize = 0;
        while i < messages.len()
            invariant
                i <= messages@.len(),
                total == sum_tokens(messages@.subrange(0, i as int)),
            decreases messages@.len() - i,
        {
            assert(messages@.subrange(0, i + 1).drop_last() =~= messages@.subrange(0, i as int));
            let t = messages[i].tokens;
            if t > u32::MAX - total {
                proof {
                    lemma_sum_tokens_prefix_mono(messages@, i + 1);
                }
                return None;
            }
            total = total + t;
            i = i + 1;
        }
        assert(messages@.subrange(0, i as int) =~= messages@);
        Some(total)
    }

    /// Moves imported messages to the target agent and topic.
    pub fn relabel(messages: Vec<Message>, agent_id: &str, topic_id: &str) -> (r: Vec<Message>)
        ensures
            r@.len() == messages@.len(),
            forall|i: int| 0 <= i < r@.len() ==> relabelled(messages@[i], agent_id@, topic_id@, #[trigger] r@[i]),
    {
        let mut out: Vec<Message> = Vec::new();
        let total = messages.len();
        let mut rest = messages;
        let ghost orig = rest@;
        let mut i: usize = 0;
        while rest.len() > 0
            invariant
                i + rest@.len() == orig.len(),
                orig.len() == total,
                rest@ == orig.subrange(i as int, orig.len() as int),
                out@.len() == i,
                forall|k: int| 0 <= k < i ==> relabelled(orig[k], agent_id@, topic_id@, #[trigger] out@[k]),
            decreases rest@.len(),
        {
            let m = rest.remove(0);
            assert(m == orig[i as int]);
            let moved = Message {
                agent_id: String::from_str(agent_id),
                topic_id: String::from_str(topic_id),
                ..m
            };
            out.push(moved);
            i = i + 1;
        }
        out
    }

    /// The topics among the file names of an agent directory.
    pub fn topic_names(names: &Vec<String>) -> (r: Vec<String>)
        ensures
            strings_view(r@) == topics_of(strings_view(names@)),
    {
        let mut out: Vec<String> = Vec::new();
        let mut i: usize = 0;
        while i < names.len()
            invariant
                i <= names@.len(),
                strings_view(out@) == topics_of(strings_view(names@.subrange(0, i as int))),
            decreases names@.len() - i,
        {
            let name = names[i].as_str();
            let n = name.unicode_len();
            assert(strings_view(names@.subrange(0, i + 1)).drop_last() =~= strings_view(names@.subrange(0, i as int)));
            if n > 6 && str_ends_with_jsonl(name) {
                out.push(name.substring_char(0, n - 6).to_owned());
                assert(strings_view(out@) =~= topics_of(strings_view(names@.subrange(0, i + 1))));
            } else {
                assert(strings_view(out@) =~= topics_of(strings_view(names@.subrange(0, i + 1))));
            }
            i = i + 1;
        }
        assert(names@.subrange(0, i as int) =~= names@);
        out
    }
}

fn str_ends_with_jsonl(name: &str) -> (r: bool)
    requires
        name@.len() > 6,
    ensures
        r == (name@.subrange(name@.len() - 6, name@.len() as int) == ".jsonl"@),
{
    let n = name.unicode_len();
    let tail = name.substring_char(n - 6, n);
    crate::labels::str_eq(tail, ".jsonl")
}

proof fn lemma_sum_tokens_prefix_mono(s: Seq<Message>, k: int)
    requires
        0 <= k <= s.len(),
    ensures
        sum_tokens(s.subrange(0, k)) <= sum_tokens(s),
    decreases s.len() - k,
{
    if k < s.len() {
        lemma_sum_tokens_prefix_mono(s, k + 1);
        assert(s.subrange(0, k + 1).drop_last() =~= s.subrange(0, k));
    } else {
        assert(s.subrange(0, k) =~= s);
    }
}

} // verus!

verus! {

/// The record count of a log equals the number of records a full read
/// returns.
pub proof fn lemma_count_matches_read(text: Seq<char>, read: Seq<String>)
    requires
        strings_view(read) == records_of(text),
    ensures
        read.len() == records_of(text).len(),
{
    assert(strings_view(read).len() == read.len());
}

} // verus!

verus! {

/// The messages whose lowercased content holds the lowercased query, in
/// log order.
pub open spec fn matching(ms: Seq<Message>, query: Seq<char>) -> Seq<Message>
    decreases ms.len(),
{
    if ms.len() == 0 {
        seq![]
    } else {
        matching(ms.drop_last(), query) + (if occurs(lower_of(ms.last().content@), lower_of(query)) {
            seq![ms.last()]
        } else {
            seq![]
        })
    }
}

impl JsonlStorage {
    /// Case-insensitive substring search over a log's messages.
    pub fn search(messages: Vec<Message>, query: &str) -> (r: Vec<Message>)
        ensures
            r@ == matching(messages@, query@),
    {
        let q = to_lower(query);
        let total = messages.len();
        let ghost orig = messages@;
        let mut rest = messages;
        let mut out: Vec<Message> = Vec::new();
        let mut i: usize = 0;
        while rest.len() > 0
            invariant
                orig.len() == total,
                i + rest@.len() == total,
                rest@ == orig.subrange(i as int, total as int),
                out@ == matching(orig.subrange(0, i as int), query@),
                q@ == lower_of(query@),
            decreases rest@.len(),
        {
            let m = rest.remove(0);
            assert(orig.subrange(0, i + 1).drop_last() =~= orig.subrange(0, i as int));
            assert(orig.subrange(0, i + 1).last() == m);
            let c = to_lower(m.content.as_str());
            if contains(c.as_str(), q.as_str()) {
                out.push(m);
            }
            assert(out@ =~= matching(orig.subrange(0, i + 1), query@));
            i = i + 1;
        }
        assert(orig.subrange(0, i as int) =~= orig);
        out
    }
}

} // verus!
