//! Rules around the vector index: dimension check, similarity floor, and
//! the predicates its searches and deletes use.

use vstd::prelude::*;
use vstd::string::StringExecFns;
use crate::error::Error;
use crate::ident::{format_id, uuid_text};
use crate::retrieval::RetrievedMemory;
use crate::config::PPM_ONE;

verus! {

/// A hit of the vector index, with its similarity `1 / (1 + distance)` in
/// millionths.
pub struct SearchResult {
    pub id: u128,
    pub content: String,
    pub scope: String,
    pub memory_type: String,
    pub score: u32,
}

impl RetrievedMemory {
    /// The retrieved memory a hit stands for.
    pub fn from_hit(hit: SearchResult) -> (r: RetrievedMemory)
        ensures
            r.id == hit.id,
            r.content == hit.content,
            r.scope == hit.scope,
            r.memory_type == hit.memory_type,
            r.score == hit.score,
    {
        RetrievedMemory {
            id: hit.id,
            content: hit.content,
            scope: hit.scope,
            memory_type: hit.memory_type,
            score: hit.score,
        }
    }
}

/// An upsert needs an embedding of exactly the configured dimension.
pub fn check_embedding(len: Option<usize>, dimensions: usize) -> (r: Result<(), Error>)
    ensures
        r is Ok <==> len == Some(dimensions),
        r is Err ==> r->Err_0 is VectorDb,
{
    match len {
        None => Err(Error::vector_db("memory has no embedding")),
        Some(n) => if n != dimensions {
            Err(Error::vector_db("embedding dimension mismatch"))
        } else {
            Ok(())
        },
    }
}

/// The hits whose similarity reaches the floor, in the order the index
/// returned them.
pub open spec fn scored_at_least(hits: Seq<SearchResult>, min_score: u32) -> Seq<SearchResult>
    decreases hits.len(),
{
    if hits.len() == 0 {
        seq![]
    } else {
        scored_at_least(hits.drop_last(), min_score) + (if hits.last().score >= min_score {
            seq![hits.last()]
        } else {
            seq![]
        })
    }
}

/// Keeps the hits whose similarity reaches the floor, in order.
pub fn keep_scored(hits: Vec<SearchResult>, min_score: u32) -> (r: Vec<SearchResult>)
    ensures
        r@ == scored_at_least(hits@, min_score),
{
    let total = hits.len();
    let ghost orig = hits@;
    let mut rest = hits;
    let mut out: Vec<SearchResult> = Vec::new();
    let mut i: usize = 0;
    while rest.len() > 0
        invariant
            orig.len() == total,
            i + rest@.len() == total,
            rest@ == orig.subrange(i as int, total as int),
            out@ == scored_at_least(orig.subrange(0, i as int), min_score),
        decreases rest@.len(),
    {
        let h = rest.remove(0);
        assert(orig.subrange(0, i + 1).drop_last() =~= orig.subrange(0, i as int));
        assert(orig.subrange(0, i + 1).last() == h);
        if h.score >= min_score {
            out.push(h);
        }
        assert(out@ =~= scored_at_least(orig.subrange(0, i + 1), min_score));
        i = i + 1;
    }
    assert(orig.subrange(0, i as int) =~= orig);
    out
}

proof fn lemma_scored_members(hits: Seq<SearchResult>, min_score: u32, k: int)
    requires
        0 <= k < hits.len(),
        hits[k].score >= min_score,
    ensures
        scored_at_least(hits, min_score).contains(hits[k]),
    decreases hits.len(),
{
    if k < hits.len() - 1 {
        lemma_scored_members(hits.drop_last(), min_score, k);
        let s = scored_at_least(hits.drop_last(), min_score);
        let j = choose|j: int| 0 <= j < s.len() && s[j] == hits[k];
        assert(scored_at_least(hits, min_score)[j] == hits[k]);
    } else {
        let s = scored_at_least(hits.drop_last(), min_score);
        assert(scored_at_least(hits, min_score)[s.len() as int] == hits[k]);
    }
}

/// An exact match (distance 0, hence full similarity) survives every
/// similarity floor in range.
pub proof fn lemma_exact_match_kept(hits: Seq<SearchResult>, min_score: u32, k: int)
    requires
        0 <= k < hits.len(),
        hits[k].score == PPM_ONE,
        min_score <= PPM_ONE,
    ensures
        scored_at_least(hits, min_score).contains(hits[k]),
{
    lemma_scored_members(hits, min_score, k);
}

/// The predicate of a filtered search: `scope = '<s>'`, `agent_id = '<a>'`,
/// or both joined by `AND`; none when neither is given.
pub open spec fn search_predicate(scope: Option<Seq<char>>, agent: Option<Seq<char>>) -> Option<Seq<char>> {
    match (scope, agent) {
        (None, None) => None,
        (Some(s), None) => Some("scope = '"@ + s + "'"@),
        (None, Some(a)) => Some("agent_id = '"@ + a + "'"@),
        (Some(s), Some(a)) => Some("scope = '"@ + s + "'"@ + " AND "@ + "agent_id = '"@ + a + "'"@),
    }
}

pub fn search_filter(scope: Option<&str>, agent_id: Option<&str>) -> (r: Option<String>)
    ensures
        match r {
            Some(p) => search_predicate(
                match scope { Some(s) => Some(s@), None => None },
                match agent_id { Some(a) => Some(a@), None => None },
            ) == Some(p@),
            None => scope is None && agent_id is None,
        },
{
    let mut out = String::new();
    let mut any = false;
    if let Some(s) = scope {
        out.append("scope = '");
        out.append(s);
        out.append("'");
        any = true;
    }
    if let Some(a) = agent_id {
        if any {
            out.append(" AND ");
        }
        out.append("agent_id = '");
        out.append(a);
        out.append("'");
        any = true;
    }
    if any {
        proof {
            match (scope, agent_id) {
                (Some(s), Some(a)) => {
                    assert(out@ =~= "scope = '"@ + s@ + "'"@ + " AND "@ + "agent_id = '"@ + a@ + "'"@);
                },
                (Some(s), None) => {
                    assert(out@ =~= "scope = '"@ + s@ + "'"@);
                },
                (None, Some(a)) => {
                    assert(out@ =~= "agent_id = '"@ + a@ + "'"@);
                },
                (None, None) => {},
            }
        }
        Some(out)
    } else {
        None
    }
}

/// The predicate that selects a memory's vector rows.
pub fn delete_filter(id: u128) -> (r: String)
    ensures
        r@ == "id = '"@ + uuid_text(id) + "'"@,
{
    let mut out = String::from_str("id = '");
    let text = format_id(id);
    out.append(text.as_str());
    out.append("'");
    out
}

} // verus!
