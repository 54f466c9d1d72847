//! JSON texts the metadata store keeps inside its rows.

use vstd::prelude::*;

verus! {

/// The list of strings that a JSON text holds, if it is a JSON array of
/// strings.
pub uninterp spec fn json_string_list(s: Seq<char>) -> Option<Seq<Seq<char>>>;

pub open spec fn strings_view(v: Seq<String>) -> Seq<Seq<char>> {
    v.map_values(|x: String| x@)
}

/// Relies on `serde_json::from_str::<Vec<String>>`: reads a JSON array of
/// strings; the error is the parser's message.
#[verifier::external_body]
pub(crate) fn parse_string_list(s: &str) -> (r: Result<Vec<String>, String>)
    ensures
        r is Ok <==> json_string_list(s@) is Some,
        r is Ok ==> strings_view(r->Ok_0@) == json_string_list(s@)->Some_0,
{
    serde_json::from_str::<Vec<String>>(s).map_err(|e| e.to_string())
}

} // verus!
