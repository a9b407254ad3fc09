//! Fresh identifiers for nodes and edges.

use vstd::prelude::*;

verus! {

/// The shape of an identifier: 36 characters in five groups that hyphens part.
pub open spec fn is_hyphenated(id: Seq<char>) -> bool {
    &&& id.len() == 36
    &&& id[8] == '-'
    &&& id[13] == '-'
    &&& id[18] == '-'
    &&& id[23] == '-'
}

/// `uuid::Uuid::new_v4` and the `to_string` of its result: a random
/// identifier in the hyphenated form. Which one comes is not said; two
/// calls may or may not differ.
#[verifier::external_body]
fn random_id() -> (id: String)
    ensures
        is_hyphenated(id@),
{
    uuid::Uuid::new_v4().to_string()
}

/// A fresh identifier for a node or an edge.
pub fn new_id() -> (id: String)
    ensures
        is_hyphenated(id@),
{
    random_id()
}

} // verus!
