//! The query surface's own answers: the fields that do not touch the
//! subsystem. The wire format and the resolver plumbing live outside this
//! crate; the values they return are computed here.
use vstd::prelude::*;

verus! {

/// Root of the read-only queries.
pub struct QueryRoot;

/// Root of the mutations. The service exposes none.
pub struct MutationRoot;

impl QueryRoot {
    /// Liveness probe: answers without touching the subsystem.
    pub fn ping(&self) -> (r: String)
        ensures
            r@ == "pong"@,
    {
        "pong".to_owned()
    }

    /// Echo probe for arbitrary transfers through the radio: returns the
    /// given text, or a fixed note when none was given.
    pub fn echo(&self, data: Option<String>) -> (r: String)
        ensures
            (match data {
                Option::Some(d) => r@ == d@,
                Option::None => r@ == "empty data field"@,
            }),
    {
        match data {
            Option::Some(d) => d,
            Option::None => "empty data field".to_owned(),
        }
    }
}

} // verus!
