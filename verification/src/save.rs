//! The telemetry-database save's pure parts: the mutation request a health
//! value is stored with, and the judgement of the database service's answer.
//! The query transport itself (finding the service, sending the request,
//! reading the reply) lives outside this crate.
use vstd::prelude::*;

verus! {

/// Why a save was not confirmed.
#[derive(Clone, Copy, Debug, PartialEq, Eq, Structural)]
pub enum SaveError {
    /// The service's answer did not confirm the insert.
    NotConfirmed,
}

impl SaveError {
    /// A short description of the failure, for reports and logs.
    pub fn message(&self) -> (r: &'static str)
        ensures
            r@ == "Failed to save value to database"@,
    {
        "Failed to save value to database"
    }
}

/// The request that stores one named value for the onboard computer in the
/// telemetry database: an insert mutation asking for its success flag and
/// errors back.
pub fn insert_mutation(param: &str, val: &str) -> (r: String)
    ensures
        r@ == "mutation { insert(subsystem: \"OBC\", parameter: \""@ + param@
            + "\", value: \""@ + val@ + "\") { success, errors } }"@,
{
    let mut r = String::new();
    r.append("mutation { insert(subsystem: \"OBC\", parameter: \"");
    r.append(param);
    r.append("\", value: \"");
    r.append(val);
    r.append("\") { success, errors } }");
    proof {
        assert(r@ =~= "mutation { insert(subsystem: \"OBC\", parameter: \""@ + param@
            + "\", value: \""@ + val@ + "\") { success, errors } }"@);
    }
    r
}

/// Judges the database service's answer to an insert: only an answer whose
/// success flag is present and true counts as saved.
pub fn judge_save_response(success: Option<bool>) -> (r: Result<(), SaveError>)
    ensures
        r is Ok <==> success == Some(true),
        !(success == Some(true)) ==> r == Err::<(), SaveError>(SaveError::NotConfirmed),
{
    match success {
        Option::Some(true) => Ok(()),
        _ => Err(SaveError::NotConfirmed),
    }
}

} // verus!
