//! The consumer's side of a request: taking the emitted values out of the
//! results buffer and writing the response.
//!
//! The response is the JSON array of all values that the script emitted, in
//! the order in which it emitted them, if the engine task ended well. If it
//! ended with an error the response is the text of that error, and the
//! values are not sent.

use crate::error::QueryError;
use crate::json::{json_text, write_values};
use crate::ringbuffer::{Consumed, RingBuffer};
use vstd::prelude::*;

verus! {

/// The number of slots in the results buffer of a request.
pub const RESULTS_CAPACITY: usize = 1024;

/// The response to a request whose script emitted `values` and whose engine
/// task ended with `outcome`.
pub open spec fn response(values: Seq<serde_json::Value>, outcome: Result<(), QueryError>) -> Seq<
    char,
> {
    match outcome {
        Err(error) => error.text(),
        Ok(_) => match json_text(values) {
            Ok(written) => written,
            Err(report) => "InternalError: "@ + report,
        },
    }
}

/// Moves everything that is pending in `results` behind what was collected
/// before, oldest first. Says whether the stream has ended: if not, the
/// buffer is open and more may come, and the caller waits and collects
/// again.
pub fn collect<const S: usize>(
    results: &mut RingBuffer<serde_json::Value, S>,
    collected: &mut Vec<serde_json::Value>,
) -> (ended: bool)
    requires
        old(results).wf(),
    ensures
        final(results).wf(),
        final(collected)@ == old(collected)@ + old(results)@.pending,
        final(results)@.pending.len() == 0,
        final(results)@.open == old(results)@.open,
        ended == !old(results)@.open,
{
    loop
        invariant
            results.wf(),
            results@.open == old(results)@.open,
            collected@ + results@.pending == old(collected)@ + old(results)@.pending,
        ensures
            results.wf(),
            results@.open == old(results)@.open,
            results@.pending.len() == 0,
            collected@ == old(collected)@ + old(results)@.pending,
        decreases results@.pending.len(),
    {
        let ghost held = collected@;
        let ghost waiting = results@.pending;
        match results.consume_one() {
            Consumed::Item(value) => {
                collected.push(value);
                proof {
                    assert(collected@ + results@.pending =~= held + waiting);
                }
            },
            Consumed::Empty => {
                proof {
                    assert(collected@ + results@.pending =~= collected@);
                }
                return false;
            },
            Consumed::Closed => {
                proof {
                    assert(collected@ + results@.pending =~= collected@);
                }
                return true;
            },
        }
    }
}

/// What is sent when the values could be written as `written`, or could not
/// and `Err` holds the report, and the engine task ended with `outcome`.
pub fn respond_with(written: Result<String, String>, outcome: Result<(), QueryError>) -> (body:
    String)
    ensures
        body@ == match outcome {
            Err(error) => error.text(),
            Ok(_) => match written {
                Ok(text) => text@,
                Err(report) => "InternalError: "@ + report@,
            },
        },
{
    match outcome {
        Err(error) => error.message(),
        Ok(_) => match written {
            Ok(text) => text,
            Err(report) => QueryError::Internal(report).message(),
        },
    }
}

/// Writes the response to a request whose script emitted `values` and whose
/// engine task ended with `outcome`.
pub fn respond(values: &Vec<serde_json::Value>, outcome: Result<(), QueryError>) -> (body: String)
    ensures
        body@ == response(values@, outcome),
{
    match outcome {
        Err(error) => error.message(),
        Ok(_) => respond_with(write_values(values), Ok(())),
    }
}

} // verus!
