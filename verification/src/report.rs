//! Per-file move outcomes and their aggregation.
//!
//! Every launched move reports exactly one `MoveResult`. A failure
//! never aborts the batch: the run collects the outcomes and reports
//! the failures, and the overall run still counts as successful.

use vstd::prelude::*;

use crate::plan::{lemma_names_of_push, names_of};

verus! {

/// The outcome of one file's move: relocated, or failed with the
/// operating system's error text; either way the offending path is
/// carried along.
pub enum MoveResult {
    Moved { path: String },
    Failed { path: String, message: String },
}

/// Whether a result reports a failure.
pub open spec fn is_failure(r: MoveResult) -> bool {
    r is Failed
}

/// The error text of a failed result.
pub open spec fn failure_message(r: MoveResult) -> Seq<char> {
    match r {
        MoveResult::Failed { path: _, message } => message@,
        MoveResult::Moved { path: _ } => Seq::empty(),
    }
}

/// The error texts of the failed results, in reporting order.
pub open spec fn spec_failure_messages(results: Seq<MoveResult>) -> Seq<Seq<char>>
    decreases results.len(),
{
    if results.len() == 0 {
        Seq::empty()
    } else {
        let rest = spec_failure_messages(results.drop_last());
        if is_failure(results.last()) {
            rest.push(failure_message(results.last()))
        } else {
            rest
        }
    }
}

/// Collects the error texts of the failed results, in order, for the
/// run's report; successful moves contribute nothing.
pub fn failure_messages(results: &Vec<MoveResult>) -> (v: Vec<String>)
    ensures
        names_of(v@) == spec_failure_messages(results@),
{
    let mut v: Vec<String> = Vec::new();
    proof {
        assert(names_of(v@) =~= spec_failure_messages(results@.take(0)));
    }
    for i in 0..results.len()
        invariant
            names_of(v@) == spec_failure_messages(results@.take(i as int)),
    {
        proof {
            assert(results@.take(i as int + 1).drop_last() =~= results@.take(i as int));
            assert(results@.take(i as int + 1).last() == results@[i as int]);
        }
        match &results[i] {
            MoveResult::Failed { path: _, message } => {
                proof {
                    assert(failure_message(results@[i as int]) == message@);
                    lemma_names_of_push(v@, *message);
                }
                v.push(message.clone());
            },
            MoveResult::Moved { path: _ } => {
                proof {
                    assert(!is_failure(results@[i as int]));
                }
            },
        }
    }
    proof {
        assert(results@.take(results@.len() as int) =~= results@);
    }
    v
}

} // verus!
