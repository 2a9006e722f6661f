//! The continuation-chaining protocol: what a submitter does with the reply
//! to a request, and how a group's completions combine.

use vstd::prelude::*;
use crate::systems::Systems;

verus! {

/// The errors the bridge itself distinguishes. Errors from user-supplied
/// continuations are carried as opaque codes and propagated unchanged.
#[derive(Clone, Copy, PartialEq, Eq, Structural, Debug)]
pub enum BridgeError {
    /// Sending into the process-wide request queue failed. The queue is
    /// never closed, so this is a programming-contract breach, not a
    /// recoverable condition.
    ChannelInvariantViolation,
    /// An awaited continuation resolved to an error, carried by its code.
    ContinuationFailure(u64),
}

/// What a submitter must do next, decided from the reply to one request.
pub enum ChainStep {
    /// The reply channel was dropped without a continuation: the operation
    /// ran (or needed no follow-up) and the submission completes.
    Done,
    /// The continuation resolved to an error; report exactly that error.
    Fail(u64),
    /// The continuation asked for more operations: submit these, in order,
    /// then await them.
    SubmitMore(Vec<u64>),
}

/// Decide the next chaining step from the reply-channel event for one
/// submitted operation.
///
/// A missing reply (`None`) is a dropped or silent reply channel: that is
/// cancellation or "no continuation", never an error. A continuation that
/// resolved to `Ok` contributes its operations, in order; one that resolved
/// to an error fails the submission with exactly that error.
pub fn next_chain_step(event: Option<Result<Systems, u64>>) -> (r: ChainStep)
    ensures
        event is None ==> r == ChainStep::Done,
        event matches Some(Err(e)) ==> r == ChainStep::Fail(e),
        event matches Some(Ok(s)) ==> r matches ChainStep::SubmitMore(v) && v@ == s.ops(),
{
    match event {
        None => ChainStep::Done,
        Some(Err(e)) => ChainStep::Fail(e),
        Some(Ok(s)) => ChainStep::SubmitMore(s.into_ops()),
    }
}

/// The combined outcome of a group of sibling submissions: success exactly
/// when every sibling succeeded, and otherwise the first error in group
/// order.
pub open spec fn combined(rs: Seq<Result<(), BridgeError>>) -> Result<(), BridgeError>
    decreases rs.len(),
{
    if rs.len() == 0 {
        Ok(())
    } else if rs.first() is Err {
        rs.first()
    } else {
        combined(rs.drop_first())
    }
}

/// Combining succeeds exactly when every sibling outcome is a success.
pub proof fn lemma_combined_ok_iff_all_ok(rs: Seq<Result<(), BridgeError>>)
    ensures
        combined(rs) is Ok <==> (forall|i: int| 0 <= i < rs.len() ==> rs[i] is Ok),
    decreases rs.len(),
{
    if rs.len() > 0 {
        let tail = rs.drop_first();
        lemma_combined_ok_iff_all_ok(tail);
        if rs.first() is Ok {
            if forall|j: int| 0 <= j < tail.len() ==> tail[j] is Ok {
                assert forall|i: int| 0 <= i < rs.len() implies rs[i] is Ok by {
                    if i > 0 {
                        assert(tail[i - 1] is Ok);
                    }
                }
            }
            if forall|i: int| 0 <= i < rs.len() ==> rs[i] is Ok {
                assert forall|j: int| 0 <= j < tail.len() implies tail[j] is Ok by {
                    assert(rs[j + 1] is Ok);
                }
            }
        }
    }
}

/// Gather a group of sibling outcomes, every one of which has already been
/// driven to completion: succeed when all succeeded, otherwise report the
/// first error in group order.
pub fn combine_results(results: &Vec<Result<(), BridgeError>>) -> (r: Result<(), BridgeError>)
    ensures
        r == combined(results@),
{
    let ghost all: Seq<Result<(), BridgeError>> = results@;
    let mut i: usize = 0;
    proof {
        assert(all.skip(0) =~= all);
    }
    while i < results.len()
        invariant
            i <= results@.len(),
            results@ == all,
            combined(all) == combined(all.skip(i as int)),
            forall|j: int| 0 <= j < i ==> all[j] is Ok,
        decreases results@.len() - i,
    {
        let current: Result<(), BridgeError> = results[i];
        proof {
            assert(all.skip(i as int).first() == all[i as int]);
            assert(all.skip(i as int).drop_first() =~= all.skip(i as int + 1));
        }
        if current.is_err() {
            return current;
        }
        i += 1;
    }
    proof {
        assert(all.skip(all.len() as int) =~= Seq::<Result<(), BridgeError>>::empty());
    }
    Ok(())
}

} // verus!
