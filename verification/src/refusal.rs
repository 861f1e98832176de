//! Outcomes of checks.

use vstd::prelude::*;

use crate::error::{ClientError, ErrorView};

verus! {

/// Whether `r` is the outcome of a check: passed, or refused for the reason given.
pub open spec fn checked<T>(r: Result<T, ClientError>, refusal: Option<ErrorView>) -> bool {
    match refusal {
        None => r is Ok,
        Some(error) => r is Err && r->Err_0@ == error,
    }
}

/// The first refusal among many checks.
pub open spec fn first(refusals: Seq<Option<ErrorView>>) -> Option<ErrorView>
    decreases refusals.len(),
{
    if refusals.len() == 0 {
        None
    } else {
        match first(refusals.drop_last()) {
            Some(error) => Some(error),
            None => refusals.last(),
        }
    }
}

/// The first refusal is the one at `n`, where nothing before it was refused.
pub proof fn lemma_first_at(refusals: Seq<Option<ErrorView>>, n: int)
    requires
        0 <= n < refusals.len(),
        forall|i: int| 0 <= i < n ==> (#[trigger] refusals[i]) is None,
        refusals[n] is Some,
    ensures
        first(refusals) == refusals[n],
    decreases refusals.len(),
{
    let front = refusals.drop_last();
    if n < front.len() {
        lemma_first_at(front, n);
    } else {
        lemma_first_none(front);
    }
}

/// There is no first refusal exactly where no check was refused.
pub proof fn lemma_first_none(refusals: Seq<Option<ErrorView>>)
    ensures
        first(refusals) is None <==> forall|i: int|
            0 <= i < refusals.len() ==> (#[trigger] refusals[i]) is None,
    decreases refusals.len(),
{
    if refusals.len() > 0 {
        let front = refusals.drop_last();
        lemma_first_none(front);
        if first(refusals) is None {
            assert forall|i: int| 0 <= i < refusals.len() implies (#[trigger] refusals[i]) is None by {
                if i < front.len() {
                    assert(front[i] is None);
                }
            }
        }
        if forall|i: int| 0 <= i < refusals.len() ==> (#[trigger] refusals[i]) is None {
            assert forall|i: int| 0 <= i < front.len() implies (#[trigger] front[i]) is None by {
                assert(refusals[i] is None);
            }
            assert(refusals[refusals.len() - 1] is None);
        }
    }
}

} // verus!
