//! Sums over the threads of a state.
use vstd::prelude::*;
use crate::model::Thread;

verus! {

/// The sum of `f` over `threads`.
pub open spec fn sum_over(threads: Seq<Thread>, f: spec_fn(Thread) -> int) -> int
    decreases threads.len(),
{
    if threads.len() == 0 {
        0
    } else {
        sum_over(threads.drop_last(), f) + f(threads.last())
    }
}

/// One more thread adds its own term.
pub proof fn lemma_sum_push(threads: Seq<Thread>, f: spec_fn(Thread) -> int, t: Thread)
    ensures
        sum_over(threads.push(t), f) == sum_over(threads, f) + f(t),
{
    assert(threads.push(t).drop_last() =~= threads);
}

/// A change of one thread changes the sum by the change of its term.
pub proof fn lemma_sum_update(threads: Seq<Thread>, f: spec_fn(Thread) -> int, i: int, t: Thread)
    requires
        0 <= i < threads.len(),
    ensures
        sum_over(threads.update(i, t), f) == sum_over(threads, f) - f(threads[i]) + f(t),
    decreases threads.len(),
{
    let updated = threads.update(i, t);
    if i == threads.len() - 1 {
        assert(updated.drop_last() =~= threads.drop_last());
    } else {
        lemma_sum_update(threads.drop_last(), f, i, t);
        assert(updated.drop_last() =~= threads.drop_last().update(i, t));
    }
}

/// A sum of terms that are all zero or one lies between zero and the
/// number of threads.
pub proof fn lemma_sum_of_flags(threads: Seq<Thread>, f: spec_fn(Thread) -> int)
    requires
        forall|t: Thread| 0 <= #[trigger] f(t) <= 1,
    ensures
        0 <= sum_over(threads, f) <= threads.len(),
    decreases threads.len(),
{
    if threads.len() > 0 {
        lemma_sum_of_flags(threads.drop_last(), f);
    }
}

/// A sum of terms that are not negative is not negative.
pub proof fn lemma_sum_not_negative(threads: Seq<Thread>, f: spec_fn(Thread) -> int)
    requires
        forall|i: int| 0 <= i < threads.len() ==> f(#[trigger] threads[i]) >= 0,
    ensures
        sum_over(threads, f) >= 0,
    decreases threads.len(),
{
    if threads.len() > 0 {
        let rest = threads.drop_last();
        assert forall|i: int| 0 <= i < rest.len() implies f(#[trigger] rest[i]) >= 0 by {
            assert(rest[i] == threads[i]);
        }
        lemma_sum_not_negative(rest, f);
        assert(threads.last() == threads[threads.len() - 1]);
    }
}

/// A sum of terms that are all zero is zero.
pub proof fn lemma_sum_of_zeros(threads: Seq<Thread>, f: spec_fn(Thread) -> int)
    requires
        forall|i: int| 0 <= i < threads.len() ==> f(#[trigger] threads[i]) == 0,
    ensures
        sum_over(threads, f) == 0,
    decreases threads.len(),
{
    if threads.len() > 0 {
        let rest = threads.drop_last();
        assert forall|i: int| 0 <= i < rest.len() implies f(#[trigger] rest[i]) == 0 by {
            assert(rest[i] == threads[i]);
        }
        lemma_sum_of_zeros(rest, f);
        assert(threads.last() == threads[threads.len() - 1]);
    }
}

/// Two functions that agree on every thread of the sequence have one sum.
pub proof fn lemma_sum_agrees(
    threads: Seq<Thread>,
    f: spec_fn(Thread) -> int,
    g: spec_fn(Thread) -> int,
)
    requires
        forall|i: int| 0 <= i < threads.len() ==> f(#[trigger] threads[i]) == g(threads[i]),
    ensures
        sum_over(threads, f) == sum_over(threads, g),
    decreases threads.len(),
{
    if threads.len() > 0 {
        let rest = threads.drop_last();
        assert forall|i: int| 0 <= i < rest.len() implies f(#[trigger] rest[i]) == g(rest[i]) by {
            assert(rest[i] == threads[i]);
        }
        lemma_sum_agrees(rest, f, g);
        assert(threads.last() == threads[threads.len() - 1]);
    }
}

} // verus!
