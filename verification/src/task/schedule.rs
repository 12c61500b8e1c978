//! The scheduling policy built on [`Stride`].
//!
//! Among the ready tasks the scheduler dispatches one whose stride none of
//! the others precedes, the earliest in the ready set where several qualify,
//! and advances that stride once by the task's pass before the task can be
//! chosen again.
use crate::task::stride::{advanced_stride, pass_of, Stride};
use vstd::prelude::*;

verus! {

/// Whether the stride at `i` is the one to dispatch next: none precedes it,
/// and it precedes every stride that stands before it in the ready set.
pub open spec fn is_next(strides: Seq<Stride>, i: int) -> bool {
    &&& 0 <= i < strides.len()
    &&& forall|j: int| 0 <= j < strides.len() ==> !(#[trigger] strides[j]).precedes(&strides[i])
    &&& forall|j: int| 0 <= j < i ==> strides[i].precedes(&#[trigger] strides[j])
}

/// The position of the stride to dispatch next, found by going through the
/// ready set once and keeping the first stride that precedes all before it.
/// 0 where the set is empty.
pub open spec fn next(strides: Seq<Stride>) -> int
    decreases strides.len(),
{
    if strides.len() <= 1 {
        0
    } else {
        let best = next(strides.drop_last());
        if strides.last().precedes(&strides[best]) {
            strides.len() - 1
        } else {
            best
        }
    }
}

/// The ready set after one round: the stride at `next` advanced by the pass
/// of its task, the others as they were.
pub open spec fn round(strides: Seq<Stride>, priorities: Seq<u8>) -> Seq<Stride> {
    let chosen = next(strides);
    strides.update(chosen, strides[chosen].advanced(priorities[chosen]))
}

/// The ready set after `rounds` rounds.
pub open spec fn run(strides: Seq<Stride>, priorities: Seq<u8>, rounds: nat) -> Seq<Stride>
    decreases rounds,
{
    if rounds == 0 {
        strides
    } else {
        round(run(strides, priorities, (rounds - 1) as nat), priorities)
    }
}

/// How often the task at `task` is dispatched in the first `rounds` rounds.
pub open spec fn dispatches(
    strides: Seq<Stride>,
    priorities: Seq<u8>,
    rounds: nat,
    task: int,
) -> nat
    decreases rounds,
{
    if rounds == 0 {
        0
    } else {
        let before = (rounds - 1) as nat;
        let earlier = dispatches(strides, priorities, before, task);
        if next(run(strides, priorities, before)) == task {
            earlier + 1
        } else {
            earlier
        }
    }
}

/// In a ready set that is not empty, the stride at `next` is the one to
/// dispatch, and no other is.
pub proof fn next_is_first_minimum(strides: Seq<Stride>)
    requires
        strides.len() > 0,
    ensures
        is_next(strides, next(strides)),
        forall|i: int| is_next(strides, i) ==> i == next(strides),
    decreases strides.len(),
{
    if strides.len() > 1 {
        let front = strides.drop_last();
        next_is_first_minimum(front);
        let best = next(front);
        assert forall|j: int| 0 <= j < front.len() implies !(#[trigger] strides[j]).precedes(
            &strides[best],
        ) by {
            assert(strides[j] == front[j]);
        }
        assert forall|j: int| 0 <= j < best implies strides[best].precedes(
            &#[trigger] strides[j],
        ) by {
            assert(strides[j] == front[j]);
        }
    }
    let chosen = next(strides);
    assert forall|i: int| is_next(strides, i) implies i == chosen by {
        if i < chosen {
            assert(strides[chosen].precedes(&strides[i]));
            assert(!strides[chosen].precedes(&strides[i]));
        } else if chosen < i {
            assert(strides[i].precedes(&strides[chosen]));
            assert(!strides[i].precedes(&strides[chosen]));
        }
    }
}

/// The position of the stride to dispatch next, or `None` where no task is
/// ready.
pub fn select(strides: &[Stride]) -> (chosen: Option<usize>)
    ensures
        strides@.len() == 0 <==> chosen.is_none(),
        chosen matches Some(i) ==> i == next(strides@) && is_next(strides@, i as int),
{
    if strides.len() == 0 {
        return None;
    }
    let mut best: usize = 0;
    let mut i: usize = 1;
    while i < strides.len()
        invariant
            1 <= i <= strides.len(),
            best == next(strides@.take(i as int)),
            best < i,
        decreases strides.len() - i,
    {
        proof {
            assert(strides@.take(i + 1).drop_last() =~= strides@.take(i as int));
        }
        if strides[i].is_before(&strides[best]) {
            best = i;
        }
        i += 1;
    }
    proof {
        assert(strides@.take(i as int) =~= strides@);
        next_is_first_minimum(strides@);
    }
    Some(best)
}

/// Runs one round: chooses the stride to dispatch next and advances it by
/// the pass of its task, whose priority stands at the same position in
/// `priorities`. Returns the position, or `None` where no task is ready.
pub fn dispatch(strides: &mut Vec<Stride>, priorities: &[u8]) -> (chosen: Option<usize>)
    requires
        old(strides)@.len() == priorities@.len(),
        forall|i: int| 0 <= i < priorities@.len() ==> priorities@[i] > 0,
    ensures
        old(strides)@.len() == 0 ==> chosen.is_none() && final(strides)@ == old(strides)@,
        old(strides)@.len() > 0 ==> chosen == Some(next(old(strides)@) as usize),
        old(strides)@.len() > 0 ==> final(strides)@ == round(old(strides)@, priorities@),
{
    match select(strides.as_slice()) {
        Some(i) => {
            let mut stride = strides[i];
            stride.step(priorities[i]);
            strides.set(i, stride);
            Some(i)
        },
        None => None,
    }
}

/// Whether no counter wraps in the first `rounds` rounds: the wrap bit of
/// every stride is clear at the start and after each of them.
pub open spec fn never_wraps(strides: Seq<Stride>, priorities: Seq<u8>, rounds: nat) -> bool {
    forall|r: nat, k: int|
        r <= rounds && 0 <= k < strides.len() ==> !(#[trigger] run(
            strides,
            priorities,
            r,
        )[k]).is_overflow()
}

/// How far the counter of task `x` may stand ahead of that of task `y`:
/// by one pass of `x`, or by the lead that `x` was admitted with, if that is
/// more.
pub open spec fn lead(strides: Seq<Stride>, priorities: Seq<u8>, x: int, y: int) -> int {
    let pass = pass_of(priorities[x]);
    let admitted = strides[x].value() - strides[y].value();
    if admitted > pass {
        admitted
    } else {
        pass
    }
}

/// What holds after `rounds` rounds without a wrap: every counter stands
/// where its task was admitted plus one pass for each dispatch of the task,
/// and no counter is further ahead of another than `lead` allows.
spec fn on_track(strides: Seq<Stride>, priorities: Seq<u8>, rounds: nat) -> bool {
    let now = run(strides, priorities, rounds);
    &&& now.len() == strides.len()
    &&& forall|k: int|
        0 <= k < now.len() ==> (#[trigger] now[k]).value() == strides[k].value() + dispatches(
            strides,
            priorities,
            rounds,
            k,
        ) * pass_of(priorities[k])
    &&& forall|x: int, y: int|
        0 <= x < now.len() && 0 <= y < now.len() ==> (#[trigger] now[x]).value() <= (
        #[trigger] now[y]).value() + lead(strides, priorities, x, y)
}

proof fn stays_on_track(strides: Seq<Stride>, priorities: Seq<u8>, rounds: nat)
    requires
        0 < strides.len() == priorities.len(),
        forall|k: int| 0 <= k < priorities.len() ==> priorities[k] > 0,
        never_wraps(strides, priorities, rounds),
    ensures
        on_track(strides, priorities, rounds),
    decreases rounds,
{
    if rounds == 0 {
        assert forall|k: int| 0 <= k < strides.len() implies dispatches(
            strides,
            priorities,
            rounds,
            k,
        ) * pass_of(#[trigger] priorities[k]) == 0 by {
            assert(dispatches(strides, priorities, rounds, k) == 0);
        }
    } else {
        let before = (rounds - 1) as nat;
        stays_on_track(strides, priorities, before);
        let was = run(strides, priorities, before);
        let now = run(strides, priorities, rounds);
        let chosen = next(was);
        next_is_first_minimum(was);
        advanced_stride(was[chosen], priorities[chosen]);
        let pass = pass_of(priorities[chosen]);
        let count = dispatches(strides, priorities, before, chosen);
        assert(!was[chosen].is_overflow());
        assert(!now[chosen].is_overflow());
        assert(now[chosen].value() == was[chosen].value() + pass);
        assert((count + 1) * pass == count * pass + pass) by (nonlinear_arith);
        assert forall|j: int| 0 <= j < was.len() implies was[chosen].value() <= (
        #[trigger] was[j]).value() by {
            assert(!was[j].precedes(&was[chosen]));
            assert(!was[j].is_overflow());
        }
        assert forall|k: int| 0 <= k < now.len() implies (#[trigger] now[k]).value()
            == strides[k].value() + dispatches(strides, priorities, rounds, k) * pass_of(
            priorities[k],
        ) by {
            let earlier = dispatches(strides, priorities, before, k);
            assert(was[k].value() == strides[k].value() + earlier * pass_of(priorities[k]));
            if k == chosen {
                assert(dispatches(strides, priorities, rounds, k) == earlier + 1);
            } else {
                assert(dispatches(strides, priorities, rounds, k) == earlier);
                assert(now[k] == was[k]);
            }
        }
        assert forall|x: int, y: int| 0 <= x < now.len() && 0 <= y < now.len() implies (
        #[trigger] now[x]).value() <= (#[trigger] now[y]).value() + lead(
            strides,
            priorities,
            x,
            y,
        ) by {
            assert(was[x].value() <= was[y].value() + lead(strides, priorities, x, y));
            assert(was[chosen].value() <= was[y].value());
            assert(x != chosen ==> now[x] == was[x]);
            assert(y != chosen ==> now[y] == was[y]);
        }
    }
}

/// Proportional share, as long as no counter wraps.
///
/// After any number of rounds in which no counter wraps, the counter of a
/// task stands where the task was admitted plus one pass for each of its
/// dispatches, and the counter of a task `a` is ahead of that of a task `b`
/// by no more than `lead` allows. For two tasks admitted at the same counter
/// this bounds the ground that `a` has covered, its dispatches times its
/// pass, by the ground of `b` and one pass of `a`.
///
/// So the dispatch counts of two tasks are in the inverse ratio of their
/// passes, which is the ratio of their priorities but for the rounding in
/// `BIG_STRIDE / priority`.
pub proof fn proportional_share(
    strides: Seq<Stride>,
    priorities: Seq<u8>,
    rounds: nat,
    a: int,
    b: int,
)
    requires
        strides.len() == priorities.len(),
        forall|k: int| 0 <= k < priorities.len() ==> priorities[k] > 0,
        never_wraps(strides, priorities, rounds),
        0 <= a < strides.len(),
        0 <= b < strides.len(),
    ensures
        run(strides, priorities, rounds).len() == strides.len(),
        run(strides, priorities, rounds)[a].value() == strides[a].value() + dispatches(
            strides,
            priorities,
            rounds,
            a,
        ) * pass_of(priorities[a]),
        run(strides, priorities, rounds)[a].value() <= run(strides, priorities, rounds)[b].value()
            + lead(strides, priorities, a, b),
        strides[a].value() == strides[b].value() ==> dispatches(strides, priorities, rounds, a)
            * pass_of(priorities[a]) <= dispatches(strides, priorities, rounds, b) * pass_of(
            priorities[b],
        ) + pass_of(priorities[a]),
{
    stays_on_track(strides, priorities, rounds);
    let now = run(strides, priorities, rounds);
    assert(now[a].value() <= now[b].value() + lead(strides, priorities, a, b));
    advanced_stride(strides[a], priorities[a]);
}

} // verus!
