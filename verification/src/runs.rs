//! Runs of steps that stop at the first step which gives no value.

use vstd::prelude::*;

verus! {

/// A run of steps, each of which gives a value or stops the run.
/// `gather` reads the run from its start: it yields the values of the
/// steps before the first stop, and the reason of that stop if there is
/// one.
pub open spec fn gather<T, E>(steps: Seq<Result<T, E>>) -> (Seq<T>, Option<E>)
    decreases steps.len(),
{
    if steps.len() == 0 {
        (Seq::empty(), None)
    } else {
        let before = gather(steps.drop_last());
        match before.1 {
            Some(_) => before,
            None => match steps.last() {
                Ok(value) => (before.0.push(value), None),
                Err(reason) => (before.0, Some(reason)),
            },
        }
    }
}

/// What `gather` yields, said step by step: the values gathered are those
/// of the first steps, in order; a run that did not stop gave a value at
/// every step; a run that stopped did so at the first step that gave none.
pub proof fn gather_reads_from_the_start<T, E>(steps: Seq<Result<T, E>>)
    ensures
        gather(steps).0.len() <= steps.len(),
        forall|k: int|
            0 <= k < gather(steps).0.len() ==> #[trigger] steps[k] == Ok::<T, E>(
                gather(steps).0[k],
            ),
        gather(steps).1 is None ==> gather(steps).0.len() == steps.len(),
        gather(steps).1 is Some ==> gather(steps).0.len() < steps.len() && steps[gather(
            steps,
        ).0.len() as int] == Err::<T, E>(gather(steps).1->Some_0),
    decreases steps.len(),
{
    if steps.len() > 0 {
        let shorter = steps.drop_last();
        gather_reads_from_the_start(shorter);
        assert forall|k: int| 0 <= k < gather(steps).0.len() implies #[trigger] steps[k] == Ok::<
            T,
            E,
        >(gather(steps).0[k]) by {
            if k < gather(shorter).0.len() {
                assert(shorter[k] == steps[k]);
            }
        }
    }
}

/// Once a run has stopped, the steps that follow change nothing.
pub proof fn gather_stays_stopped<T, E>(steps: Seq<Result<T, E>>, k: int)
    requires
        0 <= k <= steps.len(),
        gather(steps.take(k)).1 is Some,
    ensures
        gather(steps) == gather(steps.take(k)),
    decreases steps.len(),
{
    if k == steps.len() {
        assert(steps.take(k) == steps);
    } else {
        assert(steps.drop_last().take(k) == steps.take(k));
        gather_stays_stopped(steps.drop_last(), k);
    }
}

/// Two runs that are the same up to the first stop of one of them yield
/// the same.
pub proof fn gather_agrees<T, E>(steps: Seq<Result<T, E>>, other: Seq<Result<T, E>>)
    requires
        steps.len() == other.len(),
        forall|k: int|
            0 <= k < steps.len() && k <= gather(steps).0.len() ==> #[trigger] other[k] == steps[k],
    ensures
        gather(other) == gather(steps),
{
    gather_reads_from_the_start(steps);
    let stop = gather(steps).0.len() as int;
    if gather(steps).1 is None {
        assert(other =~= steps);
    } else {
        assert(other.take(stop + 1) =~= steps.take(stop + 1));
        gather_reads_from_the_start(steps.take(stop + 1));
        assert(steps.take(stop + 1)[stop] == steps[stop]);
        gather_stays_stopped(steps, stop + 1);
        gather_stays_stopped(other, stop + 1);
    }
}

/// One more step of a run that has not stopped.
pub proof fn gather_one_more<T, E>(steps: Seq<Result<T, E>>, k: int)
    requires
        0 <= k < steps.len(),
        gather(steps.take(k)).1 is None,
    ensures
        steps[k] is Ok ==> gather(steps.take(k + 1)) == (
            gather(steps.take(k)).0.push(steps[k]->Ok_0),
            None::<E>,
        ),
        steps[k] is Err ==> gather(steps.take(k + 1)) == (
            gather(steps.take(k)).0,
            Some(steps[k]->Err_0),
        ),
{
    assert(steps.take(k + 1).drop_last() == steps.take(k));
}

/// The parts laid end to end.
pub open spec fn joined<T>(parts: Seq<Seq<T>>) -> Seq<T>
    decreases parts.len(),
{
    if parts.len() == 0 {
        Seq::empty()
    } else {
        joined(parts.drop_last()) + parts.last()
    }
}

/// What is laid end to end is at least as long as each part, and as long
/// as all parts together where each part has at least `least` items.
pub proof fn joined_is_long<T>(parts: Seq<Seq<T>>, least: nat)
    requires
        forall|k: int| 0 <= k < parts.len() ==> (#[trigger] parts[k]).len() >= least,
    ensures
        joined(parts).len() >= parts.len() * least,
    decreases parts.len(),
{
    if parts.len() > 0 {
        joined_is_long(parts.drop_last(), least);
        assert(parts.len() * least == (parts.len() - 1) * least + least) by (nonlinear_arith);
    }
}

/// What is laid end to end is no longer than all parts together where
/// each part has at most `most` items.
pub proof fn joined_is_short<T>(parts: Seq<Seq<T>>, most: nat)
    requires
        forall|k: int| 0 <= k < parts.len() ==> (#[trigger] parts[k]).len() <= most,
    ensures
        joined(parts).len() <= parts.len() * most,
    decreases parts.len(),
{
    if parts.len() > 0 {
        joined_is_short(parts.drop_last(), most);
        assert(parts.len() * most == (parts.len() - 1) * most + most) by (nonlinear_arith);
    }
}

} // verus!
