use vstd::prelude::*;

use crate::undo_log::{events_since, reverse_all, NoUndo, Rollback, UndoLogs};

verus! {

/// The change that one call makes to the open-snapshot count: `start_snapshot`
/// (`true`) adds one, `commit` or `rollback_to` (`false`) takes one away.
pub open spec fn step(starts: bool) -> int {
    if starts {
        1
    } else {
        -1
    }
}

/// The open-snapshot count after `calls`, made in order from `count`.
pub open spec fn count_after(count: int, calls: Seq<bool>) -> int
    decreases calls.len(),
{
    if calls.len() == 0 {
        count
    } else {
        count_after(count + step(calls[0]), calls.drop_first())
    }
}

/// Snapshots minted minus snapshots consumed in `calls`.
pub open spec fn depth(calls: Seq<bool>) -> int
    decreases calls.len(),
{
    if calls.len() == 0 {
        0
    } else {
        depth(calls.drop_last()) + step(calls.last())
    }
}

/// Each call consumes a snapshot minted earlier in `calls` and not yet
/// consumed, and every snapshot minted is consumed by the end.
pub open spec fn well_nested(calls: Seq<bool>) -> bool {
    &&& forall|i: int| 0 <= i <= calls.len() ==> depth(#[trigger] calls.take(i)) >= 0
    &&& depth(calls) == 0
}

proof fn lemma_count_is_depth(count: int, calls: Seq<bool>)
    ensures
        count_after(count, calls) == count + depth(calls),
    decreases calls.len(),
{
    if calls.len() > 0 {
        let rest = calls.drop_first();
        lemma_count_is_depth(count + step(calls[0]), rest);
        lemma_depth_first(calls);
    }
}

proof fn lemma_depth_first(calls: Seq<bool>)
    requires
        calls.len() > 0,
    ensures
        depth(calls) == step(calls[0]) + depth(calls.drop_first()),
    decreases calls.len(),
{
    if calls.len() > 1 {
        lemma_depth_first(calls.drop_last());
        assert(calls.drop_last().drop_first() == calls.drop_first().drop_last());
        assert(calls.drop_last()[0] == calls[0]);
        assert(calls.drop_first().last() == calls.last());
        assert(depth(calls.drop_first()) == depth(calls.drop_first().drop_last()) + step(
            calls.drop_first().last(),
        ));
    } else {
        assert(calls.drop_last().len() == 0);
        assert(calls.drop_first().len() == 0);
        assert(depth(calls.drop_last()) == 0);
        assert(depth(calls.drop_first()) == 0);
    }
}

/// Stack discipline: when snapshots are minted and consumed innermost first,
/// each consuming call finds a snapshot open, and the count ends where it began
/// (at zero after the outermost snapshot, when it began at zero).
pub proof fn lemma_stack_discipline(count: nat, calls: Seq<bool>)
    requires
        well_nested(calls),
    ensures
        count_after(count as int, calls) == count,
        forall|i: int|
            0 <= i < calls.len() && !calls[i] ==> count_after(count as int, #[trigger] calls.take(i))
                > 0,
{
    lemma_count_is_depth(count as int, calls);
    assert(calls.take(calls.len() as int) == calls);
    assert forall|i: int| 0 <= i < calls.len() && !calls[i] implies count_after(
        count as int,
        #[trigger] calls.take(i),
    ) > 0 by {
        lemma_count_is_depth(count as int, calls.take(i));
        let next = calls.take(i + 1);
        assert(next.drop_last() == calls.take(i));
        assert(next.last() == calls[i]);
        assert(depth(next) >= 0);
    }
}

/// Rolling back an outer snapshot undoes the events an inner rollback left on
/// the log after those the inner rollback undid: undoing `older + newer` at once
/// is undoing `newer`, then `older`.
pub proof fn lemma_rollback_nests<U, R: Rollback<U>>(target: R, older: Seq<U>, newer: Seq<U>)
    ensures
        reverse_all(target, older + newer) == reverse_all(reverse_all(target, newer), older),
    decreases newer.len(),
{
    if newer.len() == 0 {
        assert(older + newer == older);
    } else {
        assert((older + newer).drop_last() == older + newer.drop_last());
        assert((older + newer).last() == newer.last());
        lemma_rollback_nests(target.reversed(newer.last()), older, newer.drop_last());
    }
}

/// A snapshot has changes exactly when events were pushed after its mark.
pub proof fn lemma_changes_since<U>(events: Seq<U>, mark: nat)
    requires
        mark <= events.len(),
    ensures
        (events_since(events, mark).len() > 0) == (events.len() > mark),
{
}

/// A discarding log holds no event and no open snapshot, however many events
/// were pushed into it.
pub proof fn lemma_no_undo_keeps_nothing<T>(log: NoUndo)
    ensures
        UndoLogs::<T>::events(&log) == Seq::<T>::empty(),
        UndoLogs::<T>::open_count(&log) == 0,
        !UndoLogs::<T>::keeps_events(&log),
{
}

} // verus!
