use vstd::prelude::*;

verus! {

/// The events pushed after position `pos`, oldest first.
pub open spec fn events_since<T>(events: Seq<T>, pos: nat) -> Seq<T> {
    events.subrange(pos as int, events.len() as int)
}

/// A sink for undo events of type `T`, which may be undone later if needed.
pub trait UndoLogs<T> {
    /// How many snapshots are open.
    spec fn open_count(&self) -> nat;

    /// The events the log holds, oldest first.
    spec fn events(&self) -> Seq<T>;

    /// Whether pushed events are kept (a discarding log keeps none).
    spec fn keeps_events(&self) -> bool;

    fn in_snapshot(&self) -> (r: bool)
        ensures
            r == (self.open_count() > 0),
    {
        self.num_open_snapshots() > 0
    }

    fn num_open_snapshots(&self) -> (r: usize)
        ensures
            r as nat == self.open_count(),
    ;

    fn push(&mut self, undo: T)
        ensures
            (*final(self)).events() == (if (*old(self)).keeps_events() {
                (*old(self)).events().push(undo)
            } else {
                (*old(self)).events()
            }),
            (*final(self)).open_count() == (*old(self)).open_count(),
            (*final(self)).keeps_events() == (*old(self)).keeps_events(),
    ;

    /// Drops every event and closes every snapshot; tokens minted before are void.
    fn clear(&mut self)
        ensures
            (*final(self)).events() == Seq::<T>::empty(),
            (*final(self)).open_count() == 0,
            (*final(self)).keeps_events() == (*old(self)).keeps_events(),
    ;

    /// Pushes each of `undos` in order.
    fn extend(&mut self, undos: Vec<T>)
        ensures
            (*final(self)).events() == (if (*old(self)).keeps_events() {
                (*old(self)).events() + undos@
            } else {
                (*old(self)).events()
            }),
            (*final(self)).open_count() == (*old(self)).open_count(),
            (*final(self)).keeps_events() == (*old(self)).keeps_events(),
    {
        let ghost all = undos@;
        let mut undos = undos;
        let mut pending: Vec<T> = Vec::new();
        while undos.len() > 0
            invariant
                undos@ == all.subrange(0, undos@.len() as int),
                pending@.len() + undos@.len() == all.len(),
                forall|i: int|
                    0 <= i < pending@.len() ==> #[trigger] pending@[i] == all[all.len() - 1 - i],
            decreases undos.len(),
        {
            let undo = undos.pop().unwrap();
            pending.push(undo);
        }
        while pending.len() > 0
            invariant
                pending@.len() <= all.len(),
                forall|i: int|
                    0 <= i < pending@.len() ==> #[trigger] pending@[i] == all[all.len() - 1 - i],
                self.open_count() == (*old(self)).open_count(),
                self.keeps_events() == (*old(self)).keeps_events(),
                self.events() == (if (*old(self)).keeps_events() {
                    (*old(self)).events() + all.subrange(0, all.len() - pending@.len())
                } else {
                    (*old(self)).events()
                }),
            decreases pending.len(),
        {
            let ghost k = all.len() - pending@.len();
            let undo = pending.pop().unwrap();
            self.push(undo);
            assert(all.subrange(0, k + 1) == all.subrange(0, k).push(all[k]));
        }
        assert(all.subrange(0, all.len() as int) == all);
    }
}

/// Snapshots mark points of a log that changes can be rolled back to.
///
/// Each snapshot must be consumed exactly once, by `rollback_to` or `commit`,
/// innermost first.
pub trait Snapshots<T>: UndoLogs<T> {
    type Snapshot;

    /// The length of the log when `snapshot` was minted.
    spec fn mark(snapshot: &Self::Snapshot) -> nat;

    fn has_changes(&self, snapshot: &Self::Snapshot) -> (r: bool)
        requires
            Self::mark(snapshot) <= self.events().len(),
        ensures
            r == (self.events().len() > Self::mark(snapshot)),
            r == (events_since(self.events(), Self::mark(snapshot)).len() > 0),
    {
        !self.actions_since_snapshot(snapshot).is_empty()
    }

    fn actions_since_snapshot(&self, snapshot: &Self::Snapshot) -> (r: &[T])
        requires
            Self::mark(snapshot) <= self.events().len(),
        ensures
            r@ == events_since(self.events(), Self::mark(snapshot)),
    ;

    fn start_snapshot(&mut self) -> (snapshot: Self::Snapshot)
        requires
            (*old(self)).open_count() < usize::MAX,
        ensures
            Self::mark(&snapshot) == (*old(self)).events().len(),
            (*final(self)).open_count() == (*old(self)).open_count() + 1,
            (*final(self)).events() == (*old(self)).events(),
            (*final(self)).keeps_events() == (*old(self)).keeps_events(),
    ;

    /// Undoes every event pushed since `snapshot`, newest first, on the target
    /// that `values` builds, and hands that target back; `values` is called
    /// once, and only when there is such an event.
    fn rollback_to<R: Rollback<T>, F: FnOnce() -> R>(
        &mut self,
        values: F,
        snapshot: Self::Snapshot,
    ) -> (target: Option<R>)
        requires
            Self::mark(&snapshot) <= (*old(self)).events().len(),
            (*old(self)).open_count() > 0,
            Self::mark(&snapshot) < (*old(self)).events().len() ==> values.requires(()),
        ensures
            target is Some <==> Self::mark(&snapshot) < (*old(self)).events().len(),
            target matches Some(t) ==> exists|t0: R|
                #[trigger] values.ensures((), t0) && t == reverse_all(
                    t0,
                    events_since((*old(self)).events(), Self::mark(&snapshot)),
                ),
            (*final(self)).events() == (*old(self)).events().subrange(0, Self::mark(&snapshot) as int),
            Self::mark(&snapshot) == (*old(self)).events().len() ==> (*final(self)).events()
                == (*old(self)).events(),
            (*final(self)).open_count() == (*old(self)).open_count() - 1,
            (*final(self)).keeps_events() == (*old(self)).keeps_events(),
    ;

    /// Keeps the changes since `snapshot`; committing the outermost snapshot
    /// empties the log.
    fn commit(&mut self, snapshot: Self::Snapshot)
        requires
            Self::mark(&snapshot) <= (*old(self)).events().len(),
            (*old(self)).open_count() > 0,
            (*old(self)).open_count() == 1 ==> Self::mark(&snapshot) == 0,
        ensures
            (*final(self)).events() == (if (*old(self)).open_count() == 1 {
                Seq::<T>::empty()
            } else {
                (*old(self)).events()
            }),
            (*final(self)).open_count() == (*old(self)).open_count() - 1,
            (*final(self)).keeps_events() == (*old(self)).keeps_events(),
    ;
}

impl<'a, T, U: UndoLogs<T>> UndoLogs<T> for &'a mut U {
    open spec fn open_count(&self) -> nat {
        (**self).open_count()
    }

    open spec fn events(&self) -> Seq<T> {
        (**self).events()
    }

    open spec fn keeps_events(&self) -> bool {
        (**self).keeps_events()
    }

    fn in_snapshot(&self) -> (r: bool) {
        (**self).in_snapshot()
    }

    fn num_open_snapshots(&self) -> (r: usize) {
        (**self).num_open_snapshots()
    }

    fn push(&mut self, undo: T) {
        (**self).push(undo)
    }

    fn clear(&mut self) {
        (**self).clear()
    }

    fn extend(&mut self, undos: Vec<T>) {
        (**self).extend(undos)
    }
}

impl<'a, T, U: Snapshots<T>> Snapshots<T> for &'a mut U {
    type Snapshot = U::Snapshot;

    open spec fn mark(snapshot: &U::Snapshot) -> nat {
        U::mark(snapshot)
    }

    fn has_changes(&self, snapshot: &U::Snapshot) -> (r: bool) {
        (**self).has_changes(snapshot)
    }

    fn actions_since_snapshot(&self, snapshot: &U::Snapshot) -> (r: &[T]) {
        (**self).actions_since_snapshot(snapshot)
    }

    fn start_snapshot(&mut self) -> (snapshot: U::Snapshot) {
        (**self).start_snapshot()
    }

    fn rollback_to<R: Rollback<T>, F: FnOnce() -> R>(
        &mut self,
        values: F,
        snapshot: U::Snapshot,
    ) -> (target: Option<R>) {
        (**self).rollback_to(values, snapshot)
    }

    fn commit(&mut self, snapshot: U::Snapshot) {
        (**self).commit(snapshot)
    }
}

/// A value that can undo actions of type `U` applied to it.
pub trait Rollback<U>: Sized {
    /// The value after `undo` has been undone on it.
    spec fn reversed(self, undo: U) -> Self;

    fn reverse(&mut self, undo: U)
        ensures
            *final(self) == (*old(self)).reversed(undo),
    ;
}

/// `target` after the events of `undos` were undone on it, the last one first.
pub open spec fn reverse_all<U, R: Rollback<U>>(target: R, undos: Seq<U>) -> R
    decreases undos.len(),
{
    if undos.len() == 0 {
        target
    } else {
        reverse_all(target.reversed(undos.last()), undos.drop_last())
    }
}

/// A log that discards every event and never has an open snapshot.
pub struct NoUndo;

impl<T> UndoLogs<T> for NoUndo {
    open spec fn open_count(&self) -> nat {
        0
    }

    open spec fn events(&self) -> Seq<T> {
        Seq::empty()
    }

    open spec fn keeps_events(&self) -> bool {
        false
    }

    fn num_open_snapshots(&self) -> (r: usize) {
        0
    }

    fn push(&mut self, _undo: T) {
    }

    fn clear(&mut self) {
    }
}

} // verus!
