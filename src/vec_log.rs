use vstd::prelude::*;

use crate::undo_log::{events_since, reverse_all, Rollback, Snapshots, UndoLogs};

verus! {

/// A token for one open snapshot of a `VecLog`; consume it once, with
/// `rollback_to` or `commit`.
pub struct Snapshot {
    /// Length of the undo log when the snapshot was taken.
    undo_len: usize,
}

/// A basic undo log: the events in push order and the number of open snapshots.
#[derive(Clone, Debug)]
pub struct VecLog<T> {
    log: Vec<T>,
    num_open_snapshots: usize,
}

impl<T> Default for VecLog<T> {
    fn default() -> (r: Self)
        ensures
            r.events() == Seq::<T>::empty(),
            r.open_count() == 0,
    {
        VecLog { log: Vec::new(), num_open_snapshots: 0 }
    }
}

impl<T> UndoLogs<T> for VecLog<T> {
    closed spec fn open_count(&self) -> nat {
        self.num_open_snapshots as nat
    }

    closed spec fn events(&self) -> Seq<T> {
        self.log@
    }

    open spec fn keeps_events(&self) -> bool {
        true
    }

    fn num_open_snapshots(&self) -> (r: usize) {
        self.num_open_snapshots
    }

    fn push(&mut self, undo: T) {
        self.log.push(undo);
    }

    fn clear(&mut self) {
        self.log.clear();
        self.num_open_snapshots = 0;
    }
}

impl<T> Snapshots<T> for VecLog<T> {
    type Snapshot = Snapshot;

    closed spec fn mark(snapshot: &Snapshot) -> nat {
        snapshot.undo_len as nat
    }

    fn has_changes(&self, snapshot: &Snapshot) -> (r: bool) {
        self.log.len() > snapshot.undo_len
    }

    fn actions_since_snapshot(&self, snapshot: &Snapshot) -> (r: &[T]) {
        vstd::slice::slice_subrange(self.log.as_slice(), snapshot.undo_len, self.log.len())
    }

    fn start_snapshot(&mut self) -> (snapshot: Snapshot) {
        self.num_open_snapshots = self.num_open_snapshots + 1;
        Snapshot { undo_len: self.log.len() }
    }

    fn rollback_to<R: Rollback<T>, F: FnOnce() -> R>(
        &mut self,
        values: F,
        snapshot: Snapshot,
    ) -> (target: Option<R>) {
        self.assert_open_snapshot(&snapshot);
        let target = if self.log.len() > snapshot.undo_len {
            let mut target = values();
            let ghost built = target;
            self.reverse_to(&mut target, snapshot.undo_len);
            assert(values.ensures((), built));
            Some(target)
        } else {
            None
        };
        proof {
            assert((*old(self)).log@.subrange(0, (*old(self)).log@.len() as int) == (*old(self)).log@);
        }
        self.num_open_snapshots = self.num_open_snapshots - 1;
        target
    }

    fn commit(&mut self, snapshot: Snapshot) {
        self.assert_open_snapshot(&snapshot);
        if self.num_open_snapshots == 1 {
            // The root snapshot: no snapshot further out can need these events.
            self.log.clear();
        }
        self.num_open_snapshots = self.num_open_snapshots - 1;
    }
}

impl<T> VecLog<T> {
    /// States what consuming `snapshot` needs; a failure here means the
    /// snapshots were not consumed innermost first.
    pub fn assert_open_snapshot(&self, snapshot: &Snapshot)
        requires
            Self::mark(snapshot) <= self.events().len(),
            self.open_count() > 0,
    {
        assert(self.log@.len() >= snapshot.undo_len);
        assert(self.num_open_snapshots > 0);
    }

    /// Pops the events past `undo_len`, newest first, undoing each on `values`.
    pub fn reverse_to<R: Rollback<T>>(&mut self, values: &mut R, undo_len: usize)
        requires
            undo_len <= (*old(self)).events().len(),
        ensures
            (*final(self)).events() == (*old(self)).events().subrange(0, undo_len as int),
            *final(values) == reverse_all(*old(values), events_since((*old(self)).events(), undo_len as nat)),
            (*final(self)).open_count() == (*old(self)).open_count(),
    {
        while self.log.len() > undo_len
            invariant
                undo_len <= self.log@.len() <= (*old(self)).log@.len(),
                self.log@ == (*old(self)).log@.subrange(0, self.log@.len() as int),
                self.num_open_snapshots == (*old(self)).num_open_snapshots,
                reverse_all(*old(values), events_since((*old(self)).log@, undo_len as nat)) == reverse_all(
                    *values,
                    events_since(self.log@, undo_len as nat),
                ),
            decreases self.log.len(),
        {
            let ghost before = self.log@;
            let undo = self.log.pop().unwrap();
            proof {
                assert(events_since(before, undo_len as nat).drop_last() == events_since(self.log@, undo_len as nat));
            }
            values.reverse(undo);
        }
    }

    /// The event at position `key`, oldest first.
    pub fn index(&self, key: usize) -> (r: &T)
        requires
            key < self.events().len(),
        ensures
            *r == self.events()[key as int],
    {
        &self.log[key]
    }
}

} // verus!
