use undo_log::{NoUndo, Rollback, Snapshots, UndoLogs, VecLog};

/// Records the events it is asked to undo, in the order they come.
struct Recorder<'a> {
    seen: &'a mut Vec<char>,
}

impl<'a> Rollback<char> for Recorder<'a> {
    // Read by proofs only; nothing calls it at run time.
    fn reversed(self, _undo: char) -> Self {
        unreachable!()
    }

    fn reverse(&mut self, undo: char) {
        self.seen.push(undo);
    }
}

/// Records in a vector of its own.
struct Owned {
    seen: Vec<char>,
}

impl Rollback<char> for Owned {
    // Read by proofs only; nothing calls it at run time.
    fn reversed(self, _undo: char) -> Self {
        unreachable!()
    }

    fn reverse(&mut self, undo: char) {
        self.seen.push(undo);
    }
}

fn pushed(log: &mut VecLog<char>, undos: &[char]) {
    for &u in undos {
        log.push(u);
    }
}

#[test]
fn nested_rollbacks_undo_newest_first() {
    let mut log: VecLog<char> = VecLog::default();
    pushed(&mut log, &['A', 'B', 'C']);
    let s0 = log.start_snapshot();
    pushed(&mut log, &['D', 'E']);
    let s1 = log.start_snapshot();
    pushed(&mut log, &['F']);
    assert_eq!(log.num_open_snapshots(), 2);

    let mut r = Vec::new();
    log.rollback_to(|| Recorder { seen: &mut r }, s1);
    assert_eq!(r, vec!['F']);
    assert_eq!(log.actions_since_snapshot(&s0), &['D', 'E']);
    assert_eq!(*log.index(4), 'E');
    assert_eq!(log.num_open_snapshots(), 1);

    let mut r2 = Vec::new();
    log.rollback_to(|| Recorder { seen: &mut r2 }, s0);
    assert_eq!(r2, vec!['E', 'D']);
    assert_eq!(*log.index(0), 'A');
    assert_eq!(*log.index(2), 'C');
    assert_eq!(log.num_open_snapshots(), 0);
    assert!(!log.in_snapshot());
    let s = log.start_snapshot();
    assert!(!log.has_changes(&s));
    log.push('G');
    assert_eq!(*log.index(3), 'G');
    log.commit(s);
}

#[test]
fn committing_root_clears_log() {
    let mut log: VecLog<char> = VecLog::default();
    let root = log.start_snapshot();
    assert_eq!(log.num_open_snapshots(), 1);
    log.push('A');
    log.push('B');
    log.commit(root);
    assert_eq!(log.num_open_snapshots(), 0);
    let s = log.start_snapshot();
    assert!(log.actions_since_snapshot(&s).is_empty());
    let mut r = Vec::new();
    log.rollback_to(|| Recorder { seen: &mut r }, s);
    assert!(r.is_empty());
    // Nothing is left to undo: the events went with the root commit.
    let s = log.start_snapshot();
    let mut seen = Vec::new();
    log.rollback_to(|| Recorder { seen: &mut seen }, s);
    assert!(seen.is_empty());
}

#[test]
fn committing_inner_snapshot_keeps_events() {
    let mut log: VecLog<char> = VecLog::default();
    let outer = log.start_snapshot();
    log.push('A');
    let inner = log.start_snapshot();
    log.push('B');
    log.commit(inner);
    assert_eq!(log.num_open_snapshots(), 1);
    assert_eq!(log.actions_since_snapshot(&outer), &['A', 'B']);
    let mut r = Vec::new();
    log.rollback_to(|| Recorder { seen: &mut r }, outer);
    assert_eq!(r, vec!['B', 'A']);
    assert_eq!(log.num_open_snapshots(), 0);
}

#[test]
fn rollback_without_changes_builds_no_target() {
    let mut log: VecLog<char> = VecLog::default();
    log.push('A');
    let s = log.start_snapshot();
    log.rollback_to(|| -> Recorder<'static> { panic!("no target is needed") }, s);
    assert_eq!(log.num_open_snapshots(), 0);
    assert_eq!(*log.index(0), 'A');
    let root = log.start_snapshot();
    assert_eq!(log.actions_since_snapshot(&root), &[] as &[char]);
    log.commit(root);
}

#[test]
fn has_changes_agrees_with_actions() {
    let mut log: VecLog<char> = VecLog::default();
    log.push('A');
    let s = log.start_snapshot();
    assert!(!log.has_changes(&s));
    assert!(log.actions_since_snapshot(&s).is_empty());
    log.push('B');
    assert!(log.has_changes(&s));
    assert_eq!(log.actions_since_snapshot(&s), &['B']);
    let t = log.start_snapshot();
    assert!(!log.has_changes(&t));
    assert!(log.has_changes(&s));
    log.commit(t);
    log.commit(s);
}

#[test]
fn no_undo_keeps_nothing() {
    let mut log = NoUndo;
    for i in 0..1000u32 {
        UndoLogs::<u32>::push(&mut log, i);
    }
    UndoLogs::<u32>::extend(&mut log, vec![1, 2, 3]);
    assert_eq!(UndoLogs::<u32>::num_open_snapshots(&log), 0);
    assert!(!UndoLogs::<u32>::in_snapshot(&log));
    UndoLogs::<u32>::clear(&mut log);
    assert_eq!(UndoLogs::<u32>::num_open_snapshots(&log), 0);
}

#[test]
fn nested_snapshots_return_count_to_zero() {
    let mut log: VecLog<char> = VecLog::default();
    let a = log.start_snapshot();
    let b = log.start_snapshot();
    let c = log.start_snapshot();
    assert_eq!(log.num_open_snapshots(), 3);
    log.push('X');
    log.commit(c);
    assert_eq!(log.num_open_snapshots(), 2);
    let mut r = Vec::new();
    log.rollback_to(|| Recorder { seen: &mut r }, b);
    assert_eq!(r, vec!['X']);
    assert_eq!(log.num_open_snapshots(), 1);
    let d = log.start_snapshot();
    log.push('Y');
    log.commit(d);
    log.commit(a);
    assert_eq!(log.num_open_snapshots(), 0);
    assert!(!log.in_snapshot());
}

#[test]
fn extend_keeps_order() {
    let mut log: VecLog<char> = VecLog::default();
    let s = log.start_snapshot();
    log.extend(vec!['A', 'B', 'C']);
    log.push('D');
    assert_eq!(log.actions_since_snapshot(&s), &['A', 'B', 'C', 'D']);
    assert_eq!(*log.index(1), 'B');
    let mut r = Vec::new();
    log.rollback_to(|| Recorder { seen: &mut r }, s);
    assert_eq!(r, vec!['D', 'C', 'B', 'A']);
}

#[test]
fn clear_drops_events_and_snapshots() {
    let mut log: VecLog<char> = VecLog::default();
    let _s = log.start_snapshot();
    let _t = log.start_snapshot();
    log.extend(vec!['A', 'B']);
    log.clear();
    assert_eq!(log.num_open_snapshots(), 0);
    assert!(!log.in_snapshot());
    let s = log.start_snapshot();
    assert!(log.actions_since_snapshot(&s).is_empty());
    log.commit(s);
}

#[test]
fn reverse_to_pops_back_to_length() {
    let mut log: VecLog<char> = VecLog::default();
    log.extend(vec!['A', 'B', 'C', 'D']);
    let mut seen = Vec::new();
    let mut target = Recorder { seen: &mut seen };
    log.reverse_to(&mut target, 1);
    assert_eq!(seen, vec!['D', 'C', 'B']);
    let s = log.start_snapshot();
    log.push('Z');
    assert_eq!(log.actions_since_snapshot(&s), &['Z']);
    assert_eq!(*log.index(0), 'A');
    assert_eq!(*log.index(1), 'Z');
}

#[test]
fn borrowed_log_forwards_every_call() {
    let mut log: VecLog<char> = VecLog::default();
    {
        let mut borrowed = &mut log;
        let s = Snapshots::start_snapshot(&mut borrowed);
        UndoLogs::push(&mut borrowed, 'A');
        UndoLogs::extend(&mut borrowed, vec!['B']);
        assert!(UndoLogs::in_snapshot(&borrowed));
        assert_eq!(UndoLogs::num_open_snapshots(&borrowed), 1);
        assert!(Snapshots::has_changes(&borrowed, &s));
        assert_eq!(Snapshots::actions_since_snapshot(&borrowed, &s), &['A', 'B']);
        let mut r = Vec::new();
        Snapshots::rollback_to(&mut borrowed, || Recorder { seen: &mut r }, s);
        assert_eq!(r, vec!['B', 'A']);
        let t = Snapshots::start_snapshot(&mut borrowed);
        UndoLogs::push(&mut borrowed, 'C');
        Snapshots::commit(&mut borrowed, t);
        UndoLogs::push(&mut borrowed, 'D');
        UndoLogs::clear(&mut borrowed);
    }
    assert_eq!(log.num_open_snapshots(), 0);
    let s = log.start_snapshot();
    assert!(log.actions_since_snapshot(&s).is_empty());
    log.commit(s);
}

#[test]
fn rollback_hands_back_the_target() {
    let mut log: VecLog<char> = VecLog::default();
    pushed(&mut log, &['A', 'B', 'C']);
    let s0 = log.start_snapshot();
    pushed(&mut log, &['D', 'E']);
    let s1 = log.start_snapshot();
    pushed(&mut log, &['F']);
    let r = log.rollback_to(|| Owned { seen: vec!['x'] }, s1);
    assert_eq!(r.map(|o| o.seen), Some(vec!['x', 'F']));
    let r2 = log.rollback_to(|| Owned { seen: Vec::new() }, s0);
    assert_eq!(r2.map(|o| o.seen), Some(vec!['E', 'D']));
    let s2 = log.start_snapshot();
    let none = log.rollback_to(|| Owned { seen: Vec::new() }, s2);
    assert!(none.is_none());
    assert_eq!(*log.index(2), 'C');
}
