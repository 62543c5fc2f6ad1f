use vstd::prelude::*;
use std::collections::HashMap;

verus! {

/// The per-thread reader record: the thread's read-side counter and its
/// registration data. A thread is named by a `u64` identifier.
#[derive(Clone, Copy)]
pub struct RcuReader {
    pub ctr: usize,
    pub tid: u64,
    pub id: usize,
    pub registered: bool,
}

impl RcuReader {
    /// The record of a thread that is in no read-side section: counter 0,
    /// id `usize::MAX`, not yet marked registered.
    pub open spec fn fresh(tid: u64) -> RcuReader {
        RcuReader { ctr: 0, tid: tid, id: usize::MAX, registered: false }
    }

    pub fn new(tid: u64) -> (r: Self)
        ensures
            r == RcuReader::fresh(tid),
    {
        RcuReader { ctr: 0, tid: tid, id: usize::MAX, registered: false }
    }
}

/// The registry of reader records, by thread.
pub struct RcuSync {
    pub reader_flags: HashMap<u64, RcuReader>,
    pub total_threads: usize,
}

impl RcuSync {
    pub fn new() -> (s: Self)
        ensures
            s.reader_flags@ == Map::<u64, RcuReader>::empty(),
            s.total_threads == 0,
    {
        RcuSync { reader_flags: HashMap::new(), total_threads: 0 }
    }

    /// The record of thread `tid`, if it is registered. The registry is
    /// finite.
    pub fn reader(&self, tid: u64) -> (r: Option<RcuReader>)
        ensures
            self.reader_flags@.dom().finite(),
            r == if self.reader_flags@.contains_key(tid) {
                Some(self.reader_flags@[tid])
            } else {
                None
            },
    {
        match self.reader_flags.get(&tid) {
            Some(r) => Some(*r),
            None => None,
        }
    }
}

/// The registered threads whose reader counter satisfies `ongoing`, which
/// computes `pred`.
pub(crate) fn readers_where<F: Fn(usize) -> bool>(
    sync: &RcuSync,
    ongoing: F,
    Ghost(pred): Ghost<spec_fn(usize) -> bool>,
) -> (waiting: Vec<u64>)
    requires
        forall|c: usize| ongoing.requires((c,)),
        forall|c: usize, b: bool| ongoing.ensures((c,), b) ==> b == pred(c),
    ensures
        forall|t: u64|
            waiting@.contains(t) <==> sync.reader_flags@.contains_key(t) && pred(
                sync.reader_flags@[t].ctr,
            ),
        waiting@.no_duplicates(),
{
    let ghost m = sync.reader_flags@;
    let mut waiting: Vec<u64> = Vec::new();
    for t in it: sync.reader_flags.keys()
        invariant
            m == sync.reader_flags@,
            forall|c: usize| ongoing.requires((c,)),
            forall|c: usize, b: bool| ongoing.ensures((c,), b) ==> b == pred(c),
            forall|x: u64|
                waiting@.contains(x) <==> (exists|j: int| 0 <= j < it.index() && *it.seq()[j] == x)
                    && m.contains_key(x) && pred(m[x].ctr),
            it.seq().no_duplicates(),
            waiting@.no_duplicates(),
    {
        let ghost before = waiting@;
        let ghost idx = it.index();
        assert(*it.seq()[idx] == *t);
        let reader = sync.reader_flags.get(t).unwrap();
        let on = ongoing(reader.ctr);
        if on {
            assert(!before.contains(*t)) by {
                if before.contains(*t) {
                    let j = choose|j: int| 0 <= j < idx && *it.seq()[j] == *t;
                    assert(it.seq()[j] == it.seq()[idx]);
                }
            }
            waiting.push(*t);
            assert(waiting@.no_duplicates()) by {
                assert forall|a: int, b: int|
                    0 <= a < waiting@.len() && 0 <= b < waiting@.len() && a != b implies waiting@[a]
                    != waiting@[b] by {
                    if a < before.len() && b < before.len() {
                        assert(before[a] != before[b]);
                    } else if a < before.len() {
                        assert(before.contains(before[a]));
                    } else if b < before.len() {
                        assert(before.contains(before[b]));
                    }
                }
            }
        }
        assert(m.contains_key(*t) && m[*t] == *reader);
        assert(on ==> waiting@ == before.push(*t));
        assert(!on ==> waiting@ == before);
        assert forall|x: u64|
            waiting@.contains(x) <==> (exists|j: int| 0 <= j < idx + 1 && *it.seq()[j] == x)
                && m.contains_key(x) && pred(m[x].ctr) by {
            if x == *t {
                assert(*it.seq()[idx] == x);
                if on {
                    assert(waiting@[waiting@.len() - 1] == x);
                }
                if !on && before.contains(x) {
                    let j = choose|j: int| 0 <= j < idx && *it.seq()[j] == x;
                }
            } else {
                if waiting@.contains(x) {
                    let k = choose|k: int| 0 <= k < waiting@.len() && waiting@[k] == x;
                    assert(before[k] == x);
                    assert(before.contains(x));
                    let j = choose|j: int| 0 <= j < idx && *it.seq()[j] == x;
                    assert(0 <= j < idx + 1 && *it.seq()[j] == x);
                }
                if (exists|j: int| 0 <= j < idx + 1 && *it.seq()[j] == x) && m.contains_key(x)
                    && pred(m[x].ctr) {
                    let j = choose|j: int| 0 <= j < idx + 1 && *it.seq()[j] == x;
                    assert(j < idx);
                    assert(before.contains(x));
                    let k = choose|k: int| 0 <= k < before.len() && before[k] == x;
                    assert(waiting@[k] == x);
                }
            }
        }
    }
    waiting
}

/// Unregistering a thread undoes registering it: the registry is back to
/// what it was, less any record the thread had before.
pub proof fn lemma_unregister_undoes_register(m: Map<u64, RcuReader>, tid: u64)
    ensures
        m.insert(tid, RcuReader::fresh(tid)).remove(tid) == m.remove(tid),
        !m.contains_key(tid) ==> m.insert(tid, RcuReader::fresh(tid)).remove(tid) == m,
{
    assert(m.insert(tid, RcuReader::fresh(tid)).remove(tid) =~= m.remove(tid));
    if !m.contains_key(tid) {
        assert(m.remove(tid) =~= m);
    }
}

/// Registering a thread twice leaves the registry as registering it once:
/// the thread's record is fresh (counter 0, whatever it held), and the
/// registry grows by one exactly when the thread was not registered.
pub proof fn lemma_register_twice_is_register_once(m: Map<u64, RcuReader>, tid: u64)
    requires
        m.dom().finite(),
    ensures
        m.insert(tid, RcuReader::fresh(tid)).insert(tid, RcuReader::fresh(tid)) == m.insert(
            tid,
            RcuReader::fresh(tid),
        ),
        m.insert(tid, RcuReader::fresh(tid))[tid].ctr == 0,
        m.insert(tid, RcuReader::fresh(tid)).dom().finite(),
        m.insert(tid, RcuReader::fresh(tid)).len() == m.len() + if m.contains_key(tid) {
            0int
        } else {
            1int
        },
{
    let m1 = m.insert(tid, RcuReader::fresh(tid));
    assert(m1.insert(tid, RcuReader::fresh(tid)) =~= m1);
    assert(m1.dom() == m.dom().insert(tid));
    if m.contains_key(tid) {
        assert(m.dom().insert(tid) =~= m.dom());
    }
}

} // verus!
