use vstd::prelude::*;
use crate::common::rcu_common::{RcuReader, RcuSync, readers_where};
use crate::common::utils::{barrier, load_shared, store_shared};

verus! {

/// The grace-period counter: the value a thread's counter takes when it
/// announces a quiescent state.
pub const GP_CTR: usize = 1;

/// The step of the grace-period counter.
pub const RCU_GP_CTR: usize = 0x2;

/// The counter a thread takes when it comes back online after a grace period
/// it started itself.
pub const RCU_GP_ONLINE: usize = 0x1;

/// A grace period must wait for the reader whose counter is `v` when the
/// reader is online (non-zero) and its counter is not `GP_CTR`.
pub open spec fn gp_ongoing(v: usize) -> bool {
    v != 0 && v != GP_CTR
}

/// Thread `tid` announces a quiescent state: its counter takes `GP_CTR`.
pub fn rcu_quiescent_state(sync: &mut RcuSync, tid: u64)
    requires
        old(sync).reader_flags@.contains_key(tid),
    ensures
        final(sync).total_threads == old(sync).total_threads,
        final(sync).reader_flags@ == old(sync).reader_flags@.insert(
            tid,
            RcuReader { ctr: GP_CTR, ..old(sync).reader_flags@[tid] },
        ),
{
    let mut reader = sync.reader(tid).unwrap();
    store_shared(&mut reader.ctr, GP_CTR);
    sync.reader_flags.insert(tid, reader);
}

/// Registers thread `tid` with a fresh reader record, replacing any it had.
pub fn rcu_register_thread(sync: &mut RcuSync, tid: u64)
    ensures
        final(sync).total_threads == old(sync).total_threads,
        final(sync).reader_flags@ == old(sync).reader_flags@.insert(tid, RcuReader::fresh(tid)),
{
    sync.reader_flags.insert(tid, RcuReader::new(tid));
}

/// Removes the reader record of thread `tid`, if it has one.
pub fn rcu_unregister_thread(sync: &mut RcuSync, tid: u64)
    ensures
        final(sync).total_threads == old(sync).total_threads,
        final(sync).reader_flags@ == old(sync).reader_flags@.remove(tid),
{
    sync.reader_flags.remove(&tid);
}

/// Whether a grace period must wait for the reader whose counter is `x`.
pub fn rcu_gp_ongoing(x: &usize) -> (b: bool)
    ensures
        b == gp_ongoing(*x),
{
    let v = load_shared(x);
    v != 0 && v != GP_CTR
}

/// The registered threads that a grace period started by thread `tid` must
/// still wait for: those online whose counter is not `GP_CTR`. The counter
/// value `GP_CTR + RCU_GP_CTR` is computed into a copy of the caller's
/// record only, so the registry is not changed.
pub fn update_counter_and_wait(sync: &RcuSync, tid: u64) -> (waiting: Vec<u64>)
    requires
        sync.reader_flags@.contains_key(tid),
    ensures
        waiting@.no_duplicates(),
        forall|t: u64|
            waiting@.contains(t) <==> sync.reader_flags@.contains_key(t) && gp_ongoing(
                sync.reader_flags@[t].ctr,
            ),
{
    let mut reader = sync.reader(tid).unwrap();
    store_shared(&mut reader.ctr, GP_CTR + RCU_GP_CTR);
    barrier();
    let ongoing = |c: usize| -> (b: bool)
        ensures
            b == gp_ongoing(c),
        { rcu_gp_ongoing(&c) };
    readers_where(sync, ongoing, Ghost(|c: usize| gp_ongoing(c)))
}

/// Starts a grace period from thread `tid`: the thread goes offline
/// (counter 0), so that the grace period never waits for it. Returns whether
/// it was online.
pub fn synchronize_rcu(sync: &mut RcuSync, tid: u64) -> (was_online: bool)
    requires
        old(sync).reader_flags@.contains_key(tid),
    ensures
        was_online == (old(sync).reader_flags@[tid].ctr != 0),
        final(sync).total_threads == old(sync).total_threads,
        final(sync).reader_flags@ == old(sync).reader_flags@.insert(
            tid,
            RcuReader { ctr: 0, ..old(sync).reader_flags@[tid] },
        ),
        !gp_ongoing(final(sync).reader_flags@[tid].ctr),
{
    let mut reader = sync.reader(tid).unwrap();
    let was_online = reader.ctr != 0;
    if was_online {
        barrier();
        store_shared(&mut reader.ctr, 0);
    }
    sync.reader_flags.insert(tid, reader);
    was_online
}

/// Ends a grace period started by thread `tid`: a thread that was online
/// comes back online with counter `RCU_GP_ONLINE`.
pub fn synchronize_rcu_done(sync: &mut RcuSync, tid: u64, was_online: bool)
    requires
        old(sync).reader_flags@.contains_key(tid),
    ensures
        final(sync).total_threads == old(sync).total_threads,
        final(sync).reader_flags@ == if was_online {
            old(sync).reader_flags@.insert(
                tid,
                RcuReader { ctr: RCU_GP_ONLINE, ..old(sync).reader_flags@[tid] },
            )
        } else {
            old(sync).reader_flags@
        },
        !gp_ongoing(final(sync).reader_flags@[tid].ctr) || !was_online,
{
    if was_online {
        barrier();
        let mut reader = sync.reader(tid).unwrap();
        store_shared(&mut reader.ctr, RCU_GP_ONLINE);
        sync.reader_flags.insert(tid, reader);
    }
    barrier();
}

/// A thread that is offline, that has announced a quiescent state, or that
/// came back online after its own grace period, never holds one up; every
/// counter the library writes is one of these.
pub proof fn lemma_quiescent_reader_not_waited_for()
    ensures
        !gp_ongoing(0),
        !gp_ongoing(GP_CTR),
        !gp_ongoing(RCU_GP_ONLINE),
{
}

/// A grace period waits for a thread exactly when its counter is neither 0
/// nor `GP_CTR`: the value `GP_CTR + RCU_GP_CTR`, for one, holds it up.
pub proof fn lemma_grace_period_waits_for_other_counters(v: usize)
    ensures
        gp_ongoing(v) <==> v != 0 && v != GP_CTR,
        gp_ongoing((GP_CTR + RCU_GP_CTR) as usize),
{
}

} // verus!
