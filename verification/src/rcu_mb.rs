use vstd::prelude::*;
use std::collections::HashMap;
use crate::common::rcu_common::{RcuReader, RcuSync, readers_where};
use crate::common::utils::{barrier, load_shared, store_shared};

verus! {

pub const RCU_GP_CTR_PHASE: usize = 0x1000;

pub const RCU_NEST_MASK: usize = 0x0fff;

pub const RCU_NEST_COUNT: usize = 0x1;

/// How deep the reader counter `ctr` is nested in read-side sections.
pub open spec fn nest(ctr: usize) -> usize {
    ctr & RCU_NEST_MASK
}

/// The grace-period phase bit of a counter.
pub open spec fn phase(ctr: usize) -> usize {
    ctr & RCU_GP_CTR_PHASE
}

/// A grace-period counter value: one nesting level, either phase.
pub open spec fn valid_gp(gp: usize) -> bool {
    gp == RCU_NEST_COUNT || gp == RCU_NEST_COUNT + RCU_GP_CTR_PHASE
}

/// The reader counter after entering a read-side section: the outermost
/// entry takes a snapshot of the grace-period counter, a nested one counts
/// one level deeper.
pub open spec fn locked_ctr(ctr: usize, gp: usize) -> usize {
    if nest(ctr) == 0 {
        gp
    } else {
        (ctr + RCU_NEST_COUNT) as usize
    }
}

/// A grace period must wait for a reader whose counter is `v` when the
/// reader is inside a read-side section begun in the other phase.
pub open spec fn gp_ongoing(v: usize, gp: usize) -> bool {
    (v & RCU_NEST_MASK) != 0 && ((v ^ gp) & RCU_GP_CTR_PHASE) != 0
}

/// The state that the memory-barrier flavour shares between threads: the
/// reader registry and the grace-period counter. The counter always holds
/// one nesting level, in one phase or the other.
pub struct RcuMbState {
    sync: RcuSync,
    gp_ctrl: usize,
}

impl RcuMbState {
    #[verifier::type_invariant]
    spec fn gp_valid(self) -> bool {
        valid_gp(self.gp_ctrl)
    }

    /// The grace-period counter.
    pub closed spec fn gp(self) -> usize {
        self.gp_ctrl
    }

    /// The reader records, by thread.
    pub closed spec fn readers(self) -> Map<u64, RcuReader> {
        self.sync.reader_flags@
    }

    /// The registry's thread count.
    pub closed spec fn total_threads(self) -> usize {
        self.sync.total_threads
    }

    pub fn new() -> (s: Self)
        ensures
            s.readers() == Map::<u64, RcuReader>::empty(),
            s.total_threads() == 0,
            s.gp() == RCU_NEST_COUNT,
            valid_gp(s.gp()),
            s.readers().dom().finite(),
    {
        RcuMbState { sync: RcuSync::new(), gp_ctrl: RCU_NEST_COUNT }
    }

    /// The grace-period counter; it is valid in every state.
    pub fn gp_ctrl(&self) -> (g: usize)
        ensures
            g == self.gp(),
            valid_gp(g),
            self.readers().dom().finite(),
    {
        proof {
            use_type_invariant(self);
        }
        self.gp_ctrl
    }

    /// The record of thread `tid`, if it is registered. The registry is
    /// finite.
    pub fn reader(&self, tid: u64) -> (r: Option<RcuReader>)
        ensures
            self.readers().dom().finite(),
            r == if self.readers().contains_key(tid) {
                Some(self.readers()[tid])
            } else {
                None
            },
    {
        self.sync.reader(tid)
    }

    fn put_reader(&mut self, tid: u64, r: RcuReader)
        ensures
            final(self).gp() == old(self).gp(),
            final(self).total_threads() == old(self).total_threads(),
            final(self).readers() == old(self).readers().insert(tid, r),
            valid_gp(final(self).gp()),
            final(self).readers().dom().finite(),
    {
        proof {
            use_type_invariant(&*self);
        }
        let mut flags: HashMap<u64, RcuReader> = HashMap::new();
        std::mem::swap(&mut flags, &mut self.sync.reader_flags);
        flags.insert(tid, r);
        self.sync.reader_flags = flags;
    }
}

/// Enters a read-side section for thread `tid`.
pub fn rcu_reader_lock(state: &mut RcuMbState, tid: u64)
    requires
        old(state).readers().contains_key(tid),
        nest(old(state).readers()[tid].ctr) != 0 ==> old(state).readers()[tid].ctr < usize::MAX,
    ensures
        final(state).gp() == old(state).gp(),
        valid_gp(final(state).gp()),
        final(state).readers().dom().finite(),
        final(state).total_threads() == old(state).total_threads(),
        final(state).readers() == old(state).readers().insert(
            tid,
            RcuReader {
                ctr: locked_ctr(old(state).readers()[tid].ctr, old(state).gp()),
                ..old(state).readers()[tid]
            },
        ),
        nest(old(state).readers()[tid].ctr) == 0 ==> final(state).readers()[tid].ctr == old(
            state,
        ).gp(),
        nest(old(state).readers()[tid].ctr) != 0 ==> final(state).readers()[tid].ctr == old(
            state,
        ).readers()[tid].ctr + 1,
{
    let mut reader = state.reader(tid).unwrap();
    let tmp = reader.ctr;
    if tmp & RCU_NEST_MASK == 0 {
        store_shared(&mut reader.ctr, state.gp_ctrl());
        barrier();
    } else {
        store_shared(&mut reader.ctr, tmp + RCU_NEST_COUNT);
    }
    state.put_reader(tid, reader);
}

/// Leaves a read-side section for thread `tid`: one nesting level less.
pub fn rcu_reader_unlock(state: &mut RcuMbState, tid: u64)
    requires
        old(state).readers().contains_key(tid),
        old(state).readers()[tid].ctr >= RCU_NEST_COUNT,
    ensures
        final(state).gp() == old(state).gp(),
        valid_gp(final(state).gp()),
        final(state).readers().dom().finite(),
        final(state).total_threads() == old(state).total_threads(),
        final(state).readers() == old(state).readers().insert(
            tid,
            RcuReader { ctr: (old(state).readers()[tid].ctr - RCU_NEST_COUNT) as usize, ..old(state).readers()[tid] },
        ),
        final(state).readers()[tid].ctr == old(state).readers()[tid].ctr - 1,
{
    barrier();
    let mut reader = state.reader(tid).unwrap();
    let v = reader.ctr - RCU_NEST_COUNT;
    store_shared(&mut reader.ctr, v);
    state.put_reader(tid, reader);
}

/// Whether a grace period under counter `gp_ctrl` must wait for the reader
/// whose counter is `ctr`.
pub fn rcu_gp_ongoing(ctr: &usize, gp_ctrl: usize) -> (b: bool)
    ensures
        b == gp_ongoing(*ctr, gp_ctrl),
{
    let v = load_shared(ctr);
    (v & RCU_NEST_MASK) != 0 && ((v ^ gp_ctrl) & RCU_GP_CTR_PHASE) != 0
}

/// The registered threads that the current grace period must still wait for.
pub fn readers_holding_grace_period(state: &RcuMbState) -> (waiting: Vec<u64>)
    ensures
        waiting@.no_duplicates(),
        forall|t: u64|
            waiting@.contains(t) <==> state.readers().contains_key(t) && gp_ongoing(
                state.readers()[t].ctr,
                state.gp(),
            ),
{
    let gp = state.gp_ctrl;
    let ongoing = |c: usize| -> (b: bool)
        ensures
            b == gp_ongoing(c, gp),
        { rcu_gp_ongoing(&c, gp) };
    readers_where(&state.sync, ongoing, Ghost(|c: usize| gp_ongoing(c, gp)))
}

/// Flips the phase of the grace-period counter and returns the registered
/// threads that the grace period must wait for: those inside a read-side
/// section begun before the flip.
pub fn update_counter_and_wait(state: &mut RcuMbState) -> (waiting: Vec<u64>)
    ensures
        waiting@.no_duplicates(),
        final(state).gp() == old(state).gp() ^ RCU_GP_CTR_PHASE,
        valid_gp(final(state).gp()),
        final(state).readers().dom().finite(),
        final(state).readers() == old(state).readers(),
        final(state).total_threads() == old(state).total_threads(),
        forall|t: u64|
            waiting@.contains(t) <==> final(state).readers().contains_key(t) && gp_ongoing(
                final(state).readers()[t].ctr,
                final(state).gp(),
            ),
{
    proof {
        use_type_invariant(&*state);
        lemma_flip_keeps_gp_valid(state.gp_ctrl);
    }
    state.gp_ctrl = state.gp_ctrl ^ RCU_GP_CTR_PHASE;
    barrier();
    readers_holding_grace_period(state)
}

/// Where a grace period started by `synchronize_rcu` stands: it flips the
/// phase, waits for the readers that the flip holds up, and does both once
/// more.
#[derive(Clone, Copy, PartialEq, Eq, Structural)]
pub enum SyncPhase {
    FirstFlip,
    FirstWait,
    SecondFlip,
    SecondWait,
    Done,
}

/// One step of a grace period. A flip step flips the phase and moves on to
/// waiting; a wait step moves on once no registered thread holds the grace
/// period up, and otherwise stays, for the caller to yield and come back.
/// Returns the next phase and the threads that are still waited for.
pub fn synchronize_rcu(state: &mut RcuMbState, phase: SyncPhase) -> (r: (SyncPhase, Vec<u64>))
    ensures
        r.1@.no_duplicates(),
        final(state).readers() == old(state).readers(),
        final(state).total_threads() == old(state).total_threads(),
        valid_gp(final(state).gp()),
        final(state).readers().dom().finite(),
        final(state).gp() == if phase is FirstFlip || phase is SecondFlip {
            old(state).gp() ^ RCU_GP_CTR_PHASE
        } else {
            old(state).gp()
        },
        phase is Done ==> r.0 is Done && r.1@.len() == 0,
        !(phase is Done) ==> forall|t: u64|
            r.1@.contains(t) <==> final(state).readers().contains_key(t) && gp_ongoing(
                final(state).readers()[t].ctr,
                final(state).gp(),
            ),
        phase is FirstFlip ==> r.0 is FirstWait,
        phase is SecondFlip ==> r.0 is SecondWait,
        phase is FirstWait ==> r.0 == if r.1@.len() == 0 {
            SyncPhase::SecondFlip
        } else {
            SyncPhase::FirstWait
        },
        phase is SecondWait ==> r.0 == if r.1@.len() == 0 {
            SyncPhase::Done
        } else {
            SyncPhase::SecondWait
        },
{
    match phase {
        SyncPhase::FirstFlip => (SyncPhase::FirstWait, update_counter_and_wait(state)),
        SyncPhase::SecondFlip => (SyncPhase::SecondWait, update_counter_and_wait(state)),
        SyncPhase::FirstWait | SyncPhase::SecondWait => {
            proof {
                use_type_invariant(&*state);
            }
            let waiting = readers_holding_grace_period(state);
            if waiting.len() == 0 {
                barrier();
                match phase {
                    SyncPhase::FirstWait => (SyncPhase::SecondFlip, waiting),
                    _ => (SyncPhase::Done, waiting),
                }
            } else {
                (phase, waiting)
            }
        },
        SyncPhase::Done => {
            proof {
                use_type_invariant(&*state);
            }
            (SyncPhase::Done, Vec::new())
        },
    }
}

/// Registers thread `tid` with a fresh reader record, replacing any it had.
pub fn rcu_register_thread(state: &mut RcuMbState, tid: u64)
    ensures
        final(state).gp() == old(state).gp(),
        valid_gp(final(state).gp()),
        final(state).readers().dom().finite(),
        final(state).total_threads() == old(state).total_threads(),
        final(state).readers() == old(state).readers().insert(tid, RcuReader::fresh(tid)),
{
    state.put_reader(tid, RcuReader::new(tid));
}

/// Removes the reader record of thread `tid`, if it has one.
pub fn rcu_unregister_thread(state: &mut RcuMbState, tid: u64)
    ensures
        final(state).gp() == old(state).gp(),
        valid_gp(final(state).gp()),
        final(state).readers().dom().finite(),
        final(state).total_threads() == old(state).total_threads(),
        final(state).readers() == old(state).readers().remove(tid),
{
    proof {
        use_type_invariant(&*state);
    }
    let mut flags: HashMap<u64, RcuReader> = HashMap::new();
    std::mem::swap(&mut flags, &mut state.sync.reader_flags);
    flags.remove(&tid);
    state.sync.reader_flags = flags;
}

/// Flipping the phase keeps the grace-period counter valid, and two flips
/// bring it back.
pub proof fn lemma_flip_keeps_gp_valid(gp: usize)
    requires
        valid_gp(gp),
    ensures
        valid_gp(gp ^ RCU_GP_CTR_PHASE),
        (gp ^ RCU_GP_CTR_PHASE) ^ RCU_GP_CTR_PHASE == gp,
{
    assert((gp == 1usize || gp == 0x1001usize) ==> ((gp ^ 0x1000usize) == 1usize || (gp ^ 0x1000usize)
        == 0x1001usize) && (gp ^ 0x1000usize) ^ 0x1000usize == gp) by (bit_vector);
}

/// A reader outside any read-side section never holds up a grace period.
pub proof fn lemma_idle_reader_not_waited_for(ctr: usize, gp: usize)
    requires
        nest(ctr) == 0,
    ensures
        !gp_ongoing(ctr, gp),
{
}

/// A read-side section entered before the phase flip holds up the grace
/// period that the flip starts; one entered after it does not.
pub proof fn lemma_grace_period_waits_for_earlier_readers(ctr: usize, gp: usize)
    requires
        valid_gp(gp),
        nest(ctr) == 0,
    ensures
        gp_ongoing(locked_ctr(ctr, gp), gp ^ RCU_GP_CTR_PHASE),
        !gp_ongoing(locked_ctr(ctr, gp), gp),
{
    assert((gp == 1usize || gp == 0x1001usize) ==> (gp & 0x0fffusize) != 0 && ((gp ^ (gp
        ^ 0x1000usize)) & 0x1000usize) != 0 && ((gp ^ gp) & 0x1000usize) == 0) by (bit_vector);
}

/// Entering a nested read-side section keeps the phase and counts one level
/// deeper, so whether a grace period waits for the reader does not change.
pub proof fn lemma_nested_lock_keeps_phase(ctr: usize, gp: usize, other: usize)
    requires
        0 < nest(ctr) < RCU_NEST_MASK,
    ensures
        phase(locked_ctr(ctr, gp)) == phase(ctr),
        nest(locked_ctr(ctr, gp)) == nest(ctr) + 1,
        gp_ongoing(locked_ctr(ctr, gp), other) == gp_ongoing(ctr, other),
{
    assert(0 < (ctr & 0x0fffusize) < 0x0fffusize ==> {
        &&& ((ctr + 1) as usize & 0x1000usize) == (ctr & 0x1000usize)
        &&& ((ctr + 1) as usize & 0x0fffusize) == (ctr & 0x0fffusize) + 1
        &&& (((ctr + 1) as usize ^ other) & 0x1000usize) == ((ctr ^ other) & 0x1000usize)
    }) by (bit_vector);
}

/// The outermost entry into a read-side section takes the grace-period
/// counter exactly, whatever the reader's counter held; a nested entry adds
/// one to the counter.
pub proof fn lemma_outermost_lock_snapshots_counter(ctr: usize, gp: usize)
    requires
        nest(ctr) != 0 ==> ctr < usize::MAX,
    ensures
        nest(ctr) == 0 ==> locked_ctr(ctr, gp) == gp,
        nest(ctr) != 0 ==> locked_ctr(ctr, gp) == ctr + 1,
{
}

/// Leaving a section undoes entering it: a nested entry comes back to the
/// counter it started from, and the outermost one leaves the reader outside
/// any section. The counter of every `RcuMbState` is valid (its type
/// invariant, which `gp_ctrl` and every operation's `ensures` state), so
/// this holds for every `rcu_reader_lock` followed by `rcu_reader_unlock`.
pub proof fn lemma_unlock_undoes_lock(ctr: usize, gp: usize)
    requires
        valid_gp(gp),
        nest(ctr) != 0 ==> ctr < usize::MAX,
    ensures
        locked_ctr(ctr, gp) >= RCU_NEST_COUNT,
        nest(ctr) != 0 ==> (locked_ctr(ctr, gp) - RCU_NEST_COUNT) as usize == ctr,
        nest(ctr) == 0 ==> nest((locked_ctr(ctr, gp) - RCU_NEST_COUNT) as usize) == 0,
{
    assert((gp == 1usize || gp == 0x1001usize) ==> ((gp - 1) as usize & 0x0fffusize) == 0) by (bit_vector);
}

} // verus!
