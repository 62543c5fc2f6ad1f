use urcu::rcu_mb::{
    rcu_gp_ongoing, rcu_reader_lock, rcu_reader_unlock, rcu_register_thread, rcu_unregister_thread,
    readers_holding_grace_period, synchronize_rcu, update_counter_and_wait, RcuMbState,
    SyncPhase, RCU_GP_CTR_PHASE, RCU_NEST_COUNT,
};

fn ctr(state: &RcuMbState, tid: u64) -> usize {
    state.reader(tid).unwrap().ctr
}

#[test]
fn new_state_has_no_readers() {
    let state = RcuMbState::new();
    assert_eq!(state.gp_ctrl(), RCU_NEST_COUNT);
    assert!(state.reader(0).is_none());
}

#[test]
fn register_gives_fresh_record() {
    let mut state = RcuMbState::new();
    rcu_register_thread(&mut state, 7);
    let r = state.reader(7).unwrap();
    assert_eq!(r.ctr, 0);
    assert_eq!(r.tid, 7);
    assert_eq!(r.id, usize::MAX);
    assert!(!r.registered);
}

#[test]
fn unregister_undoes_register() {
    let mut state = RcuMbState::new();
    rcu_register_thread(&mut state, 1);
    rcu_register_thread(&mut state, 2);
    rcu_unregister_thread(&mut state, 2);
    assert!(state.reader(2).is_none());
    assert!(state.reader(1).is_some());
    rcu_unregister_thread(&mut state, 9);
    assert!(state.reader(1).is_some());
}

#[test]
fn outermost_lock_snapshots_counter() {
    let mut state = RcuMbState::new();
    rcu_register_thread(&mut state, 1);
    rcu_reader_lock(&mut state, 1);
    assert_eq!(ctr(&state, 1), 0x1);
    rcu_reader_lock(&mut state, 1);
    assert_eq!(ctr(&state, 1), 0x2);
    rcu_reader_unlock(&mut state, 1);
    assert_eq!(ctr(&state, 1), 0x1);
    rcu_reader_unlock(&mut state, 1);
    assert_eq!(ctr(&state, 1), 0x0);
}

#[test]
fn gp_ongoing_values() {
    assert!(!rcu_gp_ongoing(&0, 0x1));
    assert!(!rcu_gp_ongoing(&0x1000, 0x1));
    assert!(!rcu_gp_ongoing(&0x1, 0x1));
    assert!(!rcu_gp_ongoing(&0x5, 0x1));
    assert!(rcu_gp_ongoing(&0x1, 0x1001));
    assert!(rcu_gp_ongoing(&0x1003, 0x1));
    assert!(!rcu_gp_ongoing(&0x1003, 0x1001));
}

#[test]
fn flip_changes_phase() {
    let mut state = RcuMbState::new();
    let waiting = update_counter_and_wait(&mut state);
    assert!(waiting.is_empty());
    assert_eq!(state.gp_ctrl(), RCU_NEST_COUNT | RCU_GP_CTR_PHASE);
    let waiting = update_counter_and_wait(&mut state);
    assert!(waiting.is_empty());
    assert_eq!(state.gp_ctrl(), RCU_NEST_COUNT);
}

#[test]
fn grace_period_waits_for_earlier_readers_only() {
    let mut state = RcuMbState::new();
    rcu_register_thread(&mut state, 1);
    rcu_register_thread(&mut state, 2);
    rcu_register_thread(&mut state, 3);
    rcu_reader_lock(&mut state, 1);
    rcu_reader_lock(&mut state, 1);
    let mut waiting = update_counter_and_wait(&mut state);
    waiting.sort();
    assert_eq!(waiting, vec![1]);
    // a section begun after the flip does not hold the grace period up
    rcu_reader_lock(&mut state, 2);
    assert_eq!(ctr(&state, 2), 0x1001);
    assert_eq!(readers_holding_grace_period(&state), vec![1]);
    rcu_reader_unlock(&mut state, 1);
    assert_eq!(readers_holding_grace_period(&state), vec![1]);
    rcu_reader_unlock(&mut state, 1);
    assert!(readers_holding_grace_period(&state).is_empty());
    // the next grace period waits for thread 2
    let waiting = update_counter_and_wait(&mut state);
    assert_eq!(waiting, vec![2]);
}

#[test]
fn synchronize_steps_through_two_flips() {
    let mut state = RcuMbState::new();
    rcu_register_thread(&mut state, 1);
    rcu_register_thread(&mut state, 2);
    rcu_reader_lock(&mut state, 1);
    let (p, w) = synchronize_rcu(&mut state, SyncPhase::FirstFlip);
    assert!(p == SyncPhase::FirstWait);
    assert_eq!(w, vec![1]);
    assert_eq!(state.gp_ctrl(), 0x1001);
    let (p, w) = synchronize_rcu(&mut state, SyncPhase::FirstWait);
    assert!(p == SyncPhase::FirstWait);
    assert_eq!(w, vec![1]);
    rcu_reader_unlock(&mut state, 1);
    let (p, w) = synchronize_rcu(&mut state, SyncPhase::FirstWait);
    assert!(p == SyncPhase::SecondFlip);
    assert!(w.is_empty());
    // a reader that entered after the first flip holds up the second
    rcu_reader_lock(&mut state, 2);
    let (p, w) = synchronize_rcu(&mut state, SyncPhase::SecondFlip);
    assert!(p == SyncPhase::SecondWait);
    assert_eq!(w, vec![2]);
    assert_eq!(state.gp_ctrl(), 0x1);
    rcu_reader_unlock(&mut state, 2);
    let (p, w) = synchronize_rcu(&mut state, SyncPhase::SecondWait);
    assert!(p == SyncPhase::Done);
    assert!(w.is_empty());
    let (p, w) = synchronize_rcu(&mut state, SyncPhase::Done);
    assert!(p == SyncPhase::Done);
    assert!(w.is_empty());
    assert_eq!(state.gp_ctrl(), 0x1);
}

#[test]
fn registering_again_resets_the_counter() {
    let mut state = RcuMbState::new();
    rcu_register_thread(&mut state, 1);
    rcu_reader_lock(&mut state, 1);
    assert_eq!(ctr(&state, 1), 1);
    rcu_register_thread(&mut state, 1);
    assert_eq!(ctr(&state, 1), 0);
}
