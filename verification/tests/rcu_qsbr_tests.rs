use urcu::common::rcu_common::RcuSync;
use urcu::rcu_qsbr::{
    rcu_gp_ongoing, rcu_quiescent_state, rcu_register_thread, rcu_unregister_thread,
    synchronize_rcu, synchronize_rcu_done, update_counter_and_wait, GP_CTR, RCU_GP_CTR,
    RCU_GP_ONLINE,
};

fn ctr(sync: &RcuSync, tid: u64) -> usize {
    sync.reader(tid).unwrap().ctr
}

#[test]
fn quiescent_state_stores_fixed_counter() {
    let mut sync = RcuSync::new();
    rcu_register_thread(&mut sync, 4);
    assert_eq!(ctr(&sync, 4), 0);
    rcu_quiescent_state(&mut sync, 4);
    assert_eq!(ctr(&sync, 4), GP_CTR);
    assert_eq!(ctr(&sync, 4), 1);
    // after a grace period the counter stored is still 1
    let w = update_counter_and_wait(&sync, 4);
    assert!(w.is_empty());
    rcu_quiescent_state(&mut sync, 4);
    assert_eq!(ctr(&sync, 4), 1);
    rcu_unregister_thread(&mut sync, 4);
    assert!(sync.reader(4).is_none());
}

#[test]
fn qsbr_gp_ongoing_values() {
    assert!(!rcu_gp_ongoing(&0));
    assert!(!rcu_gp_ongoing(&1));
    assert!(rcu_gp_ongoing(&3));
    assert!(rcu_gp_ongoing(&(GP_CTR + RCU_GP_CTR)));
}

#[test]
fn grace_period_waits_for_counters_other_than_0_and_1() {
    let mut sync = RcuSync::new();
    rcu_register_thread(&mut sync, 1);
    rcu_register_thread(&mut sync, 2);
    rcu_register_thread(&mut sync, 3);
    rcu_quiescent_state(&mut sync, 1);
    sync.reader_flags.get_mut(&3).unwrap().ctr = 3;
    let w = update_counter_and_wait(&sync, 1);
    assert_eq!(w, vec![3]);
    // the registry is not changed by the update
    assert_eq!(ctr(&sync, 1), 1);
    assert_eq!(ctr(&sync, 2), 0);
    rcu_quiescent_state(&mut sync, 3);
    assert!(update_counter_and_wait(&sync, 1).is_empty());
}

#[test]
fn synchronize_goes_offline_and_back() {
    let mut sync = RcuSync::new();
    rcu_register_thread(&mut sync, 1);
    rcu_register_thread(&mut sync, 2);
    rcu_quiescent_state(&mut sync, 1);
    sync.reader_flags.get_mut(&2).unwrap().ctr = 3;
    let was_online = synchronize_rcu(&mut sync, 1);
    assert!(was_online);
    assert_eq!(ctr(&sync, 1), 0);
    assert_eq!(update_counter_and_wait(&sync, 1), vec![2]);
    rcu_quiescent_state(&mut sync, 2);
    assert!(update_counter_and_wait(&sync, 1).is_empty());
    synchronize_rcu_done(&mut sync, 1, was_online);
    assert_eq!(ctr(&sync, 1), RCU_GP_ONLINE);
}

#[test]
fn synchronizing_thread_never_waits_for_itself() {
    let mut sync = RcuSync::new();
    rcu_register_thread(&mut sync, 1);
    sync.reader_flags.get_mut(&1).unwrap().ctr = 3;
    let was_online = synchronize_rcu(&mut sync, 1);
    assert!(was_online);
    assert!(update_counter_and_wait(&sync, 1).is_empty());
}

#[test]
fn synchronize_from_offline_thread() {
    let mut sync = RcuSync::new();
    rcu_register_thread(&mut sync, 1);
    let was_online = synchronize_rcu(&mut sync, 1);
    assert!(!was_online);
    assert!(update_counter_and_wait(&sync, 1).is_empty());
    synchronize_rcu_done(&mut sync, 1, was_online);
    assert_eq!(ctr(&sync, 1), 0);
}

#[test]
fn registering_twice_is_registering_once() {
    let mut sync = RcuSync::new();
    rcu_register_thread(&mut sync, 1);
    rcu_quiescent_state(&mut sync, 1);
    assert_eq!(sync.reader_flags.len(), 1);
    rcu_register_thread(&mut sync, 1);
    assert_eq!(sync.reader_flags.len(), 1);
    assert_eq!(ctr(&sync, 1), 0);
    rcu_register_thread(&mut sync, 2);
    assert_eq!(sync.reader_flags.len(), 2);
}
