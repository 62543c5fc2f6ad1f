use urcu::common::mutex::{compat_futex_noasync, futex_wait_done, FutexStat, FutexStep, FUTEX_RESULT};
use urcu::utils::mutex as plain;

#[test]
fn held_lock_value_is_returned() {
    let mut word = 5;
    let step = compat_futex_noasync(3, &mut word, FutexStat::FutexWait, 5, 9);
    assert!(step == FutexStep::Return(3));
    assert_eq!(word, 5);
}

#[test]
fn wait_on_changed_word_fails() {
    let mut word = 4;
    let step = compat_futex_noasync(0, &mut word, FutexStat::FutexWait, 5, 9);
    assert!(step == FutexStep::Return(-1));
    assert_eq!(word, 4);
}

#[test]
fn wait_sets_word_then_restores() {
    let mut word = 5;
    let step = compat_futex_noasync(0, &mut word, FutexStat::FutexWait, 5, 9);
    assert!(step == FutexStep::Wait { restore: 5 });
    assert_eq!(word, 9);
    assert_eq!(futex_wait_done(&mut word, 5), -22);
    assert_eq!(word, 5);
}

#[test]
fn wake_counts() {
    let mut word = 1;
    let step = compat_futex_noasync(0, &mut word, FutexStat::FutexWake, 3, 0);
    assert!(step == FutexStep::Wake { count: 3, ret: FUTEX_RESULT });
    assert_eq!(word, 1);
    let step = compat_futex_noasync(0, &mut word, FutexStat::FutexWake, -2, 0);
    assert!(step == FutexStep::Wake { count: 0, ret: -22 });
}

#[test]
fn plain_futex_steps() {
    let mut word = 5;
    assert!(plain::compat_futex_noasync(1, &mut word, plain::futex_stat::FUTEX_WAKE, 5, 9) == FutexStep::Return(1));
    assert!(plain::compat_futex_noasync(0, &mut word, plain::futex_stat::FUTEX_WAIT, 6, 9) == FutexStep::Return(-1));
    assert!(plain::compat_futex_noasync(0, &mut word, plain::futex_stat::FUTEX_WAIT, 5, 9) == FutexStep::Wait { restore: 5 });
    assert_eq!(word, 9);
    assert!(plain::compat_futex_noasync(0, &mut word, plain::futex_stat::FUTEX_WAKE, 2, 0) == FutexStep::Wake { count: 2, ret: -22 });
}
