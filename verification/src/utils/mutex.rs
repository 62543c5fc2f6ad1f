use vstd::prelude::*;
use crate::common::mutex::{FutexStat, FutexStep, FUTEX_RESULT, futex_step};

verus! {

/// The futex operations that the emulation knows.
#[allow(non_camel_case_types)]
#[derive(Clone, Copy, PartialEq, Eq, Structural)]
pub enum futex_stat {
    FUTEX_WAIT,
    FUTEX_WAKE,
}

/// The same operation, by its other name.
pub open spec fn stat_of(op: futex_stat) -> FutexStat {
    match op {
        futex_stat::FUTEX_WAIT => FutexStat::FutexWait,
        futex_stat::FUTEX_WAKE => FutexStat::FutexWake,
    }
}

/// Decides a futex call and makes its first change to the futex word
/// `uaddr`: on a wait that goes through, the word takes `val3`.
pub fn compat_futex_noasync(
    lock_value: i32,
    uaddr: &mut i32,
    futex_op: futex_stat,
    val: i32,
    val3: i32,
) -> (step: FutexStep)
    ensures
        step == futex_step(lock_value, *old(uaddr), stat_of(futex_op), val),
        *final(uaddr) == if step is Wait {
            val3
        } else {
            *old(uaddr)
        },
        lock_value != 0 ==> step == FutexStep::Return(lock_value),
        lock_value == 0 && (futex_op is FUTEX_WAKE) ==> (step is Wake) && step->ret == -22,
        lock_value == 0 && (futex_op is FUTEX_WAKE) && val > 0 ==> step->count == val,
        lock_value == 0 && (futex_op is FUTEX_WAKE) && val <= 0 ==> step->count == 0,
        lock_value == 0 && (futex_op is FUTEX_WAIT) ==> ((step is Wait) <==> *old(uaddr) == val),
        lock_value == 0 && (futex_op is FUTEX_WAIT) && *old(uaddr) != val ==> step == FutexStep::Return(-1i32),
        lock_value == 0 && (futex_op is FUTEX_WAIT) && *old(uaddr) != val ==> *final(uaddr) == *old(uaddr),
        lock_value == 0 && (futex_op is FUTEX_WAIT) && *old(uaddr) == val ==> step->restore == val,
        lock_value == 0 && (futex_op is FUTEX_WAIT) && *old(uaddr) == val ==> *final(uaddr) == val3,
{
    if lock_value != 0 {
        return FutexStep::Return(lock_value);
    }
    if futex_op == futex_stat::FUTEX_WAIT {
        let oldval = *uaddr;
        if oldval != val {
            return FutexStep::Return(-1);
        }
        *uaddr = val3;
        FutexStep::Wait { restore: oldval }
    } else {
        let count: u32 = if val > 0 {
            val as u32
        } else {
            0
        };
        FutexStep::Wake { count, ret: FUTEX_RESULT }
    }
}

} // verus!
