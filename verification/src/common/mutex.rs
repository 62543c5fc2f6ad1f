use vstd::prelude::*;

verus! {

/// The futex operations that the emulation knows.
#[derive(Clone, Copy, PartialEq, Eq, Structural)]
pub enum FutexStat {
    FutexWait,
    FutexWake,
}

/// What the futex emulation does next.
#[derive(Clone, Copy, PartialEq, Eq, Structural)]
pub enum FutexStep {
    /// The call is over with this result.
    Return(i32),
    /// Block on the condition variable; on waking, put `restore` back into
    /// the futex word with `futex_wait_done`.
    Wait { restore: i32 },
    /// Wake `count` waiters; the call's result is then `ret`.
    Wake { count: u32, ret: i32 },
}

/// The result of a futex call that went through.
pub const FUTEX_RESULT: i32 = -22;

/// The step of a futex call. `lock_value` is the value guarded by the
/// emulation's lock; a non-zero value is returned as it is. A wait on a
/// word that no longer holds `val` fails with -1; otherwise the word takes
/// `val3` while the caller blocks. A wake wakes `val` waiters (none when
/// `val` is not positive).
pub open spec fn futex_step(lock_value: i32, word: i32, futex_op: FutexStat, val: i32) -> FutexStep {
    if lock_value != 0 {
        FutexStep::Return(lock_value)
    } else {
        match futex_op {
            FutexStat::FutexWait => if word != val {
                FutexStep::Return(-1i32)
            } else {
                FutexStep::Wait { restore: word }
            },
            FutexStat::FutexWake => FutexStep::Wake {
                count: if val > 0 { val as u32 } else { 0 },
                ret: FUTEX_RESULT,
            },
        }
    }
}

/// Decides a futex call and makes its first change to the futex word
/// `uaddr`: on a wait that goes through, the word takes `val3`.
pub fn compat_futex_noasync(
    lock_value: i32,
    uaddr: &mut i32,
    futex_op: FutexStat,
    val: i32,
    val3: i32,
) -> (step: FutexStep)
    ensures
        step == futex_step(lock_value, *old(uaddr), futex_op, val),
        *final(uaddr) == if step is Wait {
            val3
        } else {
            *old(uaddr)
        },
        lock_value != 0 ==> step == FutexStep::Return(lock_value),
        lock_value == 0 && (futex_op is FutexWake) ==> (step is Wake) && step->ret == -22,
        lock_value == 0 && (futex_op is FutexWake) && val > 0 ==> step->count == val,
        lock_value == 0 && (futex_op is FutexWake) && val <= 0 ==> step->count == 0,
        lock_value == 0 && (futex_op is FutexWait) ==> ((step is Wait) <==> *old(uaddr) == val),
        lock_value == 0 && (futex_op is FutexWait) && *old(uaddr) != val ==> step == FutexStep::Return(-1i32),
        lock_value == 0 && (futex_op is FutexWait) && *old(uaddr) != val ==> *final(uaddr) == *old(uaddr),
        lock_value == 0 && (futex_op is FutexWait) && *old(uaddr) == val ==> step->restore == val,
        lock_value == 0 && (futex_op is FutexWait) && *old(uaddr) == val ==> *final(uaddr) == val3,
{
    if lock_value != 0 {
        return FutexStep::Return(lock_value);
    }
    match futex_op {
        FutexStat::FutexWait => {
            let oldval = *uaddr;
            if oldval != val {
                return FutexStep::Return(-1);
            }
            *uaddr = val3;
            FutexStep::Wait { restore: oldval }
        },
        FutexStat::FutexWake => {
            let count: u32 = if val > 0 {
                val as u32
            } else {
                0
            };
            FutexStep::Wake { count, ret: FUTEX_RESULT }
        },
    }
}

/// Ends a wait: the futex word gets back the value it held before, and the
/// call's result is returned.
pub fn futex_wait_done(uaddr: &mut i32, restore: i32) -> (ret: i32)
    ensures
        *final(uaddr) == restore,
        ret == FUTEX_RESULT,
{
    *uaddr = restore;
    FUTEX_RESULT
}

/// While the emulation's lock value is non-zero, every call returns it.
pub proof fn lemma_futex_lock_value_returned(lock_value: i32, word: i32, futex_op: FutexStat, val: i32)
    requires
        lock_value != 0,
    ensures
        futex_step(lock_value, word, futex_op, val) == FutexStep::Return(lock_value),
{
}

/// A wake wakes exactly `val` waiters when `val` is positive, none
/// otherwise, and the call's result is -22.
pub proof fn lemma_futex_wake_wakes_val_waiters(word: i32, val: i32)
    ensures
        (futex_step(0, word, FutexStat::FutexWake, val) is Wake),
        futex_step(0, word, FutexStat::FutexWake, val)->ret == -22,
        val > 0 ==> futex_step(0, word, FutexStat::FutexWake, val)->count == val,
        val <= 0 ==> futex_step(0, word, FutexStat::FutexWake, val)->count == 0,
{
}

/// A wait blocks exactly when the futex word still holds the expected value
/// `val`; otherwise it fails at once with -1. A blocked wait gives the word
/// back its value afterwards.
pub proof fn lemma_futex_wait_blocks_iff_word_is_val(word: i32, val: i32)
    ensures
        (futex_step(0, word, FutexStat::FutexWait, val) is Wait) <==> word == val,
        word != val ==> futex_step(0, word, FutexStat::FutexWait, val) == FutexStep::Return(-1i32),
        word == val ==> futex_step(0, word, FutexStat::FutexWait, val)->restore == val,
{
}

} // verus!
