//! Userspace read-copy-update: intrusive circular lists, the reader and
//! grace-period counter logic of the memory-barrier and quiescent-state
//! flavours, and the futex emulation's decision logic.

pub mod common;
pub mod utils;
pub mod rcu_mb;
pub mod rcu_qsbr;
