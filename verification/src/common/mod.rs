pub mod utils;
pub mod ring;
pub mod list;
pub mod rcu_common;
pub mod mutex;
