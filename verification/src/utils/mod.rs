pub mod list;
pub mod mutex;
