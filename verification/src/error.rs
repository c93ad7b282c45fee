pub mod listener;
pub mod pump;
