pub mod block;
pub mod coin;
pub mod pool;
