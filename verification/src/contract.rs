pub mod factory;
pub mod pair;
pub mod topics;
pub mod pump;
