pub mod accumulator;
pub mod driver;
pub mod handler;
pub mod log;
pub mod pending;
pub mod registry;
