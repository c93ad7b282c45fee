pub mod models;
pub mod store;
