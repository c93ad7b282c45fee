pub mod abi;
pub mod address;
pub mod address_map;
pub mod bigint;
pub mod client;
pub mod contract;
pub mod db;
pub mod decimal;
pub mod error;
pub mod listener;
pub mod uint;
