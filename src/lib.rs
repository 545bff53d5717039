//! Encrypted note storage: a passphrase-derived cipher session, the item
//! table it protects, and key rotation across every stored item.
pub mod cipher;
pub mod models;
pub mod order;
pub mod store;
pub mod strength;
pub mod app_core;
