//! Dispatch and key-identity layer of a host security service: the provider
//! capability interface, the key-identifier manager and the core provider
//! that routes each key operation to the backend it addresses.

mod interface;

pub mod provide;

pub mod core_provider;
pub mod handle_provider;
pub mod key_id_manager;
pub mod providers;
pub mod session_pool;
