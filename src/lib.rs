//! Persistent local state of a dynamic-DNS client: the last known public
//! addresses and the API credentials of each DNS provider, kept in a
//! canonical form after every change.

pub mod address;
pub mod cache;
mod clock;
pub mod error;
pub mod providers;

pub use cache::{Cache, CacheModel, Data, Metadata};
pub use error::Error;
pub use providers::{DNSProvider, ProviderModel};
