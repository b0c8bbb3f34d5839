//! A URL shortener: a string key-value store, the services built on it, and
//! the request logic that turns long URLs into short ones and back.

mod store;
pub mod kvstore;
pub mod inmem_kvstore;
pub mod kvservice;
pub mod uniqueid;
pub mod hashids;
pub mod urlshortener;

pub use store::StringMap;
pub use kvstore::KVStore;
pub use inmem_kvstore::InMemKVStore;
pub use kvservice::{GetByKey, KVService, Put};
pub use uniqueid::UniqueIdGen;
pub use hashids::IdEncoder;
pub use urlshortener::{Method, Reply, Request, Status, UrlShortener};
