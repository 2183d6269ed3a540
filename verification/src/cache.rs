//! A bounded cache with least-recently-used eviction and per-entry
//! time-to-live.

pub mod entry;
pub mod key;
pub mod laws;
pub mod lru;
pub mod manager;
pub mod model;

pub use entry::CacheEntry;
pub use entry::EntryView;
pub use key::CacheKey;
pub use model::CacheView;
pub use model::SlotView;
pub use lru::LruCache;
pub use manager::CacheManager;
pub use manager::ManagerView;
