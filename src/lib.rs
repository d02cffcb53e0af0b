//! The repository cache of rhq: its records, its snapshot, the session that
//! holds the cache file locked, and a few string helpers.
pub mod cache;
pub mod cache_data;
pub mod laws;
pub mod opening;
pub mod order;
pub mod refresh;
pub mod repository;
pub mod text;
pub mod timestamp;

pub use cache::{Cache, CacheError, SharedCache};
pub use cache_data::CacheData;
pub use opening::{OpenAction, OpenEvent, OpenRequest, Opening};
pub use refresh::RefreshCommand;
pub use repository::{Repository, RepositoryView};
pub use text::{canonicalize_pretty, StrSkip};
pub use timestamp::Timestamp;
