//! A local, ranked view of the Hacker News "top stories" feed.
//!
//! The crate holds the state of the feed and every rule that governs it: the
//! ranked list of story ids, the store of fetched items, the traversal that
//! yields the visible items in rank order, and the decisions of the refresh
//! cycle. Network transport, timers and locks live with the caller, which
//! hands the results of its requests to the functions found here.

pub mod backfill;
pub mod cache;
pub mod error;
pub mod feed;
pub mod item;
pub mod refresher;
pub mod top_list;
pub mod wire;

pub use cache::Cache;
pub use error::FetchError;
pub use feed::HackerNews;
pub use feed::HackerNewsIterator;
pub use feed::IHackerNews;
pub use item::Item;
pub use item::ItemView;
pub use refresher::Refresher;
pub use top_list::TopList;
