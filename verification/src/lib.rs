//! Session orchestration engine for a terminal feed reader: the session
//! state machine over selection, filters and modal input; the background
//! summarization dispatcher with race-safe completion handling; the
//! bounded-concurrency feed-refresh orchestrator with its retention policy;
//! the content-resolution fallback chain; and feed auto-discovery.

mod collection;
mod discover;
mod ext;
mod keys;
mod models;
mod refresh;
mod resolve;
mod session;
mod store;
mod textutil;

pub use collection::CollectionCache;
pub use discover::articles_from_doc;
pub use discover::discover_follow;
pub use discover::discover_from_response;
pub use discover::DiscoverOutcome;
pub use discover::EntryDoc;
pub use discover::FeedDoc;
pub use discover::find_feed_link;
pub use keys::AppAction;
pub use keys::handle_key_event;
pub use keys::KeyInput;
pub use keys::KeyPress;
pub use models::Article;
pub use models::ArticleFilter;
pub use models::BookmarkRecord;
pub use models::Config;
pub use models::default_refresh_interval;
pub use models::Feed;
pub use models::NewArticle;
pub use models::NewFeed;
pub use models::Summary;
pub use models::SummaryResult;
pub use models::SummaryStatus;
pub use refresh::FeedFetchOutcome;
pub use refresh::MAX_IN_FLIGHT;
pub use refresh::RefreshPlan;
pub use resolve::extract_content;
pub use resolve::MAX_SUMMARY_INPUT;
pub use resolve::MIN_EXTRACTED_LEN;
pub use resolve::resolve_content;
pub use resolve::summarizer_input;
pub use session::BookmarkJob;
pub use session::Command;
pub use session::FeedInputStatus;
pub use session::InputMode;
pub use session::OpmlInputStatus;
pub use session::READ_TIMER_MS;
pub use session::Session;
pub use session::SummaryJob;
pub use store::RETENTION_SECONDS;
pub use store::Store;
pub use store::StoreError;
pub use textutil::chars_of;
pub use textutil::clean_summary_for_excerpt;
pub use textutil::get_first_sentence;
pub use textutil::join_blocks;
pub use textutil::parse_tags;
pub use textutil::string_of;
pub use textutil::trimmed_chars;
pub use textutil::truncate_chars;
