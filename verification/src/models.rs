//! Data model of the reader: feeds, articles, summaries, bookmark records,
//! and the small enums that drive the session state machine.
//!
//! Timestamps are plain integers: seconds since the Unix epoch. The store
//! and the session never inspect a calendar; they only compare ages.

use vstd::prelude::*;

verus! {

/// One subscribed source, identified by its URL (unique in the store).
#[derive(Debug)]
pub struct Feed {
    pub id: i64,
    pub title: String,
    pub url: String,
    pub site_url: Option<String>,
    pub description: Option<String>,
    /// Advanced only when a refresh of this feed succeeds.
    pub last_fetched: Option<i64>,
    pub created_at: i64,
    pub updated_at: i64,
}

/// A feed as discovery or import produces it, before the store assigns an id.
#[derive(Debug)]
pub struct NewFeed {
    pub title: String,
    pub url: String,
    pub site_url: Option<String>,
    pub description: Option<String>,
}

/// One syndicated item. `(feed_id, guid)` is unique in the store.
#[derive(Debug)]
pub struct Article {
    pub id: i64,
    pub feed_id: i64,
    pub guid: String,
    pub title: String,
    pub url: String,
    pub author: Option<String>,
    pub content: Option<String>,
    pub content_text: Option<String>,
    pub published_at: Option<i64>,
    pub fetched_at: i64,
    pub is_read: bool,
    pub is_starred: bool,
}

/// An article as a feed fetch produces it, before upsert into the store.
#[derive(Debug)]
pub struct NewArticle {
    pub feed_id: i64,
    pub guid: String,
    pub title: String,
    pub url: String,
    pub author: Option<String>,
    pub content: Option<String>,
    pub content_text: Option<String>,
    pub published_at: Option<i64>,
}

/// Cached AI condensation of one article; at most one per article id.
#[derive(Debug)]
pub struct Summary {
    pub id: i64,
    pub article_id: i64,
    pub content: String,
    pub model_version: String,
    pub generated_at: i64,
}

/// Tracking record: this article was forwarded to the bookmark service.
/// Its existence is the sole signal for the "already bookmarked" state.
/// `tags` holds the tag list in its stored text form.
#[derive(Debug)]
pub struct BookmarkRecord {
    pub article_id: i64,
    pub external_id: i64,
    pub tags: String,
    pub saved_at: i64,
}

impl Clone for BookmarkRecord {
    fn clone(&self) -> (r: BookmarkRecord)
        ensures
            r == *self,
    {
        BookmarkRecord {
            article_id: self.article_id,
            external_id: self.external_id,
            tags: self.tags.clone(),
            saved_at: self.saved_at,
        }
    }
}

/// Copies an optional string, keeping the value exactly.
fn clone_opt_string(o: &Option<String>) -> (r: Option<String>)
    ensures
        r == *o,
{
    match o {
        Some(s) => Some(s.clone()),
        None => None,
    }
}

impl Clone for Feed {
    fn clone(&self) -> (r: Feed)
        ensures
            r == *self,
    {
        Feed {
            id: self.id,
            title: self.title.clone(),
            url: self.url.clone(),
            site_url: clone_opt_string(&self.site_url),
            description: clone_opt_string(&self.description),
            last_fetched: self.last_fetched,
            created_at: self.created_at,
            updated_at: self.updated_at,
        }
    }
}

impl Clone for NewFeed {
    fn clone(&self) -> (r: NewFeed)
        ensures
            r == *self,
    {
        NewFeed {
            title: self.title.clone(),
            url: self.url.clone(),
            site_url: clone_opt_string(&self.site_url),
            description: clone_opt_string(&self.description),
        }
    }
}

impl Clone for Article {
    fn clone(&self) -> (r: Article)
        ensures
            r == *self,
    {
        Article {
            id: self.id,
            feed_id: self.feed_id,
            guid: self.guid.clone(),
            title: self.title.clone(),
            url: self.url.clone(),
            author: clone_opt_string(&self.author),
            content: clone_opt_string(&self.content),
            content_text: clone_opt_string(&self.content_text),
            published_at: self.published_at,
            fetched_at: self.fetched_at,
            is_read: self.is_read,
            is_starred: self.is_starred,
        }
    }
}

impl Clone for NewArticle {
    fn clone(&self) -> (r: NewArticle)
        ensures
            r == *self,
    {
        NewArticle {
            feed_id: self.feed_id,
            guid: self.guid.clone(),
            title: self.title.clone(),
            url: self.url.clone(),
            author: clone_opt_string(&self.author),
            content: clone_opt_string(&self.content),
            content_text: clone_opt_string(&self.content_text),
            published_at: self.published_at,
        }
    }
}

impl Clone for Summary {
    fn clone(&self) -> (r: Summary)
        ensures
            r == *self,
    {
        Summary {
            id: self.id,
            article_id: self.article_id,
            content: self.content.clone(),
            model_version: self.model_version.clone(),
            generated_at: self.generated_at,
        }
    }
}

/// Filter over the article list; cycling it resets the selection cursor.
#[derive(Clone, Copy, Debug, PartialEq, Eq, Structural)]
pub enum ArticleFilter {
    Unread,
    Starred,
    All,
}

impl ArticleFilter {
    /// The next filter in the cycle Unread -> Starred -> All -> Unread.
    pub fn cycle(self) -> (r: ArticleFilter)
        ensures
            r == self.spec_cycle(),
    {
        match self {
            ArticleFilter::Unread => ArticleFilter::Starred,
            ArticleFilter::Starred => ArticleFilter::All,
            ArticleFilter::All => ArticleFilter::Unread,
        }
    }

    pub open spec fn spec_cycle(self) -> ArticleFilter {
        match self {
            ArticleFilter::Unread => ArticleFilter::Starred,
            ArticleFilter::Starred => ArticleFilter::All,
            ArticleFilter::All => ArticleFilter::Unread,
        }
    }

    /// Whether an article passes this filter.
    pub open spec fn spec_passes(self, a: Article) -> bool {
        match self {
            ArticleFilter::All => true,
            ArticleFilter::Unread => !a.is_read,
            ArticleFilter::Starred => a.is_starred,
        }
    }

    pub fn passes(self, a: &Article) -> (r: bool)
        ensures
            r == self.spec_passes(*a),
    {
        match self {
            ArticleFilter::All => true,
            ArticleFilter::Unread => !a.is_read,
            ArticleFilter::Starred => a.is_starred,
        }
    }
}

/// Lifecycle of the summary pane for the selected article.
#[derive(Clone, Copy, Debug, PartialEq, Eq, Structural)]
pub enum SummaryStatus {
    NotGenerated,
    Generating,
    Generated,
    Failed,
    /// No summarization backend is configured; the feature is disabled.
    NoApiKey,
}

/// Outcome of one background summarization job, tagged with the article it
/// was started for. The completion channel carries exactly these.
pub struct SummaryResult {
    pub article_id: i64,
    /// On success: generated text and the model identifier that produced it.
    /// On failure: the failure reason.
    pub result: Result<(String, String), String>,
}

/// Recognized configuration options. Absence of a key disables the
/// corresponding feature; it is never an error.
#[derive(Clone, Debug)]
pub struct Config {
    pub db_path: String,
    pub claude_api_key: Option<String>,
    pub raindrop_token: Option<String>,
    pub refresh_interval_minutes: u32,
    pub default_tags: Vec<String>,
}

/// The refresh interval a configuration document gets when it names none.
pub fn default_refresh_interval() -> (r: u32)
    ensures
        r == 30u32,
{
    30
}

impl Default for Config {
    /// A fresh configuration: no API keys, the default refresh interval,
    /// a store file in the working directory, and one default tag.
    fn default() -> (r: Config)
        ensures
            r.db_path@ =~= "feeds.db"@,
            r.claude_api_key is None,
            r.raindrop_token is None,
            r.refresh_interval_minutes == 30u32,
            r.default_tags@.len() == 1,
            r.default_tags@[0]@ =~= "rss"@,
    {
        let mut tags: Vec<String> = Vec::new();
        tags.push(String::from_str("rss"));
        Config {
            db_path: String::from_str("feeds.db"),
            claude_api_key: None,
            raindrop_token: None,
            refresh_interval_minutes: default_refresh_interval(),
            default_tags: tags,
        }
    }
}

} // verus!
