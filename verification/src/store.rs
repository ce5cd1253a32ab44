//! In-memory model of the persistent store, with the natural-key guarantees
//! the rest of the engine relies on: feed URLs are unique, articles are
//! unique by `(feed_id, guid)`, and summaries and bookmark records are
//! unique by article id.
//!
//! Mutation happens through discrete request/response calls, mirroring the
//! store collaborator's interface: insert, upsert-by-natural-key, targeted
//! updates, deletes, and the retention sweep.

use vstd::prelude::*;

use crate::models::{Article, BookmarkRecord, Feed, NewArticle, NewFeed, Summary};

verus! {

/// Why a store call was refused.
#[derive(Clone, Copy, Debug, PartialEq, Eq, Structural)]
pub enum StoreError {
    /// A feed with the same URL already exists.
    DuplicateFeedUrl,
    /// The id space is exhausted; no further row can be created.
    Full,
}

/// The number of seconds in the retention window: articles older than this
/// are removed by the sweep.
pub const RETENTION_SECONDS: i64 = 604800;

/// The moment an article counts from for retention: its publication time
/// when the feed supplied one, otherwise the time it was fetched.
pub open spec fn article_timestamp(a: Article) -> i64 {
    match a.published_at {
        Some(p) => p,
        None => a.fetched_at,
    }
}

/// An article is stale at `now` when its age exceeds the retention window.
pub open spec fn is_stale(a: Article, now: i64) -> bool {
    article_timestamp(a) < now - RETENTION_SECONDS
}

/// The predicate "this article is fresh at `now`" — what the retention
/// sweep keeps.
pub open spec fn article_live_at(now: i64) -> spec_fn(Article) -> bool {
    |a: Article| !is_stale(a, now)
}

/// The predicate "no stale article of `pre` carries this summary's article
/// id" — which summary rows the sweep keeps.
pub open spec fn summary_live_at(pre: Store, now: i64) -> spec_fn(Summary) -> bool {
    |s: Summary| !pre.spec_has_stale_article(s.article_id, now)
}

/// The predicate "no stale article of `pre` carries this record's article
/// id" — which bookmark records the sweep keeps.
pub open spec fn bookmark_live_at(pre: Store, now: i64) -> spec_fn(BookmarkRecord) -> bool {
    |b: BookmarkRecord| !pre.spec_has_stale_article(b.article_id, now)
}

/// How the retention sweep relates the store before and after: feeds and id
/// counters stand; stale articles are gone together with their summaries
/// and bookmark records; everything fresh survives in order, whatever its
/// read or star flags; and nothing stale remains.
pub open spec fn sweep_post(pre: Store, post: Store, now: i64) -> bool {
    &&& post.feeds == pre.feeds
    &&& post.next_feed_id == pre.next_feed_id
    &&& post.next_article_id == pre.next_article_id
    &&& post.next_summary_id == pre.next_summary_id
    &&& post.articles@ =~= pre.articles@.filter(article_live_at(now))
    &&& post.summaries@ =~= pre.summaries@.filter(summary_live_at(pre, now))
    &&& post.bookmarks@ =~= pre.bookmarks@.filter(bookmark_live_at(pre, now))
    &&& forall|i: int|
        0 <= i < post.articles@.len() ==> !is_stale(#[trigger] post.articles@[i], now)
}

/// How an upsert merges fresh fields into an existing row: the natural key,
/// the row id, the original fetch time, and the read/star flags survive;
/// everything else takes the latest values.
pub open spec fn merged_article(prev: Article, a: NewArticle) -> Article {
    Article {
        id: prev.id,
        feed_id: prev.feed_id,
        guid: prev.guid,
        title: a.title,
        url: a.url,
        author: a.author,
        content: a.content,
        content_text: a.content_text,
        published_at: a.published_at,
        fetched_at: prev.fetched_at,
        is_read: prev.is_read,
        is_starred: prev.is_starred,
    }
}

/// The row a first insert of `a` creates.
pub open spec fn inserted_article(a: NewArticle, id: i64, now: i64) -> Article {
    Article {
        id: id,
        feed_id: a.feed_id,
        guid: a.guid,
        title: a.title,
        url: a.url,
        author: a.author,
        content: a.content,
        content_text: a.content_text,
        published_at: a.published_at,
        fetched_at: now,
        is_read: false,
        is_starred: false,
    }
}

/// Whether `x` carries the natural key `(feed_id, guid)`.
pub open spec fn has_article_key(x: Article, feed_id: i64, guid: Seq<char>) -> bool {
    x.feed_id == feed_id && x.guid@ == guid
}

/// How `mark_article_read` relates the store before and after: the one
/// article row with this id has its read flag set to `v`; every other row,
/// and everything else in the store, is untouched.
pub open spec fn mark_read_post(pre: Store, post: Store, id: i64, v: bool) -> bool {
    &&& post.feeds == pre.feeds
    &&& post.summaries == pre.summaries
    &&& post.bookmarks == pre.bookmarks
    &&& post.next_feed_id == pre.next_feed_id
    &&& post.next_article_id == pre.next_article_id
    &&& post.next_summary_id == pre.next_summary_id
    &&& post.articles@.len() == pre.articles@.len()
    &&& forall|i: int|
        0 <= i < pre.articles@.len() ==> post.articles@[i] == (
        if pre.articles@[i].id == id {
            Article { is_read: v, ..pre.articles@[i] }
        } else {
            pre.articles@[i]
        })
}

/// How `toggle_article_starred` relates the store before and after: the one
/// article row with this id has its star flag flipped; everything else is
/// untouched.
pub open spec fn toggle_star_post(pre: Store, post: Store, id: i64) -> bool {
    &&& post.feeds == pre.feeds
    &&& post.summaries == pre.summaries
    &&& post.bookmarks == pre.bookmarks
    &&& post.next_feed_id == pre.next_feed_id
    &&& post.next_article_id == pre.next_article_id
    &&& post.next_summary_id == pre.next_summary_id
    &&& post.articles@.len() == pre.articles@.len()
    &&& forall|i: int|
        0 <= i < pre.articles@.len() ==> post.articles@[i] == (
        if pre.articles@[i].id == id {
            Article { is_starred: !pre.articles@[i].is_starred, ..pre.articles@[i] }
        } else {
            pre.articles@[i]
        })
}

/// How `delete_article` relates the store before and after: the article with
/// this id is gone together with its summary and bookmark record; every
/// other row survives in order.
pub open spec fn delete_article_post(pre: Store, post: Store, id: i64) -> bool {
    &&& post.feeds == pre.feeds
    &&& post.articles@ =~= pre.articles@.filter(|a: Article| a.id != id)
    &&& post.summaries@ =~= pre.summaries@.filter(|s: Summary| s.article_id != id)
    &&& post.bookmarks@ =~= pre.bookmarks@.filter(|b: BookmarkRecord| b.article_id != id)
}

/// How `upsert_article` relates the store before and after: a row with the
/// same `(feed_id, guid)` is merged in place and its id returned; otherwise
/// a fresh row is created. Success is owed whenever the key already exists
/// or the id space has room; a refused upsert changes nothing.
pub open spec fn upsert_post(
    pre: Store,
    post: Store,
    a: NewArticle,
    now: i64,
    r: Result<i64, StoreError>,
) -> bool {
    &&& post.feeds == pre.feeds
    &&& post.summaries == pre.summaries
    &&& post.bookmarks == pre.bookmarks
    &&& post.next_feed_id == pre.next_feed_id
    &&& post.next_summary_id == pre.next_summary_id
    &&& pre.spec_has_article_key(a.feed_id, a.guid@) || pre.spec_article_id_headroom() ==> r
        is Ok
    &&& pre.next_article_id <= post.next_article_id
    &&& r is Err ==> post == pre
    &&& r is Ok && pre.spec_has_article_key(a.feed_id, a.guid@) ==> {
        &&& post.articles@.len() == pre.articles@.len()
        &&& forall|j: int|
            0 <= j < pre.articles@.len() ==> post.articles@[j] == (
            if has_article_key(pre.articles@[j], a.feed_id, a.guid@) {
                merged_article(pre.articles@[j], a)
            } else {
                pre.articles@[j]
            })
        &&& forall|j: int|
            0 <= j < pre.articles@.len() && has_article_key(pre.articles@[j], a.feed_id, a.guid@)
                ==> r == Ok::<i64, StoreError>(pre.articles@[j].id)
    }
    &&& r is Ok && !pre.spec_has_article_key(a.feed_id, a.guid@) ==> {
        &&& post.articles@ =~= pre.articles@.push(inserted_article(a, pre.next_article_id, now))
        &&& r == Ok::<i64, StoreError>(pre.next_article_id)
    }
}

/// How `save_summary` relates the store before and after on success: the
/// summary for `article_id` now carries exactly this content, model and
/// generation time, an existing row was overwritten in place, and nothing
/// else moved.
pub open spec fn save_summary_post(
    pre: Store,
    post: Store,
    article_id: i64,
    content: String,
    model: String,
    now: i64,
) -> bool {
    &&& post.feeds == pre.feeds
    &&& post.articles == pre.articles
    &&& post.bookmarks == pre.bookmarks
    &&& pre.spec_has_summary_for(article_id) ==> {
        &&& post.summaries@.len() == pre.summaries@.len()
        &&& forall|j: int|
            0 <= j < pre.summaries@.len() ==> post.summaries@[j] == (
            if pre.summaries@[j].article_id == article_id {
                Summary {
                    content: content,
                    model_version: model,
                    generated_at: now,
                    ..pre.summaries@[j]
                }
            } else {
                pre.summaries@[j]
            })
    }
    &&& !pre.spec_has_summary_for(article_id) ==> post.summaries@ =~= pre.summaries@.push(
        Summary {
            id: pre.next_summary_id,
            article_id: article_id,
            content: content,
            model_version: model,
            generated_at: now,
        },
    )
}

pub struct Store {
    pub feeds: Vec<Feed>,
    pub articles: Vec<Article>,
    pub summaries: Vec<Summary>,
    pub bookmarks: Vec<BookmarkRecord>,
    pub next_feed_id: i64,
    pub next_article_id: i64,
    pub next_summary_id: i64,
}

impl Store {
    /// The store's invariant: every natural key names at most one row, and
    /// fresh ids stay above every id already handed out.
    pub open spec fn wf(self) -> bool {
        &&& forall|i: int, j: int|
            0 <= i < j < self.feeds@.len() ==> self.feeds@[i].id != self.feeds@[j].id
                && self.feeds@[i].url@ != self.feeds@[j].url@
        &&& forall|i: int, j: int|
            0 <= i < j < self.articles@.len() ==> self.articles@[i].id != self.articles@[j].id
                && !(self.articles@[i].feed_id == self.articles@[j].feed_id
                    && self.articles@[i].guid@ == self.articles@[j].guid@)
        &&& forall|i: int, j: int|
            0 <= i < j < self.summaries@.len() ==> self.summaries@[i].article_id
                != self.summaries@[j].article_id
        &&& forall|i: int, j: int|
            0 <= i < j < self.bookmarks@.len() ==> self.bookmarks@[i].article_id
                != self.bookmarks@[j].article_id
        &&& forall|i: int| 0 <= i < self.feeds@.len() ==> self.feeds@[i].id < self.next_feed_id
        &&& forall|i: int|
            0 <= i < self.articles@.len() ==> self.articles@[i].id < self.next_article_id
        &&& forall|i: int|
            0 <= i < self.summaries@.len() ==> self.summaries@[i].id < self.next_summary_id
    }

    /// An empty store.
    pub fn new() -> (r: Store)
        ensures
            r.wf(),
            r.feeds@.len() == 0,
            r.articles@.len() == 0,
            r.summaries@.len() == 0,
            r.bookmarks@.len() == 0,
    {
        Store {
            feeds: Vec::new(),
            articles: Vec::new(),
            summaries: Vec::new(),
            bookmarks: Vec::new(),
            next_feed_id: 0,
            next_article_id: 0,
            next_summary_id: 0,
        }
    }

    /// Whether some feed already has this URL.
    pub open spec fn spec_has_feed_url(self, url: Seq<char>) -> bool {
        exists|i: int| 0 <= i < self.feeds@.len() && self.feeds@[i].url@ == url
    }

    fn has_feed_url(&self, url: &String) -> (r: bool)
        ensures
            r == self.spec_has_feed_url(url@),
    {
        let mut k: usize = 0;
        while k < self.feeds.len()
            invariant
                k <= self.feeds@.len(),
                forall|i: int| 0 <= i < k ==> self.feeds@[i].url@ != url@,
            decreases self.feeds@.len() - k,
        {
            if self.feeds[k].url == *url {
                return true;
            }
            k += 1;
        }
        false
    }

    /// Create a feed row. Duplicate-by-URL feeds are rejected; the store is
    /// then left unchanged. On success the new row carries the returned id,
    /// no previous fetch time, and `now` as both audit timestamps.
    pub fn insert_feed(&mut self, feed: NewFeed, now: i64) -> (r: Result<i64, StoreError>)
        requires
            old(self).wf(),
        ensures
            final(self).wf(),
            final(self).articles == old(self).articles,
            final(self).summaries == old(self).summaries,
            final(self).bookmarks == old(self).bookmarks,
            match r {
                Ok(id) => {
                    &&& !old(self).spec_has_feed_url(feed.url@)
                    &&& final(self).feeds@ =~= old(self).feeds@.push(
                        Feed {
                            id: id,
                            title: feed.title,
                            url: feed.url,
                            site_url: feed.site_url,
                            description: feed.description,
                            last_fetched: None,
                            created_at: now,
                            updated_at: now,
                        },
                    )
                },
                Err(StoreError::DuplicateFeedUrl) => {
                    &&& old(self).spec_has_feed_url(feed.url@)
                    &&& final(self).feeds == old(self).feeds
                },
                Err(StoreError::Full) => final(self).feeds == old(self).feeds,
            },
            r is Err ==> *final(self) == *old(self),
            r is Ok ==> old(self).spec_feed_id_headroom(),
            old(self).next_feed_id <= final(self).next_feed_id,
            (!old(self).spec_has_feed_url(feed.url@) && old(self).spec_feed_id_headroom())
                ==> r is Ok,
    {
        if self.has_feed_url(&feed.url) {
            return Err(StoreError::DuplicateFeedUrl);
        }
        if self.next_feed_id == i64::MAX {
            return Err(StoreError::Full);
        }
        let id = self.next_feed_id;
        self.next_feed_id = id + 1;
        self.feeds.push(Feed {
            id: id,
            title: feed.title,
            url: feed.url,
            site_url: feed.site_url,
            description: feed.description,
            last_fetched: None,
            created_at: now,
            updated_at: now,
        });
        Ok(id)
    }

    /// Room for another feed id.
    pub open spec fn spec_feed_id_headroom(self) -> bool {
        self.next_feed_id < i64::MAX
    }

    /// Room for another article id.
    pub open spec fn spec_article_id_headroom(self) -> bool {
        self.next_article_id < i64::MAX
    }

    /// A copy of every feed row.
    pub fn get_all_feeds(&self) -> (r: Vec<Feed>)
        ensures
            r@ =~= self.feeds@,
    {
        let mut out: Vec<Feed> = Vec::new();
        let mut k: usize = 0;
        while k < self.feeds.len()
            invariant
                k <= self.feeds@.len(),
                out@ =~= self.feeds@.subrange(0, k as int),
            decreases self.feeds@.len() - k,
        {
            out.push(self.feeds[k].clone());
            k += 1;
        }
        out
    }

    /// Advance one feed's last-fetched and updated timestamps to `now`.
    /// Every other row is untouched; an unknown id changes nothing.
    pub fn update_feed_last_fetched(&mut self, id: i64, now: i64)
        requires
            old(self).wf(),
        ensures
            final(self).wf(),
            final(self).articles == old(self).articles,
            final(self).summaries == old(self).summaries,
            final(self).bookmarks == old(self).bookmarks,
            final(self).next_feed_id == old(self).next_feed_id,
            final(self).next_article_id == old(self).next_article_id,
            final(self).next_summary_id == old(self).next_summary_id,
            final(self).feeds@.len() == old(self).feeds@.len(),
            forall|i: int|
                0 <= i < old(self).feeds@.len() ==> final(self).feeds@[i] == (
                if old(self).feeds@[i].id == id {
                    Feed {
                        last_fetched: Some(now),
                        updated_at: now,
                        ..old(self).feeds@[i]
                    }
                } else {
                    old(self).feeds@[i]
                }),
    {
        let ghost snap = *self;
        let mut k: usize = 0;
        while k < self.feeds.len()
            invariant
                self.articles == snap.articles,
                self.summaries == snap.summaries,
                self.bookmarks == snap.bookmarks,
                self.next_feed_id == snap.next_feed_id,
                self.next_article_id == snap.next_article_id,
                self.next_summary_id == snap.next_summary_id,
                k <= self.feeds@.len(),
                self.feeds@.len() == snap.feeds@.len(),
                forall|i: int|
                    0 <= i < k ==> self.feeds@[i] == (
                    if snap.feeds@[i].id == id {
                        Feed { last_fetched: Some(now), updated_at: now, ..snap.feeds@[i] }
                    } else {
                        snap.feeds@[i]
                    }),
                forall|i: int| k <= i < self.feeds@.len() ==> self.feeds@[i] == snap.feeds@[i],
            decreases self.feeds@.len() - k,
        {
            if self.feeds[k].id == id {
                let prev = self.feeds[k].clone();
                self.feeds.set(
                    k,
                    Feed { last_fetched: Some(now), updated_at: now, ..prev },
                );
            }
            k += 1;
        }
        proof {
            assert forall|i: int, j: int|
                0 <= i < j < self.feeds@.len() implies self.feeds@[i].id != self.feeds@[j].id
                && self.feeds@[i].url@ != self.feeds@[j].url@ by {
                assert(snap.feeds@[i].id != snap.feeds@[j].id);
            }
        }
    }
    /// Whether some article already carries the key `(feed_id, guid)`.
    pub open spec fn spec_has_article_key(self, feed_id: i64, guid: Seq<char>) -> bool {
        exists|i: int|
            0 <= i < self.articles@.len() && has_article_key(self.articles@[i], feed_id, guid)
    }

    /// Whether some article row carries the key and would survive a sweep at
    /// `now`.
    pub open spec fn spec_has_fresh_key(self, feed_id: i64, guid: Seq<char>, now: i64) -> bool {
        exists|i: int|
            0 <= i < self.articles@.len() && has_article_key(self.articles@[i], feed_id, guid)
                && !is_stale(self.articles@[i], now)
    }

    /// Merge an article into the store by its natural key. A row with the
    /// same `(feed_id, guid)` is updated in place — its id, fetch time and
    /// read/star flags survive, everything else takes the latest values —
    /// and its id is returned. Otherwise a fresh row is created. Either way,
    /// afterwards exactly one row carries the key.
    pub fn upsert_article(&mut self, a: NewArticle, now: i64) -> (r: Result<i64, StoreError>)
        requires
            old(self).wf(),
        ensures
            final(self).wf(),
            upsert_post(*old(self), *final(self), a, now, r),
    {
        let ghost snap = *self;
        let mut k: usize = 0;
        while k < self.articles.len()
            invariant
                snap == *old(self),
                *self == snap,
                snap.wf(),
                k <= self.articles@.len(),
                forall|i: int|
                    0 <= i < k ==> !has_article_key(self.articles@[i], a.feed_id, a.guid@),
            decreases self.articles@.len() - k,
        {
            if self.articles[k].feed_id == a.feed_id && self.articles[k].guid == a.guid {
                let prev = self.articles[k].clone();
                let id = prev.id;
                self.articles.set(
                    k,
                    Article {
                        title: a.title,
                        url: a.url,
                        author: a.author,
                        content: a.content,
                        content_text: a.content_text,
                        published_at: a.published_at,
                        ..prev
                    },
                );
                proof {
                    assert(self.articles@[k as int] == merged_article(
                        snap.articles@[k as int],
                        a,
                    ));
                    assert forall|i: int, j: int|
                        0 <= i < j < self.articles@.len() implies self.articles@[i].id
                        != self.articles@[j].id && !(self.articles@[i].feed_id
                        == self.articles@[j].feed_id && self.articles@[i].guid@
                        == self.articles@[j].guid@) by {
                        assert(snap.articles@[i].id != snap.articles@[j].id);
                    }
                    assert forall|j: int|
                        0 <= j < snap.articles@.len() && has_article_key(
                            snap.articles@[j],
                            a.feed_id,
                            a.guid@,
                        ) implies j == k by {
                        if j != k {
                            assert(snap.articles@[j].guid@ == snap.articles@[k as int].guid@);
                        }
                    }
                }
                return Ok(id);
            }
            k += 1;
        }
        if self.next_article_id == i64::MAX {
            return Err(StoreError::Full);
        }
        let id = self.next_article_id;
        self.next_article_id = id + 1;
        self.articles.push(Article {
            id: id,
            feed_id: a.feed_id,
            guid: a.guid,
            title: a.title,
            url: a.url,
            author: a.author,
            content: a.content,
            content_text: a.content_text,
            published_at: a.published_at,
            fetched_at: now,
            is_read: false,
            is_starred: false,
        });
        Ok(id)
    }

    /// Set one article's read flag. Every other row is untouched; an unknown
    /// id changes nothing.
    pub fn mark_article_read(&mut self, id: i64, is_read: bool)
        requires
            old(self).wf(),
        ensures
            final(self).wf(),
            mark_read_post(*old(self), *final(self), id, is_read),
            final(self).feeds == old(self).feeds,
            final(self).summaries == old(self).summaries,
            final(self).bookmarks == old(self).bookmarks,
            final(self).articles@.len() == old(self).articles@.len(),
            forall|i: int|
                0 <= i < old(self).articles@.len() ==> final(self).articles@[i] == (
                if old(self).articles@[i].id == id {
                    Article { is_read: is_read, ..old(self).articles@[i] }
                } else {
                    old(self).articles@[i]
                }),
    {
        let ghost snap = *self;
        let mut k: usize = 0;
        while k < self.articles.len()
            invariant
                self.feeds == snap.feeds,
                self.summaries == snap.summaries,
                self.bookmarks == snap.bookmarks,
                self.next_feed_id == snap.next_feed_id,
                self.next_article_id == snap.next_article_id,
                self.next_summary_id == snap.next_summary_id,
                k <= self.articles@.len(),
                self.articles@.len() == snap.articles@.len(),
                forall|i: int|
                    0 <= i < k ==> self.articles@[i] == (
                    if snap.articles@[i].id == id {
                        Article { is_read: is_read, ..snap.articles@[i] }
                    } else {
                        snap.articles@[i]
                    }),
                forall|i: int|
                    k <= i < self.articles@.len() ==> self.articles@[i] == snap.articles@[i],
            decreases self.articles@.len() - k,
        {
            if self.articles[k].id == id {
                let prev = self.articles[k].clone();
                self.articles.set(k, Article { is_read: is_read, ..prev });
            }
            k += 1;
        }
        proof {
            assert forall|i: int, j: int|
                0 <= i < j < self.articles@.len() implies self.articles@[i].id
                != self.articles@[j].id && !(self.articles@[i].feed_id == self.articles@[j].feed_id
                && self.articles@[i].guid@ == self.articles@[j].guid@) by {
                assert(snap.articles@[i].id != snap.articles@[j].id);
            }
        }
    }

    /// Flip one article's star flag. Every other row is untouched; an
    /// unknown id changes nothing.
    pub fn toggle_article_starred(&mut self, id: i64)
        requires
            old(self).wf(),
        ensures
            final(self).wf(),
            toggle_star_post(*old(self), *final(self), id),
            final(self).feeds == old(self).feeds,
            final(self).summaries == old(self).summaries,
            final(self).bookmarks == old(self).bookmarks,
            final(self).articles@.len() == old(self).articles@.len(),
            forall|i: int|
                0 <= i < old(self).articles@.len() ==> final(self).articles@[i] == (
                if old(self).articles@[i].id == id {
                    Article { is_starred: !old(self).articles@[i].is_starred, ..old(self).articles@[i] }
                } else {
                    old(self).articles@[i]
                }),
    {
        let ghost snap = *self;
        let mut k: usize = 0;
        while k < self.articles.len()
            invariant
                self.feeds == snap.feeds,
                self.summaries == snap.summaries,
                self.bookmarks == snap.bookmarks,
                self.next_feed_id == snap.next_feed_id,
                self.next_article_id == snap.next_article_id,
                self.next_summary_id == snap.next_summary_id,
                k <= self.articles@.len(),
                self.articles@.len() == snap.articles@.len(),
                forall|i: int|
                    0 <= i < k ==> self.articles@[i] == (
                    if snap.articles@[i].id == id {
                        Article {
                            is_starred: !snap.articles@[i].is_starred,
                            ..snap.articles@[i]
                        }
                    } else {
                        snap.articles@[i]
                    }),
                forall|i: int|
                    k <= i < self.articles@.len() ==> self.articles@[i] == snap.articles@[i],
            decreases self.articles@.len() - k,
        {
            if self.articles[k].id == id {
                let prev = self.articles[k].clone();
                let flipped = !prev.is_starred;
                self.articles.set(k, Article { is_starred: flipped, ..prev });
            }
            k += 1;
        }
        proof {
            assert forall|i: int, j: int|
                0 <= i < j < self.articles@.len() implies self.articles@[i].id
                != self.articles@[j].id && !(self.articles@[i].feed_id == self.articles@[j].feed_id
                && self.articles@[i].guid@ == self.articles@[j].guid@) by {
                assert(snap.articles@[i].id != snap.articles@[j].id);
            }
        }
    }
    /// Whether some article row has this id and belongs to this feed.
    pub open spec fn spec_has_article_of_feed(self, article_id: i64, feed_id: i64) -> bool {
        exists|i: int|
            0 <= i < self.articles@.len() && self.articles@[i].id == article_id
                && self.articles@[i].feed_id == feed_id
    }

    fn has_article_of_feed(&self, article_id: i64, feed_id: i64) -> (r: bool)
        ensures
            r == self.spec_has_article_of_feed(article_id, feed_id),
    {
        let mut k: usize = 0;
        while k < self.articles.len()
            invariant
                k <= self.articles@.len(),
                forall|i: int|
                    0 <= i < k ==> !(self.articles@[i].id == article_id && self.articles@[i].feed_id
                        == feed_id),
            decreases self.articles@.len() - k,
        {
            if self.articles[k].id == article_id && self.articles[k].feed_id == feed_id {
                return true;
            }
            k += 1;
        }
        false
    }

    /// Whether some article row has this id and is stale at `now`.
    pub open spec fn spec_has_stale_article(self, article_id: i64, now: i64) -> bool {
        exists|i: int|
            0 <= i < self.articles@.len() && self.articles@[i].id == article_id && is_stale(
                self.articles@[i],
                now,
            )
    }

    fn has_stale_article(&self, article_id: i64, now: i64) -> (r: bool)
        requires
            now >= 0,
        ensures
            r == self.spec_has_stale_article(article_id, now),
    {
        let mut k: usize = 0;
        while k < self.articles.len()
            invariant
                now >= 0,
                k <= self.articles@.len(),
                forall|i: int|
                    0 <= i < k ==> !(self.articles@[i].id == article_id && is_stale(
                        self.articles@[i],
                        now,
                    )),
            decreases self.articles@.len() - k,
        {
            let a = &self.articles[k];
            if a.id == article_id {
                let ts: i64 = match a.published_at {
                    Some(p) => p,
                    None => a.fetched_at,
                };
                if ts < now - RETENTION_SECONDS {
                    return true;
                }
            }
            k += 1;
        }
        false
    }

    /// The summary cached for this article, if one exists.
    pub fn get_summary(&self, article_id: i64) -> (r: Option<Summary>)
        requires
            self.wf(),
        ensures
            match r {
                Some(s) => exists|i: int|
                    0 <= i < self.summaries@.len() && self.summaries@[i] == s && s.article_id
                        == article_id,
                None => forall|i: int|
                    0 <= i < self.summaries@.len() ==> self.summaries@[i].article_id != article_id,
            },
            (r is Some) == self.spec_has_summary_for(article_id),
    {
        let mut k: usize = 0;
        while k < self.summaries.len()
            invariant
                k <= self.summaries@.len(),
                forall|i: int| 0 <= i < k ==> self.summaries@[i].article_id != article_id,
            decreases self.summaries@.len() - k,
        {
            if self.summaries[k].article_id == article_id {
                return Some(self.summaries[k].clone());
            }
            k += 1;
        }
        None
    }

    /// Whether `s` is one of the store's summary rows.
    pub open spec fn spec_is_stored_summary(self, s: Summary) -> bool {
        exists|i: int| 0 <= i < self.summaries@.len() && self.summaries@[i] == s
    }

    /// Whether a summary is cached for this article.
    pub open spec fn spec_has_summary_for(self, article_id: i64) -> bool {
        exists|i: int|
            0 <= i < self.summaries@.len() && self.summaries@[i].article_id == article_id
    }

    /// Cache a summary for an article: insert, or on conflict overwrite the
    /// existing row in place — content, model and generation time take the
    /// latest values, so regeneration never accumulates history.
    pub fn save_summary(&mut self, article_id: i64, content: String, model: String, now: i64) -> (r:
        Result<(), StoreError>)
        requires
            old(self).wf(),
        ensures
            final(self).wf(),
            final(self).feeds == old(self).feeds,
            final(self).articles == old(self).articles,
            final(self).bookmarks == old(self).bookmarks,
            old(self).spec_has_summary_for(article_id) || old(self).next_summary_id < i64::MAX
                ==> r is Ok,
            r is Ok ==> save_summary_post(
                *old(self),
                *final(self),
                article_id,
                content,
                model,
                now,
            ),
            r is Err ==> *final(self) == *old(self),
            r is Ok && old(self).spec_has_summary_for(article_id) ==> {
                &&& final(self).summaries@.len() == old(self).summaries@.len()
                &&& forall|j: int|
                    0 <= j < old(self).summaries@.len() ==> final(self).summaries@[j] == (
                    if old(self).summaries@[j].article_id == article_id {
                        Summary {
                            content: content,
                            model_version: model,
                            generated_at: now,
                            ..old(self).summaries@[j]
                        }
                    } else {
                        old(self).summaries@[j]
                    })
            },
            r is Ok && !old(self).spec_has_summary_for(article_id) ==> final(self).summaries@
                =~= old(self).summaries@.push(
                Summary {
                    id: old(self).next_summary_id,
                    article_id: article_id,
                    content: content,
                    model_version: model,
                    generated_at: now,
                },
            ),
    {
        let ghost snap = *self;
        let mut k: usize = 0;
        while k < self.summaries.len()
            invariant
                snap == *old(self),
                *self == snap,
                snap.wf(),
                k <= self.summaries@.len(),
                forall|i: int| 0 <= i < k ==> self.summaries@[i].article_id != article_id,
            decreases self.summaries@.len() - k,
        {
            if self.summaries[k].article_id == article_id {
                let prev = self.summaries[k].clone();
                self.summaries.set(
                    k,
                    Summary { content: content, model_version: model, generated_at: now, ..prev },
                );
                proof {
                    assert forall|i: int, j: int|
                        0 <= i < j < self.summaries@.len() implies self.summaries@[i].article_id
                        != self.summaries@[j].article_id by {
                        assert(snap.summaries@[i].article_id != snap.summaries@[j].article_id);
                    }
                    assert forall|j: int|
                        0 <= j < snap.summaries@.len() && snap.summaries@[j].article_id
                            == article_id implies j == k by {}
                }
                return Ok(());
            }
            k += 1;
        }
        if self.next_summary_id == i64::MAX {
            return Err(StoreError::Full);
        }
        let id = self.next_summary_id;
        self.next_summary_id = id + 1;
        self.summaries.push(Summary {
            id: id,
            article_id: article_id,
            content: content,
            model_version: model,
            generated_at: now,
        });
        Ok(())
    }

    /// Whether this article was already forwarded to the bookmark service.
    pub open spec fn spec_is_bookmarked(self, article_id: i64) -> bool {
        exists|i: int|
            0 <= i < self.bookmarks@.len() && self.bookmarks@[i].article_id == article_id
    }

    pub fn is_saved_to_raindrop(&self, article_id: i64) -> (r: bool)
        ensures
            r == self.spec_is_bookmarked(article_id),
    {
        let mut k: usize = 0;
        while k < self.bookmarks.len()
            invariant
                k <= self.bookmarks@.len(),
                forall|i: int| 0 <= i < k ==> self.bookmarks@[i].article_id != article_id,
            decreases self.bookmarks@.len() - k,
        {
            if self.bookmarks[k].article_id == article_id {
                return true;
            }
            k += 1;
        }
        false
    }

    /// Record that an article was forwarded to the bookmark service. A
    /// previous record for the same article is replaced whole.
    pub fn mark_saved_to_raindrop(
        &mut self,
        article_id: i64,
        external_id: i64,
        tags: String,
        now: i64,
    )
        requires
            old(self).wf(),
        ensures
            final(self).wf(),
            final(self).feeds == old(self).feeds,
            final(self).articles == old(self).articles,
            final(self).summaries == old(self).summaries,
            final(self).spec_is_bookmarked(article_id),
            old(self).spec_is_bookmarked(article_id) ==> {
                &&& final(self).bookmarks@.len() == old(self).bookmarks@.len()
                &&& forall|j: int|
                    0 <= j < old(self).bookmarks@.len() ==> final(self).bookmarks@[j] == (
                    if old(self).bookmarks@[j].article_id == article_id {
                        BookmarkRecord {
                            article_id: article_id,
                            external_id: external_id,
                            tags: tags,
                            saved_at: now,
                        }
                    } else {
                        old(self).bookmarks@[j]
                    })
            },
            !old(self).spec_is_bookmarked(article_id) ==> final(self).bookmarks@ =~= old(
                self,
            ).bookmarks@.push(
                BookmarkRecord {
                    article_id: article_id,
                    external_id: external_id,
                    tags: tags,
                    saved_at: now,
                },
            ),
    {
        let ghost snap = *self;
        let mut k: usize = 0;
        while k < self.bookmarks.len()
            invariant
                snap == *old(self),
                *self == snap,
                snap.wf(),
                k <= self.bookmarks@.len(),
                forall|i: int| 0 <= i < k ==> self.bookmarks@[i].article_id != article_id,
            decreases self.bookmarks@.len() - k,
        {
            if self.bookmarks[k].article_id == article_id {
                self.bookmarks.set(
                    k,
                    BookmarkRecord {
                        article_id: article_id,
                        external_id: external_id,
                        tags: tags,
                        saved_at: now,
                    },
                );
                proof {
                    assert forall|i: int, j: int|
                        0 <= i < j < self.bookmarks@.len() implies self.bookmarks@[i].article_id
                        != self.bookmarks@[j].article_id by {
                        assert(snap.bookmarks@[i].article_id != snap.bookmarks@[j].article_id);
                    }
                    assert(self.bookmarks@[k as int].article_id == article_id);
                }
                return ;
            }
            k += 1;
        }
        self.bookmarks.push(BookmarkRecord {
            article_id: article_id,
            external_id: external_id,
            tags: tags,
            saved_at: now,
        });
        proof {
            assert(self.bookmarks@[self.bookmarks@.len() - 1].article_id == article_id);
        }
    }
    /// Delete one article and everything hanging off it: its cached summary
    /// and its bookmark record. Every other row survives in order; an
    /// unknown id changes nothing.
    pub fn delete_article(&mut self, id: i64)
        requires
            old(self).wf(),
        ensures
            final(self).wf(),
            delete_article_post(*old(self), *final(self), id),
            final(self).feeds == old(self).feeds,
            final(self).articles@ =~= old(self).articles@.filter(|a: Article| a.id != id),
            final(self).summaries@ =~= old(self).summaries@.filter(
                |s: Summary| s.article_id != id,
            ),
            final(self).bookmarks@ =~= old(self).bookmarks@.filter(
                |b: BookmarkRecord| b.article_id != id,
            ),
    {
        let ghost snap = *self;
        let mut kept_articles: Vec<Article> = Vec::new();
        let mut k: usize = 0;
        while k < self.articles.len()
            invariant
                snap == *old(self),
                *self == snap,
                snap.wf(),
                k <= self.articles@.len(),
                kept_articles@ =~= snap.articles@.subrange(0, k as int).filter(
                    |a: Article| a.id != id,
                ),
                forall|i: int, j: int|
                    0 <= i < kept_articles@.len() && k <= j < snap.articles@.len()
                        ==> kept_articles@[i].id != snap.articles@[j].id && !(
                    kept_articles@[i].feed_id == snap.articles@[j].feed_id
                        && kept_articles@[i].guid@ == snap.articles@[j].guid@),
                forall|i: int, j: int|
                    0 <= i < j < kept_articles@.len() ==> kept_articles@[i].id
                        != kept_articles@[j].id && !(kept_articles@[i].feed_id
                        == kept_articles@[j].feed_id && kept_articles@[i].guid@
                        == kept_articles@[j].guid@),
                forall|i: int|
                    0 <= i < kept_articles@.len() ==> kept_articles@[i].id < snap.next_article_id,
            decreases self.articles@.len() - k,
        {
            let a = self.articles[k].clone();
            proof {
                assert(snap.articles@.subrange(0, (k + 1) as int) =~= snap.articles@.subrange(
                    0,
                    k as int,
                ).push(snap.articles@[k as int]));
                lemma_filter_push(
                    snap.articles@.subrange(0, k as int),
                    |a: Article| a.id != id,
                    snap.articles@[k as int],
                );
            }
            if a.id != id {
                kept_articles.push(a);
            }
            k += 1;
        }
        proof {
            assert(snap.articles@.subrange(0, snap.articles@.len() as int) =~= snap.articles@);
        }
        let mut kept_summaries: Vec<Summary> = Vec::new();
        let mut k2: usize = 0;
        while k2 < self.summaries.len()
            invariant
                snap == *old(self),
                *self == snap,
                snap.wf(),
                k2 <= self.summaries@.len(),
                kept_summaries@ =~= snap.summaries@.subrange(0, k2 as int).filter(
                    |s: Summary| s.article_id != id,
                ),
                forall|i: int, j: int|
                    0 <= i < kept_summaries@.len() && k2 <= j < snap.summaries@.len()
                        ==> kept_summaries@[i].article_id != snap.summaries@[j].article_id,
                forall|i: int, j: int|
                    0 <= i < j < kept_summaries@.len() ==> kept_summaries@[i].article_id
                        != kept_summaries@[j].article_id,
                forall|i: int|
                    0 <= i < kept_summaries@.len() ==> kept_summaries@[i].id
                        < snap.next_summary_id,
            decreases self.summaries@.len() - k2,
        {
            let s = self.summaries[k2].clone();
            proof {
                assert(snap.summaries@.subrange(0, (k2 + 1) as int) =~= snap.summaries@.subrange(
                    0,
                    k2 as int,
                ).push(snap.summaries@[k2 as int]));
                lemma_filter_push(
                    snap.summaries@.subrange(0, k2 as int),
                    |s: Summary| s.article_id != id,
                    snap.summaries@[k2 as int],
                );
            }
            if s.article_id != id {
                kept_summaries.push(s);
            }
            k2 += 1;
        }
        proof {
            assert(snap.summaries@.subrange(0, snap.summaries@.len() as int) =~= snap.summaries@);
        }
        let mut kept_bookmarks: Vec<BookmarkRecord> = Vec::new();
        let mut k3: usize = 0;
        while k3 < self.bookmarks.len()
            invariant
                snap == *old(self),
                *self == snap,
                snap.wf(),
                k3 <= self.bookmarks@.len(),
                kept_bookmarks@ =~= snap.bookmarks@.subrange(0, k3 as int).filter(
                    |b: BookmarkRecord| b.article_id != id,
                ),
                forall|i: int, j: int|
                    0 <= i < kept_bookmarks@.len() && k3 <= j < snap.bookmarks@.len()
                        ==> kept_bookmarks@[i].article_id != snap.bookmarks@[j].article_id,
                forall|i: int, j: int|
                    0 <= i < j < kept_bookmarks@.len() ==> kept_bookmarks@[i].article_id
                        != kept_bookmarks@[j].article_id,
            decreases self.bookmarks@.len() - k3,
        {
            let b = self.bookmarks[k3].clone();
            proof {
                assert(snap.bookmarks@.subrange(0, (k3 + 1) as int) =~= snap.bookmarks@.subrange(
                    0,
                    k3 as int,
                ).push(snap.bookmarks@[k3 as int]));
                lemma_filter_push(
                    snap.bookmarks@.subrange(0, k3 as int),
                    |b: BookmarkRecord| b.article_id != id,
                    snap.bookmarks@[k3 as int],
                );
            }
            if b.article_id != id {
                kept_bookmarks.push(b);
            }
            k3 += 1;
        }
        proof {
            assert(snap.bookmarks@.subrange(0, snap.bookmarks@.len() as int) =~= snap.bookmarks@);
        }
        self.articles = kept_articles;
        self.summaries = kept_summaries;
        self.bookmarks = kept_bookmarks;
    }

    /// Delete one feed and everything hanging off it: its articles, their
    /// summaries and their bookmark records. Other feeds and their articles
    /// survive in order; an unknown id changes nothing.
    pub fn delete_feed(&mut self, id: i64)
        requires
            old(self).wf(),
        ensures
            final(self).wf(),
            final(self).feeds@ =~= old(self).feeds@.filter(|f: Feed| f.id != id),
            final(self).articles@ =~= old(self).articles@.filter(|a: Article| a.feed_id != id),
            final(self).summaries@ =~= old(self).summaries@.filter(
                |s: Summary| !old(self).spec_has_article_of_feed(s.article_id, id),
            ),
            final(self).bookmarks@ =~= old(self).bookmarks@.filter(
                |b: BookmarkRecord| !old(self).spec_has_article_of_feed(b.article_id, id),
            ),
    {
        let ghost snap = *self;
        let mut kept_summaries: Vec<Summary> = Vec::new();
        let mut k2: usize = 0;
        while k2 < self.summaries.len()
            invariant
                snap == *old(self),
                *self == snap,
                snap.wf(),
                k2 <= self.summaries@.len(),
                kept_summaries@ =~= snap.summaries@.subrange(0, k2 as int).filter(
                    |s: Summary| !snap.spec_has_article_of_feed(s.article_id, id),
                ),
                forall|i: int, j: int|
                    0 <= i < kept_summaries@.len() && k2 <= j < snap.summaries@.len()
                        ==> kept_summaries@[i].article_id != snap.summaries@[j].article_id,
                forall|i: int, j: int|
                    0 <= i < j < kept_summaries@.len() ==> kept_summaries@[i].article_id
                        != kept_summaries@[j].article_id,
                forall|i: int|
                    0 <= i < kept_summaries@.len() ==> kept_summaries@[i].id
                        < snap.next_summary_id,
            decreases self.summaries@.len() - k2,
        {
            let s = self.summaries[k2].clone();
            proof {
                assert(snap.summaries@.subrange(0, (k2 + 1) as int) =~= snap.summaries@.subrange(
                    0,
                    k2 as int,
                ).push(snap.summaries@[k2 as int]));
                lemma_filter_push(
                    snap.summaries@.subrange(0, k2 as int),
                    |s: Summary| !snap.spec_has_article_of_feed(s.article_id, id),
                    snap.summaries@[k2 as int],
                );
            }
            if !self.has_article_of_feed(s.article_id, id) {
                kept_summaries.push(s);
            }
            k2 += 1;
        }
        proof {
            assert(snap.summaries@.subrange(0, snap.summaries@.len() as int) =~= snap.summaries@);
        }
        let mut kept_bookmarks: Vec<BookmarkRecord> = Vec::new();
        let mut k3: usize = 0;
        while k3 < self.bookmarks.len()
            invariant
                snap == *old(self),
                *self == snap,
                snap.wf(),
                k3 <= self.bookmarks@.len(),
                kept_bookmarks@ =~= snap.bookmarks@.subrange(0, k3 as int).filter(
                    |b: BookmarkRecord| !snap.spec_has_article_of_feed(b.article_id, id),
                ),
                forall|i: int, j: int|
                    0 <= i < kept_bookmarks@.len() && k3 <= j < snap.bookmarks@.len()
                        ==> kept_bookmarks@[i].article_id != snap.bookmarks@[j].article_id,
                forall|i: int, j: int|
                    0 <= i < j < kept_bookmarks@.len() ==> kept_bookmarks@[i].article_id
                        != kept_bookmarks@[j].article_id,
            decreases self.bookmarks@.len() - k3,
        {
            let b = self.bookmarks[k3].clone();
            proof {
                assert(snap.bookmarks@.subrange(0, (k3 + 1) as int) =~= snap.bookmarks@.subrange(
                    0,
                    k3 as int,
                ).push(snap.bookmarks@[k3 as int]));
                lemma_filter_push(
                    snap.bookmarks@.subrange(0, k3 as int),
                    |b: BookmarkRecord| !snap.spec_has_article_of_feed(b.article_id, id),
                    snap.bookmarks@[k3 as int],
                );
            }
            if !self.has_article_of_feed(b.article_id, id) {
                kept_bookmarks.push(b);
            }
            k3 += 1;
        }
        proof {
            assert(snap.bookmarks@.subrange(0, snap.bookmarks@.len() as int) =~= snap.bookmarks@);
        }
        let mut kept_articles: Vec<Article> = Vec::new();
        let mut k: usize = 0;
        while k < self.articles.len()
            invariant
                snap == *old(self),
                *self == snap,
                snap.wf(),
                k <= self.articles@.len(),
                kept_articles@ =~= snap.articles@.subrange(0, k as int).filter(
                    |a: Article| a.feed_id != id,
                ),
                forall|i: int, j: int|
                    0 <= i < kept_articles@.len() && k <= j < snap.articles@.len()
                        ==> kept_articles@[i].id != snap.articles@[j].id && !(
                    kept_articles@[i].feed_id == snap.articles@[j].feed_id
                        && kept_articles@[i].guid@ == snap.articles@[j].guid@),
                forall|i: int, j: int|
                    0 <= i < j < kept_articles@.len() ==> kept_articles@[i].id
                        != kept_articles@[j].id && !(kept_articles@[i].feed_id
                        == kept_articles@[j].feed_id && kept_articles@[i].guid@
                        == kept_articles@[j].guid@),
                forall|i: int|
                    0 <= i < kept_articles@.len() ==> kept_articles@[i].id < snap.next_article_id,
            decreases self.articles@.len() - k,
        {
            let a = self.articles[k].clone();
            proof {
                assert(snap.articles@.subrange(0, (k + 1) as int) =~= snap.articles@.subrange(
                    0,
                    k as int,
                ).push(snap.articles@[k as int]));
                lemma_filter_push(
                    snap.articles@.subrange(0, k as int),
                    |a: Article| a.feed_id != id,
                    snap.articles@[k as int],
                );
            }
            if a.feed_id != id {
                kept_articles.push(a);
            }
            k += 1;
        }
        proof {
            assert(snap.articles@.subrange(0, snap.articles@.len() as int) =~= snap.articles@);
        }
        let mut kept_feeds: Vec<Feed> = Vec::new();
        let mut k4: usize = 0;
        while k4 < self.feeds.len()
            invariant
                snap == *old(self),
                *self == snap,
                snap.wf(),
                k4 <= self.feeds@.len(),
                kept_feeds@ =~= snap.feeds@.subrange(0, k4 as int).filter(|f: Feed| f.id != id),
                forall|i: int, j: int|
                    0 <= i < kept_feeds@.len() && k4 <= j < snap.feeds@.len() ==> kept_feeds@[i].id
                        != snap.feeds@[j].id && kept_feeds@[i].url@ != snap.feeds@[j].url@,
                forall|i: int, j: int|
                    0 <= i < j < kept_feeds@.len() ==> kept_feeds@[i].id != kept_feeds@[j].id
                        && kept_feeds@[i].url@ != kept_feeds@[j].url@,
                forall|i: int| 0 <= i < kept_feeds@.len() ==> kept_feeds@[i].id < snap.next_feed_id,
            decreases self.feeds@.len() - k4,
        {
            let f = self.feeds[k4].clone();
            proof {
                assert(snap.feeds@.subrange(0, (k4 + 1) as int) =~= snap.feeds@.subrange(
                    0,
                    k4 as int,
                ).push(snap.feeds@[k4 as int]));
                lemma_filter_push(
                    snap.feeds@.subrange(0, k4 as int),
                    |f: Feed| f.id != id,
                    snap.feeds@[k4 as int],
                );
            }
            if f.id != id {
                kept_feeds.push(f);
            }
            k4 += 1;
        }
        proof {
            assert(snap.feeds@.subrange(0, snap.feeds@.len() as int) =~= snap.feeds@);
        }
        self.feeds = kept_feeds;
        self.articles = kept_articles;
        self.summaries = kept_summaries;
        self.bookmarks = kept_bookmarks;
    }

    /// The retention sweep. Remove every article stale at `now`, together with the summaries and
    /// bookmark records of the removed articles, and report how many
    /// articles went. Fresh articles survive in order, whatever their read
    /// or star flags.
    pub fn delete_old_articles(&mut self, now: i64) -> (r: usize)
        requires
            old(self).wf(),
            now >= 0,
        ensures
            final(self).wf(),
            sweep_post(*old(self), *final(self), now),
            r == old(self).articles@.len() - final(self).articles@.len(),
    {
        let ghost snap = *self;
        let mut kept_summaries: Vec<Summary> = Vec::new();
        let mut k2: usize = 0;
        while k2 < self.summaries.len()
            invariant
                snap == *old(self),
                *self == snap,
                snap.wf(),
                now >= 0,
                k2 <= self.summaries@.len(),
                kept_summaries@ =~= snap.summaries@.subrange(0, k2 as int).filter(
                    summary_live_at(snap, now),
                ),
                forall|i: int, j: int|
                    0 <= i < kept_summaries@.len() && k2 <= j < snap.summaries@.len()
                        ==> kept_summaries@[i].article_id != snap.summaries@[j].article_id,
                forall|i: int, j: int|
                    0 <= i < j < kept_summaries@.len() ==> kept_summaries@[i].article_id
                        != kept_summaries@[j].article_id,
                forall|i: int|
                    0 <= i < kept_summaries@.len() ==> kept_summaries@[i].id
                        < snap.next_summary_id,
            decreases self.summaries@.len() - k2,
        {
            let s = self.summaries[k2].clone();
            proof {
                assert(snap.summaries@.subrange(0, (k2 + 1) as int) =~= snap.summaries@.subrange(
                    0,
                    k2 as int,
                ).push(snap.summaries@[k2 as int]));
                lemma_filter_push(
                    snap.summaries@.subrange(0, k2 as int),
                    summary_live_at(snap, now),
                    snap.summaries@[k2 as int],
                );
            }
            if !self.has_stale_article(s.article_id, now) {
                kept_summaries.push(s);
            }
            k2 += 1;
        }
        proof {
            assert(snap.summaries@.subrange(0, snap.summaries@.len() as int) =~= snap.summaries@);
        }
        let mut kept_bookmarks: Vec<BookmarkRecord> = Vec::new();
        let mut k3: usize = 0;
        while k3 < self.bookmarks.len()
            invariant
                snap == *old(self),
                *self == snap,
                snap.wf(),
                now >= 0,
                k3 <= self.bookmarks@.len(),
                kept_bookmarks@ =~= snap.bookmarks@.subrange(0, k3 as int).filter(
                    bookmark_live_at(snap, now),
                ),
                forall|i: int, j: int|
                    0 <= i < kept_bookmarks@.len() && k3 <= j < snap.bookmarks@.len()
                        ==> kept_bookmarks@[i].article_id != snap.bookmarks@[j].article_id,
                forall|i: int, j: int|
                    0 <= i < j < kept_bookmarks@.len() ==> kept_bookmarks@[i].article_id
                        != kept_bookmarks@[j].article_id,
            decreases self.bookmarks@.len() - k3,
        {
            let b = self.bookmarks[k3].clone();
            proof {
                assert(snap.bookmarks@.subrange(0, (k3 + 1) as int) =~= snap.bookmarks@.subrange(
                    0,
                    k3 as int,
                ).push(snap.bookmarks@[k3 as int]));
                lemma_filter_push(
                    snap.bookmarks@.subrange(0, k3 as int),
                    bookmark_live_at(snap, now),
                    snap.bookmarks@[k3 as int],
                );
            }
            if !self.has_stale_article(b.article_id, now) {
                kept_bookmarks.push(b);
            }
            k3 += 1;
        }
        proof {
            assert(snap.bookmarks@.subrange(0, snap.bookmarks@.len() as int) =~= snap.bookmarks@);
        }
        let mut kept_articles: Vec<Article> = Vec::new();
        let mut k: usize = 0;
        while k < self.articles.len()
            invariant
                snap == *old(self),
                *self == snap,
                snap.wf(),
                now >= 0,
                k <= self.articles@.len(),
                kept_articles@ =~= snap.articles@.subrange(0, k as int).filter(
                    article_live_at(now),
                ),
                forall|i: int, j: int|
                    0 <= i < kept_articles@.len() && k <= j < snap.articles@.len()
                        ==> kept_articles@[i].id != snap.articles@[j].id && !(
                    kept_articles@[i].feed_id == snap.articles@[j].feed_id
                        && kept_articles@[i].guid@ == snap.articles@[j].guid@),
                forall|i: int, j: int|
                    0 <= i < j < kept_articles@.len() ==> kept_articles@[i].id
                        != kept_articles@[j].id && !(kept_articles@[i].feed_id
                        == kept_articles@[j].feed_id && kept_articles@[i].guid@
                        == kept_articles@[j].guid@),
                forall|i: int|
                    0 <= i < kept_articles@.len() ==> kept_articles@[i].id < snap.next_article_id,
                forall|i: int|
                    0 <= i < kept_articles@.len() ==> !is_stale(kept_articles@[i], now),
            decreases self.articles@.len() - k,
        {
            let a = self.articles[k].clone();
            proof {
                assert(snap.articles@.subrange(0, (k + 1) as int) =~= snap.articles@.subrange(
                    0,
                    k as int,
                ).push(snap.articles@[k as int]));
                lemma_filter_push(
                    snap.articles@.subrange(0, k as int),
                    article_live_at(now),
                    snap.articles@[k as int],
                );
            }
            let ts: i64 = match a.published_at {
                Some(p) => p,
                None => a.fetched_at,
            };
            if !(ts < now - RETENTION_SECONDS) {
                kept_articles.push(a);
            }
            k += 1;
        }
        proof {
            assert(snap.articles@.subrange(0, snap.articles@.len() as int) =~= snap.articles@);
            snap.articles@.lemma_filter_len(article_live_at(now));
        }
        let removed = self.articles.len() - kept_articles.len();
        self.articles = kept_articles;
        self.summaries = kept_summaries;
        self.bookmarks = kept_bookmarks;
        removed
    }
}

/// Display order of the article list: newest publication first, articles
/// without a publication time last, ties broken by fetch time, newest first.
/// `article_order_leq(a, b)` says `a` may stand before `b`.
pub open spec fn article_order_leq(a: Article, b: Article) -> bool {
    match (a.published_at, b.published_at) {
        (Some(pa), Some(pb)) => pa > pb || (pa == pb && a.fetched_at >= b.fetched_at),
        (Some(_), None) => true,
        (None, Some(_)) => false,
        (None, None) => a.fetched_at >= b.fetched_at,
    }
}

/// The display order is total: any two articles compare one way or the other.
pub proof fn lemma_article_order_total(a: Article, b: Article)
    ensures
        article_order_leq(a, b) || article_order_leq(b, a),
{
}

/// The display order is transitive.
pub proof fn lemma_article_order_trans(a: Article, b: Article, c: Article)
    requires
        article_order_leq(a, b),
        article_order_leq(b, c),
    ensures
        article_order_leq(a, c),
{
}

/// Inserting an element anywhere in a sequence adds exactly that element to
/// its multiset of contents.
proof fn lemma_insert_to_multiset<A>(s: Seq<A>, p: int, x: A)
    requires
        0 <= p <= s.len(),
    ensures
        s.insert(p, x).to_multiset() =~= s.to_multiset().insert(x),
{
    broadcast use vstd::seq_lib::group_to_multiset_ensures;

    let t = s.insert(p, x);
    assert(t.remove(p) =~= s);
    assert(t[p] == x);
    assert(s.to_multiset() =~= t.to_multiset().remove(x));
    assert(t.contains(x));
    assert(t.to_multiset().count(x) > 0);
    assert forall|y: A| t.to_multiset().count(y) == s.to_multiset().insert(x).count(y) by {
        assert(s.to_multiset().count(y) == t.to_multiset().remove(x).count(y));
    }
}

impl Store {
    /// A copy of every article row, arranged in display order: newest
    /// publication first, articles without a publication time last, ties
    /// broken by fetch time. The copy holds exactly the stored rows.
    pub fn get_all_articles_sorted(&self) -> (r: Vec<Article>)
        ensures
            r@.to_multiset() =~= self.articles@.to_multiset(),
            forall|i: int, j: int|
                0 <= i < j < r@.len() ==> article_order_leq(r@[i], r@[j]),
    {
        broadcast use vstd::seq_lib::group_to_multiset_ensures;

        let mut out: Vec<Article> = Vec::new();
        let mut k: usize = 0;
        while k < self.articles.len()
            invariant
                k <= self.articles@.len(),
                out@.to_multiset() =~= self.articles@.subrange(0, k as int).to_multiset(),
                forall|i: int, j: int|
                    0 <= i < j < out@.len() ==> article_order_leq(out@[i], out@[j]),
            decreases self.articles@.len() - k,
        {
            broadcast use vstd::seq_lib::group_to_multiset_ensures;

            let x = self.articles[k].clone();
            let mut p: usize = 0;
            while p < out.len() && order_before(&out[p], &x)
                invariant
                    p <= out@.len(),
                    forall|i: int| 0 <= i < p ==> article_order_leq(out@[i], x),
                decreases out@.len() - p,
            {
                p += 1;
            }
            proof {
                let ghost prev = out@;
                if p < out@.len() {
                    lemma_article_order_total(prev[p as int], x);
                }
                lemma_insert_to_multiset(prev, p as int, x);
                assert(self.articles@.subrange(0, (k + 1) as int) =~= self.articles@.subrange(
                    0,
                    k as int,
                ).push(self.articles@[k as int]));
            }
            let ghost prev = out@;
            out.insert(p, x);
            proof {
                assert forall|i: int, j: int|
                    0 <= i < j < out@.len() implies article_order_leq(out@[i], out@[j]) by {
                    if j < p {
                        assert(out@[i] == prev[i] && out@[j] == prev[j]);
                    } else if j == p {
                        assert(out@[i] == prev[i]);
                    } else if i < p {
                        assert(out@[i] == prev[i] && out@[j] == prev[j - 1]);
                    } else if i == p {
                        assert(out@[j] == prev[j - 1]);
                        if p < prev.len() {
                            lemma_article_order_trans(x, prev[p as int], prev[j - 1]);
                        }
                    } else {
                        assert(out@[i] == prev[i - 1] && out@[j] == prev[j - 1]);
                    }
                }
            }
            k += 1;
        }
        proof {
            assert(self.articles@.subrange(0, self.articles@.len() as int) =~= self.articles@);
        }
        out
    }
}

/// Whether `a` may stand before `b` in display order; the executable face of
/// `article_order_leq`.
fn order_before(a: &Article, b: &Article) -> (r: bool)
    ensures
        r == article_order_leq(*a, *b),
{
    match (a.published_at, b.published_at) {
        (Some(pa), Some(pb)) => pa > pb || (pa == pb && a.fetched_at >= b.fetched_at),
        (Some(_), None) => true,
        (None, Some(_)) => false,
        (None, None) => a.fetched_at >= b.fetched_at,
    }
}

/// Filtering a sequence extended by one element keeps the element exactly
/// when it passes the predicate.
pub(crate) proof fn lemma_filter_push<A>(s: Seq<A>, pred: spec_fn(A) -> bool, x: A)
    ensures
        s.push(x).filter(pred) == (if pred(x) {
            s.filter(pred).push(x)
        } else {
            s.filter(pred)
        }),
{
    reveal(Seq::filter);
    assert(s.push(x).drop_last() =~= s);
    assert(s.push(x).last() == x);
}

/// At most one summary row exists per article id: in a well-formed store,
/// two summary rows carrying the same article id stand at the same index,
/// so regeneration replaces and never duplicates.
pub proof fn lemma_one_summary_per_article(s: Store, i: int, j: int)
    requires
        s.wf(),
        0 <= i < s.summaries@.len(),
        0 <= j < s.summaries@.len(),
        s.summaries@[i].article_id == s.summaries@[j].article_id,
    ensures
        i == j,
{
}

/// At most one article row carries a given `(feed_id, guid)` key: in a
/// well-formed store, two rows with the same natural key stand at the same
/// index, so upserting the same key twice leaves exactly one stored row —
/// and by `upsert_article`'s contract that row carries the latest values.
/// Upserting an article with the same `(feed_id, guid)` twice yields
/// exactly one stored row, with its fields updated to the latest values:
/// after the second of two upserts carrying one key, some row carries the
/// key, any two rows carrying it are the same row, and that row's mutable
/// fields are the second upsert's.
pub proof fn lemma_upsert_same_key_twice(
    s0: Store,
    s1: Store,
    s2: Store,
    a: NewArticle,
    b: NewArticle,
    now1: i64,
    now2: i64,
    r1: Result<i64, StoreError>,
    r2: Result<i64, StoreError>,
)
    requires
        s0.wf(),
        s1.wf(),
        s2.wf(),
        upsert_post(s0, s1, a, now1, r1),
        upsert_post(s1, s2, b, now2, r2),
        r1 is Ok,
        b.feed_id == a.feed_id,
        b.guid@ == a.guid@,
    ensures
        r2 is Ok,
        exists|i: int|
            0 <= i < s2.articles@.len() && has_article_key(
                #[trigger] s2.articles@[i],
                b.feed_id,
                b.guid@,
            ),
        forall|i: int, j: int|
            0 <= i < s2.articles@.len() && 0 <= j < s2.articles@.len() && has_article_key(
                #[trigger] s2.articles@[i],
                b.feed_id,
                b.guid@,
            ) && has_article_key(#[trigger] s2.articles@[j], b.feed_id, b.guid@) ==> i == j,
        forall|i: int|
            0 <= i < s2.articles@.len() && has_article_key(
                #[trigger] s2.articles@[i],
                b.feed_id,
                b.guid@,
            ) ==> s2.articles@[i].title == b.title && s2.articles@[i].url == b.url
                && s2.articles@[i].author == b.author && s2.articles@[i].content == b.content
                && s2.articles@[i].content_text == b.content_text && s2.articles@[i].published_at
                == b.published_at,
{
    if s0.spec_has_article_key(a.feed_id, a.guid@) {
        let w = choose|i: int|
            0 <= i < s0.articles@.len() && has_article_key(s0.articles@[i], a.feed_id, a.guid@);
        assert(s1.articles@[w] == merged_article(s0.articles@[w], a));
        assert(has_article_key(s1.articles@[w], b.feed_id, b.guid@));
    } else {
        let n = s0.articles@.len() as int;
        assert(s1.articles@[n] == inserted_article(a, s0.next_article_id, now1));
        assert(has_article_key(s1.articles@[n], b.feed_id, b.guid@));
    }
    assert(s1.spec_has_article_key(b.feed_id, b.guid@));
    let w1 = choose|i: int|
        0 <= i < s1.articles@.len() && has_article_key(s1.articles@[i], b.feed_id, b.guid@);
    assert(s2.articles@[w1] == merged_article(s1.articles@[w1], b));
    assert(has_article_key(s2.articles@[w1], b.feed_id, b.guid@));
    assert forall|i: int|
        0 <= i < s2.articles@.len() && has_article_key(
            #[trigger] s2.articles@[i],
            b.feed_id,
            b.guid@,
        ) implies s2.articles@[i].title == b.title && s2.articles@[i].url == b.url
        && s2.articles@[i].author == b.author && s2.articles@[i].content == b.content
        && s2.articles@[i].content_text == b.content_text && s2.articles@[i].published_at
        == b.published_at by {
        if has_article_key(s1.articles@[i], b.feed_id, b.guid@) {
            assert(s2.articles@[i] == merged_article(s1.articles@[i], b));
        } else {
            assert(s2.articles@[i] == s1.articles@[i]);
        }
    }
}

pub proof fn lemma_one_article_per_key(s: Store, i: int, j: int)
    requires
        s.wf(),
        0 <= i < s.articles@.len(),
        0 <= j < s.articles@.len(),
        s.articles@[i].feed_id == s.articles@[j].feed_id,
        s.articles@[i].guid@ == s.articles@[j].guid@,
    ensures
        i == j,
{
}

} // verus!
