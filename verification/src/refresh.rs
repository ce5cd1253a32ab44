//! The feed-refresh orchestrator's bookkeeping: a launch plan that bounds
//! the number of in-flight fetches, and the shape of per-feed outcomes that
//! the session folds back into the store.

use vstd::prelude::*;

use crate::models::{Feed, NewArticle};
use crate::store::Store;

verus! {

/// The concurrency ceiling: at most this many fetches are in flight.
pub const MAX_IN_FLIGHT: usize = 5;

/// What one feed's fetch came to: the articles it yielded, or the failure
/// reason. A failed feed is excluded from the fold-back and left untouched;
/// it never affects its siblings.
pub struct FeedFetchOutcome {
    pub feed_id: i64,
    pub result: Result<Vec<NewArticle>, String>,
}

/// Whether the outcomes report a successful fetch for this feed.
pub open spec fn is_ok_feed(outcomes: Seq<FeedFetchOutcome>, feed_id: i64) -> bool {
    exists|i: int|
        0 <= i < outcomes.len() && outcomes[i].feed_id == feed_id && outcomes[i].result is Ok
}

/// Extending the outcomes by one changes a feed's standing exactly when the
/// new outcome is its own success.
pub proof fn lemma_is_ok_feed_push(os: Seq<FeedFetchOutcome>, o: FeedFetchOutcome, feed_id: i64)
    ensures
        is_ok_feed(os.push(o), feed_id) == (is_ok_feed(os, feed_id) || (o.feed_id == feed_id
            && o.result is Ok)),
{
    if is_ok_feed(os, feed_id) {
        let i = choose|i: int|
            0 <= i < os.len() && os[i].feed_id == feed_id && os[i].result is Ok;
        assert(os.push(o)[i] == os[i]);
    }
    if o.feed_id == feed_id && o.result is Ok {
        assert(os.push(o)[os.len() as int] == o);
    }
    if is_ok_feed(os.push(o), feed_id) {
        let i = choose|i: int|
            0 <= i < os.push(o).len() && os.push(o)[i].feed_id == feed_id && os.push(o)[i].result
                is Ok;
        if i < os.len() {
            assert(os[i] == os.push(o)[i]);
        }
    }
}

/// The articles one outcome contributes to the fold-back: a success's
/// articles, in order; a failure contributes nothing.
pub open spec fn outcome_articles(o: FeedFetchOutcome) -> Seq<NewArticle> {
    match o.result {
        Ok(arts) => arts@,
        Err(_) => Seq::<NewArticle>::empty(),
    }
}

/// Every fetched article, in outcome order: what the fold-back upserts.
pub open spec fn flat_articles(outcomes: Seq<FeedFetchOutcome>) -> Seq<NewArticle>
    decreases outcomes.len(),
{
    if outcomes.len() == 0 {
        Seq::<NewArticle>::empty()
    } else {
        outcome_articles(outcomes[0]) + flat_articles(outcomes.drop_first())
    }
}

/// Flattening distributes over splitting the outcomes.
pub proof fn lemma_flat_concat(a: Seq<FeedFetchOutcome>, b: Seq<FeedFetchOutcome>)
    ensures
        flat_articles(a + b) =~= flat_articles(a) + flat_articles(b),
    decreases a.len(),
{
    if a.len() == 0 {
        assert(a + b =~= b);
    } else {
        assert((a + b)[0] == a[0]);
        assert((a + b).drop_first() =~= a.drop_first() + b);
        lemma_flat_concat(a.drop_first(), b);
    }
}

/// Extending the outcomes by one appends that outcome's articles.
pub proof fn lemma_flat_push(os: Seq<FeedFetchOutcome>, o: FeedFetchOutcome)
    ensures
        flat_articles(os.push(o)) =~= flat_articles(os) + outcome_articles(o),
{
    assert(os.push(o) =~= os + seq![o]);
    lemma_flat_concat(os, seq![o]);
    assert(seq![o][0] == o);
    assert(seq![o].drop_first() =~= Seq::<FeedFetchOutcome>::empty());
    assert(flat_articles(Seq::<FeedFetchOutcome>::empty()) =~= Seq::<NewArticle>::empty());
    assert(flat_articles(seq![o]) =~= outcome_articles(o) + flat_articles(
        Seq::<FeedFetchOutcome>::empty(),
    ));
    assert(flat_articles(seq![o]) =~= outcome_articles(o));
}

/// Whether some fetched article carries the key `(feed_id, guid)`.
pub open spec fn key_occurs(arts: Seq<NewArticle>, feed_id: i64, guid: Seq<char>) -> bool {
    exists|t: int|
        0 <= t < arts.len() && (#[trigger] arts[t]).feed_id == feed_id && arts[t].guid@ == guid
}

/// Whether a fetched article names a publication time within the retention
/// window at `now` — such an article cannot be swept, whichever fetch of its
/// key wins the merge.
pub open spec fn fresh_published(a: NewArticle, now: i64) -> bool {
    a.published_at matches Some(p) && p >= now - crate::store::RETENTION_SECONDS
}

/// Whether every fetched article carrying the key names a publication time
/// within the window.
pub open spec fn key_all_fresh(
    arts: Seq<NewArticle>,
    feed_id: i64,
    guid: Seq<char>,
    now: i64,
) -> bool {
    forall|t: int|
        0 <= t < arts.len() && (#[trigger] arts[t]).feed_id == feed_id && arts[t].guid@ == guid
            ==> fresh_published(arts[t], now)
}

/// The fold-back's guarantee for the fetched keys: every key all of whose
/// fetched articles are freshly published stands in the store on a row a
/// sweep at `now` would keep. Guarded by id headroom: once the id space is
/// exhausted an insert may be refused.
pub open spec fn fresh_keys_folded(
    s: Store,
    fetched: Seq<NewArticle>,
    all: Seq<NewArticle>,
    now: i64,
) -> bool {
    forall|fid: i64, g: Seq<char>|
        #[trigger] key_occurs(fetched, fid, g) && key_all_fresh(all, fid, g, now)
            ==> s.spec_has_fresh_key(fid, g, now)
}

/// How the fold-back of refresh outcomes relates the store before and after,
/// the retention sweep left aside: summaries, bookmark records and their id
/// counter stand; each feed with a successful outcome has its last-fetched
/// time advanced to `now` and every other feed row is untouched; and, id
/// headroom permitting, every all-fresh fetched key stands on a sweep-proof
/// row.
pub open spec fn fold_post(
    pre: Store,
    post: Store,
    outcomes: Seq<FeedFetchOutcome>,
    now: i64,
) -> bool {
    &&& post.summaries == pre.summaries
    &&& post.bookmarks == pre.bookmarks
    &&& post.next_summary_id == pre.next_summary_id
    &&& post.next_feed_id == pre.next_feed_id
    &&& pre.next_article_id <= post.next_article_id
    &&& post.feeds@.len() == pre.feeds@.len()
    &&& forall|j: int|
        0 <= j < pre.feeds@.len() ==> post.feeds@[j] == (
        if is_ok_feed(outcomes, pre.feeds@[j].id) {
            Feed { last_fetched: Some(now), updated_at: now, ..pre.feeds@[j] }
        } else {
            pre.feeds@[j]
        })
    &&& post.next_article_id < i64::MAX ==> fresh_keys_folded(
        post,
        flat_articles(outcomes),
        flat_articles(outcomes),
        now,
    )
}

/// The launch plan for one refresh: feeds still to fetch, and how many
/// fetches are in flight. The plan never lets more than the ceiling run at
/// once.
pub struct RefreshPlan {
    pub pending: Vec<Feed>,
    pub in_flight: usize,
}

impl RefreshPlan {
    /// The plan's invariant: the in-flight count never exceeds the ceiling.
    pub open spec fn wf(self) -> bool {
        self.in_flight <= MAX_IN_FLIGHT
    }

    /// A fresh plan over the feeds to refresh; nothing is in flight yet.
    pub fn new(feeds: Vec<Feed>) -> (r: RefreshPlan)
        ensures
            r.wf(),
            r.pending == feeds,
            r.in_flight == 0,
    {
        RefreshPlan { pending: feeds, in_flight: 0 }
    }

    /// Hand out the next feed to fetch, when one is pending and the ceiling
    /// leaves room; the feed leaves the queue and counts as in flight.
    pub fn launch(&mut self) -> (r: Option<Feed>)
        requires
            old(self).wf(),
        ensures
            final(self).wf(),
            match r {
                Some(f) => {
                    &&& old(self).pending@.len() > 0
                    &&& old(self).in_flight < MAX_IN_FLIGHT
                    &&& f == old(self).pending@[0]
                    &&& final(self).pending@ =~= old(self).pending@.drop_first()
                    &&& final(self).in_flight == old(self).in_flight + 1
                },
                None => {
                    &&& *final(self) == *old(self)
                    &&& old(self).pending@.len() == 0 || old(self).in_flight == MAX_IN_FLIGHT
                },
            },
    {
        if self.pending.len() == 0 || self.in_flight >= MAX_IN_FLIGHT {
            return None;
        }
        let f = self.pending.remove(0);
        self.in_flight = self.in_flight + 1;
        Some(f)
    }

    /// Record that one in-flight fetch finished, however it went.
    pub fn complete(&mut self)
        requires
            old(self).wf(),
            old(self).in_flight > 0,
        ensures
            final(self).wf(),
            final(self).pending == old(self).pending,
            final(self).in_flight == old(self).in_flight - 1,
    {
        self.in_flight = self.in_flight - 1;
    }

    /// Whether the whole fan-out is finished.
    pub fn done(&self) -> (r: bool)
        ensures
            r == (self.pending@.len() == 0 && self.in_flight == 0),
    {
        self.pending.len() == 0 && self.in_flight == 0
    }
}

} // verus!
