//! The session state machine: selection, filters, modal input states, the
//! read timer, and the summary pane lifecycle.
//!
//! Every transition is a discrete step from the current state and one input
//! (an action, a completion, a clock reading) to the next state and at most
//! one unit of outside work for the caller to perform. The session never
//! blocks: anything that needs the network or the disk beyond the store is
//! handed back as a [`Command`].

use vstd::prelude::*;

use crate::models::{Article, ArticleFilter, Feed, NewArticle, NewFeed, Summary, SummaryStatus};
use crate::ext::url_encoded;
use crate::textutil::spec_has_prefix;
use crate::store::{lemma_filter_push, Store, StoreError};

verus! {

/// How long an article must stay selected before it is marked read, in
/// milliseconds.
pub const READ_TIMER_MS: i64 = 2000;

/// The mutually exclusive modal input states. The help overlay is tracked
/// separately because it takes priority over every mode.
#[derive(Clone, Copy, Debug, PartialEq, Eq, Structural)]
pub enum InputMode {
    Normal,
    /// Entering tags before forwarding to the bookmark service.
    TagInput,
    /// Entering a URL for feed discovery.
    FeedInput,
    /// Entering a path to import a feed list from.
    OpmlImportInput,
    /// Entering a path to export the feed list to.
    OpmlExportInput,
}

/// What the feed-input line reports.
#[derive(Debug)]
pub enum FeedInputStatus {
    /// Discovery is under way.
    Discovering,
    /// A feed with the discovered URL is already subscribed; its title.
    AlreadyExists(String),
    /// The feed was added; its title.
    Added(String),
    /// The store refused the insert.
    InsertError,
    /// Discovery found no feed at the address.
    NoFeedFound,
}

/// What the import/export input line reports.
#[derive(Clone, Copy, Debug, PartialEq, Eq, Structural)]
pub enum OpmlInputStatus {
    /// The path field was empty on confirm.
    EmptyPath,
    /// The import is under way.
    Importing,
    /// The named file does not exist.
    NotFound,
    /// Import finished; the session now has this many feeds.
    Imported(usize),
    /// The file could not be read as a feed list.
    ImportError,
}

/// One unit of outside work the caller must perform after a transition.
/// The session itself never touches the network, the terminal or the disk.
pub enum Command {
    /// Nothing to do.
    Idle,
    /// Open this address in the system browser.
    OpenUrl(String),
    /// Open this compose address in the mail client.
    OpenMailto(String),
    /// Run a background summarization job for this article.
    DispatchSummary(SummaryJob),
    /// Fetch all of these feeds, at most five in flight at once, then hand
    /// the outcomes back through `finish_refresh`.
    StartRefresh(Vec<Feed>),
    /// Fetch this address and run feed discovery on the response, then hand
    /// the outcome back through `on_discover_result`.
    Discover(String),
    /// Read the feed list at this path (as typed; expand a leading `~`),
    /// then hand the outcome back through `on_opml_imported` or
    /// `on_opml_import_failed`.
    ImportOpml(Vec<char>),
    /// Write the feed list to this path (as typed).
    ExportOpml(Vec<char>),
    /// Forward this article to the bookmark service, then hand the outcome
    /// back through `on_bookmark_saved`; on failure, report and move on.
    SaveBookmark(BookmarkJob),
}

/// A summarization request: the pending target and what to summarize.
/// `fallback_content` is the feed-supplied body; the caller may first try to
/// resolve higher-fidelity content from `url` (see `resolve_content`).
pub struct SummaryJob {
    pub article_id: i64,
    pub title: String,
    pub url: String,
    pub fallback_content: String,
}

/// A bookmark-service request for one article.
pub struct BookmarkJob {
    pub article_id: i64,
    pub url: String,
    pub title: String,
    pub excerpt: Option<String>,
    pub note: Option<String>,
    /// The parsed tag list.
    pub tags: Vec<String>,
    /// The tag list in its stored text form.
    pub tags_text: String,
}

/// The interactive session: read-through caches over the store, the cursor,
/// the modal input states, and the single-slot summarization bookkeeping.
pub struct Session {
    /// The store of durable entities.
    pub store: Store,
    /// Read-through cache of the feed list, refreshed by explicit reload.
    pub feeds: Vec<Feed>,
    /// Read-through cache of the article list, refreshed by explicit reload.
    pub articles: Vec<Article>,
    /// The summary shown for the selected article, if any.
    pub current_summary: Option<Summary>,
    /// Cursor into the filtered article list.
    pub selected_index: usize,
    pub filter: ArticleFilter,
    /// The help overlay; any key closes it before the modes see the key.
    pub show_help: bool,
    pub mode: InputMode,
    pub tag_input: Vec<char>,
    pub feed_input: Vec<char>,
    pub feed_input_status: Option<FeedInputStatus>,
    pub opml_input: Vec<char>,
    pub opml_export_input: Vec<char>,
    pub opml_input_status: Option<OpmlInputStatus>,
    /// Whether the selected article already has a bookmark record.
    pub is_saved_to_raindrop: bool,
    pub spinner_frame: usize,
    /// When the selection last changed, in milliseconds; cleared once the
    /// read timer has fired.
    pub selection_time: Option<i64>,
    /// Gates refresh messaging only; not a mutual-exclusion lock.
    pub is_refreshing: bool,
    pub summary_status: SummaryStatus,
    /// The single pending target: the article id the most recent
    /// summarization job was started for.
    pub pending_summary_article_id: Option<i64>,
    /// Whether a summarization backend is configured.
    pub has_summarizer: bool,
    /// Whether a bookmark-service token is configured.
    pub has_raindrop: bool,
}

/// The articles of `s` that pass `f`, in order.
pub open spec fn filtered_seq(s: Seq<Article>, f: ArticleFilter) -> Seq<Article> {
    s.filter(|a: Article| f.spec_passes(a))
}

impl Session {
    /// The article list as the current filter shows it.
    pub open spec fn spec_filtered(self) -> Seq<Article> {
        filtered_seq(self.articles@, self.filter)
    }

    /// The article under the cursor, if the filtered list reaches it.
    pub open spec fn spec_selected(self) -> Option<Article> {
        if (self.selected_index as int) < self.spec_filtered().len() {
            Some(self.spec_filtered()[self.selected_index as int])
        } else {
            None
        }
    }

    /// The session invariant: the store is well-formed and the cursor is
    /// always below the filtered count, or zero when the filtered set is
    /// empty.
    pub open spec fn wf(self) -> bool {
        &&& self.store.wf()
        &&& self.spec_filtered().len() == 0 ==> self.selected_index == 0
        &&& self.spec_filtered().len() > 0 ==> (self.selected_index as int)
            < self.spec_filtered().len()
    }

    /// Fields that no transition but configuration can change.
    pub open spec fn spec_same_config(self, other: Session) -> bool {
        &&& self.has_summarizer == other.has_summarizer
        &&& self.has_raindrop == other.has_raindrop
    }

    /// Open a session over a store: sweep stale articles, then load the
    /// read-through caches. The cursor starts at the top of the unread view
    /// and nothing is pending.
    pub fn new(store: Store, has_summarizer: bool, has_raindrop: bool, now: i64) -> (r: Session)
        requires
            store.wf(),
            now >= 0,
        ensures
            r.wf(),
            r.has_summarizer == has_summarizer,
            r.has_raindrop == has_raindrop,
            r.filter == ArticleFilter::Unread,
            r.selected_index == 0,
            r.mode == InputMode::Normal,
            !r.show_help,
            r.summary_status == SummaryStatus::NotGenerated,
            r.pending_summary_article_id is None,
            r.current_summary is None,
            !r.is_refreshing,
            crate::store::sweep_post(store, r.store, now),
            forall|i: int| 0 <= i < r.articles@.len() ==> !crate::store::is_stale(r.articles@[i], now),
            r.articles@.to_multiset() =~= r.store.articles@.to_multiset(),
            r.feeds@ =~= r.store.feeds@,
    {
        let mut store = store;
        let _removed = store.delete_old_articles(now);
        let feeds = store.get_all_feeds();
        let articles = store.get_all_articles_sorted();
        proof {
            lemma_filter_of_multiset_members(
                articles@,
                store.articles@,
                |a: Article| !crate::store::is_stale(a, now),
            );
        }
        let s = Session {
            store: store,
            feeds: feeds,
            articles: articles,
            current_summary: None,
            selected_index: 0,
            filter: ArticleFilter::Unread,
            show_help: false,
            mode: InputMode::Normal,
            tag_input: Vec::new(),
            feed_input: Vec::new(),
            feed_input_status: None,
            opml_input: Vec::new(),
            opml_export_input: Vec::new(),
            opml_input_status: None,
            is_saved_to_raindrop: false,
            spinner_frame: 0,
            selection_time: None,
            is_refreshing: false,
            summary_status: SummaryStatus::NotGenerated,
            pending_summary_article_id: None,
            has_summarizer: has_summarizer,
            has_raindrop: has_raindrop,
        };
        s
    }

    /// The articles the current filter shows, in list order.
    pub fn filtered_articles(&self) -> (r: Vec<Article>)
        ensures
            r@ =~= self.spec_filtered(),
    {
        let mut out: Vec<Article> = Vec::new();
        let mut k: usize = 0;
        while k < self.articles.len()
            invariant
                k <= self.articles@.len(),
                out@ =~= self.articles@.subrange(0, k as int).filter(
                    |a: Article| self.filter.spec_passes(a),
                ),
            decreases self.articles@.len() - k,
        {
            let a = self.articles[k].clone();
            proof {
                assert(self.articles@.subrange(0, (k + 1) as int) =~= self.articles@.subrange(
                    0,
                    k as int,
                ).push(self.articles@[k as int]));
                lemma_filter_push(
                    self.articles@.subrange(0, k as int),
                    |a: Article| self.filter.spec_passes(a),
                    self.articles@[k as int],
                );
            }
            if self.filter.passes(&a) {
                out.push(a);
            }
            k += 1;
        }
        proof {
            assert(self.articles@.subrange(0, self.articles@.len() as int) =~= self.articles@);
        }
        out
    }

    /// The article under the cursor, if any.
    pub fn selected_article(&self) -> (r: Option<Article>)
        ensures
            r == self.spec_selected(),
    {
        let filtered = self.filtered_articles();
        if self.selected_index < filtered.len() {
            Some(filtered[self.selected_index].clone())
        } else {
            None
        }
    }

    /// Advance the spinner animation frame.
    pub fn tick_spinner(&mut self)
        ensures
            *final(self) == (Session {
                spinner_frame: ((old(self).spinner_frame % 10 + 1) % 10) as usize,
                ..*old(self)
            }),
    {
        self.spinner_frame = (self.spinner_frame % 10 + 1) % 10;
    }

    /// The animation frame characters, in cycle order.
    pub open spec fn spec_spinner_frames() -> Seq<char> {
        seq!['|', '/', '-', '\\', '|', '/', '-', '\\', '|', '/']
    }

    /// The current spinner character.
    pub fn spinner_char(&self) -> (r: char)
        ensures
            r == Self::spec_spinner_frames()[self.spinner_frame as int % 10],
    {
        let frames: [char; 10] = ['|', '/', '-', '\\', '|', '/', '-', '\\', '|', '/'];
        let r = frames[self.spinner_frame % 10];
        proof {
            assert(frames@ =~= Self::spec_spinner_frames());
        }
        r
    }

    /// Reload the article cache from the store and clamp the cursor back
    /// under the filtered count.
    fn reload_articles(&mut self)
        requires
            old(self).store.wf(),
        ensures
            final(self).wf(),
            final(self).articles@.to_multiset() =~= old(self).store.articles@.to_multiset(),
            *final(self) == (Session {
                articles: final(self).articles,
                selected_index: final(self).selected_index,
                ..*old(self)
            }),
    {
        self.articles = self.store.get_all_articles_sorted();
        let flen = self.filtered_articles().len();
        if flen == 0 {
            self.selected_index = 0;
        } else if self.selected_index >= flen {
            self.selected_index = flen - 1;
        }
    }

    /// What selection change resets: the summary pane is repopulated from
    /// the cache (cache-first), the bookmark flag is looked up afresh, and
    /// the read timer is re-armed at `now_ms`.
    fn on_selection_changed(&mut self, now_ms: i64)
        requires
            old(self).wf(),
        ensures
            final(self).wf(),
            selection_changed_post(*old(self), *final(self), now_ms),
    {
        self.summary_status = SummaryStatus::NotGenerated;
        self.current_summary = None;
        self.is_saved_to_raindrop = false;
        self.selection_time = Some(now_ms);
        let selected = self.selected_article();
        if let Some(a) = selected {
            self.is_saved_to_raindrop = self.store.is_saved_to_raindrop(a.id);
            if let Some(summary) = self.store.get_summary(a.id) {
                self.current_summary = Some(summary);
                self.summary_status = SummaryStatus::Generated;
            }
        }
    }
}

/// Whether some article in the list carries this id.
pub open spec fn has_article_id(s: Seq<Article>, id: i64) -> bool {
    exists|i: int| 0 <= i < s.len() && s[i].id == id
}

/// The feed-supplied body of an article: its plain text when present, else
/// its markup body, else empty.
pub open spec fn spec_fallback_content(a: Article) -> Seq<char> {
    match a.content_text {
        Some(t) => t@,
        None => match a.content {
            Some(c) => c@,
            None => Seq::<char>::empty(),
        },
    }
}

/// What selection change does: the summary pane is repopulated from the
/// cache (cache-first), the bookmark flag is looked up afresh, the read
/// timer is re-armed, and nothing else moves.
pub open spec fn selection_changed_post(pre: Session, post: Session, now_ms: i64) -> bool {
    &&& post == (Session {
        current_summary: post.current_summary,
        summary_status: post.summary_status,
        is_saved_to_raindrop: post.is_saved_to_raindrop,
        selection_time: Some(now_ms),
        ..pre
    })
    &&& match pre.spec_selected() {
        Some(a) => {
            &&& post.is_saved_to_raindrop == pre.store.spec_is_bookmarked(a.id)
            &&& pre.store.spec_has_summary_for(a.id) ==> {
                &&& post.summary_status == SummaryStatus::Generated
                &&& post.current_summary matches Some(s) && s.article_id == a.id
                    && pre.store.spec_is_stored_summary(s)
            }
            &&& !pre.store.spec_has_summary_for(a.id) ==> {
                &&& post.summary_status == SummaryStatus::NotGenerated
                &&& post.current_summary is None
            }
        },
        None => {
            &&& !post.is_saved_to_raindrop
            &&& post.summary_status == SummaryStatus::NotGenerated
            &&& post.current_summary is None
        },
    }
}

/// What asking for a summary does: a missing backend rejects the request
/// with `NoApiKey` and no job; no selection changes nothing; a cached
/// summary is shown without invoking the backend; otherwise the article is
/// marked read, becomes the single pending target, and the job to dispatch
/// comes back as the command.
pub open spec fn generate_summary_post(pre: Session, post: Session, cmd: Command) -> bool {
    &&& !pre.has_summarizer ==> {
        &&& post == (Session { summary_status: SummaryStatus::NoApiKey, ..pre })
        &&& cmd is Idle
    }
    &&& pre.has_summarizer && pre.spec_selected() is None ==> {
        &&& post == pre
        &&& cmd is Idle
    }
    &&& pre.spec_selected() matches Some(a) ==> {
        &&& (pre.has_summarizer && pre.store.spec_has_summary_for(a.id)) ==> {
            &&& post == (Session {
                current_summary: post.current_summary,
                summary_status: SummaryStatus::Generated,
                ..pre
            })
            &&& post.current_summary matches Some(s) && s.article_id == a.id
                && pre.store.spec_is_stored_summary(s)
            &&& cmd is Idle
        }
        &&& (pre.has_summarizer && !pre.store.spec_has_summary_for(a.id)) ==> {
            &&& post == (Session {
                store: post.store,
                summary_status: SummaryStatus::Generating,
                pending_summary_article_id: Some(a.id),
                ..pre
            })
            &&& crate::store::mark_read_post(pre.store, post.store, a.id, true)
            &&& cmd matches Command::DispatchSummary(job) && job.article_id == a.id && job.title
                == a.title && job.url == a.url && job.fallback_content@ == spec_fallback_content(a)
        }
    }
}

/// What reloading the article cache does: the cache again holds exactly the
/// stored articles, in display order, and the cursor is clamped back under
/// the filtered count; nothing else moves.
pub open spec fn reload_post(pre: Session, post: Session) -> bool {
    &&& post == (Session {
        articles: post.articles,
        selected_index: post.selected_index,
        ..pre
    })
    &&& post.articles@.to_multiset() =~= pre.store.articles@.to_multiset()
    &&& post.spec_filtered().len() == 0 ==> post.selected_index == 0
    &&& post.spec_filtered().len() > 0 ==> (post.selected_index as int)
        < post.spec_filtered().len()
}

impl Session {
    fn article_listed(&self, id: i64) -> (r: bool)
        ensures
            r == has_article_id(self.articles@, id),
    {
        let mut k: usize = 0;
        while k < self.articles.len()
            invariant
                k <= self.articles@.len(),
                forall|i: int| 0 <= i < k ==> self.articles@[i].id != id,
            decreases self.articles@.len() - k,
        {
            if self.articles[k].id == id {
                return true;
            }
            k += 1;
        }
        false
    }

    /// Ask for a summary of the selected article. Without a configured
    /// backend the request is rejected with the `NoApiKey` status and no job
    /// is created. A cached summary short-circuits before any job: it is
    /// shown and the backend is never invoked. Otherwise the article is
    /// marked read in the store at once (not reverted on failure), the
    /// status moves to `Generating`, the article becomes the single pending
    /// target, and the job to run comes back as the command.
    pub fn generate_summary(&mut self) -> (cmd: Command)
        requires
            old(self).wf(),
        ensures
            final(self).wf(),
            generate_summary_post(*old(self), *final(self), cmd),
    {
        if !self.has_summarizer {
            self.summary_status = SummaryStatus::NoApiKey;
            return Command::Idle;
        }
        let selected = self.selected_article();
        let a = match selected {
            Some(a) => a,
            None => {
                return Command::Idle;
            },
        };
        if let Some(summary) = self.store.get_summary(a.id) {
            self.current_summary = Some(summary);
            self.summary_status = SummaryStatus::Generated;
            return Command::Idle;
        }
        self.store.mark_article_read(a.id, true);
        let fallback: String = match a.content_text {
            Some(t) => t,
            None => match a.content {
                Some(c) => c,
                None => String::new(),
            },
        };
        self.summary_status = SummaryStatus::Generating;
        self.pending_summary_article_id = Some(a.id);
        Command::DispatchSummary(
            SummaryJob {
                article_id: a.id,
                title: a.title,
                url: a.url,
                fallback_content: fallback,
            },
        )
    }

    /// Drain one completion, if the non-blocking receive produced one. A
    /// result is applied only if its article id still matches the recorded
    /// pending target; otherwise it is discarded whole and the session is
    /// left exactly as it was. A matching success for an article that has
    /// since left the article list is discarded and the status resets to
    /// `NotGenerated`, with nothing persisted. A matching success for a
    /// listed article is persisted (insert-or-update) and shown. A matching
    /// failure only moves the status to `Failed`. The pending target is
    /// cleared on every applied path.
    pub fn poll_summary_result(&mut self, received: Option<crate::models::SummaryResult>, now: i64)
        requires
            old(self).wf(),
        ensures
            final(self).wf(),
            received is None ==> *final(self) == *old(self),
            received matches Some(res) ==> {
                &&& old(self).pending_summary_article_id != Some(res.article_id) ==> *final(self)
                    == *old(self)
                &&& old(self).pending_summary_article_id == Some(res.article_id) ==> {
                    &&& final(self).pending_summary_article_id is None
                    &&& res.result matches Ok(p) ==> {
                        &&& has_article_id(old(self).articles@, res.article_id) ==> {
                            &&& *final(self) == (Session {
                                store: final(self).store,
                                current_summary: final(self).current_summary,
                                summary_status: SummaryStatus::Generated,
                                pending_summary_article_id: None,
                                ..*old(self)
                            })
                            &&& crate::store::save_summary_post(
                                old(self).store,
                                final(self).store,
                                res.article_id,
                                p.0,
                                p.1,
                                now,
                            ) || final(self).store == old(self).store
                            &&& final(self).current_summary matches Some(s) && s.article_id
                                == res.article_id && s.content == p.0 && s.model_version == p.1
                        }
                        &&& !has_article_id(old(self).articles@, res.article_id) ==> *final(self)
                            == (Session {
                            summary_status: SummaryStatus::NotGenerated,
                            pending_summary_article_id: None,
                            ..*old(self)
                        })
                    }
                    &&& res.result is Err ==> *final(self) == (Session {
                        summary_status: SummaryStatus::Failed,
                        pending_summary_article_id: None,
                        ..*old(self)
                    })
                }
            },
    {
        let res = match received {
            Some(res) => res,
            None => {
                return ;
            },
        };
        let matches_pending = match self.pending_summary_article_id {
            Some(pending) => pending == res.article_id,
            None => false,
        };
        if !matches_pending {
            return ;
        }
        match res.result {
            Ok((summary_text, model)) => {
                if self.article_listed(res.article_id) {
                    let _ = self.store.save_summary(
                        res.article_id,
                        summary_text.clone(),
                        model.clone(),
                        now,
                    );
                    self.current_summary = Some(
                        crate::models::Summary {
                            id: 0,
                            article_id: res.article_id,
                            content: summary_text,
                            model_version: model,
                            generated_at: now,
                        },
                    );
                    self.summary_status = SummaryStatus::Generated;
                } else {
                    self.summary_status = SummaryStatus::NotGenerated;
                }
            },
            Err(_) => {
                self.summary_status = SummaryStatus::Failed;
            },
        }
        self.pending_summary_article_id = None;
    }

    /// Fire the read timer: once the selection has stood for two seconds,
    /// the selected article is marked read in the store (the cache is not
    /// reloaded, so it stays visible) and the timer is cleared so it does
    /// not fire again.
    pub fn check_read_timer(&mut self, now_ms: i64)
        requires
            old(self).wf(),
            now_ms >= 0,
        ensures
            final(self).wf(),
            old(self).selection_time is None ==> *final(self) == *old(self),
            old(self).selection_time matches Some(t) && now_ms - t < READ_TIMER_MS ==> *final(self)
                == *old(self),
            old(self).selection_time matches Some(t) && now_ms - t >= READ_TIMER_MS ==> {
                &&& *final(self) == (Session {
                    store: final(self).store,
                    selection_time: None,
                    ..*old(self)
                })
                &&& match old(self).spec_selected() {
                    Some(a) => {
                        if !a.is_read {
                            crate::store::mark_read_post(
                                old(self).store,
                                final(self).store,
                                a.id,
                                true,
                            )
                        } else {
                            final(self).store == old(self).store
                        }
                    },
                    None => final(self).store == old(self).store,
                }
            },
    {
        let t = match self.selection_time {
            Some(t) => t,
            None => {
                return ;
            },
        };
        if now_ms - READ_TIMER_MS >= t {
            let selected = self.selected_article();
            if let Some(a) = selected {
                if !a.is_read {
                    self.store.mark_article_read(a.id, true);
                }
            }
            self.selection_time = None;
        }
    }
}

/// The body text an article offers: its plain text when present, else its
/// markup body, else nothing.
pub open spec fn spec_body_opt(a: Article) -> Option<Seq<char>> {
    match a.content_text {
        Some(t) => Some(t@),
        None => match a.content {
            Some(c) => Some(c@),
            None => None,
        },
    }
}

/// The excerpt forwarded with a bookmark: the cleaned first sentence of the
/// shown summary when that yields text, else the first sentence of the
/// article's own body, else nothing.
pub open spec fn spec_excerpt(a: Article, cs: Option<Summary>) -> Option<Seq<char>> {
    let from_body = match spec_body_opt(a) {
        Some(c) => Some(crate::textutil::first_sentence(c)),
        None => None,
    };
    match cs {
        Some(su) => if crate::textutil::cleaned_excerpt(su.content@).len() > 0 {
            Some(crate::textutil::cleaned_excerpt(su.content@))
        } else {
            from_body
        },
        None => from_body,
    }
}

/// What the bookmark request for `a` carries, given the session's tag entry
/// and shown summary.
pub open spec fn bookmark_job_post(pre: Session, a: Article, job: BookmarkJob) -> bool {
    &&& job.article_id == a.id
    &&& job.url == a.url
    &&& job.title == a.title
    &&& job.tags.deep_view() == crate::textutil::parsed_tags(pre.tag_input@)
    &&& job.tags_text@ == pre.tag_input@
    &&& match job.note {
        Some(n) => pre.current_summary matches Some(su) && n@ == su.content@,
        None => pre.current_summary is None,
    }
    &&& match job.excerpt {
        Some(e) => spec_excerpt(a, pre.current_summary) == Some(e@),
        None => spec_excerpt(a, pre.current_summary) is None,
    }
}

/// The compose body for mailing an article: its title and address, the
/// shown summary when there is one, and the article's own text when it has
/// any.
pub open spec fn spec_email_body(a: Article, cs: Option<Summary>) -> Seq<char> {
    let base = "Title: "@ + a.title@ + "\n\nURL: "@ + a.url@ + "\n"@;
    let mid = match cs {
        Some(su) => base + "\nAI Summary:\n"@ + su.content@ + "\n"@,
        None => base,
    };
    match spec_body_opt(a) {
        Some(c) => mid + "\nArticle Content:\n"@ + c,
        None => mid,
    }
}

/// The compose address for mailing an article: subject and body
/// percent-encoded into a `mailto` reference.
pub open spec fn spec_mailto(a: Article, cs: Option<Summary>) -> Seq<char> {
    "mailto:?subject="@ + url_encoded(a.title@) + "&body="@ + url_encoded(
        spec_email_body(a, cs),
    )
}

/// The address feed discovery fetches for an entry: the entry as typed when
/// it names a scheme, otherwise with the secure scheme put in front.
pub open spec fn spec_normalized_url(t: Seq<char>) -> Seq<char> {
    if spec_has_prefix(t, "http://"@) || spec_has_prefix(t, "https://"@) {
        t
    } else {
        "https://"@ + t
    }
}

/// A copy of a feed list.
fn clone_feeds(v: &Vec<Feed>) -> (r: Vec<Feed>)
    ensures
        r@ =~= v@,
{
    let mut out: Vec<Feed> = Vec::new();
    let mut k: usize = 0;
    while k < v.len()
        invariant
            k <= v@.len(),
            out@ =~= v@.subrange(0, k as int),
        decreases v@.len() - k,
    {
        out.push(v[k].clone());
        k += 1;
    }
    proof {
        assert(v@.subrange(0, v@.len() as int) =~= v@);
    }
    out
}

/// The first sentence of the article's own body, for an excerpt, when the
/// article has any text.
fn body_excerpt(a: &Article) -> (r: Option<String>)
    ensures
        match r {
            Some(e) => (match spec_body_opt(*a) {
                Some(c) => e@ == crate::textutil::first_sentence(c),
                None => false,
            }),
            None => spec_body_opt(*a) is None,
        },
{
    let text = match &a.content_text {
        Some(t) => t.clone(),
        None => match &a.content {
            Some(c) => c.clone(),
            None => {
                return None;
            },
        },
    };
    let cs = crate::textutil::chars_of(text.as_str());
    let sent = crate::textutil::get_first_sentence(&cs);
    Some(crate::textutil::string_of(&sent))
}

/// Build the compose address for mailing an article.
fn build_mailto(a: &Article, cs: &Option<Summary>) -> (r: String)
    ensures
        r@ == spec_mailto(*a, *cs),
{
    let mut body = String::new();
    body.append("Title: ");
    body.append(a.title.as_str());
    body.append("\n\nURL: ");
    body.append(a.url.as_str());
    body.append("\n");
    if let Some(su) = cs {
        body.append("\nAI Summary:\n");
        body.append(su.content.as_str());
        body.append("\n");
    }
    match &a.content_text {
        Some(t) => {
            body.append("\nArticle Content:\n");
            body.append(t.as_str());
        },
        None => match &a.content {
            Some(c) => {
                body.append("\nArticle Content:\n");
                body.append(c.as_str());
            },
            None => {},
        },
    }
    proof {
        assert(body@ =~= spec_email_body(*a, *cs));
    }
    let subject = crate::ext::url_encode(a.title.as_str());
    let encoded_body = crate::ext::url_encode(body.as_str());
    let mut out = String::new();
    out.append("mailto:?subject=");
    out.append(subject.as_str());
    out.append("&body=");
    out.append(encoded_body.as_str());
    proof {
        assert(out@ =~= spec_mailto(*a, *cs));
    }
    out
}

/// What each action does: the full transition table of the session state
/// machine, one arm per action.
pub open spec fn handle_action_post(
    pre: Session,
    post: Session,
    action: crate::keys::AppAction,
    now_ms: i64,
    cmd: Command,
) -> bool {
    match action {
        crate::keys::AppAction::Quit => (post == pre && cmd is Idle),
        crate::keys::AppAction::MoveUp => (cmd is Idle && (
            if pre.spec_filtered().len() > 0 && pre.selected_index > 0 {
                selection_changed_post(
                    Session {
                        selected_index: (pre.selected_index - 1) as usize,
                        ..pre
                    },
                    post,
                    now_ms,
                )
            } else {
                post == pre
            })),
        crate::keys::AppAction::MoveDown => (cmd is Idle && (
            if pre.spec_filtered().len() > 0 && (pre.selected_index as int) < pre.spec_filtered().len() - 1 {
                selection_changed_post(
                    Session {
                        selected_index: (pre.selected_index + 1) as usize,
                        ..pre
                    },
                    post,
                    now_ms,
                )
            } else {
                post == pre
            })),
        crate::keys::AppAction::MoveToTop => (cmd is Idle && (
            if pre.spec_filtered().len() > 0 {
                selection_changed_post(
                    Session { selected_index: 0, ..pre },
                    post,
                    now_ms,
                )
            } else {
                post == pre
            })),
        crate::keys::AppAction::MoveToBottom => (cmd is Idle && (
            if pre.spec_filtered().len() > 0 {
                selection_changed_post(
                    Session {
                        selected_index: (pre.spec_filtered().len() - 1) as usize,
                        ..pre
                    },
                    post,
                    now_ms,
                )
            } else {
                post == pre
            })),
        crate::keys::AppAction::SelectArticle => (generate_summary_post(pre, post, cmd)),
        crate::keys::AppAction::RegenerateSummary => (generate_summary_post(
                Session {
                    summary_status: SummaryStatus::NotGenerated,
                    current_summary: None,
                    ..pre
                },
                post,
                cmd,
            )),
        crate::keys::AppAction::RefreshFeeds => ({
                &&& post == (Session { is_refreshing: true, ..pre })
                &&& cmd matches Command::StartRefresh(fs) && fs@ =~= pre.feeds@
            }),
        crate::keys::AppAction::ToggleStarred => (cmd is Idle && (match pre.spec_selected() {
                Some(a) => crate::store::toggle_star_post(
                    pre.store,
                    post.store,
                    a.id,
                ) && reload_post(
                    Session { store: post.store, ..pre },
                    post,
                ),
                None => post == pre,
            })),
        crate::keys::AppAction::ToggleRead => (cmd is Idle && (match pre.spec_selected() {
                Some(a) => crate::store::mark_read_post(
                    pre.store,
                    post.store,
                    a.id,
                    !a.is_read,
                ) && reload_post(
                    Session { store: post.store, ..pre },
                    post,
                ),
                None => post == pre,
            })),
        crate::keys::AppAction::OpenInBrowser => (post == pre && (match pre.spec_selected() {
                Some(a) => cmd matches Command::OpenUrl(u) && u == a.url,
                None => cmd is Idle,
            })),
        crate::keys::AppAction::EmailArticle => (post == pre && (match pre.spec_selected() {
                Some(a) => cmd matches Command::OpenMailto(m) && m@ == spec_mailto(
                    a,
                    pre.current_summary,
                ),
                None => cmd is Idle,
            })),
        crate::keys::AppAction::SaveToRaindrop => (cmd is Idle && (
            if pre.has_raindrop && pre.spec_selected() is Some {
                post == (Session {
                    mode: InputMode::TagInput,
                    tag_input: post.tag_input,
                    ..pre
                }) && post.tag_input@ =~= Seq::<char>::empty()
            } else {
                post == pre
            })),
        crate::keys::AppAction::CycleFilter => (cmd is Idle && selection_changed_post(
                Session { filter: pre.filter.spec_cycle(), selected_index: 0, ..pre },
                post,
                now_ms,
            )),
        crate::keys::AppAction::DeleteArticle => (cmd is Idle && (match pre.spec_selected() {
                Some(a) => {
                    &&& crate::store::delete_article_post(
                        pre.store,
                        post.store,
                        a.id,
                    )
                    &&& post.articles@ =~= pre.articles@.filter(
                        |x: Article| x.id != a.id,
                    )
                    &&& post == (Session {
                        store: post.store,
                        articles: post.articles,
                        selected_index: post.selected_index,
                        summary_status: SummaryStatus::NotGenerated,
                        current_summary: None,
                        ..pre
                    })
                },
                None => post == pre,
            })),
        crate::keys::AppAction::DeleteFeed => (post == pre && cmd is Idle),
        crate::keys::AppAction::UndeleteArticle => (post == pre && cmd is Idle),
        crate::keys::AppAction::ShowHelp => (post == (Session { show_help: true, ..pre })
                && cmd is Idle),
        crate::keys::AppAction::HideHelp => (post == (Session { show_help: false, ..pre })
                && cmd is Idle),
        crate::keys::AppAction::TagInputChar(c) => (cmd is Idle && post
                == (Session { tag_input: post.tag_input, ..pre }) && post.tag_input@ =~= pre.tag_input@.push(c)),
        crate::keys::AppAction::TagInputBackspace => (cmd is Idle && post == (Session {
                tag_input: post.tag_input,
                ..pre
            }) && post.tag_input@ =~= (if pre.tag_input@.len() > 0 {
                pre.tag_input@.take(pre.tag_input@.len() - 1)
            } else {
                pre.tag_input@
            })),
        crate::keys::AppAction::TagInputConfirm => ({
                &&& post == (Session {
                    mode: InputMode::Normal,
                    tag_input: post.tag_input,
                    ..pre
                })
                &&& post.tag_input@ =~= Seq::<char>::empty()
                &&& (if pre.has_raindrop && pre.spec_selected() is Some {
                    cmd matches Command::SaveBookmark(job) && bookmark_job_post(
                        pre,
                        pre.spec_selected()->0,
                        job,
                    )
                } else {
                    cmd is Idle
                })
            }),
        crate::keys::AppAction::TagInputCancel => (cmd is Idle && post == (Session {
                mode: InputMode::Normal,
                tag_input: post.tag_input,
                ..pre
            }) && post.tag_input@ =~= Seq::<char>::empty()),
        crate::keys::AppAction::AddFeed => (cmd is Idle && post == (Session {
                mode: InputMode::FeedInput,
                feed_input: post.feed_input,
                feed_input_status: None,
                ..pre
            }) && post.feed_input@ =~= Seq::<char>::empty()),
        crate::keys::AppAction::FeedInputChar(c) => (cmd is Idle && post == (Session { feed_input: post.feed_input, ..pre }) && post.feed_input@ =~= pre.feed_input@.push(c)),
        crate::keys::AppAction::FeedInputBackspace => (cmd is Idle && post == (Session {
                feed_input: post.feed_input,
                ..pre
            }) && post.feed_input@ =~= (if pre.feed_input@.len() > 0 {
                pre.feed_input@.take(pre.feed_input@.len() - 1)
            } else {
                pre.feed_input@
            })),
        crate::keys::AppAction::FeedInputConfirm => ({
                let entry = crate::textutil::spec_trimmed(pre.feed_input@);
                if entry.len() == 0 {
                    post == (Session { mode: InputMode::Normal, ..pre }) && cmd
                        is Idle
                } else {
                    post == (Session {
                        feed_input_status: Some(FeedInputStatus::Discovering),
                        ..pre
                    }) && (cmd matches Command::Discover(u) && u@ == spec_normalized_url(entry))
                }
            }),
        crate::keys::AppAction::FeedInputCancel => (cmd is Idle && post == (Session {
                mode: InputMode::Normal,
                feed_input: post.feed_input,
                feed_input_status: None,
                ..pre
            }) && post.feed_input@ =~= Seq::<char>::empty()),
        crate::keys::AppAction::ImportOpmlStart => (cmd is Idle && post == (Session {
                mode: InputMode::OpmlImportInput,
                opml_input: post.opml_input,
                opml_input_status: None,
                ..pre
            }) && post.opml_input@ =~= Seq::<char>::empty()),
        crate::keys::AppAction::OpmlInputChar(c) => (cmd is Idle && post == (Session { opml_input: post.opml_input, ..pre }) && post.opml_input@ =~= pre.opml_input@.push(c)),
        crate::keys::AppAction::OpmlInputBackspace => (cmd is Idle && post == (Session {
                opml_input: post.opml_input,
                ..pre
            }) && post.opml_input@ =~= (if pre.opml_input@.len() > 0 {
                pre.opml_input@.take(pre.opml_input@.len() - 1)
            } else {
                pre.opml_input@
            })),
        crate::keys::AppAction::OpmlInputConfirm => ({
                let entry = crate::textutil::spec_trimmed(pre.opml_input@);
                if entry.len() == 0 {
                    post == (Session {
                        opml_input_status: Some(OpmlInputStatus::EmptyPath),
                        ..pre
                    }) && cmd is Idle
                } else {
                    post == (Session {
                        opml_input_status: Some(OpmlInputStatus::Importing),
                        ..pre
                    }) && (cmd matches Command::ImportOpml(p) && p@ == entry)
                }
            }),
        crate::keys::AppAction::OpmlInputCancel => (cmd is Idle && post == (Session {
                mode: InputMode::Normal,
                opml_input: post.opml_input,
                opml_input_status: None,
                ..pre
            }) && post.opml_input@ =~= Seq::<char>::empty()),
        crate::keys::AppAction::ExportOpmlStart => (cmd is Idle && post == (Session {
                mode: InputMode::OpmlExportInput,
                opml_export_input: post.opml_export_input,
                opml_input_status: None,
                ..pre
            }) && post.opml_export_input@ =~= Seq::<char>::empty()),
        crate::keys::AppAction::OpmlExportChar(c) => (cmd is Idle && post == (Session { opml_export_input: post.opml_export_input, ..pre })
                && post.opml_export_input@ =~= pre.opml_export_input@.push(c)),
        crate::keys::AppAction::OpmlExportBackspace => (cmd is Idle && post == (Session {
                opml_export_input: post.opml_export_input,
                ..pre
            }) && post.opml_export_input@ =~= (if pre.opml_export_input@.len() > 0 {
                pre.opml_export_input@.take(pre.opml_export_input@.len() - 1)
            } else {
                pre.opml_export_input@
            })),
        crate::keys::AppAction::OpmlExportConfirm => ({
                let entry = crate::textutil::spec_trimmed(pre.opml_export_input@);
                if entry.len() == 0 {
                    post == (Session { mode: InputMode::Normal, ..pre }) && cmd
                        is Idle
                } else {
                    post == (Session {
                        mode: InputMode::Normal,
                        opml_export_input: post.opml_export_input,
                        ..pre
                    }) && post.opml_export_input@ =~= Seq::<char>::empty() && (
                    cmd matches Command::ExportOpml(p) && p@ == entry)
                }
            }),
        crate::keys::AppAction::OpmlExportCancel => (cmd is Idle && post == (Session {
                mode: InputMode::Normal,
                opml_export_input: post.opml_export_input,
                ..pre
            }) && post.opml_export_input@ =~= Seq::<char>::empty()),
    }
}

impl Session {
    /// Build the bookmark request for an article from the tag entry and the
    /// shown summary.
    fn build_bookmark_job(&self, a: Article) -> (job: BookmarkJob)
        ensures
            bookmark_job_post(*self, a, job),
    {
        let tags = crate::textutil::parse_tags(&self.tag_input);
        let tags_text = crate::textutil::string_of(&self.tag_input);
        let note: Option<String> = match &self.current_summary {
            Some(su) => Some(su.content.clone()),
            None => None,
        };
        let excerpt: Option<String> = match &self.current_summary {
            Some(su) => {
                let sc = crate::textutil::chars_of(su.content.as_str());
                let cleaned = crate::textutil::clean_summary_for_excerpt(&sc);
                if cleaned.len() > 0 {
                    Some(crate::textutil::string_of(&cleaned))
                } else {
                    body_excerpt(&a)
                }
            },
            None => body_excerpt(&a),
        };
        BookmarkJob {
            article_id: a.id,
            url: a.url,
            title: a.title,
            excerpt: excerpt,
            note: note,
            tags: tags,
            tags_text: tags_text,
        }
    }

    /// Remove one article from the cached list, keeping order, and clamp the
    /// cursor back under the filtered count.
    fn retain_cache_without(&mut self, id: i64)
        requires
            old(self).store.wf(),
        ensures
            final(self).wf(),
            final(self).articles@ =~= old(self).articles@.filter(|x: Article| x.id != id),
            *final(self) == (Session {
                articles: final(self).articles,
                selected_index: final(self).selected_index,
                ..*old(self)
            }),
            (final(self).selected_index as int) == (if final(self).spec_filtered().len() == 0 {
                0
            } else if (old(self).selected_index as int) < final(self).spec_filtered().len() {
                old(self).selected_index as int
            } else {
                final(self).spec_filtered().len() - 1
            }),
    {
        let mut kept: Vec<Article> = Vec::new();
        let mut k: usize = 0;
        while k < self.articles.len()
            invariant
                k <= self.articles@.len(),
                kept@ =~= self.articles@.subrange(0, k as int).filter(|x: Article| x.id != id),
            decreases self.articles@.len() - k,
        {
            let a = self.articles[k].clone();
            proof {
                assert(self.articles@.subrange(0, (k + 1) as int) =~= self.articles@.subrange(
                    0,
                    k as int,
                ).push(self.articles@[k as int]));
                lemma_filter_push(
                    self.articles@.subrange(0, k as int),
                    |x: Article| x.id != id,
                    self.articles@[k as int],
                );
            }
            if a.id != id {
                kept.push(a);
            }
            k += 1;
        }
        proof {
            assert(self.articles@.subrange(0, self.articles@.len() as int) =~= self.articles@);
        }
        self.articles = kept;
        let flen = self.filtered_articles().len();
        if flen == 0 {
            self.selected_index = 0;
        } else if self.selected_index >= flen {
            self.selected_index = flen - 1;
        }
    }

    /// Take one discrete action. The returned flag asks the caller to quit;
    /// the returned command is the one unit of outside work the action
    /// requires. What each action does is stated by `handle_action_post`,
    /// the transition table; every transition keeps the session invariant,
    /// and actions that need a selection or a configured service degrade to
    /// no change.
    pub fn handle_action(&mut self, action: crate::keys::AppAction, now_ms: i64) -> (r: (
        bool,
        Command,
    ))
        requires
            old(self).wf(),
        ensures
            final(self).wf(),
            old(self).spec_same_config(*final(self)),
            r.0 == (action is Quit),
            handle_action_post(*old(self), *final(self), action, now_ms, r.1),
    {
        match action {
            crate::keys::AppAction::Quit => (true, Command::Idle),
            crate::keys::AppAction::MoveUp => (false, self.act_move_up(now_ms)),
            crate::keys::AppAction::MoveDown => (false, self.act_move_down(now_ms)),
            crate::keys::AppAction::MoveToTop => (false, self.act_move_to_top(now_ms)),
            crate::keys::AppAction::MoveToBottom => (false, self.act_move_to_bottom(now_ms)),
            crate::keys::AppAction::SelectArticle => (false, self.act_select_article(now_ms)),
            crate::keys::AppAction::RegenerateSummary => (false, self.act_regenerate_summary(now_ms)),
            crate::keys::AppAction::RefreshFeeds => (false, self.act_refresh_feeds(now_ms)),
            crate::keys::AppAction::ToggleStarred => (false, self.act_toggle_starred(now_ms)),
            crate::keys::AppAction::ToggleRead => (false, self.act_toggle_read(now_ms)),
            crate::keys::AppAction::OpenInBrowser => (false, self.act_open_in_browser(now_ms)),
            crate::keys::AppAction::EmailArticle => (false, self.act_email_article(now_ms)),
            crate::keys::AppAction::SaveToRaindrop => (false, self.act_save_to_raindrop(now_ms)),
            crate::keys::AppAction::CycleFilter => (false, self.act_cycle_filter(now_ms)),
            crate::keys::AppAction::DeleteArticle => (false, self.act_delete_article(now_ms)),
            crate::keys::AppAction::DeleteFeed => (false, self.act_delete_feed(now_ms)),
            crate::keys::AppAction::UndeleteArticle => (false, self.act_undelete_article(now_ms)),
            crate::keys::AppAction::ShowHelp => (false, self.act_show_help(now_ms)),
            crate::keys::AppAction::HideHelp => (false, self.act_hide_help(now_ms)),
            crate::keys::AppAction::TagInputChar(c) => (false, self.act_tag_input_char(c, now_ms)),
            crate::keys::AppAction::TagInputBackspace => (false, self.act_tag_input_backspace(now_ms)),
            crate::keys::AppAction::TagInputConfirm => (false, self.act_tag_input_confirm(now_ms)),
            crate::keys::AppAction::TagInputCancel => (false, self.act_tag_input_cancel(now_ms)),
            crate::keys::AppAction::AddFeed => (false, self.act_add_feed(now_ms)),
            crate::keys::AppAction::FeedInputChar(c) => (false, self.act_feed_input_char(c, now_ms)),
            crate::keys::AppAction::FeedInputBackspace => (false, self.act_feed_input_backspace(now_ms)),
            crate::keys::AppAction::FeedInputConfirm => (false, self.act_feed_input_confirm(now_ms)),
            crate::keys::AppAction::FeedInputCancel => (false, self.act_feed_input_cancel(now_ms)),
            crate::keys::AppAction::ImportOpmlStart => (false, self.act_import_opml_start(now_ms)),
            crate::keys::AppAction::OpmlInputChar(c) => (false, self.act_opml_input_char(c, now_ms)),
            crate::keys::AppAction::OpmlInputBackspace => (false, self.act_opml_input_backspace(now_ms)),
            crate::keys::AppAction::OpmlInputConfirm => (false, self.act_opml_input_confirm(now_ms)),
            crate::keys::AppAction::OpmlInputCancel => (false, self.act_opml_input_cancel(now_ms)),
            crate::keys::AppAction::ExportOpmlStart => (false, self.act_export_opml_start(now_ms)),
            crate::keys::AppAction::OpmlExportChar(c) => (false, self.act_opml_export_char(c, now_ms)),
            crate::keys::AppAction::OpmlExportBackspace => (false, self.act_opml_export_backspace(now_ms)),
            crate::keys::AppAction::OpmlExportConfirm => (false, self.act_opml_export_confirm(now_ms)),
            crate::keys::AppAction::OpmlExportCancel => (false, self.act_opml_export_cancel(now_ms)),
        }
    }

    fn act_move_up(&mut self, now_ms: i64) -> (cmd: Command)
        requires
            old(self).wf(),
        ensures
            final(self).wf(),
            old(self).spec_same_config(*final(self)),
            handle_action_post(*old(self), *final(self), crate::keys::AppAction::MoveUp, now_ms, cmd),
    {

                let len = self.filtered_articles().len();
                if len > 0 && self.selected_index > 0 {
                    self.selected_index = self.selected_index - 1;
                    self.on_selection_changed(now_ms);
                }
                Command::Idle
    }

    fn act_move_down(&mut self, now_ms: i64) -> (cmd: Command)
        requires
            old(self).wf(),
        ensures
            final(self).wf(),
            old(self).spec_same_config(*final(self)),
            handle_action_post(*old(self), *final(self), crate::keys::AppAction::MoveDown, now_ms, cmd),
    {

                let len = self.filtered_articles().len();
                if len > 0 && self.selected_index < len - 1 {
                    self.selected_index = self.selected_index + 1;
                    self.on_selection_changed(now_ms);
                }
                Command::Idle
    }

    fn act_move_to_top(&mut self, now_ms: i64) -> (cmd: Command)
        requires
            old(self).wf(),
        ensures
            final(self).wf(),
            old(self).spec_same_config(*final(self)),
            handle_action_post(*old(self), *final(self), crate::keys::AppAction::MoveToTop, now_ms, cmd),
    {

                let len = self.filtered_articles().len();
                if len > 0 {
                    self.selected_index = 0;
                    self.on_selection_changed(now_ms);
                }
                Command::Idle
    }

    fn act_move_to_bottom(&mut self, now_ms: i64) -> (cmd: Command)
        requires
            old(self).wf(),
        ensures
            final(self).wf(),
            old(self).spec_same_config(*final(self)),
            handle_action_post(*old(self), *final(self), crate::keys::AppAction::MoveToBottom, now_ms, cmd),
    {

                let len = self.filtered_articles().len();
                if len > 0 {
                    self.selected_index = len - 1;
                    self.on_selection_changed(now_ms);
                }
                Command::Idle
    }

    fn act_select_article(&mut self, now_ms: i64) -> (cmd: Command)
        requires
            old(self).wf(),
        ensures
            final(self).wf(),
            old(self).spec_same_config(*final(self)),
            handle_action_post(*old(self), *final(self), crate::keys::AppAction::SelectArticle, now_ms, cmd),
    {
        self.generate_summary()
    }

    fn act_regenerate_summary(&mut self, now_ms: i64) -> (cmd: Command)
        requires
            old(self).wf(),
        ensures
            final(self).wf(),
            old(self).spec_same_config(*final(self)),
            handle_action_post(*old(self), *final(self), crate::keys::AppAction::RegenerateSummary, now_ms, cmd),
    {

                self.summary_status = SummaryStatus::NotGenerated;
                self.current_summary = None;
                self.generate_summary()
    }

    fn act_refresh_feeds(&mut self, now_ms: i64) -> (cmd: Command)
        requires
            old(self).wf(),
        ensures
            final(self).wf(),
            old(self).spec_same_config(*final(self)),
            handle_action_post(*old(self), *final(self), crate::keys::AppAction::RefreshFeeds, now_ms, cmd),
    {

                self.is_refreshing = true;
                Command::StartRefresh(clone_feeds(&self.feeds))
    }

    fn act_toggle_starred(&mut self, now_ms: i64) -> (cmd: Command)
        requires
            old(self).wf(),
        ensures
            final(self).wf(),
            old(self).spec_same_config(*final(self)),
            handle_action_post(*old(self), *final(self), crate::keys::AppAction::ToggleStarred, now_ms, cmd),
    {

                let selected = self.selected_article();
                if let Some(a) = selected {
                    self.store.toggle_article_starred(a.id);
                    self.reload_articles();
                }
                Command::Idle
    }

    fn act_toggle_read(&mut self, now_ms: i64) -> (cmd: Command)
        requires
            old(self).wf(),
        ensures
            final(self).wf(),
            old(self).spec_same_config(*final(self)),
            handle_action_post(*old(self), *final(self), crate::keys::AppAction::ToggleRead, now_ms, cmd),
    {

                let selected = self.selected_article();
                if let Some(a) = selected {
                    self.store.mark_article_read(a.id, !a.is_read);
                    self.reload_articles();
                }
                Command::Idle
    }

    fn act_open_in_browser(&mut self, now_ms: i64) -> (cmd: Command)
        requires
            old(self).wf(),
        ensures
            final(self).wf(),
            old(self).spec_same_config(*final(self)),
            handle_action_post(*old(self), *final(self), crate::keys::AppAction::OpenInBrowser, now_ms, cmd),
    {

                let selected = self.selected_article();
                match selected {
                    Some(a) => Command::OpenUrl(a.url),
                    None => Command::Idle,
                }
    }

    fn act_email_article(&mut self, now_ms: i64) -> (cmd: Command)
        requires
            old(self).wf(),
        ensures
            final(self).wf(),
            old(self).spec_same_config(*final(self)),
            handle_action_post(*old(self), *final(self), crate::keys::AppAction::EmailArticle, now_ms, cmd),
    {

                let selected = self.selected_article();
                match selected {
                    Some(a) => Command::OpenMailto(build_mailto(&a, &self.current_summary)),
                    None => Command::Idle,
                }
    }

    fn act_save_to_raindrop(&mut self, now_ms: i64) -> (cmd: Command)
        requires
            old(self).wf(),
        ensures
            final(self).wf(),
            old(self).spec_same_config(*final(self)),
            handle_action_post(*old(self), *final(self), crate::keys::AppAction::SaveToRaindrop, now_ms, cmd),
    {

                if self.has_raindrop && self.selected_article().is_some() {
                    self.mode = InputMode::TagInput;
                    self.tag_input = Vec::new();
                }
                Command::Idle
    }

    fn act_cycle_filter(&mut self, now_ms: i64) -> (cmd: Command)
        requires
            old(self).wf(),
        ensures
            final(self).wf(),
            old(self).spec_same_config(*final(self)),
            handle_action_post(*old(self), *final(self), crate::keys::AppAction::CycleFilter, now_ms, cmd),
    {

                self.filter = self.filter.cycle();
                self.selected_index = 0;
                self.on_selection_changed(now_ms);
                Command::Idle
    }

    fn act_delete_article(&mut self, now_ms: i64) -> (cmd: Command)
        requires
            old(self).wf(),
        ensures
            final(self).wf(),
            old(self).spec_same_config(*final(self)),
            handle_action_post(*old(self), *final(self), crate::keys::AppAction::DeleteArticle, now_ms, cmd),
    {

                let selected = self.selected_article();
                if let Some(a) = selected {
                    self.store.delete_article(a.id);
                    self.retain_cache_without(a.id);
                    self.summary_status = SummaryStatus::NotGenerated;
                    self.current_summary = None;
                }
                Command::Idle
    }

    fn act_delete_feed(&mut self, now_ms: i64) -> (cmd: Command)
        requires
            old(self).wf(),
        ensures
            final(self).wf(),
            old(self).spec_same_config(*final(self)),
            handle_action_post(*old(self), *final(self), crate::keys::AppAction::DeleteFeed, now_ms, cmd),
    {
        Command::Idle
    }

    fn act_undelete_article(&mut self, now_ms: i64) -> (cmd: Command)
        requires
            old(self).wf(),
        ensures
            final(self).wf(),
            old(self).spec_same_config(*final(self)),
            handle_action_post(*old(self), *final(self), crate::keys::AppAction::UndeleteArticle, now_ms, cmd),
    {
        Command::Idle
    }

    fn act_show_help(&mut self, now_ms: i64) -> (cmd: Command)
        requires
            old(self).wf(),
        ensures
            final(self).wf(),
            old(self).spec_same_config(*final(self)),
            handle_action_post(*old(self), *final(self), crate::keys::AppAction::ShowHelp, now_ms, cmd),
    {

                self.show_help = true;
                Command::Idle
    }

    fn act_hide_help(&mut self, now_ms: i64) -> (cmd: Command)
        requires
            old(self).wf(),
        ensures
            final(self).wf(),
            old(self).spec_same_config(*final(self)),
            handle_action_post(*old(self), *final(self), crate::keys::AppAction::HideHelp, now_ms, cmd),
    {

                self.show_help = false;
                Command::Idle
    }

    fn act_tag_input_char(&mut self, c: char, now_ms: i64) -> (cmd: Command)
        requires
            old(self).wf(),
        ensures
            final(self).wf(),
            old(self).spec_same_config(*final(self)),
            handle_action_post(*old(self), *final(self), crate::keys::AppAction::TagInputChar(c), now_ms, cmd),
    {

                self.tag_input.push(c);
                Command::Idle
    }

    fn act_tag_input_backspace(&mut self, now_ms: i64) -> (cmd: Command)
        requires
            old(self).wf(),
        ensures
            final(self).wf(),
            old(self).spec_same_config(*final(self)),
            handle_action_post(*old(self), *final(self), crate::keys::AppAction::TagInputBackspace, now_ms, cmd),
    {

                let _ = self.tag_input.pop();
                Command::Idle
    }

    fn act_tag_input_confirm(&mut self, now_ms: i64) -> (cmd: Command)
        requires
            old(self).wf(),
        ensures
            final(self).wf(),
            old(self).spec_same_config(*final(self)),
            handle_action_post(*old(self), *final(self), crate::keys::AppAction::TagInputConfirm, now_ms, cmd),
    {

                let mut cmd = Command::Idle;
                if self.has_raindrop {
                    let selected = self.selected_article();
                    if let Some(a) = selected {
                        cmd = Command::SaveBookmark(self.build_bookmark_job(a));
                    }
                }
                self.mode = InputMode::Normal;
                self.tag_input = Vec::new();
                cmd
    }

    fn act_tag_input_cancel(&mut self, now_ms: i64) -> (cmd: Command)
        requires
            old(self).wf(),
        ensures
            final(self).wf(),
            old(self).spec_same_config(*final(self)),
            handle_action_post(*old(self), *final(self), crate::keys::AppAction::TagInputCancel, now_ms, cmd),
    {

                self.mode = InputMode::Normal;
                self.tag_input = Vec::new();
                Command::Idle
    }

    fn act_add_feed(&mut self, now_ms: i64) -> (cmd: Command)
        requires
            old(self).wf(),
        ensures
            final(self).wf(),
            old(self).spec_same_config(*final(self)),
            handle_action_post(*old(self), *final(self), crate::keys::AppAction::AddFeed, now_ms, cmd),
    {

                self.mode = InputMode::FeedInput;
                self.feed_input = Vec::new();
                self.feed_input_status = None;
                Command::Idle
    }

    fn act_feed_input_char(&mut self, c: char, now_ms: i64) -> (cmd: Command)
        requires
            old(self).wf(),
        ensures
            final(self).wf(),
            old(self).spec_same_config(*final(self)),
            handle_action_post(*old(self), *final(self), crate::keys::AppAction::FeedInputChar(c), now_ms, cmd),
    {

                self.feed_input.push(c);
                Command::Idle
    }

    fn act_feed_input_backspace(&mut self, now_ms: i64) -> (cmd: Command)
        requires
            old(self).wf(),
        ensures
            final(self).wf(),
            old(self).spec_same_config(*final(self)),
            handle_action_post(*old(self), *final(self), crate::keys::AppAction::FeedInputBackspace, now_ms, cmd),
    {

                let _ = self.feed_input.pop();
                Command::Idle
    }

    fn act_feed_input_confirm(&mut self, now_ms: i64) -> (cmd: Command)
        requires
            old(self).wf(),
        ensures
            final(self).wf(),
            old(self).spec_same_config(*final(self)),
            handle_action_post(*old(self), *final(self), crate::keys::AppAction::FeedInputConfirm, now_ms, cmd),
    {

                let entry = crate::textutil::trimmed_chars(&self.feed_input);
                if entry.len() == 0 {
                    self.mode = InputMode::Normal;
                    return Command::Idle;
                }
                let http = crate::textutil::chars_of("http://");
                let https = crate::textutil::chars_of("https://");
                let url: String;
                if crate::textutil::has_char_prefix(&entry, &http) || crate::textutil::has_char_prefix(&entry, &https) {
                    url = crate::textutil::string_of(&entry);
                } else {
                    let mut full = String::new();
                    full.append("https://");
                    let tail = crate::textutil::string_of(&entry);
                    full.append(tail.as_str());
                    url = full;
                }
                self.feed_input_status = Some(FeedInputStatus::Discovering);
                Command::Discover(url)
    }

    fn act_feed_input_cancel(&mut self, now_ms: i64) -> (cmd: Command)
        requires
            old(self).wf(),
        ensures
            final(self).wf(),
            old(self).spec_same_config(*final(self)),
            handle_action_post(*old(self), *final(self), crate::keys::AppAction::FeedInputCancel, now_ms, cmd),
    {

                self.mode = InputMode::Normal;
                self.feed_input = Vec::new();
                self.feed_input_status = None;
                Command::Idle
    }

    fn act_import_opml_start(&mut self, now_ms: i64) -> (cmd: Command)
        requires
            old(self).wf(),
        ensures
            final(self).wf(),
            old(self).spec_same_config(*final(self)),
            handle_action_post(*old(self), *final(self), crate::keys::AppAction::ImportOpmlStart, now_ms, cmd),
    {

                self.mode = InputMode::OpmlImportInput;
                self.opml_input = Vec::new();
                self.opml_input_status = None;
                Command::Idle
    }

    fn act_opml_input_char(&mut self, c: char, now_ms: i64) -> (cmd: Command)
        requires
            old(self).wf(),
        ensures
            final(self).wf(),
            old(self).spec_same_config(*final(self)),
            handle_action_post(*old(self), *final(self), crate::keys::AppAction::OpmlInputChar(c), now_ms, cmd),
    {

                self.opml_input.push(c);
                Command::Idle
    }

    fn act_opml_input_backspace(&mut self, now_ms: i64) -> (cmd: Command)
        requires
            old(self).wf(),
        ensures
            final(self).wf(),
            old(self).spec_same_config(*final(self)),
            handle_action_post(*old(self), *final(self), crate::keys::AppAction::OpmlInputBackspace, now_ms, cmd),
    {

                let _ = self.opml_input.pop();
                Command::Idle
    }

    fn act_opml_input_confirm(&mut self, now_ms: i64) -> (cmd: Command)
        requires
            old(self).wf(),
        ensures
            final(self).wf(),
            old(self).spec_same_config(*final(self)),
            handle_action_post(*old(self), *final(self), crate::keys::AppAction::OpmlInputConfirm, now_ms, cmd),
    {

                let entry = crate::textutil::trimmed_chars(&self.opml_input);
                if entry.len() == 0 {
                    self.opml_input_status = Some(OpmlInputStatus::EmptyPath);
                    return Command::Idle;
                }
                self.opml_input_status = Some(OpmlInputStatus::Importing);
                Command::ImportOpml(entry)
    }

    fn act_opml_input_cancel(&mut self, now_ms: i64) -> (cmd: Command)
        requires
            old(self).wf(),
        ensures
            final(self).wf(),
            old(self).spec_same_config(*final(self)),
            handle_action_post(*old(self), *final(self), crate::keys::AppAction::OpmlInputCancel, now_ms, cmd),
    {

                self.mode = InputMode::Normal;
                self.opml_input = Vec::new();
                self.opml_input_status = None;
                Command::Idle
    }

    fn act_export_opml_start(&mut self, now_ms: i64) -> (cmd: Command)
        requires
            old(self).wf(),
        ensures
            final(self).wf(),
            old(self).spec_same_config(*final(self)),
            handle_action_post(*old(self), *final(self), crate::keys::AppAction::ExportOpmlStart, now_ms, cmd),
    {

                self.mode = InputMode::OpmlExportInput;
                self.opml_export_input = Vec::new();
                self.opml_input_status = None;
                Command::Idle
    }

    fn act_opml_export_char(&mut self, c: char, now_ms: i64) -> (cmd: Command)
        requires
            old(self).wf(),
        ensures
            final(self).wf(),
            old(self).spec_same_config(*final(self)),
            handle_action_post(*old(self), *final(self), crate::keys::AppAction::OpmlExportChar(c), now_ms, cmd),
    {

                self.opml_export_input.push(c);
                Command::Idle
    }

    fn act_opml_export_backspace(&mut self, now_ms: i64) -> (cmd: Command)
        requires
            old(self).wf(),
        ensures
            final(self).wf(),
            old(self).spec_same_config(*final(self)),
            handle_action_post(*old(self), *final(self), crate::keys::AppAction::OpmlExportBackspace, now_ms, cmd),
    {

                let _ = self.opml_export_input.pop();
                Command::Idle
    }

    fn act_opml_export_confirm(&mut self, now_ms: i64) -> (cmd: Command)
        requires
            old(self).wf(),
        ensures
            final(self).wf(),
            old(self).spec_same_config(*final(self)),
            handle_action_post(*old(self), *final(self), crate::keys::AppAction::OpmlExportConfirm, now_ms, cmd),
    {

                let entry = crate::textutil::trimmed_chars(&self.opml_export_input);
                if entry.len() == 0 {
                    self.mode = InputMode::Normal;
                    return Command::Idle;
                }
                self.mode = InputMode::Normal;
                self.opml_export_input = Vec::new();
                Command::ExportOpml(entry)
    }

    fn act_opml_export_cancel(&mut self, now_ms: i64) -> (cmd: Command)
        requires
            old(self).wf(),
        ensures
            final(self).wf(),
            old(self).spec_same_config(*final(self)),
            handle_action_post(*old(self), *final(self), crate::keys::AppAction::OpmlExportCancel, now_ms, cmd),
    {

                self.mode = InputMode::Normal;
                self.opml_export_input = Vec::new();
                Command::Idle
    }
}

/// Whether some cached feed carries this URL.
pub open spec fn cache_has_url(feeds: Seq<Feed>, url: Seq<char>) -> bool {
    exists|i: int| 0 <= i < feeds.len() && feeds[i].url@ == url
}

impl Session {
    /// Start a refresh of every known feed: the flag that gates refresh
    /// messaging goes up and the caller is handed the feed list to fetch,
    /// at most five at a time; the outcomes come back through
    /// `finish_refresh`.
    pub fn refresh_feeds(&mut self) -> (cmd: Command)
        requires
            old(self).wf(),
        ensures
            final(self).wf(),
            *final(self) == (Session { is_refreshing: true, ..*old(self) }),
            cmd matches Command::StartRefresh(fs) && fs@ =~= old(self).feeds@,
    {
        self.is_refreshing = true;
        Command::StartRefresh(clone_feeds(&self.feeds))
    }

    fn has_cached_feed_url(&self, url: &String) -> (r: bool)
        ensures
            r == cache_has_url(self.feeds@, url@),
    {
        let mut k: usize = 0;
        while k < self.feeds.len()
            invariant
                k <= self.feeds@.len(),
                forall|i: int| 0 <= i < k ==> self.feeds@[i].url@ != url@,
            decreases self.feeds@.len() - k,
        {
            if self.feeds[k].url == *url {
                return true;
            }
            k += 1;
        }
        false
    }

    /// Fold the outcome of feed discovery back in. No feed at the address
    /// only reports so. A discovered feed whose URL is already subscribed is
    /// rejected before insertion. A fresh feed is inserted, the feed cache
    /// reloaded, the input closed, and a refresh of all feeds handed back;
    /// a refused insert only reports so.
    pub fn on_discover_result(&mut self, found: Option<NewFeed>, now: i64) -> (cmd: Command)
        requires
            old(self).wf(),
        ensures
            final(self).wf(),
            old(self).spec_same_config(*final(self)),
            found is None ==> {
                &&& *final(self) == (Session {
                    feed_input_status: final(self).feed_input_status,
                    ..*old(self)
                })
                &&& final(self).feed_input_status matches Some(st) && st is NoFeedFound
                &&& cmd is Idle
            },
            found matches Some(feed) ==> {
                &&& cache_has_url(old(self).feeds@, feed.url@) ==> {
                    &&& *final(self) == (Session {
                        feed_input_status: final(self).feed_input_status,
                        ..*old(self)
                    })
                    &&& final(self).feed_input_status matches Some(st) && st matches
                        FeedInputStatus::AlreadyExists(t) && t == feed.title
                    &&& cmd is Idle
                }
                &&& (!cache_has_url(old(self).feeds@, feed.url@) && !old(self).store.spec_has_feed_url(feed.url@) && old(self).store.spec_feed_id_headroom())
                    ==> {
                    &&& *final(self) == (Session {
                        store: final(self).store,
                        feeds: final(self).feeds,
                        mode: InputMode::Normal,
                        feed_input: final(self).feed_input,
                        feed_input_status: final(self).feed_input_status,
                        is_refreshing: true,
                        ..*old(self)
                    })
                    &&& final(self).feed_input@ =~= Seq::<char>::empty()
                    &&& final(self).feed_input_status matches Some(st) && st matches
                        FeedInputStatus::Added(t) && t == feed.title
                    &&& final(self).feeds@ =~= final(self).store.feeds@
                    &&& final(self).store.feeds@.len() == old(self).store.feeds@.len() + 1
                    &&& forall|j: int|
                        0 <= j < old(self).store.feeds@.len() ==> final(self).store.feeds@[j]
                            == old(self).store.feeds@[j]
                    &&& final(self).store.feeds@.last().url == feed.url
                    &&& final(self).store.feeds@.last().title == feed.title
                    &&& final(self).store.feeds@.last().last_fetched is None
                    &&& cmd matches Command::StartRefresh(fs) && fs@ =~= final(self).feeds@
                }
                &&& (!cache_has_url(old(self).feeds@, feed.url@) && (old(self).store.spec_has_feed_url(feed.url@) || !old(self).store.spec_feed_id_headroom()))
                    ==> {
                    &&& *final(self) == (Session {
                        feed_input_status: final(self).feed_input_status,
                        ..*old(self)
                    })
                    &&& final(self).feed_input_status matches Some(st) && st is InsertError
                    &&& cmd is Idle
                }
            },
    {
        let feed = match found {
            Some(feed) => feed,
            None => {
                self.feed_input_status = Some(FeedInputStatus::NoFeedFound);
                return Command::Idle;
            },
        };
        if self.has_cached_feed_url(&feed.url) {
            self.feed_input_status = Some(FeedInputStatus::AlreadyExists(feed.title));
            return Command::Idle;
        }
        let title = feed.title.clone();
        let inserted = self.store.insert_feed(feed, now);
        match inserted {
            Ok(_) => {
                self.feed_input_status = Some(FeedInputStatus::Added(title));
                self.feeds = self.store.get_all_feeds();
                self.mode = InputMode::Normal;
                self.feed_input = Vec::new();
                self.is_refreshing = true;
                Command::StartRefresh(clone_feeds(&self.feeds))
            },
            Err(_) => {
                self.feed_input_status = Some(FeedInputStatus::InsertError);
                Command::Idle
            },
        }
    }

    /// Fold the outcomes of a refresh fan-out back into the store: each
    /// successful feed's articles are merged by natural key and its
    /// last-fetched time advances to `now`; a failed feed is left exactly as
    /// it was, so the next refresh retries it. Afterwards the retention
    /// sweep removes every stale article storage-wide, the article cache is
    /// reloaded whole from the store, and the refresh flag drops. The store
    /// passes through a fold (see `fold_post`) and then the sweep (see
    /// `sweep_post`); id headroom permitting, every fetched key all of whose
    /// articles are freshly published is stored afterwards.
    pub fn finish_refresh(&mut self, outcomes: Vec<crate::refresh::FeedFetchOutcome>, now: i64)
        requires
            old(self).wf(),
            now >= 0,
        ensures
            final(self).wf(),
            *final(self) == (Session {
                store: final(self).store,
                articles: final(self).articles,
                selected_index: final(self).selected_index,
                is_refreshing: false,
                ..*old(self)
            }),
            exists|mid: Store|
                #[trigger] crate::refresh::fold_post(old(self).store, mid, outcomes@, now)
                    && crate::store::sweep_post(mid, final(self).store, now),
            final(self).store.feeds@.len() == old(self).store.feeds@.len(),
            forall|j: int|
                0 <= j < old(self).store.feeds@.len() ==> final(self).store.feeds@[j] == (
                if crate::refresh::is_ok_feed(outcomes@, old(self).store.feeds@[j].id) {
                    Feed {
                        last_fetched: Some(now),
                        updated_at: now,
                        ..old(self).store.feeds@[j]
                    }
                } else {
                    old(self).store.feeds@[j]
                }),
            final(self).store.next_article_id < i64::MAX ==> forall|fid: i64, g: Seq<char>|
                #[trigger] crate::refresh::key_occurs(
                    crate::refresh::flat_articles(outcomes@),
                    fid,
                    g,
                ) && crate::refresh::key_all_fresh(
                    crate::refresh::flat_articles(outcomes@),
                    fid,
                    g,
                    now,
                ) ==> final(self).store.spec_has_article_key(fid, g),
            forall|i: int|
                0 <= i < final(self).store.articles@.len() ==> !crate::store::is_stale(
                    final(self).store.articles@[i],
                    now,
                ),
            forall|i: int|
                0 <= i < final(self).articles@.len() ==> !crate::store::is_stale(
                    final(self).articles@[i],
                    now,
                ),
            final(self).articles@.to_multiset() =~= final(self).store.articles@.to_multiset(),
    {
        let ghost snap = *self;
        let ghost flat_all = crate::refresh::flat_articles(outcomes@);
        let ghost mut fp = Seq::<NewArticle>::empty();
        let mut k: usize = 0;
        while k < outcomes.len()
            invariant
                snap == *old(self),
                snap.wf(),
                now >= 0,
                k <= outcomes@.len(),
                self.store.wf(),
                *self == (Session { store: self.store, ..snap }),
                self.store.summaries == snap.store.summaries,
                self.store.bookmarks == snap.store.bookmarks,
                self.store.next_summary_id == snap.store.next_summary_id,
                self.store.next_feed_id == snap.store.next_feed_id,
                snap.store.next_article_id <= self.store.next_article_id,
                flat_all == crate::refresh::flat_articles(outcomes@),
                fp =~= crate::refresh::flat_articles(outcomes@.subrange(0, k as int)),
                self.store.next_article_id < i64::MAX ==> crate::refresh::fresh_keys_folded(
                    self.store,
                    fp,
                    flat_all,
                    now,
                ),
                self.store.feeds@.len() == snap.store.feeds@.len(),
                forall|j: int|
                    0 <= j < snap.store.feeds@.len() ==> self.store.feeds@[j] == (
                    if crate::refresh::is_ok_feed(
                        outcomes@.subrange(0, k as int),
                        snap.store.feeds@[j].id,
                    ) {
                        Feed {
                            last_fetched: Some(now),
                            updated_at: now,
                            ..snap.store.feeds@[j]
                        }
                    } else {
                        snap.store.feeds@[j]
                    }),
            decreases outcomes@.len() - k,
        {
            let ghost feeds_before = self.store.feeds@;
            let ghost fp_k = fp;
            proof {
                assert(outcomes@ =~= outcomes@.subrange(0, (k + 1) as int) + outcomes@.subrange(
                    (k + 1) as int,
                    outcomes@.len() as int,
                ));
                crate::refresh::lemma_flat_concat(
                    outcomes@.subrange(0, (k + 1) as int),
                    outcomes@.subrange((k + 1) as int, outcomes@.len() as int),
                );
                assert(outcomes@.subrange(0, (k + 1) as int) =~= outcomes@.subrange(
                    0,
                    k as int,
                ).push(outcomes@[k as int]));
                crate::refresh::lemma_flat_push(
                    outcomes@.subrange(0, k as int),
                    outcomes@[k as int],
                );
            }
            let ghost rest = crate::refresh::flat_articles(
                outcomes@.subrange((k + 1) as int, outcomes@.len() as int),
            );
            proof {
                assert(flat_all =~= fp_k + crate::refresh::outcome_articles(outcomes@[k as int])
                    + rest);
            }
            let outcome = &outcomes[k];
            match &outcome.result {
                Ok(articles) => {
                    proof {
                        assert(crate::refresh::outcome_articles(outcomes@[k as int])
                            == articles@);
                    }
                    let mut a: usize = 0;
                    while a < articles.len()
                        invariant
                            now >= 0,
                            a <= articles@.len(),
                            self.store.wf(),
                            *self == (Session { store: self.store, ..snap }),
                            self.store.feeds@ == feeds_before,
                            self.store.summaries == snap.store.summaries,
                            self.store.bookmarks == snap.store.bookmarks,
                            self.store.next_summary_id == snap.store.next_summary_id,
                            self.store.next_feed_id == snap.store.next_feed_id,
                            snap.store.next_article_id <= self.store.next_article_id,
                            flat_all =~= fp_k + articles@ + rest,
                            fp =~= fp_k + articles@.subrange(0, a as int),
                            self.store.next_article_id < i64::MAX
                                ==> crate::refresh::fresh_keys_folded(
                                self.store,
                                fp,
                                flat_all,
                                now,
                            ),
                        decreases articles@.len() - a,
                    {
                        let ghost store_before = self.store;
                        let ghost fp_before = fp;
                        let article = articles[a].clone();
                        let r = self.store.upsert_article(article, now);
                        proof {
                            let x = articles@[a as int];
                            fp = fp.push(x);
                            assert(fp =~= fp_k + articles@.subrange(0, (a + 1) as int));
                            assert(flat_all[fp_k.len() + a as int] == x);
                            if self.store.next_article_id < i64::MAX {
                                assert(store_before.next_article_id < i64::MAX);
                                assert(r is Ok);
                                assert forall|fid: i64, g: Seq<char>|
                                    #[trigger] crate::refresh::key_occurs(fp, fid, g)
                                        && crate::refresh::key_all_fresh(
                                        flat_all,
                                        fid,
                                        g,
                                        now,
                                    ) implies self.store.spec_has_fresh_key(fid, g, now) by {
                                    if fid == x.feed_id && g == x.guid@ {
                                        assert(flat_all[fp_k.len() + a as int].feed_id == fid
                                            && flat_all[fp_k.len() + a as int].guid@ == g);
                                        assert(crate::refresh::fresh_published(x, now));
                                        if store_before.spec_has_article_key(fid, g) {
                                            let w = choose|i: int|
                                                0 <= i < store_before.articles@.len()
                                                    && crate::store::has_article_key(
                                                    store_before.articles@[i],
                                                    fid,
                                                    g,
                                                );
                                            assert(self.store.articles@[w]
                                                == crate::store::merged_article(
                                                store_before.articles@[w],
                                                x,
                                            ));
                                            assert(crate::store::has_article_key(
                                                self.store.articles@[w],
                                                fid,
                                                g,
                                            ) && !crate::store::is_stale(
                                                self.store.articles@[w],
                                                now,
                                            ));
                                        } else {
                                            let n = store_before.articles@.len() as int;
                                            assert(self.store.articles@[n]
                                                == crate::store::inserted_article(
                                                x,
                                                store_before.next_article_id,
                                                now,
                                            ));
                                            assert(crate::store::has_article_key(
                                                self.store.articles@[n],
                                                fid,
                                                g,
                                            ) && !crate::store::is_stale(
                                                self.store.articles@[n],
                                                now,
                                            ));
                                        }
                                    } else {
                                        let t = choose|t: int|
                                            0 <= t < fp.len() && fp[t].feed_id == fid
                                                && fp[t].guid@ == g;
                                        assert(t < fp_before.len());
                                        assert(crate::refresh::key_occurs(fp_before, fid, g));
                                        let w = choose|i: int|
                                            0 <= i < store_before.articles@.len()
                                                && crate::store::has_article_key(
                                                store_before.articles@[i],
                                                fid,
                                                g,
                                            ) && !crate::store::is_stale(
                                                store_before.articles@[i],
                                                now,
                                            );
                                        assert(!crate::store::has_article_key(
                                            store_before.articles@[w],
                                            x.feed_id,
                                            x.guid@,
                                        ));
                                        if store_before.spec_has_article_key(
                                            x.feed_id,
                                            x.guid@,
                                        ) {
                                            assert(self.store.articles@[w]
                                                == store_before.articles@[w]);
                                        } else {
                                            assert(self.store.articles@[w]
                                                == store_before.articles@[w]);
                                        }
                                    }
                                }
                            }
                        }
                        a += 1;
                    }
                    proof {
                        assert(fp =~= fp_k + articles@);
                    }
                    self.store.update_feed_last_fetched(outcome.feed_id, now);
                },
                Err(_) => {
                    proof {
                        assert(crate::refresh::outcome_articles(outcomes@[k as int])
                            =~= Seq::<NewArticle>::empty());
                        assert(fp =~= fp_k + crate::refresh::outcome_articles(
                            outcomes@[k as int],
                        ));
                    }
                },
            }
            proof {
                assert(fp =~= crate::refresh::flat_articles(
                    outcomes@.subrange(0, (k + 1) as int),
                ));
                assert forall|j: int| 0 <= j < snap.store.feeds@.len() implies {
                    let fid = (#[trigger] snap.store.feeds@[j]).id;
                    self.store.feeds@[j] == (
                    if crate::refresh::is_ok_feed(outcomes@.subrange(0, (k + 1) as int), fid) {
                        Feed {
                            last_fetched: Some(now),
                            updated_at: now,
                            ..snap.store.feeds@[j]
                        }
                    } else {
                        snap.store.feeds@[j]
                    })
                } by {
                    crate::refresh::lemma_is_ok_feed_push(
                        outcomes@.subrange(0, k as int),
                        outcomes@[k as int],
                        snap.store.feeds@[j].id,
                    );
                }
            }
            k += 1;
        }
        proof {
            assert(outcomes@.subrange(0, outcomes@.len() as int) =~= outcomes@);
            assert(fp =~= flat_all);
        }
        let ghost mid = self.store;
        proof {
            assert(crate::refresh::fold_post(old(self).store, mid, outcomes@, now));
        }
        let _removed = self.store.delete_old_articles(now);
        proof {
            assert(crate::refresh::fold_post(old(self).store, mid, outcomes@, now)
                && crate::store::sweep_post(mid, self.store, now));
            if self.store.next_article_id < i64::MAX {
                assert(mid.next_article_id < i64::MAX);
                assert forall|fid: i64, g: Seq<char>|
                    #[trigger] crate::refresh::key_occurs(flat_all, fid, g)
                        && crate::refresh::key_all_fresh(
                        flat_all,
                        fid,
                        g,
                        now,
                    ) implies self.store.spec_has_article_key(fid, g) by {
                    assert(mid.spec_has_fresh_key(fid, g, now));
                    let w = choose|i: int|
                        0 <= i < mid.articles@.len() && crate::store::has_article_key(
                            mid.articles@[i],
                            fid,
                            g,
                        ) && !crate::store::is_stale(mid.articles@[i], now);
                    assert(crate::store::article_live_at(now)(mid.articles@[w]));
                    mid.articles@.lemma_filter_contains(crate::store::article_live_at(now), w);
                    assert(self.store.articles@.contains(mid.articles@[w]));
                    let j = choose|j: int|
                        0 <= j < self.store.articles@.len() && self.store.articles@[j]
                            == mid.articles@[w];
                    assert(crate::store::has_article_key(self.store.articles@[j], fid, g));
                }
            }
        }
        self.reload_articles();
        self.is_refreshing = false;
        proof {
            lemma_filter_of_multiset_members(
                self.articles@,
                self.store.articles@,
                |x: Article| !crate::store::is_stale(x, now),
            );
        }
    }

    /// Merge an imported feed list: each entry is offered to the store
    /// (duplicates are refused there and skipped), the feed cache is
    /// reloaded, the import input closes with a count of the feeds now
    /// subscribed, and a refresh of all feeds is handed back.
    pub fn import_opml(&mut self, imported: Vec<NewFeed>, now: i64) -> (cmd: Command)
        requires
            old(self).wf(),
        ensures
            final(self).wf(),
            old(self).spec_same_config(*final(self)),
            *final(self) == (Session {
                store: final(self).store,
                feeds: final(self).feeds,
                mode: InputMode::Normal,
                opml_input: final(self).opml_input,
                opml_input_status: Some(OpmlInputStatus::Imported(final(self).feeds@.len() as usize)),
                is_refreshing: true,
                ..*old(self)
            }),
            final(self).opml_input@ =~= Seq::<char>::empty(),
            final(self).feeds@ =~= final(self).store.feeds@,
            old(self).store.feeds@.len() <= final(self).store.feeds@.len(),
            forall|j: int|
                0 <= j < old(self).store.feeds@.len() ==> final(self).store.feeds@[j] == old(self).store.feeds@[j],
            final(self).store.next_feed_id < i64::MAX ==> forall|j: int|
                0 <= j < imported@.len() ==> final(self).store.spec_has_feed_url(
                    #[trigger] imported@[j].url@,
                ),
            cmd matches Command::StartRefresh(fs) && fs@ =~= final(self).feeds@,
    {
        let ghost snap = *self;
        let mut k: usize = 0;
        while k < imported.len()
            invariant
                snap == *old(self),
                snap.wf(),
                k <= imported@.len(),
                self.store.wf(),
                *self == (Session { store: self.store, ..snap }),
                snap.store.feeds@.len() <= self.store.feeds@.len(),
                forall|j: int|
                    0 <= j < snap.store.feeds@.len() ==> self.store.feeds@[j]
                        == snap.store.feeds@[j],
                self.store.next_feed_id < i64::MAX ==> forall|j: int|
                    0 <= j < k ==> self.store.spec_has_feed_url(#[trigger] imported@[j].url@),
            decreases imported@.len() - k,
        {
            let feed = imported[k].clone();
            let ghost feeds_before = self.store.feeds@;
            let ghost store_before = self.store;
            let r = self.store.insert_feed(feed, now);
            proof {
                if r is Ok {
                    assert(self.store.feeds@ =~= feeds_before.push(self.store.feeds@.last()));
                }
                if self.store.next_feed_id < i64::MAX {
                    assert forall|j: int|
                        0 <= j < k + 1 implies self.store.spec_has_feed_url(
                        #[trigger] imported@[j].url@,
                    ) by {
                        if j < k {
                            let w = choose|i: int|
                                0 <= i < store_before.feeds@.len()
                                    && store_before.feeds@[i].url@ == imported@[j].url@;
                            if r is Ok {
                                assert(self.store.feeds@[w] == store_before.feeds@[w]);
                            }
                        } else {
                            match r {
                                Ok(_) => {
                                    assert(self.store.feeds@.last().url@ == imported@[j].url@);
                                },
                                Err(StoreError::DuplicateFeedUrl) => {
                                    assert(store_before.spec_has_feed_url(imported@[j].url@));
                                },
                                Err(StoreError::Full) => {
                                    assert(!store_before.spec_feed_id_headroom()
                                        || store_before.spec_has_feed_url(imported@[j].url@));
                                    if !store_before.spec_has_feed_url(imported@[j].url@) {
                                        assert(store_before.next_feed_id == i64::MAX);
                                        assert(false);
                                    }
                                },
                            }
                        }
                    }
                }
            }
            k += 1;
        }
        self.feeds = self.store.get_all_feeds();
        self.mode = InputMode::Normal;
        self.opml_input = Vec::new();
        let count = self.feeds.len();
        self.opml_input_status = Some(OpmlInputStatus::Imported(count));
        self.is_refreshing = true;
        Command::StartRefresh(clone_feeds(&self.feeds))
    }

    /// Report that an import could not read the named file: it did not
    /// exist, or could not be read as a feed list.
    pub fn on_opml_import_failed(&mut self, not_found: bool)
        requires
            old(self).wf(),
        ensures
            final(self).wf(),
            *final(self) == (Session {
                opml_input_status: Some(
                    if not_found {
                        OpmlInputStatus::NotFound
                    } else {
                        OpmlInputStatus::ImportError
                    },
                ),
                ..*old(self)
            }),
    {
        if not_found {
            self.opml_input_status = Some(OpmlInputStatus::NotFound);
        } else {
            self.opml_input_status = Some(OpmlInputStatus::ImportError);
        }
    }

    /// Record that the bookmark service accepted an article: the tracking
    /// record is written (replacing any previous one), the article is marked
    /// read in the store, and the bookmarked flag goes up.
    pub fn on_bookmark_saved(
        &mut self,
        article_id: i64,
        external_id: i64,
        tags_text: String,
        now: i64,
    )
        requires
            old(self).wf(),
        ensures
            final(self).wf(),
            *final(self) == (Session {
                store: final(self).store,
                is_saved_to_raindrop: true,
                ..*old(self)
            }),
            final(self).store.spec_is_bookmarked(article_id),
            final(self).store.feeds == old(self).store.feeds,
            final(self).store.summaries == old(self).store.summaries,
            final(self).store.articles@.len() == old(self).store.articles@.len(),
            forall|i: int|
                0 <= i < old(self).store.articles@.len() ==> final(self).store.articles@[i] == (
                if old(self).store.articles@[i].id == article_id {
                    Article { is_read: true, ..old(self).store.articles@[i] }
                } else {
                    old(self).store.articles@[i]
                }),
    {
        self.store.mark_saved_to_raindrop(article_id, external_id, tags_text, now);
        self.store.mark_article_read(article_id, true);
        self.is_saved_to_raindrop = true;
    }
}

/// If every member of `s` is a member of `t` (they share a multiset of
/// contents) and every member of `t` passing `pred` is all of `t`, then all
/// of `s` passes `pred`. Used to carry the sweep's guarantee over to the
/// freshly loaded cache.
proof fn lemma_filter_of_multiset_members(
    s: Seq<Article>,
    t: Seq<Article>,
    pred: spec_fn(Article) -> bool,
)
    requires
        s.to_multiset() =~= t.to_multiset(),
        forall|i: int| 0 <= i < t.len() ==> pred(#[trigger] t[i]),
    ensures
        forall|i: int| 0 <= i < s.len() ==> pred(#[trigger] s[i]),
{
    broadcast use vstd::seq_lib::group_to_multiset_ensures;

    assert forall|i: int| 0 <= i < s.len() implies pred(s[i]) by {
        assert(s.to_multiset().count(s[i]) > 0);
        assert(t.to_multiset().count(s[i]) > 0);
        assert(t.contains(s[i]));
    }
}

} // verus!
