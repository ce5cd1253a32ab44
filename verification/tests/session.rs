use speedy_reader::{
    AppAction, ArticleFilter, Command, FeedFetchOutcome, InputMode, NewArticle, NewFeed, Session,
    Store, SummaryResult, SummaryStatus, READ_TIMER_MS,
};

const NOW: i64 = 10_000_000;
const NOW_MS: i64 = NOW * 1000;

fn new_article(feed_id: i64, guid: &str, title: &str) -> NewArticle {
    NewArticle {
        feed_id,
        guid: guid.to_string(),
        title: title.to_string(),
        url: format!("https://example.com/{guid}"),
        author: None,
        content: None,
        content_text: Some(format!("Body of {guid}. More text.")),
        published_at: Some(NOW - 60),
    }
}

fn session_with_articles(n: usize, has_summarizer: bool, has_raindrop: bool) -> Session {
    let mut store = Store::new();
    let fid = store
        .insert_feed(
            NewFeed {
                title: "a feed".to_string(),
                url: "https://a.example/feed".to_string(),
                site_url: None,
                description: None,
            },
            NOW,
        )
        .unwrap();
    for i in 0..n {
        store
            .upsert_article(new_article(fid, &format!("g{i}"), &format!("title {i}")), NOW)
            .unwrap();
    }
    Session::new(store, has_summarizer, has_raindrop, NOW)
}

#[test]
fn cached_summary_short_circuits_before_any_job() {
    let mut session = session_with_articles(1, true, false);
    let aid = session.articles[0].id;
    session
        .store
        .save_summary(aid, "cached text".to_string(), "model".to_string(), NOW)
        .unwrap();
    let cmd = session.generate_summary();
    // the backend is never invoked: no job is dispatched
    assert!(matches!(cmd, Command::Idle));
    assert_eq!(session.summary_status, SummaryStatus::Generated);
    assert_eq!(session.current_summary.as_ref().unwrap().content, "cached text");
    assert!(session.pending_summary_article_id.is_none());
}

#[test]
fn no_backend_rejects_with_no_api_key_and_no_job() {
    let mut session = session_with_articles(1, false, false);
    let cmd = session.generate_summary();
    assert!(matches!(cmd, Command::Idle));
    assert_eq!(session.summary_status, SummaryStatus::NoApiKey);
    assert!(session.pending_summary_article_id.is_none());
}

#[test]
fn submit_marks_read_sets_pending_and_dispatches() {
    let mut session = session_with_articles(1, true, false);
    let aid = session.articles[0].id;
    let cmd = session.generate_summary();
    match cmd {
        Command::DispatchSummary(job) => {
            assert_eq!(job.article_id, aid);
            assert_eq!(job.title, "title 0");
            assert_eq!(job.fallback_content, "Body of g0. More text.");
        }
        _ => panic!("expected a dispatched job"),
    }
    assert_eq!(session.summary_status, SummaryStatus::Generating);
    assert_eq!(session.pending_summary_article_id, Some(aid));
    // marked read in the store at once, not reverted on failure
    assert!(session.store.articles.iter().find(|a| a.id == aid).unwrap().is_read);
    // the cache is untouched, so the article stays visible in the unread view
    assert!(!session.articles[0].is_read);
}

#[test]
fn stale_completion_for_other_target_is_discarded_whole() {
    let mut session = session_with_articles(2, true, false);
    let _ = session.generate_summary();
    let pending = session.pending_summary_article_id;
    let other = pending.unwrap() + 1000;
    session.poll_summary_result(
        Some(SummaryResult {
            article_id: other,
            result: Ok(("text".to_string(), "model".to_string())),
        }),
        NOW,
    );
    // nothing changed: state, pending target and store are exactly as before
    assert_eq!(session.summary_status, SummaryStatus::Generating);
    assert_eq!(session.pending_summary_article_id, pending);
    assert!(session.store.get_summary(other).is_none());
}

#[test]
fn completion_for_deleted_article_discards_and_resets_status() {
    // the user selects article A (starting summarization), then deletes A
    // before the backend responds
    let mut session = session_with_articles(2, true, false);
    let aid = match session.generate_summary() {
        Command::DispatchSummary(job) => job.article_id,
        _ => panic!("expected a dispatched job"),
    };
    let (quit, _) = session.handle_action(AppAction::DeleteArticle, NOW_MS);
    assert!(!quit);
    assert!(session.articles.iter().all(|a| a.id != aid));
    session.poll_summary_result(
        Some(SummaryResult {
            article_id: aid,
            result: Ok(("late text".to_string(), "model".to_string())),
        }),
        NOW,
    );
    assert_eq!(session.summary_status, SummaryStatus::NotGenerated);
    assert!(session.pending_summary_article_id.is_none());
    // no summary row was written for A
    assert!(session.store.get_summary(aid).is_none());
}

#[test]
fn successful_completion_persists_and_shows_summary() {
    let mut session = session_with_articles(1, true, false);
    let aid = session.articles[0].id;
    let _ = session.generate_summary();
    session.poll_summary_result(
        Some(SummaryResult {
            article_id: aid,
            result: Ok(("generated text".to_string(), "model-x".to_string())),
        }),
        NOW + 3,
    );
    assert_eq!(session.summary_status, SummaryStatus::Generated);
    assert!(session.pending_summary_article_id.is_none());
    let stored = session.store.get_summary(aid).unwrap();
    assert_eq!(stored.content, "generated text");
    assert_eq!(stored.model_version, "model-x");
    assert_eq!(session.current_summary.as_ref().unwrap().content, "generated text");
}

#[test]
fn failed_completion_sets_failed_and_persists_nothing() {
    let mut session = session_with_articles(1, true, false);
    let aid = session.articles[0].id;
    let _ = session.generate_summary();
    session.poll_summary_result(
        Some(SummaryResult { article_id: aid, result: Err("backend error".to_string()) }),
        NOW,
    );
    assert_eq!(session.summary_status, SummaryStatus::Failed);
    assert!(session.pending_summary_article_id.is_none());
    assert!(session.store.get_summary(aid).is_none());
}

#[test]
fn refresh_cycle_isolates_failed_feed_and_sweeps() {
    // refreshing 8 feeds where feed #3 times out: the other 7 succeed,
    // feed #3's last-fetched timestamp is unchanged, and nothing aborts
    let mut store = Store::new();
    let mut ids = Vec::new();
    for i in 0..8 {
        let fid = store
            .insert_feed(
                NewFeed {
                    title: format!("feed {i}"),
                    url: format!("https://f{i}.example/feed"),
                    site_url: None,
                    description: None,
                },
                NOW,
            )
            .unwrap();
        ids.push(fid);
    }
    let mut session = Session::new(store, false, false, NOW);
    let cmd = session.refresh_feeds();
    match cmd {
        Command::StartRefresh(feeds) => assert_eq!(feeds.len(), 8),
        _ => panic!("expected a refresh fan-out"),
    }
    assert!(session.is_refreshing);
    let outcomes: Vec<FeedFetchOutcome> = ids
        .iter()
        .enumerate()
        .map(|(i, &fid)| FeedFetchOutcome {
            feed_id: fid,
            result: if i == 2 {
                Err("timed out".to_string())
            } else {
                Ok(vec![new_article(fid, &format!("item-{i}"), &format!("item {i}"))])
            },
        })
        .collect();
    session.finish_refresh(outcomes, NOW + 100);
    assert!(!session.is_refreshing);
    for (i, &fid) in ids.iter().enumerate() {
        let f = session.store.feeds.iter().find(|f| f.id == fid).unwrap();
        if i == 2 {
            assert_eq!(f.last_fetched, None);
        } else {
            assert_eq!(f.last_fetched, Some(NOW + 100));
        }
    }
    assert_eq!(session.store.articles.len(), 7);
    assert_eq!(session.articles.len(), 7);
}

#[test]
fn refresh_upserts_by_natural_key_and_sweeps_stale() {
    let mut store = Store::new();
    let fid = store
        .insert_feed(
            NewFeed {
                title: "a feed".to_string(),
                url: "https://a.example/feed".to_string(),
                site_url: None,
                description: None,
            },
            NOW,
        )
        .unwrap();
    store.upsert_article(new_article(fid, "keep", "old title"), NOW).unwrap();
    let mut stale = new_article(fid, "stale", "stale");
    stale.published_at = Some(NOW - speedy_reader::RETENTION_SECONDS - 50);
    store.upsert_article(stale, NOW).unwrap();
    let mut session = Session::new(store, false, false, NOW - 10);
    let mut fresh = new_article(fid, "keep", "new title");
    fresh.published_at = Some(NOW - 30);
    session.finish_refresh(
        vec![FeedFetchOutcome { feed_id: fid, result: Ok(vec![fresh]) }],
        NOW,
    );
    // after a refresh cycle, no stored article has age over the window
    assert!(session.store.articles.iter().all(|a| {
        a.published_at.unwrap_or(a.fetched_at) >= NOW - speedy_reader::RETENTION_SECONDS
    }));
    assert_eq!(session.store.articles.len(), 1);
    assert_eq!(session.store.articles[0].title, "new title");
}

#[test]
fn navigation_moves_cursor_and_rearms_read_timer() {
    let mut session = session_with_articles(3, false, false);
    assert_eq!(session.selected_index, 0);
    session.handle_action(AppAction::MoveDown, NOW_MS);
    assert_eq!(session.selected_index, 1);
    assert_eq!(session.selection_time, Some(NOW_MS));
    session.handle_action(AppAction::MoveUp, NOW_MS + 1);
    assert_eq!(session.selected_index, 0);
    session.handle_action(AppAction::MoveToBottom, NOW_MS + 2);
    assert_eq!(session.selected_index, 2);
    session.handle_action(AppAction::MoveToTop, NOW_MS + 3);
    assert_eq!(session.selected_index, 0);
    // at the top, moving up changes nothing
    session.handle_action(AppAction::MoveUp, NOW_MS + 4);
    assert_eq!(session.selected_index, 0);
    assert_eq!(session.selection_time, Some(NOW_MS + 3));
}

#[test]
fn cycle_filter_resets_cursor() {
    let mut session = session_with_articles(3, false, false);
    session.handle_action(AppAction::MoveDown, NOW_MS);
    assert_eq!(session.selected_index, 1);
    session.handle_action(AppAction::CycleFilter, NOW_MS);
    assert_eq!(session.filter, ArticleFilter::Starred);
    assert_eq!(session.selected_index, 0);
    session.handle_action(AppAction::CycleFilter, NOW_MS);
    assert_eq!(session.filter, ArticleFilter::All);
    session.handle_action(AppAction::CycleFilter, NOW_MS);
    assert_eq!(session.filter, ArticleFilter::Unread);
}

#[test]
fn read_timer_fires_once_after_two_seconds() {
    let mut session = session_with_articles(2, false, false);
    session.handle_action(AppAction::MoveDown, NOW_MS);
    let aid = session.selected_article().unwrap().id;
    session.check_read_timer(NOW_MS + READ_TIMER_MS - 1);
    assert!(!session.store.articles.iter().find(|a| a.id == aid).unwrap().is_read);
    session.check_read_timer(NOW_MS + READ_TIMER_MS);
    assert!(session.store.articles.iter().find(|a| a.id == aid).unwrap().is_read);
    // the timer cleared so it does not keep firing
    assert!(session.selection_time.is_none());
}

#[test]
fn delete_clamps_cursor_to_last_filtered() {
    let mut session = session_with_articles(2, false, false);
    session.handle_action(AppAction::MoveDown, NOW_MS);
    assert_eq!(session.selected_index, 1);
    session.handle_action(AppAction::DeleteArticle, NOW_MS);
    assert_eq!(session.articles.len(), 1);
    assert_eq!(session.selected_index, 0);
    assert_eq!(session.summary_status, SummaryStatus::NotGenerated);
}

#[test]
fn delete_keeps_cursor_when_still_in_range() {
    let mut session = session_with_articles(3, false, false);
    session.handle_action(AppAction::MoveDown, NOW_MS);
    assert_eq!(session.selected_index, 1);
    // two articles remain, so index 1 is still in range and stays put
    session.handle_action(AppAction::DeleteArticle, NOW_MS);
    assert_eq!(session.articles.len(), 2);
    assert_eq!(session.selected_index, 1);
    // deleting with the cursor at the top keeps it at the top
    session.handle_action(AppAction::MoveToTop, NOW_MS);
    session.handle_action(AppAction::DeleteArticle, NOW_MS);
    assert_eq!(session.selected_index, 0);
    // deleting the last article leaves an empty view with the cursor at zero
    session.handle_action(AppAction::DeleteArticle, NOW_MS);
    assert_eq!(session.articles.len(), 0);
    assert_eq!(session.selected_index, 0);
}

#[test]
fn help_overlay_and_quit() {
    let mut session = session_with_articles(0, false, false);
    session.handle_action(AppAction::ShowHelp, NOW_MS);
    assert!(session.show_help);
    session.handle_action(AppAction::HideHelp, NOW_MS);
    assert!(!session.show_help);
    let (quit, _) = session.handle_action(AppAction::Quit, NOW_MS);
    assert!(quit);
}

#[test]
fn feed_input_normalizes_scheme_and_discovers() {
    let mut session = session_with_articles(0, false, false);
    session.handle_action(AppAction::AddFeed, NOW_MS);
    assert_eq!(session.mode, InputMode::FeedInput);
    for c in "  blog.example.com/feed ".chars() {
        session.handle_action(AppAction::FeedInputChar(c), NOW_MS);
    }
    let (_, cmd) = session.handle_action(AppAction::FeedInputConfirm, NOW_MS);
    match cmd {
        Command::Discover(url) => assert_eq!(url, "https://blog.example.com/feed"),
        _ => panic!("expected discovery"),
    }
    // a URL that already names a scheme is taken as typed
    let mut session2 = session_with_articles(0, false, false);
    session2.handle_action(AppAction::AddFeed, NOW_MS);
    for c in "http://plain.example/rss".chars() {
        session2.handle_action(AppAction::FeedInputChar(c), NOW_MS);
    }
    let (_, cmd2) = session2.handle_action(AppAction::FeedInputConfirm, NOW_MS);
    match cmd2 {
        Command::Discover(url) => assert_eq!(url, "http://plain.example/rss"),
        _ => panic!("expected discovery"),
    }
}

#[test]
fn discovered_duplicate_feed_is_rejected_before_insertion() {
    let mut session = session_with_articles(1, false, false);
    let dup = NewFeed {
        title: "same again".to_string(),
        url: "https://a.example/feed".to_string(),
        site_url: None,
        description: None,
    };
    let cmd = session.on_discover_result(Some(dup), NOW);
    assert!(matches!(cmd, Command::Idle));
    assert_eq!(session.store.feeds.len(), 1);
}

#[test]
fn discovered_new_feed_is_added_and_refresh_starts() {
    let mut session = session_with_articles(0, false, false);
    let found = NewFeed {
        title: "fresh feed".to_string(),
        url: "https://b.example/feed".to_string(),
        site_url: None,
        description: None,
    };
    let cmd = session.on_discover_result(Some(found), NOW);
    match cmd {
        Command::StartRefresh(feeds) => assert_eq!(feeds.len(), 2),
        _ => panic!("expected a refresh"),
    }
    assert!(session.is_refreshing);
    assert_eq!(session.mode, InputMode::Normal);
    assert_eq!(session.feeds.len(), 2);
}

#[test]
fn bookmark_confirm_builds_job_and_outcome_marks_saved() {
    let mut session = session_with_articles(1, true, true);
    let aid = session.articles[0].id;
    session
        .store
        .save_summary(aid, "Summary: Key point here. And more.".to_string(), "m".to_string(), NOW)
        .unwrap();
    // selection change pulls the cached summary in
    session.handle_action(AppAction::MoveToTop, NOW_MS);
    session.handle_action(AppAction::SaveToRaindrop, NOW_MS);
    assert_eq!(session.mode, InputMode::TagInput);
    for c in "news, tech ,,".chars() {
        session.handle_action(AppAction::TagInputChar(c), NOW_MS);
    }
    let (_, cmd) = session.handle_action(AppAction::TagInputConfirm, NOW_MS);
    let job = match cmd {
        Command::SaveBookmark(job) => job,
        _ => panic!("expected a bookmark request"),
    };
    assert_eq!(job.article_id, aid);
    assert_eq!(job.tags, vec!["news".to_string(), "tech".to_string()]);
    assert_eq!(job.note.as_deref(), Some("Summary: Key point here. And more."));
    // the backend phrase is stripped and the first sentence taken
    assert_eq!(job.excerpt.as_deref(), Some("Key point here."));
    assert_eq!(session.mode, InputMode::Normal);
    session.on_bookmark_saved(job.article_id, 4242, job.tags_text.clone(), NOW);
    assert!(session.is_saved_to_raindrop);
    assert!(session.store.is_saved_to_raindrop(aid));
    assert!(session.store.articles.iter().find(|a| a.id == aid).unwrap().is_read);
}

#[test]
fn email_action_builds_encoded_mailto() {
    let mut session = session_with_articles(1, false, false);
    let (_, cmd) = session.handle_action(AppAction::EmailArticle, NOW_MS);
    match cmd {
        Command::OpenMailto(m) => {
            assert!(m.starts_with("mailto:?subject=title%200&body="));
            // the body is percent-encoded: no raw spaces or newlines survive
            assert!(!m.contains(' '));
            assert!(!m.contains('\n'));
            assert!(m.contains("Title%3A%20title%200"));
        }
        _ => panic!("expected a compose address"),
    }
}

#[test]
fn import_merges_feeds_and_starts_refresh() {
    let mut session = session_with_articles(0, false, false);
    let imported = vec![
        NewFeed {
            title: "one".to_string(),
            url: "https://one.example/feed".to_string(),
            site_url: None,
            description: None,
        },
        NewFeed {
            title: "dup of existing".to_string(),
            url: "https://a.example/feed".to_string(),
            site_url: None,
            description: None,
        },
    ];
    let cmd = session.import_opml(imported, NOW);
    match cmd {
        Command::StartRefresh(feeds) => assert_eq!(feeds.len(), 2),
        _ => panic!("expected a refresh"),
    }
    assert_eq!(session.feeds.len(), 2);
}

#[test]
fn spinner_cycles_through_ten_frames() {
    let mut session = session_with_articles(0, false, false);
    let first = session.spinner_char();
    for _ in 0..10 {
        session.tick_spinner();
    }
    assert_eq!(session.spinner_frame, 0);
    assert_eq!(session.spinner_char(), first);
}
