use speedy_reader::{NewArticle, NewFeed, Store, StoreError, RETENTION_SECONDS};

fn feed(url: &str) -> NewFeed {
    NewFeed {
        title: format!("feed {url}"),
        url: url.to_string(),
        site_url: None,
        description: None,
    }
}

fn article(feed_id: i64, guid: &str, title: &str, published_at: Option<i64>) -> NewArticle {
    NewArticle {
        feed_id,
        guid: guid.to_string(),
        title: title.to_string(),
        url: format!("https://example.com/{guid}"),
        author: None,
        content: None,
        content_text: Some(format!("text of {guid}")),
        published_at,
    }
}

const NOW: i64 = 10_000_000;

#[test]
fn upsert_same_key_twice_keeps_one_row_with_latest_values() {
    let mut store = Store::new();
    let fid = store.insert_feed(feed("https://a.example/feed"), NOW).unwrap();
    let id1 = store.upsert_article(article(fid, "g1", "first title", Some(NOW - 10)), NOW).unwrap();
    store.mark_article_read(id1, true);
    let id2 = store
        .upsert_article(article(fid, "g1", "second title", Some(NOW - 5)), NOW + 60)
        .unwrap();
    assert_eq!(id1, id2);
    assert_eq!(store.articles.len(), 1);
    assert_eq!(store.articles[0].title, "second title");
    assert_eq!(store.articles[0].published_at, Some(NOW - 5));
    // the id, fetch time and read flag survive the re-fetch
    assert_eq!(store.articles[0].id, id1);
    assert_eq!(store.articles[0].fetched_at, NOW);
    assert!(store.articles[0].is_read);
}

#[test]
fn upsert_different_keys_make_two_rows() {
    let mut store = Store::new();
    let fid = store.insert_feed(feed("https://a.example/feed"), NOW).unwrap();
    store.upsert_article(article(fid, "g1", "one", None), NOW).unwrap();
    store.upsert_article(article(fid, "g2", "two", None), NOW).unwrap();
    assert_eq!(store.articles.len(), 2);
}

#[test]
fn duplicate_feed_url_is_rejected() {
    let mut store = Store::new();
    store.insert_feed(feed("https://a.example/feed"), NOW).unwrap();
    let second = store.insert_feed(feed("https://a.example/feed"), NOW);
    assert!(matches!(second, Err(StoreError::DuplicateFeedUrl)));
    assert_eq!(store.feeds.len(), 1);
}

#[test]
fn save_summary_regeneration_replaces_never_duplicates() {
    let mut store = Store::new();
    let fid = store.insert_feed(feed("https://a.example/feed"), NOW).unwrap();
    let aid = store.upsert_article(article(fid, "g1", "one", None), NOW).unwrap();
    store
        .save_summary(aid, "first summary".to_string(), "model-a".to_string(), NOW)
        .unwrap();
    store
        .save_summary(aid, "second summary".to_string(), "model-b".to_string(), NOW + 1)
        .unwrap();
    assert_eq!(store.summaries.len(), 1);
    let s = store.get_summary(aid).unwrap();
    assert_eq!(s.content, "second summary");
    assert_eq!(s.model_version, "model-b");
    assert_eq!(s.generated_at, NOW + 1);
}

#[test]
fn retention_sweep_removes_only_stale_articles() {
    let mut store = Store::new();
    let fid = store.insert_feed(feed("https://a.example/feed"), NOW).unwrap();
    let old_id = store
        .upsert_article(article(fid, "old", "old", Some(NOW - RETENTION_SECONDS - 1)), NOW)
        .unwrap();
    store
        .upsert_article(article(fid, "fresh", "fresh", Some(NOW - 60)), NOW)
        .unwrap();
    // a starred stale article goes too: retention ignores flags
    let starred_id = store
        .upsert_article(article(fid, "starred", "starred", Some(NOW - RETENTION_SECONDS - 9)), NOW)
        .unwrap();
    store.toggle_article_starred(starred_id);
    store
        .save_summary(old_id, "about to vanish".to_string(), "m".to_string(), NOW)
        .unwrap();
    let removed = store.delete_old_articles(NOW);
    assert_eq!(removed, 2);
    assert_eq!(store.articles.len(), 1);
    assert_eq!(store.articles[0].guid, "fresh");
    // the stale article's summary row went with it
    assert!(store.get_summary(old_id).is_none());
}

#[test]
fn delete_article_cascades_summary_and_bookmark() {
    let mut store = Store::new();
    let fid = store.insert_feed(feed("https://a.example/feed"), NOW).unwrap();
    let aid = store.upsert_article(article(fid, "g1", "one", None), NOW).unwrap();
    let keep = store.upsert_article(article(fid, "g2", "two", None), NOW).unwrap();
    store.save_summary(aid, "s".to_string(), "m".to_string(), NOW).unwrap();
    store.mark_saved_to_raindrop(aid, 77, "tags".to_string(), NOW);
    store.delete_article(aid);
    assert_eq!(store.articles.len(), 1);
    assert_eq!(store.articles[0].id, keep);
    assert!(store.get_summary(aid).is_none());
    assert!(!store.is_saved_to_raindrop(aid));
}

#[test]
fn delete_feed_cascades_articles_and_their_rows() {
    let mut store = Store::new();
    let f1 = store.insert_feed(feed("https://a.example/feed"), NOW).unwrap();
    let f2 = store.insert_feed(feed("https://b.example/feed"), NOW).unwrap();
    let a1 = store.upsert_article(article(f1, "g1", "one", None), NOW).unwrap();
    let a2 = store.upsert_article(article(f2, "g2", "two", None), NOW).unwrap();
    store.save_summary(a1, "s".to_string(), "m".to_string(), NOW).unwrap();
    store.delete_feed(f1);
    assert_eq!(store.feeds.len(), 1);
    assert_eq!(store.feeds[0].id, f2);
    assert_eq!(store.articles.len(), 1);
    assert_eq!(store.articles[0].id, a2);
    assert!(store.get_summary(a1).is_none());
}

#[test]
fn sorted_read_orders_newest_first_with_missing_dates_last() {
    let mut store = Store::new();
    let fid = store.insert_feed(feed("https://a.example/feed"), NOW).unwrap();
    store.upsert_article(article(fid, "mid", "mid", Some(NOW - 500)), NOW).unwrap();
    store.upsert_article(article(fid, "new", "new", Some(NOW - 10)), NOW).unwrap();
    store.upsert_article(article(fid, "none", "none", None), NOW).unwrap();
    store.upsert_article(article(fid, "old", "old", Some(NOW - 900)), NOW).unwrap();
    let sorted = store.get_all_articles_sorted();
    let guids: Vec<&str> = sorted.iter().map(|a| a.guid.as_str()).collect();
    assert_eq!(guids, vec!["new", "mid", "old", "none"]);
}

#[test]
fn update_feed_last_fetched_touches_only_that_feed() {
    let mut store = Store::new();
    let f1 = store.insert_feed(feed("https://a.example/feed"), NOW).unwrap();
    let f2 = store.insert_feed(feed("https://b.example/feed"), NOW).unwrap();
    store.update_feed_last_fetched(f1, NOW + 5);
    assert_eq!(store.feeds[0].last_fetched, Some(NOW + 5));
    assert_eq!(store.feeds[1].last_fetched, None);
    let _ = f2;
}

#[test]
fn bookmark_record_replaced_whole() {
    let mut store = Store::new();
    let fid = store.insert_feed(feed("https://a.example/feed"), NOW).unwrap();
    let aid = store.upsert_article(article(fid, "g1", "one", None), NOW).unwrap();
    store.mark_saved_to_raindrop(aid, 1, "a,b".to_string(), NOW);
    store.mark_saved_to_raindrop(aid, 2, "c".to_string(), NOW + 1);
    assert_eq!(store.bookmarks.len(), 1);
    assert_eq!(store.bookmarks[0].external_id, 2);
    assert_eq!(store.bookmarks[0].tags, "c");
    assert!(store.is_saved_to_raindrop(aid));
    assert!(!store.is_saved_to_raindrop(aid + 100));
}
