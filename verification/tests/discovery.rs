use speedy_reader::{
    articles_from_doc, discover_follow, discover_from_response, find_feed_link, DiscoverOutcome,
    EntryDoc, FeedDoc, RefreshPlan, MAX_IN_FLIGHT,
};

fn chars(s: &str) -> Vec<char> {
    s.chars().collect()
}

fn example_doc() -> FeedDoc {
    FeedDoc {
        title: Some("Example News".to_string()),
        description: Some("All the news".to_string()),
        links: vec!["https://news.example/".to_string()],
        entries: vec![],
    }
}

#[test]
fn direct_feed_bypasses_link_scanning() {
    // the body parsed as a feed, so the feed record comes from the
    // document's own metadata at the final address; the markup and its
    // advertised addresses are never scanned
    let html_with_links =
        "<link rel=\"alternate\" type=\"application/rss+xml\" href=\"https://decoy.example/rss\">";
    let outcome = discover_from_response(
        Some(example_doc()),
        &chars("text/html"),
        &chars(html_with_links),
        &"https://news.example/feed".to_string(),
    );
    match outcome {
        DiscoverOutcome::Found(f) => {
            assert_eq!(f.title, "Example News");
            assert_eq!(f.url, "https://news.example/feed");
            assert_eq!(f.description.as_deref(), Some("All the news"));
            assert_eq!(f.site_url.as_deref(), Some("https://news.example/"));
        }
        _ => panic!("expected a direct feed"),
    }
}

#[test]
fn unparsed_untitled_feed_gets_placeholder_title() {
    let doc = FeedDoc { title: None, description: None, links: vec![], entries: vec![] };
    let outcome = discover_from_response(
        Some(doc),
        &chars("application/rss+xml"),
        &chars(""),
        &"https://news.example/feed".to_string(),
    );
    match outcome {
        DiscoverOutcome::Found(f) => {
            assert_eq!(f.title, "Untitled Feed");
            assert!(f.site_url.is_none());
        }
        _ => panic!("expected a direct feed"),
    }
}

#[test]
fn html_page_yields_advertised_feed_url() {
    let html = r#"<html><head>
      <link rel="alternate" type="application/rss+xml" href="/feed.xml">
    </head><body></body></html>"#;
    let outcome = discover_from_response(
        None,
        &chars("text/html; charset=utf-8"),
        &chars(html),
        &"https://blog.example/posts/".to_string(),
    );
    match outcome {
        // the relative reference resolves against the page's final address
        DiscoverOutcome::TryUrl(u) => assert_eq!(u, "https://blog.example/feed.xml"),
        _ => panic!("expected an advertised address"),
    }
}

#[test]
fn rel_first_pattern_takes_precedence_over_type_first() {
    // a type-first tag stands earlier in the document, but the rel-first
    // pattern wins anywhere
    let html = "<html><head><link type=\"application/atom+xml\" href=\"https://early.example/atom\" rel=\"me\"><link rel=\"alternate\" type=\"application/rss+xml\" href=\"https://late.example/rss\"></head></html>";
    let got = find_feed_link(&chars(html), "https://blog.example/");
    assert_eq!(got.as_deref(), Some("https://late.example/rss"));
}

#[test]
fn type_first_pattern_is_the_fallback() {
    let html = "<link type='application/atom+xml' href='https://only.example/atom'>";
    let got = find_feed_link(&chars(html), "https://blog.example/");
    assert_eq!(got.as_deref(), Some("https://only.example/atom"));
}

#[test]
fn no_link_tag_means_no_feed() {
    let html = "<html><body><p>nothing here</p></body></html>";
    assert!(find_feed_link(&chars(html), "https://blog.example/").is_none());
    let outcome = discover_from_response(
        None,
        &chars("text/html"),
        &chars(html),
        &"https://blog.example/".to_string(),
    );
    assert!(matches!(outcome, DiscoverOutcome::NoFeed));
}

#[test]
fn non_markup_non_feed_is_no_feed() {
    let text = "just some plain text";
    let outcome = discover_from_response(
        None,
        &chars("text/plain"),
        &chars(text),
        &"https://blog.example/".to_string(),
    );
    assert!(matches!(outcome, DiscoverOutcome::NoFeed));
}

#[test]
fn follow_takes_the_advertised_feed_document() {
    let f = discover_follow(Some(example_doc()), "https://news.example/feed.xml".to_string())
        .unwrap();
    assert_eq!(f.title, "Example News");
    assert_eq!(f.url, "https://news.example/feed.xml");
    assert!(discover_follow(None, "https://x.example/".to_string()).is_none());
}

#[test]
fn entries_map_to_articles_with_rendered_text() {
    let doc = FeedDoc {
        title: Some("Example News".to_string()),
        description: None,
        links: vec![],
        entries: vec![
            EntryDoc {
                guid: "item-1".to_string(),
                title: Some("First item".to_string()),
                links: vec!["https://news.example/1".to_string()],
                authors: vec!["Ada".to_string()],
                content_html: Some("<p>Hello <b>world</b></p>".to_string()),
                summary: Some("short".to_string()),
                published_at: Some(1000),
                updated_at: Some(2000),
            },
            EntryDoc {
                guid: "item-2".to_string(),
                title: None,
                links: vec![],
                authors: vec![],
                content_html: None,
                summary: Some("only a summary".to_string()),
                published_at: None,
                updated_at: Some(3000),
            },
        ],
    };
    let articles = articles_from_doc(9, &doc);
    assert_eq!(articles.len(), 2);
    assert_eq!(articles[0].feed_id, 9);
    assert_eq!(articles[0].guid, "item-1");
    assert_eq!(articles[0].title, "First item");
    assert_eq!(articles[0].url, "https://news.example/1");
    assert_eq!(articles[0].author.as_deref(), Some("Ada"));
    // the full content wins over the summary and is rendered to text
    assert_eq!(articles[0].content.as_deref(), Some("<p>Hello <b>world</b></p>"));
    let text = articles[0].content_text.as_deref().unwrap();
    assert!(text.contains("Hello"));
    assert!(!text.contains("<p>"));
    assert_eq!(articles[0].published_at, Some(1000));
    // without content, the summary stands in; without a publication time,
    // the update time stands in
    assert_eq!(articles[1].title, "Untitled");
    assert_eq!(articles[1].content.as_deref(), Some("only a summary"));
    assert_eq!(articles[1].published_at, Some(3000));
    assert!(articles[1].author.is_none());
}

#[test]
fn refresh_plan_holds_the_ceiling() {
    let feeds: Vec<speedy_reader::Feed> = (0..8)
        .map(|i| speedy_reader::Feed {
            id: i,
            title: format!("feed {i}"),
            url: format!("https://f{i}.example/feed"),
            site_url: None,
            description: None,
            last_fetched: None,
            created_at: 0,
            updated_at: 0,
        })
        .collect();
    let mut plan = RefreshPlan::new(feeds);
    let mut launched = 0;
    while let Some(_) = plan.launch() {
        launched += 1;
    }
    assert_eq!(launched, MAX_IN_FLIGHT);
    assert_eq!(plan.in_flight, MAX_IN_FLIGHT);
    plan.complete();
    assert!(plan.launch().is_some());
    assert_eq!(plan.in_flight, MAX_IN_FLIGHT);
    // drain the rest
    for _ in 0..MAX_IN_FLIGHT {
        plan.complete();
    }
    let mut more = 0;
    loop {
        match plan.launch() {
            Some(_) => more += 1,
            None => break,
        }
    }
    assert_eq!(more, 2);
    for _ in 0..2 {
        plan.complete();
    }
    assert!(plan.done());
}
