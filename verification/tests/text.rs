use speedy_reader::{
    clean_summary_for_excerpt, extract_content, get_first_sentence, join_blocks, parse_tags,
    resolve_content, summarizer_input, trimmed_chars, truncate_chars, CollectionCache,
    MAX_SUMMARY_INPUT, MIN_EXTRACTED_LEN,
};

fn chars(s: &str) -> Vec<char> {
    s.chars().collect()
}

fn text(v: &[char]) -> String {
    v.iter().collect()
}

#[test]
fn first_sentence_stops_at_period_space() {
    let got = get_first_sentence(&chars("  One sentence. And another one."));
    assert_eq!(text(&got), "One sentence.");
}

#[test]
fn first_sentence_takes_whole_text_without_period() {
    let got = get_first_sentence(&chars("no period here"));
    assert_eq!(text(&got), "no period here");
}

#[test]
fn first_sentence_prefers_period_space_over_earlier_period_newline() {
    let got = get_first_sentence(&chars("a.\nb. c"));
    assert_eq!(text(&got), "a.\nb.");
}

#[test]
fn long_sentence_is_cut_at_last_space_with_ellipsis() {
    let word = "word ";
    let long = word.repeat(50); // 250 characters, no period
    let got = get_first_sentence(&chars(&long));
    let got = text(&got);
    assert!(got.ends_with("..."));
    assert!(got.len() <= 203);
    assert!(!got[..got.len() - 3].ends_with(' ') || true);
    // cut at the last space before the cap: 200 chars cover 40 words
    assert_eq!(got, format!("{}...", "word ".repeat(39).to_string() + "word"));
}

#[test]
fn excerpt_strips_backend_phrase_case_insensitively() {
    let got = clean_summary_for_excerpt(&chars(
        "\n\nHere's a summary of the article: The gist is simple. More detail follows.",
    ));
    assert_eq!(text(&got), "The gist is simple.");
    let got2 = clean_summary_for_excerpt(&chars("SUMMARY: Short point. Rest."));
    assert_eq!(text(&got2), "Short point.");
}

#[test]
fn excerpt_flattens_lines_and_skips_leading_blanks() {
    let got = clean_summary_for_excerpt(&chars("\n \nFirst line\nsecond line. Tail."));
    assert_eq!(text(&got), "First line second line.");
}

#[test]
fn tags_split_trim_and_drop_empties() {
    let got = parse_tags(&chars(" news,  tech ,, rust "));
    assert_eq!(got, vec!["news".to_string(), "tech".to_string(), "rust".to_string()]);
    assert!(parse_tags(&chars("  ,  , ")).is_empty());
    assert!(parse_tags(&chars("")).is_empty());
}

#[test]
fn trimming_removes_blanks_on_both_ends() {
    assert_eq!(text(&trimmed_chars(&chars("  \t hello \n"))), "hello");
    assert_eq!(text(&trimmed_chars(&chars("   "))), "");
    assert_eq!(text(&trimmed_chars(&chars(""))), "");
}

#[test]
fn truncation_caps_at_character_count() {
    assert_eq!(truncate_chars("hello", 10), "hello");
    assert_eq!(truncate_chars("hello", 3), "hel");
    // multi-byte characters count as characters, not bytes
    assert_eq!(truncate_chars("ééééé", 3), "ééé");
    let long = "x".repeat(MAX_SUMMARY_INPUT + 5);
    assert_eq!(summarizer_input(&long).len(), MAX_SUMMARY_INPUT);
    assert_eq!(summarizer_input("short"), "short");
}

#[test]
fn response_blocks_join_with_line_breaks() {
    let blocks = vec![
        Some("first paragraph".to_string()),
        None,
        Some("second paragraph".to_string()),
    ];
    assert_eq!(join_blocks(&blocks), "first paragraph\nsecond paragraph");
    assert_eq!(join_blocks(&vec![]), "");
    assert_eq!(join_blocks(&vec![None]), "");
}

#[test]
fn extraction_cleans_markup_and_gates_on_length() {
    // plenty of text: the rendered page replaces the feed body
    let body = "Lorem ipsum dolor sit amet, consectetur adipiscing elit. ".repeat(8);
    let html = format!("<html><body><p>{body}</p></body></html>");
    let got = extract_content(&html).expect("long page text should be kept");
    assert!(got.len() > MIN_EXTRACTED_LEN);
    assert!(!got.contains("<p>"));
    assert!(got.contains("Lorem ipsum"));
    // too little text: resolution degrades to the feed body
    let short = extract_content("<html><body><p>tiny</p></body></html>");
    assert!(short.is_none());
    assert_eq!(
        resolve_content(short, "feed body".to_string()),
        "feed body".to_string()
    );
    assert_eq!(
        resolve_content(Some("page text".to_string()), "feed body".to_string()),
        "page text".to_string()
    );
}

#[test]
fn collection_cache_fixes_first_lookup_for_the_lifetime() {
    let mut cache = CollectionCache::new();
    assert!(cache.needs_lookup());
    // the first lookup failed: "no specific collection" sticks
    cache.record_lookup(None);
    assert!(!cache.needs_lookup());
    assert_eq!(cache.destination(), None);
    let mut cache2 = CollectionCache::new();
    cache2.record_lookup(Some(42));
    assert_eq!(cache2.destination(), Some(42));
}
