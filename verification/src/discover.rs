//! Feed discovery: deciding what a fetched document yields once the feed
//! parser (a collaborator; the caller runs it and hands over the parsed
//! document, or nothing) has had its say, and otherwise scanning the
//! document's markup for auto-discovery link tags. The scan honors two
//! ordered patterns — `rel` attribute before `type`, then `type` alone —
//! and takes the first match in that precedence order.
//!
//! A link tag is read as the text from a `<` up to the next `>`. Within it,
//! markers are matched literally with either quote style; an `href` value
//! runs from its opening quote to the next quote of the same kind and must
//! not be empty.

use vstd::prelude::*;

use crate::ext::rendered_text;
use crate::models::{NewArticle, NewFeed};
use crate::textutil::spec_has_prefix;
use crate::textutil::{
    chars_of, find_first, lemma_find_first_skip, sep_at, string_of,
};

verus! {

/// One item of a parsed feed document, reduced to the plain values the
/// engine reads.
pub struct EntryDoc {
    pub guid: String,
    pub title: Option<String>,
    pub links: Vec<String>,
    pub authors: Vec<String>,
    /// The entry's full content body, when the feed carries one.
    pub content_html: Option<String>,
    /// The entry's short summary, when the feed carries one.
    pub summary: Option<String>,
    pub published_at: Option<i64>,
    pub updated_at: Option<i64>,
}

/// A parsed feed document, reduced to the plain values the engine reads.
pub struct FeedDoc {
    pub title: Option<String>,
    pub description: Option<String>,
    pub links: Vec<String>,
    pub entries: Vec<EntryDoc>,
}

/// Whether `p` occurs in `s` starting at `i`.
pub open spec fn spec_matches_at(s: Seq<char>, i: int, p: Seq<char>) -> bool {
    0 <= i && i + p.len() <= s.len() && s.subrange(i, i + p.len()) == p
}

fn matches_at(v: &Vec<char>, i: usize, p: &Vec<char>) -> (r: bool)
    requires
        i <= v@.len(),
    ensures
        r == spec_matches_at(v@, i as int, p@),
{
    if p.len() > v.len() - i {
        proof {
            assert(!spec_matches_at(v@, i as int, p@));
        }
        return false;
    }
    let mut k: usize = 0;
    while k < p.len()
        invariant
            v@.len() <= usize::MAX,
            i + p@.len() <= v@.len(),
            k <= p@.len(),
            forall|j: int| 0 <= j < k ==> v@[i + j] == p@[j],
        decreases p@.len() - k,
    {
        if v[i + k] != p[k] {
            proof {
                assert(v@.subrange(i as int, i + p@.len())[k as int] != p@[k as int]);
            }
            return false;
        }
        k += 1;
    }
    proof {
        assert(v@.subrange(i as int, i + p@.len()) =~= p@);
    }
    true
}

/// The predicate "a rel-alternate marker starts at this index".
pub open spec fn rel_at(tag: Seq<char>) -> spec_fn(int) -> bool {
    |i: int| spec_matches_at(tag, i, "rel=\"alternate\""@) || spec_matches_at(
        tag,
        i,
        "rel='alternate'"@,
    )
}

/// The predicate "a feed-type marker starts at this index".
pub open spec fn type_at(tag: Seq<char>) -> spec_fn(int) -> bool {
    |i: int| spec_matches_at(tag, i, "type=\"application/rss+xml\""@) || spec_matches_at(
        tag,
        i,
        "type=\"application/atom+xml\""@,
    ) || spec_matches_at(tag, i, "type='application/rss+xml'"@) || spec_matches_at(
        tag,
        i,
        "type='application/atom+xml'"@,
    )
}

/// The predicate "an href attribute with an opening quote starts here".
pub open spec fn href_at(tag: Seq<char>) -> spec_fn(int) -> bool {
    |i: int| spec_matches_at(tag, i, "href="@) && i + 5 < tag.len() && (tag[i + 5] == '"' || tag[
        i + 5
    ] == '\'')
}

/// The tag text: a chunk up to its closing `>`, or whole when none closes.
pub open spec fn tag_body(chunk: Seq<char>) -> Seq<char> {
    match find_first(chunk.len() as int, sep_at(chunk, '>'), 0) {
        Some(i) => chunk.subrange(0, i),
        None => chunk,
    }
}

/// The address an href attribute at `h` carries: the characters from after
/// its opening quote to the next quote of the same kind; empty values do
/// not count.
pub open spec fn href_value(tag: Seq<char>, h: int) -> Option<Seq<char>> {
    let q = tag[h + 5];
    match find_first(tag.len() as int, sep_at(tag, q), h + 6) {
        Some(e) => if e > h + 6 {
            Some(tag.subrange(h + 6, e))
        } else {
            None
        },
        None => None,
    }
}

/// The address the first href at or after `from` carries, if any.
pub open spec fn href_from(tag: Seq<char>, from: int) -> Option<Seq<char>> {
    match find_first(tag.len() as int, href_at(tag), from) {
        Some(h) => href_value(tag, h),
        None => None,
    }
}

/// The feed address a chunk yields under the rel-first pattern: the chunk
/// must open a link tag and carry, in order, a rel-alternate marker, a
/// feed-type marker, and an href value.
pub open spec fn chunk_rel_href(chunk: Seq<char>) -> Option<Seq<char>> {
    let tag = tag_body(chunk);
    if spec_has_prefix(tag, "link"@) {
        match find_first(tag.len() as int, rel_at(tag), 0) {
            Some(r) => match find_first(tag.len() as int, type_at(tag), r + 1) {
                Some(t) => href_from(tag, t + 1),
                None => None,
            },
            None => None,
        }
    } else {
        None
    }
}

/// The feed address a chunk yields under the type-first pattern: the chunk
/// must open a link tag and carry a feed-type marker followed by an href
/// value; no rel marker is required.
pub open spec fn chunk_type_href(chunk: Seq<char>) -> Option<Seq<char>> {
    let tag = tag_body(chunk);
    if spec_has_prefix(tag, "link"@) {
        match find_first(tag.len() as int, type_at(tag), 0) {
            Some(t) => href_from(tag, t + 1),
            None => None,
        }
    } else {
        None
    }
}

/// The first chunk's rel-first address, scanning in document order.
pub open spec fn first_rel_href(chunks: Seq<Seq<char>>) -> Option<Seq<char>>
    decreases chunks.len(),
{
    if chunks.len() == 0 {
        None
    } else {
        match chunk_rel_href(chunks[0]) {
            Some(h) => Some(h),
            None => first_rel_href(chunks.drop_first()),
        }
    }
}

/// The first chunk's type-first address, scanning in document order.
pub open spec fn first_type_href(chunks: Seq<Seq<char>>) -> Option<Seq<char>>
    decreases chunks.len(),
{
    if chunks.len() == 0 {
        None
    } else {
        match chunk_type_href(chunks[0]) {
            Some(h) => Some(h),
            None => first_type_href(chunks.drop_first()),
        }
    }
}

/// The feed address a markup document advertises: the first rel-first match
/// anywhere in the document; only when no rel-first match exists, the first
/// type-first match.
pub open spec fn spec_feed_link(s: Seq<char>) -> Option<Seq<char>> {
    let chunks = crate::textutil::split_on(s, '<');
    match first_rel_href(chunks) {
        Some(h) => Some(h),
        None => first_type_href(chunks),
    }
}

/// A document with a rel-first auto-discovery tag always yields the
/// rel-first match, whatever type-first tags it also carries: the rel-first
/// pattern takes precedence over the type-first pattern.
pub proof fn lemma_rel_first_precedence(s: Seq<char>)
    requires
        first_rel_href(crate::textutil::split_on(s, '<')) is Some,
    ensures
        spec_feed_link(s) == first_rel_href(crate::textutil::split_on(s, '<')),
{
}

/// Scanning may start past chunks without a rel-first match.
proof fn lemma_first_rel_skip(chunks: Seq<Seq<char>>, k: int)
    requires
        0 <= k <= chunks.len(),
        forall|j: int| 0 <= j < k ==> chunk_rel_href(#[trigger] chunks[j]) is None,
    ensures
        first_rel_href(chunks) == first_rel_href(chunks.subrange(k, chunks.len() as int)),
    decreases k,
{
    if k > 0 {
        assert(chunks.drop_first() =~= chunks.subrange(1, chunks.len() as int));
        assert forall|j: int| 0 <= j < k - 1 implies chunk_rel_href(
            #[trigger] chunks.drop_first()[j],
        ) is None by {
            assert(chunk_rel_href(chunks[j + 1]) is None);
        }
        lemma_first_rel_skip(chunks.drop_first(), k - 1);
        assert(chunks.drop_first().subrange(k - 1, chunks.drop_first().len() as int)
            =~= chunks.subrange(k, chunks.len() as int));
        assert(chunk_rel_href(chunks[0]) is None);
    } else {
        assert(chunks.subrange(0, chunks.len() as int) =~= chunks);
    }
}

/// Scanning may start past chunks without a type-first match.
proof fn lemma_first_type_skip(chunks: Seq<Seq<char>>, k: int)
    requires
        0 <= k <= chunks.len(),
        forall|j: int| 0 <= j < k ==> chunk_type_href(#[trigger] chunks[j]) is None,
    ensures
        first_type_href(chunks) == first_type_href(chunks.subrange(k, chunks.len() as int)),
    decreases k,
{
    if k > 0 {
        assert(chunks.drop_first() =~= chunks.subrange(1, chunks.len() as int));
        assert forall|j: int| 0 <= j < k - 1 implies chunk_type_href(
            #[trigger] chunks.drop_first()[j],
        ) is None by {
            assert(chunk_type_href(chunks[j + 1]) is None);
        }
        lemma_first_type_skip(chunks.drop_first(), k - 1);
        assert(chunks.drop_first().subrange(k - 1, chunks.drop_first().len() as int)
            =~= chunks.subrange(k, chunks.len() as int));
        assert(chunk_type_href(chunks[0]) is None);
    } else {
        assert(chunks.subrange(0, chunks.len() as int) =~= chunks);
    }
}

/// First-match scanning from a later start, for an arbitrary start index.
proof fn lemma_find_first_skip_from(len: int, pred: spec_fn(int) -> bool, from: int, k: int)
    requires
        0 <= from <= k <= len,
        forall|j: int| from <= j < k ==> !#[trigger] pred(j),
    ensures
        find_first(len, pred, from) == find_first(len, pred, k),
    decreases k - from,
{
    if from < k {
        lemma_find_first_skip_from(len, pred, from + 1, k);
    }
}

/// The rel-first marker scan over one tag.
fn find_rel(tag: &Vec<char>) -> (r: Option<usize>)
    ensures
        match r {
            Some(i) => find_first(tag@.len() as int, rel_at(tag@), 0) == Some(i as int) && i
                < tag@.len(),
            None => find_first(tag@.len() as int, rel_at(tag@), 0) is None,
        },
{
    let p1 = chars_of("rel=\"alternate\"");
    let p2 = chars_of("rel='alternate'");
    let ghost pred = rel_at(tag@);
    let mut k: usize = 0;
    while k < tag.len()
        invariant
            pred == rel_at(tag@),
            p1@ =~= "rel=\"alternate\""@,
            p2@ =~= "rel='alternate'"@,
            k <= tag@.len(),
            forall|j: int| 0 <= j < k ==> !#[trigger] pred(j),
        decreases tag@.len() - k,
    {
        if matches_at(tag, k, &p1) || matches_at(tag, k, &p2) {
            proof {
                assert(pred(k as int));
                lemma_find_first_skip(tag@.len() as int, pred, k as int);
            }
            return Some(k);
        }
        proof {
            assert(!pred(k as int));
        }
        k += 1;
    }
    proof {
        lemma_find_first_skip(tag@.len() as int, pred, tag@.len() as int);
    }
    None
}

/// The feed-type marker scan over one tag, from a start index.
fn find_type_from(tag: &Vec<char>, from: usize) -> (r: Option<usize>)
    requires
        from <= tag@.len(),
    ensures
        match r {
            Some(i) => find_first(tag@.len() as int, type_at(tag@), from as int) == Some(i as int)
                && from <= i < tag@.len(),
            None => find_first(tag@.len() as int, type_at(tag@), from as int) is None,
        },
{
    let p1 = chars_of("type=\"application/rss+xml\"");
    let p2 = chars_of("type=\"application/atom+xml\"");
    let p3 = chars_of("type='application/rss+xml'");
    let p4 = chars_of("type='application/atom+xml'");
    let ghost pred = type_at(tag@);
    let mut k: usize = from;
    while k < tag.len()
        invariant
            pred == type_at(tag@),
            p1@ =~= "type=\"application/rss+xml\""@,
            p2@ =~= "type=\"application/atom+xml\""@,
            p3@ =~= "type='application/rss+xml'"@,
            p4@ =~= "type='application/atom+xml'"@,
            from <= k <= tag@.len(),
            forall|j: int| from <= j < k ==> !#[trigger] pred(j),
        decreases tag@.len() - k,
    {
        if matches_at(tag, k, &p1) || matches_at(tag, k, &p2) || matches_at(tag, k, &p3)
            || matches_at(tag, k, &p4) {
            proof {
                assert(pred(k as int));
                lemma_find_first_skip_from(tag@.len() as int, pred, from as int, k as int);
            }
            return Some(k);
        }
        proof {
            assert(!pred(k as int));
        }
        k += 1;
    }
    proof {
        lemma_find_first_skip_from(tag@.len() as int, pred, from as int, tag@.len() as int);
    }
    None
}

/// The href scan over one tag, from a start index.
fn find_href_from(tag: &Vec<char>, from: usize) -> (r: Option<usize>)
    requires
        from <= tag@.len(),
    ensures
        match r {
            Some(i) => find_first(tag@.len() as int, href_at(tag@), from as int) == Some(i as int)
                && i + 5 < tag@.len(),
            None => find_first(tag@.len() as int, href_at(tag@), from as int) is None,
        },
{
    let p = chars_of("href=");
    let ghost pred = href_at(tag@);
    let mut k: usize = from;
    while k < tag.len()
        invariant
            pred == href_at(tag@),
            p@ =~= "href="@,
            from <= k <= tag@.len(),
            forall|j: int| from <= j < k ==> !#[trigger] pred(j),
        decreases tag@.len() - k,
    {
        if matches_at(tag, k, &p) && tag.len() - k > 5 && (tag[k + 5] == '"' || tag[k + 5]
            == '\'') {
            proof {
                assert(pred(k as int));
                lemma_find_first_skip_from(tag@.len() as int, pred, from as int, k as int);
            }
            return Some(k);
        }
        proof {
            assert(!pred(k as int));
        }
        k += 1;
    }
    proof {
        lemma_find_first_skip_from(tag@.len() as int, pred, from as int, tag@.len() as int);
    }
    None
}

/// A quote scan over one tag, from a start index.
fn find_char_from(tag: &Vec<char>, q: char, from: usize) -> (r: Option<usize>)
    requires
        from <= tag@.len(),
    ensures
        match r {
            Some(i) => find_first(tag@.len() as int, sep_at(tag@, q), from as int) == Some(
                i as int,
            ) && from <= i < tag@.len(),
            None => find_first(tag@.len() as int, sep_at(tag@, q), from as int) is None,
        },
{
    let ghost pred = sep_at(tag@, q);
    let mut k: usize = from;
    while k < tag.len()
        invariant
            pred == sep_at(tag@, q),
            from <= k <= tag@.len(),
            forall|j: int| from <= j < k ==> !#[trigger] pred(j),
        decreases tag@.len() - k,
    {
        if tag[k] == q {
            proof {
                assert(pred(k as int));
                lemma_find_first_skip_from(tag@.len() as int, pred, from as int, k as int);
            }
            return Some(k);
        }
        proof {
            assert(!pred(k as int));
        }
        k += 1;
    }
    proof {
        lemma_find_first_skip_from(tag@.len() as int, pred, from as int, tag@.len() as int);
    }
    None
}

/// Copy a subrange of characters.
fn copy_range(v: &Vec<char>, lo: usize, hi: usize) -> (r: Vec<char>)
    requires
        lo <= hi <= v@.len(),
    ensures
        r@ =~= v@.subrange(lo as int, hi as int),
{
    let mut out: Vec<char> = Vec::new();
    let mut k: usize = lo;
    while k < hi
        invariant
            lo <= k <= hi <= v@.len(),
            out@ =~= v@.subrange(lo as int, k as int),
        decreases hi - k,
    {
        out.push(v[k]);
        k += 1;
    }
    out
}

/// The tag text of one chunk.
fn tag_of_chunk(chunk: &Vec<char>) -> (r: Vec<char>)
    ensures
        r@ =~= tag_body(chunk@),
{
    let close = find_char_from(chunk, '>', 0);
    match close {
        Some(i) => copy_range(chunk, 0, i),
        None => crate::textutil::copy_chars(chunk),
    }
}

/// The href value at `h` in one tag, if the value is well formed.
fn href_value_at(tag: &Vec<char>, h: usize) -> (r: Option<Vec<char>>)
    requires
        h + 5 < tag@.len(),
    ensures
        match r {
            Some(v) => href_value(tag@, h as int) == Some(v@),
            None => href_value(tag@, h as int) is None,
        },
{
    let n = tag.len();
    proof {
        assert(h + 5 < n);
    }
    let q = tag[h + 5];
    let close = find_char_from(tag, q, h + 6);
    match close {
        Some(e) => {
            if e > h + 6 {
                Some(copy_range(tag, h + 6, e))
            } else {
                None
            }
        },
        None => None,
    }
}

/// One chunk's rel-first match.
fn chunk_rel(chunk: &Vec<char>) -> (r: Option<Vec<char>>)
    ensures
        match r {
            Some(h) => chunk_rel_href(chunk@) == Some(h@),
            None => chunk_rel_href(chunk@) is None,
        },
{
    let tag = tag_of_chunk(chunk);
    let link = chars_of("link");
    if !crate::textutil::has_char_prefix(&tag, &link) {
        return None;
    }
    let rel = match find_rel(&tag) {
        Some(rel) => rel,
        None => {
            return None;
        },
    };
    let t = match find_type_from(&tag, rel + 1) {
        Some(t) => t,
        None => {
            return None;
        },
    };
    let h = match find_href_from(&tag, t + 1) {
        Some(h) => h,
        None => {
            return None;
        },
    };
    href_value_at(&tag, h)
}

/// One chunk's type-first match.
fn chunk_type(chunk: &Vec<char>) -> (r: Option<Vec<char>>)
    ensures
        match r {
            Some(h) => chunk_type_href(chunk@) == Some(h@),
            None => chunk_type_href(chunk@) is None,
        },
{
    let tag = tag_of_chunk(chunk);
    let link = chars_of("link");
    if !crate::textutil::has_char_prefix(&tag, &link) {
        return None;
    }
    let t = match find_type_from(&tag, 0) {
        Some(t) => t,
        None => {
            return None;
        },
    };
    let h = match find_href_from(&tag, t + 1) {
        Some(h) => h,
        None => {
            return None;
        },
    };
    href_value_at(&tag, h)
}

/// How a discovered reference is resolved for fetching: an absolute address
/// is taken as it stands; a relative one is joined against the fetched
/// page's final address, and left as it stands when the join fails.
pub open spec fn spec_resolve_href(base: Seq<char>, href: Seq<char>) -> Seq<char> {
    if spec_has_prefix(href, "http://"@) || spec_has_prefix(href, "https://"@) {
        href
    } else {
        match crate::ext::resolved_url(base, href) {
            Some(u) => u,
            None => href,
        }
    }
}

/// Resolve a possibly relative reference against a base address.
pub fn resolve_url(href: &Vec<char>, base_url: &str) -> (r: String)
    ensures
        r@ == spec_resolve_href(base_url@, href@),
{
    let http = chars_of("http://");
    let https = chars_of("https://");
    if crate::textutil::has_char_prefix(href, &http) || crate::textutil::has_char_prefix(
        href,
        &https,
    ) {
        return string_of(href);
    }
    let href_s = string_of(href);
    match crate::ext::join_url(base_url, href_s.as_str()) {
        Some(u) => u,
        None => href_s,
    }
}

/// Scan a markup document for its advertised feed address and resolve it
/// against the page's final address. The rel-first pattern takes precedence
/// anywhere in the document over the type-first pattern.
pub fn find_feed_link(html: &Vec<char>, base_url: &str) -> (r: Option<String>)
    ensures
        match spec_feed_link(html@) {
            Some(h) => r matches Some(u) && u@ == spec_resolve_href(base_url@, h),
            None => r is None,
        },
{
    let chunks = crate::textutil::split_chars(html, '<');
    let ghost cs = crate::textutil::split_on(html@, '<');
    let mut k: usize = 0;
    while k < chunks.len()
        invariant
            chunks.deep_view() =~~= cs,
            cs == crate::textutil::split_on(html@, '<'),
            k <= chunks@.len(),
            forall|j: int| 0 <= j < k ==> chunk_rel_href(#[trigger] cs[j]) is None,
        decreases chunks@.len() - k,
    {
        let got = chunk_rel(&chunks[k]);
        proof {
            assert(chunks.deep_view()[k as int] =~= chunks@[k as int]@);
        }
        if let Some(h) = got {
            proof {
                lemma_first_rel_skip(cs, k as int);
                assert(cs.subrange(k as int, cs.len() as int)[0] == cs[k as int]);
            }
            return Some(resolve_url(&h, base_url));
        }
        k += 1;
    }
    proof {
        lemma_first_rel_skip(cs, cs.len() as int);
    }
    let mut k2: usize = 0;
    while k2 < chunks.len()
        invariant
            chunks.deep_view() =~~= cs,
            cs == crate::textutil::split_on(html@, '<'),
            first_rel_href(cs) is None,
            k2 <= chunks@.len(),
            forall|j: int| 0 <= j < k2 ==> chunk_type_href(#[trigger] cs[j]) is None,
        decreases chunks@.len() - k2,
    {
        let got = chunk_type(&chunks[k2]);
        proof {
            assert(chunks.deep_view()[k2 as int] =~= chunks@[k2 as int]@);
        }
        if let Some(h) = got {
            proof {
                lemma_first_type_skip(cs, k2 as int);
                assert(cs.subrange(k2 as int, cs.len() as int)[0] == cs[k2 as int]);
            }
            return Some(resolve_url(&h, base_url));
        }
        k2 += 1;
    }
    proof {
        lemma_first_type_skip(cs, cs.len() as int);
    }
    None
}

/// What a feed record built from a parsed document carries: the document's
/// own title (or a placeholder), the given address, the document's first
/// link as the site address, and its description.
pub open spec fn new_feed_post(doc: FeedDoc, url: Seq<char>, f: NewFeed) -> bool {
    &&& f.title@ == (match doc.title {
        Some(t) => t@,
        None => "Untitled Feed"@,
    })
    &&& f.url@ == url
    &&& (match f.site_url {
        Some(s) => doc.links@.len() > 0 && s == doc.links@[0],
        None => doc.links@.len() == 0,
    })
    &&& f.description == doc.description
}

/// Build a feed record from a parsed document's own metadata.
fn new_feed_from_doc(doc: &FeedDoc, url: String) -> (f: NewFeed)
    ensures
        new_feed_post(*doc, url@, f),
{
    let title = match &doc.title {
        Some(t) => t.clone(),
        None => {
            let t = chars_of("Untitled Feed");
            string_of(&t)
        },
    };
    let site_url = if doc.links.len() > 0 {
        Some(doc.links[0].clone())
    } else {
        None
    };
    let description = match &doc.description {
        Some(d) => Some(d.clone()),
        None => None,
    };
    NewFeed { title: title, url: url, site_url: site_url, description: description }
}

/// The outcome of the first discovery stage.
pub enum DiscoverOutcome {
    /// The fetched document is itself a feed; this record describes it.
    Found(NewFeed),
    /// The document advertises a feed at this address: fetch it and hand the
    /// response to `discover_follow`.
    TryUrl(String),
    /// No feed here.
    NoFeed,
}

/// Whether a response looks like a markup document: its media type names
/// markup, or its text opens like a document.
pub open spec fn spec_looks_markup(content_type: Seq<char>, text: Seq<char>) -> bool {
    ||| find_first(content_type.len() as int, html_marker_at(content_type), 0) is Some
    ||| spec_has_prefix(text, "<!"@)
    ||| spec_has_prefix(text, "<html"@)
}

/// The predicate "the letters `html` start at this index".
pub open spec fn html_marker_at(s: Seq<char>) -> spec_fn(int) -> bool {
    |i: int| spec_matches_at(s, i, "html"@)
}

fn looks_markup(content_type: &Vec<char>, text: &Vec<char>) -> (r: bool)
    ensures
        r == spec_looks_markup(content_type@, text@),
{
    let bang = chars_of("<!");
    let tag = chars_of("<html");
    if crate::textutil::has_char_prefix(text, &bang) || crate::textutil::has_char_prefix(
        text,
        &tag,
    ) {
        return true;
    }
    let p = chars_of("html");
    let ghost pred = html_marker_at(content_type@);
    let mut k: usize = 0;
    while k < content_type.len()
        invariant
            pred == html_marker_at(content_type@),
            p@ =~= "html"@,
            k <= content_type@.len(),
            forall|j: int| 0 <= j < k ==> !#[trigger] pred(j),
        decreases content_type@.len() - k,
    {
        if matches_at(content_type, k, &p) {
            proof {
                assert(pred(k as int));
                lemma_find_first_skip(content_type@.len() as int, pred, k as int);
            }
            return true;
        }
        proof {
            assert(!pred(k as int));
        }
        k += 1;
    }
    proof {
        lemma_find_first_skip(content_type@.len() as int, pred, content_type@.len() as int);
    }
    false
}

/// The first discovery stage, on the response to fetching the entered
/// address. A body that parsed as a feed yields a feed record built from
/// the document's own metadata at the response's final address — the link
/// scan is bypassed entirely. Otherwise, a markup-looking body is scanned
/// for an advertised feed address to try next; anything else is no feed.
pub fn discover_from_response(
    parsed: Option<FeedDoc>,
    content_type: &Vec<char>,
    body_text: &Vec<char>,
    final_url: &String,
) -> (r: DiscoverOutcome)
    ensures
        parsed matches Some(doc) ==> (r matches DiscoverOutcome::Found(f) && new_feed_post(
            doc,
            final_url@,
            f,
        )),
        parsed is None ==> {
            if spec_looks_markup(content_type@, body_text@) {
                match spec_feed_link(body_text@) {
                    Some(h) => r matches DiscoverOutcome::TryUrl(u) && u@ == spec_resolve_href(
                        final_url@,
                        h,
                    ),
                    None => r is NoFeed,
                }
            } else {
                r is NoFeed
            }
        },
{
    if let Some(doc) = parsed {
        return DiscoverOutcome::Found(new_feed_from_doc(&doc, final_url.clone()));
    }
    if looks_markup(content_type, body_text) {
        match find_feed_link(body_text, final_url.as_str()) {
            Some(u) => DiscoverOutcome::TryUrl(u),
            None => DiscoverOutcome::NoFeed,
        }
    } else {
        DiscoverOutcome::NoFeed
    }
}

/// The second discovery stage, on the response to fetching an advertised
/// feed address: the body must itself have parsed as a feed, whose record
/// then carries the advertised address.
pub fn discover_follow(parsed: Option<FeedDoc>, feed_url: String) -> (r: Option<NewFeed>)
    ensures
        match parsed {
            Some(doc) => r matches Some(f) && new_feed_post(doc, feed_url@, f),
            None => r is None,
        },
{
    match parsed {
        Some(doc) => Some(new_feed_from_doc(&doc, feed_url)),
        None => None,
    }
}

/// What one article built from a parsed entry carries: the entry's values,
/// with the feed's own id, a placeholder title when the entry has none, the
/// first link as the address, the first author, the full content body (or
/// the short summary in its place) both raw and rendered to text, and the
/// publication time (or the update time in its place).
pub open spec fn entry_article_post(e: EntryDoc, feed_id: i64, a: NewArticle) -> bool {
    &&& a.feed_id == feed_id
    &&& a.guid == e.guid
    &&& a.title@ == (match e.title {
        Some(t) => t@,
        None => "Untitled"@,
    })
    &&& a.url@ == (if e.links@.len() > 0 {
        e.links@[0]@
    } else {
        Seq::<char>::empty()
    })
    &&& (match a.author {
        Some(x) => e.authors@.len() > 0 && x == e.authors@[0],
        None => e.authors@.len() == 0,
    })
    &&& (match spec_entry_html(e) {
        Some(h) => {
            &&& a.content matches Some(c) && c@ == h
            &&& (match a.content_text {
                Some(ct) => rendered_text(h) == Some(ct@),
                None => rendered_text(h) is None,
            })
        },
        None => a.content is None && a.content_text is None,
    })
    &&& a.published_at == (match e.published_at {
        Some(p) => Some(p),
        None => e.updated_at,
    })
}

/// The markup body an entry offers: its full content when present, else its
/// short summary.
pub open spec fn spec_entry_html(e: EntryDoc) -> Option<Seq<char>> {
    match e.content_html {
        Some(h) => Some(h@),
        None => match e.summary {
            Some(s) => Some(s@),
            None => None,
        },
    }
}

/// Build the article list a parsed feed document yields for one feed: one
/// article per entry, in order.
pub fn articles_from_doc(feed_id: i64, doc: &FeedDoc) -> (r: Vec<NewArticle>)
    ensures
        r@.len() == doc.entries@.len(),
        forall|i: int|
            0 <= i < r@.len() ==> entry_article_post(doc.entries@[i], feed_id, #[trigger] r@[i]),
{
    let mut out: Vec<NewArticle> = Vec::new();
    let mut k: usize = 0;
    while k < doc.entries.len()
        invariant
            k <= doc.entries@.len(),
            out@.len() == k,
            forall|i: int|
                0 <= i < k ==> entry_article_post(doc.entries@[i], feed_id, #[trigger] out@[i]),
        decreases doc.entries@.len() - k,
    {
        let e = &doc.entries[k];
        let title = match &e.title {
            Some(t) => t.clone(),
            None => {
                let t = chars_of("Untitled");
                string_of(&t)
            },
        };
        let url = if e.links.len() > 0 {
            e.links[0].clone()
        } else {
            String::new()
        };
        let author = if e.authors.len() > 0 {
            Some(e.authors[0].clone())
        } else {
            None
        };
        let html: Option<String> = match &e.content_html {
            Some(h) => Some(h.clone()),
            None => match &e.summary {
                Some(s) => Some(s.clone()),
                None => None,
            },
        };
        let content_text: Option<String> = match &html {
            Some(h) => crate::ext::html_to_text(h.as_str()),
            None => None,
        };
        let published_at = match e.published_at {
            Some(p) => Some(p),
            None => e.updated_at,
        };
        out.push(NewArticle {
            feed_id: feed_id,
            guid: e.guid.clone(),
            title: title,
            url: url,
            author: author,
            content: html,
            content_text: content_text,
            published_at: published_at,
        });
        k += 1;
    }
    out
}

} // verus!
