//! The content-resolution chain: before a summarization job runs, a
//! best-effort fetch of the article's own page may yield higher-fidelity
//! text than the feed-supplied body. A fetched page is rendered to text,
//! cleaned, and used only when it clears a minimum length; anything less —
//! including no fetch at all — falls back to the feed's own body. Resolution
//! can never fail the summarization request.

use vstd::prelude::*;

use crate::ext::rendered_text;
use crate::textutil::{chars_of, clean_lines, cleaned_lines, string_of};

verus! {

/// The minimum length (in characters) extracted page text must clear to
/// replace the feed-supplied body.
pub const MIN_EXTRACTED_LEN: usize = 200;

/// The cap (in characters) on the article body handed to the summarization
/// backend.
pub const MAX_SUMMARY_INPUT: usize = 10000;

/// What readable text a fetched page yields: the rendered document with
/// every line trimmed and empty lines dropped — kept only when it clears
/// the minimum length.
pub open spec fn spec_extracted(html: Seq<char>) -> Option<Seq<char>> {
    match rendered_text(html) {
        Some(t) => if cleaned_lines(t).len() > MIN_EXTRACTED_LEN {
            Some(cleaned_lines(t))
        } else {
            None
        },
        None => None,
    }
}

/// Extract readable text from a fetched page, or nothing when the page does
/// not render or yields too little.
pub fn extract_content(html: &str) -> (r: Option<String>)
    ensures
        match r {
            Some(c) => spec_extracted(html@) == Some(c@),
            None => spec_extracted(html@) is None,
        },
{
    let text = match crate::ext::html_to_text(html) {
        Some(t) => t,
        None => {
            return None;
        },
    };
    let tv = chars_of(text.as_str());
    let cleaned = clean_lines(&tv);
    if cleaned.len() > MIN_EXTRACTED_LEN {
        Some(string_of(&cleaned))
    } else {
        None
    }
}

/// Choose the content a summarization job runs on: extracted page text when
/// resolution produced any, else the feed-supplied body verbatim. A failed
/// or absent resolution never fails the request.
pub fn resolve_content(fetched: Option<String>, fallback: String) -> (r: String)
    ensures
        match fetched {
            Some(t) => r == t,
            None => r == fallback,
        },
{
    match fetched {
        Some(t) => t,
        None => fallback,
    }
}

/// Cap the article body handed to the summarization backend.
pub fn summarizer_input(content: &str) -> (r: String)
    ensures
        content@.len() <= MAX_SUMMARY_INPUT ==> r@ =~= content@,
        content@.len() > MAX_SUMMARY_INPUT ==> r@ =~= content@.subrange(
            0,
            MAX_SUMMARY_INPUT as int,
        ),
{
    crate::textutil::truncate_chars(content, MAX_SUMMARY_INPUT)
}

} // verus!
