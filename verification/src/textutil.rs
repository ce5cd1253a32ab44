//! Character-level text processing: trimming, splitting, sentence
//! extraction, and the excerpt cleanup used when forwarding to the bookmark
//! service. Everything is specified over sequences of characters through
//! first-match and last-match index functions.

use vstd::prelude::*;

verus! {

/// The first index at or after `i` (and below `len`) satisfying `pred`.
pub open spec fn find_first(len: int, pred: spec_fn(int) -> bool, i: int) -> Option<int>
    decreases len - i,
{
    if i < 0 || i >= len {
        None
    } else if pred(i) {
        Some(i)
    } else {
        find_first(len, pred, i + 1)
    }
}

/// The last index at or below `i` (and at least 0) satisfying `pred`.
pub open spec fn find_last(len: int, pred: spec_fn(int) -> bool, i: int) -> Option<int>
    decreases i + 1,
{
    if i < 0 || i >= len {
        None
    } else if pred(i) {
        Some(i)
    } else {
        find_last(len, pred, i - 1)
    }
}

/// Scanning may start past a prefix with no match.
pub proof fn lemma_find_first_skip(len: int, pred: spec_fn(int) -> bool, k: int)
    requires
        0 <= k <= len,
        forall|j: int| 0 <= j < k ==> !#[trigger] pred(j),
    ensures
        find_first(len, pred, 0) == find_first(len, pred, k),
    decreases k,
{
    if k > 0 {
        lemma_find_first_skip(len, pred, k - 1);
    }
}

/// Scanning backwards may start below a suffix with no match.
pub proof fn lemma_find_last_skip(len: int, pred: spec_fn(int) -> bool, k: int)
    requires
        -1 <= k < len,
        forall|j: int| k < j < len ==> !#[trigger] pred(j),
    ensures
        find_last(len, pred, len - 1) == find_last(len, pred, k),
    decreases len - k,
{
    if k < len - 1 {
        lemma_find_last_skip(len, pred, k + 1);
    }
}



/// Whitespace as trimming understands it.
pub open spec fn is_blank(c: char) -> bool {
    c == ' ' || c == '\t' || c == '\r' || c == '\n'
}

/// The predicate "the character at this index is not blank".
pub open spec fn non_blank_at(s: Seq<char>) -> spec_fn(int) -> bool {
    |i: int| !is_blank(s[i])
}

/// The predicate "the character at this index is the separator".
pub open spec fn sep_at(s: Seq<char>, sep: char) -> spec_fn(int) -> bool {
    |i: int| s[i] == sep
}

fn is_blank_char(c: char) -> (r: bool)
    ensures
        r == is_blank(c),
{
    c == ' ' || c == '\t' || c == '\r' || c == '\n'
}

/// Where the trimmed text starts: the first non-blank index, or the length.
pub open spec fn trim_start_at(s: Seq<char>) -> int {
    match find_first(s.len() as int, non_blank_at(s), 0) {
        Some(i) => i,
        None => s.len() as int,
    }
}

/// Where the trimmed text ends: one past the last non-blank index.
pub open spec fn trim_end_at(s: Seq<char>) -> int {
    match find_last(s.len() as int, non_blank_at(s), s.len() - 1) {
        Some(i) => i + 1,
        None => trim_start_at(s),
    }
}

/// The text with leading and trailing blanks removed.
pub open spec fn spec_trimmed(s: Seq<char>) -> Seq<char> {
    s.subrange(trim_start_at(s), trim_end_at(s))
}

/// Trim leading and trailing blanks.
pub fn trimmed_chars(v: &Vec<char>) -> (r: Vec<char>)
    ensures
        r@ =~= spec_trimmed(v@),
{
    let ghost pred = non_blank_at(v@);
    let mut lo: usize = 0;
    while lo < v.len() && is_blank_char(v[lo])
        invariant
            pred == non_blank_at(v@),
            lo <= v@.len(),
            forall|j: int| 0 <= j < lo ==> !#[trigger] pred(j),
        decreases v@.len() - lo,
    {
        proof {
            assert(!pred(lo as int));
        }
        lo += 1;
    }
    proof {
        lemma_find_first_skip(v@.len() as int, pred, lo as int);
        assert(trim_start_at(v@) == lo as int);
    }
    if lo == v.len() {
        proof {
            lemma_find_last_skip(v@.len() as int, pred, -1);
            assert(trim_end_at(v@) == lo as int);
        }
        return Vec::new();
    }
    proof {
        assert(pred(lo as int));
    }
    let mut hi: usize = v.len();
    while hi > lo && is_blank_char(v[hi - 1])
        invariant
            pred == non_blank_at(v@),
            lo < v@.len(),
            lo <= hi <= v@.len(),
            forall|j: int| hi <= j < v@.len() ==> !#[trigger] pred(j),
        decreases hi,
    {
        proof {
            assert(!pred(hi as int - 1));
        }
        hi -= 1;
    }
    proof {
        if hi == lo {
            assert(!pred(lo as int));
            assert(false);
        }
        assert(pred(hi as int - 1));
        lemma_find_last_skip(v@.len() as int, pred, hi as int - 1);
        assert(trim_end_at(v@) == hi as int);
    }
    let mut out: Vec<char> = Vec::new();
    let mut k: usize = lo;
    while k < hi
        invariant
            lo <= k <= hi <= v@.len(),
            out@ =~= v@.subrange(lo as int, k as int),
        decreases hi - k,
    {
        out.push(v[k]);
        k += 1;
    }
    out
}

/// The pieces of `s` between occurrences of `sep`, in order; a sequence
/// with no separator is one piece.
pub open spec fn split_on(s: Seq<char>, sep: char) -> Seq<Seq<char>>
    decreases s.len(),
{
    match find_first(s.len() as int, sep_at(s, sep), 0) {
        None => seq![s],
        Some(i) => {
            if 0 <= i < s.len() {
                seq![s.subrange(0, i)] + split_on(s.subrange(i + 1, s.len() as int), sep)
            } else {
                seq![s]
            }
        },
    }
}

/// Split at every occurrence of `sep`.
pub fn split_chars(v: &Vec<char>, sep: char) -> (r: Vec<Vec<char>>)
    ensures
        r.deep_view() =~~= split_on(v@, sep),
    decreases v@.len(),
{
    let ghost pred = sep_at(v@, sep);
    let mut k: usize = 0;
    while k < v.len() && v[k] != sep
        invariant
            pred == sep_at(v@, sep),
            k <= v@.len(),
            forall|j: int| 0 <= j < k ==> !#[trigger] pred(j),
        decreases v@.len() - k,
    {
        proof {
            assert(!pred(k as int));
        }
        k += 1;
    }
    proof {
        lemma_find_first_skip(v@.len() as int, pred, k as int);
    }
    if k == v.len() {
        let piece = copy_chars(v);
        let mut out: Vec<Vec<char>> = Vec::new();
        out.push(piece);
        proof {
            assert(find_first(v@.len() as int, pred, 0) is None);
            assert(out.deep_view() =~~= seq![v@]);
        }
        out
    } else {
        proof {
            assert(pred(k as int));
            assert(find_first(v@.len() as int, pred, 0) == Some(k as int));
        }
        let mut piece: Vec<char> = Vec::new();
        let mut i: usize = 0;
        while i < k
            invariant
                i <= k <= v@.len(),
                piece@ =~= v@.subrange(0, i as int),
            decreases k - i,
        {
            piece.push(v[i]);
            i += 1;
        }
        let mut rest: Vec<char> = Vec::new();
        let mut i2: usize = k + 1;
        while i2 < v.len()
            invariant
                k < v@.len(),
                k + 1 <= i2 <= v@.len(),
                rest@ =~= v@.subrange(k + 1, i2 as int),
            decreases v@.len() - i2,
        {
            rest.push(v[i2]);
            i2 += 1;
        }
        proof {
            assert(rest@ =~= v@.subrange(k + 1, v@.len() as int));
        }
        let tail = split_chars(&rest, sep);
        let mut out: Vec<Vec<char>> = Vec::new();
        out.push(piece);
        let mut t: usize = 0;
        while t < tail.len()
            invariant
                t <= tail@.len(),
                out@.len() == t + 1,
                out.deep_view() =~~= seq![v@.subrange(0, k as int)] + tail.deep_view().subrange(
                    0,
                    t as int,
                ),
            decreases tail@.len() - t,
        {
            let ghost prev_dv = out.deep_view();
            let piece_t = copy_chars(&tail[t]);
            proof {
                assert(piece_t.deep_view() =~= tail.deep_view()[t as int]);
            }
            out.push(piece_t);
            proof {
                assert(out.deep_view() =~= prev_dv.push(piece_t.deep_view()));
            }
            t += 1;
        }
        proof {
            assert(tail.deep_view().subrange(0, tail@.len() as int) =~~= tail.deep_view());
            assert(split_on(v@, sep) == seq![v@.subrange(0, k as int)] + split_on(
                v@.subrange(k + 1, v@.len() as int),
                sep,
            ));
            assert(out.deep_view() =~~= split_on(v@, sep));
        }
        out
    }
}

/// Copy a character vector.
pub fn copy_chars(v: &Vec<char>) -> (r: Vec<char>)
    ensures
        r@ =~= v@,
{
    let mut out: Vec<char> = Vec::new();
    let mut i: usize = 0;
    while i < v.len()
        invariant
            i <= v@.len(),
            out@ =~= v@.subrange(0, i as int),
        decreases v@.len() - i,
    {
        out.push(v[i]);
        i += 1;
    }
    proof {
        assert(v@.subrange(0, v@.len() as int) =~= v@);
    }
    out
}

/// The characters of a string slice.
pub fn chars_of(s: &str) -> (r: Vec<char>)
    ensures
        r@ =~= s@,
{
    broadcast use vstd::string::next_postcondition, vstd::string::axiom_spec_iter;

    let mut out: Vec<char> = Vec::new();
    let mut it = s.chars();
    loop
        invariant
            vstd::std_specs::iter::IteratorSpec::obeys_prophetic_iter_laws(&it),
            out@ + vstd::std_specs::iter::IteratorSpec::remaining(&it) =~= s@,
        decreases s@.len() - out@.len(),
    {
        let ghost prev = it;
        match it.next() {
            Some(c) => {
                proof {
                    assert(vstd::std_specs::iter::IteratorSpec::remaining(&prev) =~= seq![c]
                        + vstd::std_specs::iter::IteratorSpec::remaining(&it));
                }
                out.push(c);
            },
            None => {
                return out;
            },
        }
    }
}

/// A string holding exactly these characters.
pub fn string_of(v: &Vec<char>) -> (r: String)
    ensures
        r@ =~= v@,
{
    let mut out = String::new();
    let mut i: usize = 0;
    while i < v.len()
        invariant
            i <= v@.len(),
            out@ =~= v@.subrange(0, i as int),
        decreases v@.len() - i,
    {
        out.push(v[i]);
        i += 1;
    }
    proof {
        assert(v@.subrange(0, v@.len() as int) =~= v@);
    }
    out
}

/// The predicate "a period here is followed by a space".
pub open spec fn dot_space_at(s: Seq<char>) -> spec_fn(int) -> bool {
    |i: int| s[i] == '.' && i + 1 < s.len() && s[i + 1] == ' '
}

/// The predicate "a period here is followed by a line break".
pub open spec fn dot_newline_at(s: Seq<char>) -> spec_fn(int) -> bool {
    |i: int| s[i] == '.' && i + 1 < s.len() && s[i + 1] == '\n'
}

/// Where the first sentence of `t` ends: one past the first period followed
/// by a space, else one past the first period followed by a line break, else
/// one past the first period, else the whole length.
pub open spec fn sentence_end(t: Seq<char>) -> int {
    match find_first(t.len() as int, dot_space_at(t), 0) {
        Some(i) => i + 1,
        None => match find_first(t.len() as int, dot_newline_at(t), 0) {
            Some(i) => i + 1,
            None => match find_first(t.len() as int, sep_at(t, '.'), 0) {
                Some(i) => i + 1,
                None => t.len() as int,
            },
        },
    }
}

/// The length an excerpt is capped to.
pub const EXCERPT_CAP: usize = 200;

/// Three periods.
pub open spec fn ellipsis() -> Seq<char> {
    seq!['.', '.', '.']
}

/// The first sentence of the text, trimmed, capped to the excerpt length:
/// an over-long sentence is cut at the last space before the cap (or hard at
/// the cap when it has no space) and marked with an ellipsis.
pub open spec fn first_sentence(s: Seq<char>) -> Seq<char> {
    let t = spec_trimmed(s);
    let sent = t.subrange(0, sentence_end(t));
    if sent.len() > EXCERPT_CAP {
        let cut = sent.subrange(0, EXCERPT_CAP as int);
        match find_last(cut.len() as int, sep_at(cut, ' '), cut.len() - 1) {
            Some(j) => cut.subrange(0, j) + ellipsis(),
            None => cut + ellipsis(),
        }
    } else {
        sent
    }
}

/// Extract the first sentence for an excerpt.
pub fn get_first_sentence(v: &Vec<char>) -> (r: Vec<char>)
    ensures
        r@ =~= first_sentence(v@),
{
    let t = trimmed_chars(v);
    let ghost p1 = dot_space_at(t@);
    let ghost p2 = dot_newline_at(t@);
    let ghost p3 = sep_at(t@, '.');
    let mut stop: usize = t.len();
    let mut found = false;
    let mut k: usize = 0;
    while k < t.len() && !(t[k] == '.' && k + 1 < t.len() && t[k + 1] == ' ')
        invariant
            p1 == dot_space_at(t@),
            k <= t@.len(),
            forall|j: int| 0 <= j < k ==> !#[trigger] p1(j),
        decreases t@.len() - k,
    {
        proof {
            assert(!p1(k as int));
        }
        k += 1;
    }
    proof {
        lemma_find_first_skip(t@.len() as int, p1, k as int);
    }
    if k < t.len() {
        proof {
            assert(p1(k as int));
        }
        stop = k + 1;
        found = true;
    }
    if !found {
        let mut k2: usize = 0;
        while k2 < t.len() && !(t[k2] == '.' && k2 + 1 < t.len() && t[k2 + 1] == '\n')
            invariant
                p2 == dot_newline_at(t@),
                k2 <= t@.len(),
                forall|j: int| 0 <= j < k2 ==> !#[trigger] p2(j),
            decreases t@.len() - k2,
        {
            proof {
                assert(!p2(k2 as int));
            }
            k2 += 1;
        }
        proof {
            lemma_find_first_skip(t@.len() as int, p2, k2 as int);
        }
        if k2 < t.len() {
            proof {
                assert(p2(k2 as int));
            }
            stop = k2 + 1;
            found = true;
        }
    }
    if !found {
        let mut k3: usize = 0;
        while k3 < t.len() && t[k3] != '.'
            invariant
                p3 == sep_at(t@, '.'),
                k3 <= t@.len(),
                forall|j: int| 0 <= j < k3 ==> !#[trigger] p3(j),
            decreases t@.len() - k3,
        {
            proof {
                assert(!p3(k3 as int));
            }
            k3 += 1;
        }
        proof {
            lemma_find_first_skip(t@.len() as int, p3, k3 as int);
        }
        if k3 < t.len() {
            proof {
                assert(p3(k3 as int));
            }
            stop = k3 + 1;
        }
    }
    proof {
        assert(stop as int == sentence_end(t@));
    }
    let mut sent: Vec<char> = Vec::new();
    let mut i: usize = 0;
    while i < stop
        invariant
            i <= stop <= t@.len(),
            sent@ =~= t@.subrange(0, i as int),
        decreases stop - i,
    {
        sent.push(t[i]);
        i += 1;
    }
    if sent.len() <= EXCERPT_CAP {
        return sent;
    }
    let mut cut: Vec<char> = Vec::new();
    let mut i2: usize = 0;
    while i2 < EXCERPT_CAP
        invariant
            i2 <= EXCERPT_CAP < sent@.len(),
            cut@ =~= sent@.subrange(0, i2 as int),
        decreases EXCERPT_CAP - i2,
    {
        cut.push(sent[i2]);
        i2 += 1;
    }
    let ghost psp = sep_at(cut@, ' ');
    let mut hi: usize = cut.len();
    while hi > 0 && cut[hi - 1] != ' '
        invariant
            psp == sep_at(cut@, ' '),
            hi <= cut@.len(),
            forall|j: int| hi <= j < cut@.len() ==> !#[trigger] psp(j),
        decreases hi,
    {
        proof {
            assert(!psp(hi as int - 1));
        }
        hi -= 1;
    }
    proof {
        lemma_find_last_skip(cut@.len() as int, psp, hi as int - 1);
    }
    let mut out: Vec<char>;
    if hi > 0 {
        proof {
            assert(psp(hi as int - 1));
        }
        out = Vec::new();
        let mut i3: usize = 0;
        while i3 < hi - 1
            invariant
                hi >= 1,
                i3 <= hi - 1 <= cut@.len(),
                out@ =~= cut@.subrange(0, i3 as int),
            decreases hi - 1 - i3,
        {
            out.push(cut[i3]);
            i3 += 1;
        }
    } else {
        out = cut;
    }
    out.push('.');
    out.push('.');
    out.push('.');
    out
}

/// The pieces, each trimmed.
pub open spec fn trimmed_parts(parts: Seq<Seq<char>>) -> Seq<Seq<char>> {
    parts.map_values(|t: Seq<char>| spec_trimmed(t))
}

/// The pieces joined with the separator between them.
pub open spec fn joined_with(parts: Seq<Seq<char>>, sep: Seq<char>) -> Seq<char>
    decreases parts.len(),
{
    if parts.len() == 0 {
        Seq::<char>::empty()
    } else if parts.len() == 1 {
        parts[0]
    } else {
        joined_with(parts.drop_last(), sep) + sep + parts.last()
    }
}

/// The pieces with leading empty ones dropped.
pub open spec fn skip_leading_empty(parts: Seq<Seq<char>>) -> Seq<Seq<char>>
    decreases parts.len(),
{
    if parts.len() > 0 && parts[0].len() == 0 {
        skip_leading_empty(parts.drop_first())
    } else {
        parts
    }
}

/// Leading empty pieces may be dropped one prefix at a time.
proof fn lemma_skip_leading_empty(parts: Seq<Seq<char>>, k: int)
    requires
        0 <= k <= parts.len(),
        forall|j: int| 0 <= j < k ==> #[trigger] parts[j].len() == 0,
    ensures
        skip_leading_empty(parts) == skip_leading_empty(parts.subrange(k, parts.len() as int)),
    decreases k,
{
    if k > 0 {
        assert(parts[0].len() == 0);
        assert(parts.drop_first() =~= parts.subrange(1, parts.len() as int));
        assert forall|j: int| 0 <= j < k - 1 implies #[trigger] parts.drop_first()[j].len()
            == 0 by {
            assert(parts[j + 1].len() == 0);
        }
        lemma_skip_leading_empty(parts.drop_first(), k - 1);
        assert(parts.drop_first().subrange(k - 1, parts.drop_first().len() as int)
            =~= parts.subrange(k, parts.len() as int));
        assert(skip_leading_empty(parts) == skip_leading_empty(parts.drop_first()));
    } else {
        assert(parts.subrange(0, parts.len() as int) =~= parts);
    }
}

/// Join the pieces with a separator.
pub fn join_with_chars(parts: &Vec<Vec<char>>, sep: &Vec<char>) -> (r: Vec<char>)
    ensures
        r@ =~= joined_with(parts.deep_view(), sep@),
{
    let mut out: Vec<char> = Vec::new();
    let mut k: usize = 0;
    while k < parts.len()
        invariant
            k <= parts@.len(),
            out@ =~= joined_with(parts.deep_view().subrange(0, k as int), sep@),
        decreases parts@.len() - k,
    {
        proof {
            let dv = parts.deep_view();
            assert(dv.subrange(0, (k + 1) as int).drop_last() =~= dv.subrange(0, k as int));
            assert(dv.subrange(0, (k + 1) as int).last() == dv[k as int]);
        }
        if k > 0 {
            let mut s: usize = 0;
            while s < sep.len()
                invariant
                    s <= sep@.len(),
                    k < parts@.len(),
                    out@ =~= joined_with(parts.deep_view().subrange(0, k as int), sep@)
                        + sep@.subrange(0, s as int),
                decreases sep@.len() - s,
            {
                out.push(sep[s]);
                s += 1;
            }
        }
        let piece = &parts[k];
        let mut i: usize = 0;
        while i < piece.len()
            invariant
                i <= piece@.len(),
                k < parts@.len(),
                piece@ =~= parts@[k as int]@,
                k > 0 ==> out@ =~= joined_with(parts.deep_view().subrange(0, k as int), sep@)
                    + sep@ + piece@.subrange(0, i as int),
                k == 0 ==> out@ =~= piece@.subrange(0, i as int),
            decreases piece@.len() - i,
        {
            out.push(piece[i]);
            i += 1;
        }
        proof {
            assert(parts.deep_view()[k as int] =~= parts@[k as int]@);
        }
        k += 1;
    }
    proof {
        assert(parts.deep_view().subrange(0, parts@.len() as int) =~= parts.deep_view());
    }
    out
}

/// The text flattened for excerpt cleanup: each line trimmed, leading blank
/// lines dropped, the rest joined with single spaces.
pub open spec fn flattened_text(s: Seq<char>) -> Seq<char> {
    joined_with(skip_leading_empty(trimmed_parts(split_on(s, '\n'))), seq![' '])
}

/// Flatten text for excerpt cleanup.
pub fn flatten_text(v: &Vec<char>) -> (r: Vec<char>)
    ensures
        r@ =~= flattened_text(v@),
{
    let pieces = split_chars(v, '\n');
    let mut trimmed: Vec<Vec<char>> = Vec::new();
    let mut k: usize = 0;
    while k < pieces.len()
        invariant
            k <= pieces@.len(),
            pieces.deep_view() =~~= split_on(v@, '\n'),
            trimmed.deep_view() =~~= trimmed_parts(pieces.deep_view()).subrange(0, k as int),
        decreases pieces@.len() - k,
    {
        let ghost prev_dv = trimmed.deep_view();
        let t = trimmed_chars(&pieces[k]);
        proof {
            assert(pieces.deep_view()[k as int] =~= pieces@[k as int].deep_view());
            assert(pieces@[k as int].deep_view() =~= pieces@[k as int]@);
        }
        trimmed.push(t);
        proof {
            assert(trimmed.deep_view() =~= prev_dv.push(trimmed.deep_view().last()));
            assert(trimmed.deep_view().last() =~= spec_trimmed(pieces.deep_view()[k as int]));
        }
        k += 1;
    }
    proof {
        assert(trimmed_parts(pieces.deep_view()).subrange(
            0,
            pieces@.len() as int,
        ) =~= trimmed_parts(pieces.deep_view()));
    }
    let mut start: usize = 0;
    while start < trimmed.len() && trimmed[start].len() == 0
        invariant
            start <= trimmed@.len(),
            forall|j: int| 0 <= j < start ==> #[trigger] trimmed.deep_view()[j].len() == 0,
        decreases trimmed@.len() - start,
    {
        proof {
            assert(trimmed.deep_view()[start as int] =~= trimmed@[start as int]@);
        }
        start += 1;
    }
    proof {
        lemma_skip_leading_empty(trimmed.deep_view(), start as int);
        if (start as int) < trimmed.deep_view().len() {
            assert(trimmed.deep_view()[start as int] =~= trimmed@[start as int]@);
            assert(trimmed.deep_view().subrange(start as int, trimmed.deep_view().len() as int)[0].len() > 0);
        }
    }
    let mut kept: Vec<Vec<char>> = Vec::new();
    let mut k2: usize = start;
    while k2 < trimmed.len()
        invariant
            start <= k2 <= trimmed@.len(),
            kept.deep_view() =~~= trimmed.deep_view().subrange(start as int, k2 as int),
        decreases trimmed@.len() - k2,
    {
        let ghost prev_dv = kept.deep_view();
        let piece = copy_chars(&trimmed[k2]);
        proof {
            assert(piece.deep_view() =~= trimmed.deep_view()[k2 as int]);
        }
        kept.push(piece);
        proof {
            assert(kept.deep_view() =~= prev_dv.push(kept.deep_view().last()));
        }
        k2 += 1;
    }
    proof {
        assert(kept.deep_view() =~~= skip_leading_empty(trimmed.deep_view()));
    }
    let mut sep: Vec<char> = Vec::new();
    sep.push(' ');
    let joined = join_with_chars(&kept, &sep);
    proof {
        assert(sep@ =~= seq![' ']);
    }
    joined
}

/// Whether `s` begins with `p`, comparing ASCII letters without case: an
/// upper-case letter in `s` matches its lower-case form in `p`.
pub open spec fn ci_matches_prefix(s: Seq<char>, p: Seq<char>) -> bool {
    p.len() <= s.len() && forall|i: int| 0 <= i < p.len() ==> ci_eq(#[trigger] s[i], p[i])
}

/// Case-insensitive match of one character of text against one lower-case
/// pattern character.
pub open spec fn ci_eq(a: char, b: char) -> bool {
    a == b || ('A' <= a && a <= 'Z' && a as int + 32 == b as int)
}

fn ci_eq_char(a: char, b: char) -> (r: bool)
    ensures
        r == ci_eq(a, b),
{
    a == b || ('A' <= a && a <= 'Z' && a as u32 + 32 == b as u32)
}

/// Whether the text begins with the pattern, ASCII-case-insensitively.
pub fn ci_has_prefix(v: &Vec<char>, p: &Vec<char>) -> (r: bool)
    ensures
        r == ci_matches_prefix(v@, p@),
{
    if p.len() > v.len() {
        return false;
    }
    let mut k: usize = 0;
    while k < p.len()
        invariant
            p@.len() <= v@.len(),
            k <= p@.len(),
            forall|i: int| 0 <= i < k ==> ci_eq(#[trigger] v@[i], p@[i]),
        decreases p@.len() - k,
    {
        if !ci_eq_char(v[k], p[k]) {
            return false;
        }
        k += 1;
    }
    true
}

/// The leading phrases a summarization backend tends to add, all lower-case.
pub open spec fn excerpt_prefixes() -> Seq<Seq<char>> {
    seq![
        "summary:"@,
        "here's the summary of the article:"@,
        "here's a summary of the article:"@,
        "here is the summary of the article:"@,
        "here is a summary of the article:"@,
        "here's the summary:"@,
        "here's a summary:"@,
        "here is the summary:"@,
        "here is a summary:"@,
    ]
}

/// The text with leading blanks removed.
pub open spec fn spec_ltrimmed(s: Seq<char>) -> Seq<char> {
    s.subrange(trim_start_at(s), s.len() as int)
}

/// Remove leading blanks.
pub fn ltrimmed_chars(v: &Vec<char>) -> (r: Vec<char>)
    ensures
        r@ =~= spec_ltrimmed(v@),
{
    let ghost pred = non_blank_at(v@);
    let mut lo: usize = 0;
    while lo < v.len() && is_blank_char(v[lo])
        invariant
            pred == non_blank_at(v@),
            lo <= v@.len(),
            forall|j: int| 0 <= j < lo ==> !#[trigger] pred(j),
        decreases v@.len() - lo,
    {
        proof {
            assert(!pred(lo as int));
        }
        lo += 1;
    }
    proof {
        lemma_find_first_skip(v@.len() as int, pred, lo as int);
        if lo < v@.len() {
            assert(pred(lo as int));
        }
        assert(trim_start_at(v@) == lo as int);
    }
    let mut out: Vec<char> = Vec::new();
    let mut k: usize = lo;
    while k < v.len()
        invariant
            lo <= k <= v@.len(),
            out@ =~= v@.subrange(lo as int, k as int),
        decreases v@.len() - k,
    {
        out.push(v[k]);
        k += 1;
    }
    out
}

/// The flattened text with the first matching backend phrase removed (and
/// the remainder's leading blanks dropped); the text unchanged when no
/// phrase matches. Phrases are tried in their listed order.
pub open spec fn stripped_from(s: Seq<char>, idx: int) -> Seq<char>
    decreases excerpt_prefixes().len() - idx,
{
    if idx < 0 || idx >= excerpt_prefixes().len() {
        s
    } else if ci_matches_prefix(s, excerpt_prefixes()[idx]) {
        spec_ltrimmed(s.subrange(excerpt_prefixes()[idx].len() as int, s.len() as int))
    } else {
        stripped_from(s, idx + 1)
    }
}

/// What the excerpt of an AI summary is: the summary flattened to one line,
/// a leading backend phrase stripped, and the first sentence extracted.
pub open spec fn cleaned_excerpt(s: Seq<char>) -> Seq<char> {
    first_sentence(stripped_from(flattened_text(s), 0))
}

fn excerpt_prefix_at(idx: usize) -> (r: Vec<char>)
    requires
        idx < 9,
    ensures
        r@ =~= excerpt_prefixes()[idx as int],
{
    if idx == 0 {
        chars_of("summary:")
    } else if idx == 1 {
        chars_of("here's the summary of the article:")
    } else if idx == 2 {
        chars_of("here's a summary of the article:")
    } else if idx == 3 {
        chars_of("here is the summary of the article:")
    } else if idx == 4 {
        chars_of("here is a summary of the article:")
    } else if idx == 5 {
        chars_of("here's the summary:")
    } else if idx == 6 {
        chars_of("here's a summary:")
    } else if idx == 7 {
        chars_of("here is the summary:")
    } else {
        chars_of("here is a summary:")
    }
}

/// Clean an AI summary into a one-sentence excerpt: flatten it to one line,
/// strip a leading backend phrase, and take the first sentence.
pub fn clean_summary_for_excerpt(v: &Vec<char>) -> (r: Vec<char>)
    ensures
        r@ =~= cleaned_excerpt(v@),
{
    let text = flatten_text(v);
    let mut idx: usize = 0;
    while idx < 9
        invariant
            text@ =~= flattened_text(v@),
            idx <= 9,
            stripped_from(text@, 0) == stripped_from(text@, idx as int),
        decreases 9 - idx,
    {
        let p = excerpt_prefix_at(idx);
        if ci_has_prefix(&text, &p) {
            let mut tail: Vec<char> = Vec::new();
            let mut k: usize = p.len();
            while k < text.len()
                invariant
                    p@.len() <= k <= text@.len(),
                    tail@ =~= text@.subrange(p@.len() as int, k as int),
                decreases text@.len() - k,
            {
                tail.push(text[k]);
                k += 1;
            }
            let stripped = ltrimmed_chars(&tail);
            proof {
                assert(tail@ =~= text@.subrange(p@.len() as int, text@.len() as int));
                assert(stripped@ =~= stripped_from(text@, idx as int));
            }
            return get_first_sentence(&stripped);
        }
        idx += 1;
    }
    get_first_sentence(&text)
}

/// The texts present among the blocks, in order.
pub open spec fn present_texts(bs: Seq<Option<Seq<char>>>) -> Seq<Seq<char>> {
    bs.filter(|b: Option<Seq<char>>| b is Some).map_values(|b: Option<Seq<char>>| b->0)
}

/// Join the text blocks a summarization response carries, one line each;
/// absent blocks are dropped.
pub fn join_blocks(blocks: &Vec<Option<String>>) -> (r: String)
    ensures
        r@ =~= joined_with(present_texts(blocks.deep_view()), seq!['\n']),
{
    let mut kept: Vec<Vec<char>> = Vec::new();
    let mut k: usize = 0;
    while k < blocks.len()
        invariant
            k <= blocks@.len(),
            kept.deep_view() =~~= present_texts(blocks.deep_view().subrange(0, k as int)),
        decreases blocks@.len() - k,
    {
        proof {
            let dv = blocks.deep_view();
            assert(dv.subrange(0, (k + 1) as int) =~= dv.subrange(0, k as int).push(
                dv[k as int],
            ));
            crate::store::lemma_filter_push(
                dv.subrange(0, k as int),
                |b: Option<Seq<char>>| b is Some,
                dv[k as int],
            );
            assert(blocks.deep_view()[k as int] == blocks@[k as int].deep_view());
        }
        match &blocks[k] {
            Some(text) => {
                let ghost prev_dv = kept.deep_view();
                let piece = chars_of(text.as_str());
                kept.push(piece);
                proof {
                    assert(kept.deep_view() =~= prev_dv.push(kept.deep_view().last()));
                    let dv = blocks.deep_view();
                    let longer = dv.subrange(0, (k + 1) as int).filter(
                        |b: Option<Seq<char>>| b is Some,
                    );
                    assert(longer.map_values(|b: Option<Seq<char>>| b->0) =~= dv.subrange(
                        0,
                        k as int,
                    ).filter(|b: Option<Seq<char>>| b is Some).map_values(
                        |b: Option<Seq<char>>| b->0,
                    ).push(dv[k as int]->0));
                }
            },
            None => {
                proof {
                    let dv = blocks.deep_view();
                    assert(dv.subrange(0, (k + 1) as int).filter(
                        |b: Option<Seq<char>>| b is Some,
                    ).map_values(|b: Option<Seq<char>>| b->0) =~= dv.subrange(0, k as int).filter(
                        |b: Option<Seq<char>>| b is Some,
                    ).map_values(|b: Option<Seq<char>>| b->0));
                }
            },
        }
        k += 1;
    }
    proof {
        assert(blocks.deep_view().subrange(0, blocks@.len() as int) =~= blocks.deep_view());
    }
    let mut sep: Vec<char> = Vec::new();
    sep.push('\n');
    let joined = join_with_chars(&kept, &sep);
    proof {
        assert(sep@ =~= seq!['\n']);
    }
    string_of(&joined)
}

/// The readable text a fetched page yields once rendered: every line
/// trimmed, empty lines dropped, the rest joined with line breaks.
pub open spec fn cleaned_lines(s: Seq<char>) -> Seq<char> {
    joined_with(
        trimmed_parts(split_on(s, '\n')).filter(|t: Seq<char>| t.len() > 0),
        seq!['\n'],
    )
}

/// Clean rendered page text: trim every line, drop empty lines, join the
/// rest with line breaks.
pub fn clean_lines(v: &Vec<char>) -> (r: Vec<char>)
    ensures
        r@ =~= cleaned_lines(v@),
{
    let pieces = split_chars(v, '\n');
    let mut kept: Vec<Vec<char>> = Vec::new();
    let mut k: usize = 0;
    while k < pieces.len()
        invariant
            k <= pieces@.len(),
            pieces.deep_view() =~~= split_on(v@, '\n'),
            kept.deep_view() =~~= trimmed_parts(pieces.deep_view().subrange(0, k as int)).filter(
                |t: Seq<char>| t.len() > 0,
            ),
        decreases pieces@.len() - k,
    {
        let t = trimmed_chars(&pieces[k]);
        proof {
            let dv = pieces.deep_view();
            assert(dv.subrange(0, (k + 1) as int) =~= dv.subrange(0, k as int).push(
                dv[k as int],
            ));
            assert(trimmed_parts(dv.subrange(0, (k + 1) as int)) =~= trimmed_parts(
                dv.subrange(0, k as int),
            ).push(spec_trimmed(dv[k as int])));
            crate::store::lemma_filter_push(
                trimmed_parts(dv.subrange(0, k as int)),
                |t: Seq<char>| t.len() > 0,
                spec_trimmed(dv[k as int]),
            );
            assert(pieces.deep_view()[k as int] =~= pieces@[k as int].deep_view());
            assert(pieces@[k as int].deep_view() =~= pieces@[k as int]@);
            assert(t@ == spec_trimmed(pieces.deep_view()[k as int]));
        }
        if t.len() > 0 {
            let ghost prev_dv = kept.deep_view();
            kept.push(t);
            proof {
                assert(kept.deep_view() =~= prev_dv.push(kept.deep_view().last()));
            }
        }
        k += 1;
    }
    proof {
        assert(pieces.deep_view().subrange(0, pieces@.len() as int) =~~= pieces.deep_view());
    }
    let mut sep: Vec<char> = Vec::new();
    sep.push('\n');
    let joined = join_with_chars(&kept, &sep);
    proof {
        assert(sep@ =~= seq!['\n']);
    }
    joined
}

/// Cap a text at `max` characters.
pub fn truncate_chars(s: &str, max: usize) -> (r: String)
    ensures
        s@.len() <= max ==> r@ =~= s@,
        s@.len() > max ==> r@ =~= s@.subrange(0, max as int),
{
    let v = chars_of(s);
    if v.len() <= max {
        return string_of(&v);
    }
    let mut out: Vec<char> = Vec::new();
    let mut k: usize = 0;
    while k < max
        invariant
            k <= max <= v@.len(),
            v@ =~= s@,
            out@ =~= v@.subrange(0, k as int),
        decreases max - k,
    {
        out.push(v[k]);
        k += 1;
    }
    string_of(&out)
}

/// Whether `s` starts with `p`.
pub open spec fn spec_has_prefix(s: Seq<char>, p: Seq<char>) -> bool {
    p.len() <= s.len() && s.subrange(0, p.len() as int) == p
}

/// Whether the text starts with the pattern.
pub fn has_char_prefix(v: &Vec<char>, p: &Vec<char>) -> (r: bool)
    ensures
        r == spec_has_prefix(v@, p@),
{
    if p.len() > v.len() {
        proof {
            assert(!spec_has_prefix(v@, p@));
        }
        return false;
    }
    let mut k: usize = 0;
    while k < p.len()
        invariant
            p@.len() <= v@.len(),
            k <= p@.len(),
            forall|i: int| 0 <= i < k ==> v@[i] == p@[i],
        decreases p@.len() - k,
    {
        if v[k] != p[k] {
            proof {
                assert(v@.subrange(0, p@.len() as int)[k as int] != p@[k as int]);
            }
            return false;
        }
        k += 1;
    }
    proof {
        assert(v@.subrange(0, p@.len() as int) =~= p@);
    }
    true
}

/// The tag list a raw comma-separated entry denotes: the pieces between
/// commas, each trimmed, empties dropped.
pub open spec fn parsed_tags(s: Seq<char>) -> Seq<Seq<char>> {
    split_on(s, ',').map_values(|t: Seq<char>| spec_trimmed(t)).filter(
        |t: Seq<char>| t.len() > 0,
    )
}

/// Parse a raw comma-separated tag entry.
pub fn parse_tags(v: &Vec<char>) -> (r: Vec<String>)
    ensures
        r.deep_view() =~~= parsed_tags(v@),
{
    let pieces = split_chars(v, ',');
    let mut out: Vec<String> = Vec::new();
    let mut k: usize = 0;
    while k < pieces.len()
        invariant
            k <= pieces@.len(),
            pieces.deep_view() =~~= split_on(v@, ','),
            out.deep_view() =~~= pieces.deep_view().subrange(0, k as int).map_values(
                |t: Seq<char>| spec_trimmed(t),
            ).filter(|t: Seq<char>| t.len() > 0),
        decreases pieces@.len() - k,
    {
        let t = trimmed_chars(&pieces[k]);
        proof {
            let prefix = pieces.deep_view().subrange(0, k as int);
            let longer = pieces.deep_view().subrange(0, (k + 1) as int);
            assert(longer =~= prefix.push(pieces.deep_view()[k as int]));
            assert(longer.map_values(|t: Seq<char>| spec_trimmed(t)) =~= prefix.map_values(
                |t: Seq<char>| spec_trimmed(t),
            ).push(spec_trimmed(pieces.deep_view()[k as int])));
            crate::store::lemma_filter_push(
                prefix.map_values(|t: Seq<char>| spec_trimmed(t)),
                |t: Seq<char>| t.len() > 0,
                spec_trimmed(pieces.deep_view()[k as int]),
            );
        }
        proof {
            assert(pieces.deep_view()[k as int] =~= pieces@[k as int].deep_view());
            assert(pieces@[k as int].deep_view() =~= pieces@[k as int]@);
            assert(t@ == spec_trimmed(pieces.deep_view()[k as int]));
        }
        if t.len() > 0 {
            let ghost prev_dv = out.deep_view();
            let piece_s = string_of(&t);
            proof {
                assert(piece_s.deep_view() =~= t@);
            }
            out.push(piece_s);
            proof {
                assert(out.deep_view() =~= prev_dv.push(piece_s.deep_view()));
            }
        }
        k += 1;
    }
    proof {
        assert(pieces.deep_view().subrange(0, pieces@.len() as int) =~~= pieces.deep_view());
    }
    out
}

} // verus!
