//! Character and word utilities shared by the parser, the metadata
//! extractor and the search engine.
//!
//! All reasoning is done over `Seq<char>` views of `&str` / `String`.
//! Whitespace and case folding are defined over the ASCII range; any
//! character outside it is kept as it is.

use vstd::prelude::*;

verus! {

/// The whitespace characters recognized when splitting text into words.
pub open spec fn is_ws(c: char) -> bool {
    c == ' ' || c == '\t' || c == '\n' || c == '\r' || c == '\u{b}' || c == '\u{c}'
}

/// ASCII lowercase folding; other characters are unchanged.
pub open spec fn lower_char(c: char) -> char {
    if 'A' <= c && c <= 'Z' {
        (((c as u8) + 0x20) as char)
    } else {
        c
    }
}

/// End of the word that starts at or before position `i`: the first
/// position `>= i` that is out of range or holds whitespace.
pub open spec fn word_end(s: Seq<char>, i: int) -> int
    decreases s.len() - i when 0 <= i <= s.len()
{
    if i >= s.len() {
        i
    } else if is_ws(s[i]) {
        i
    } else {
        word_end(s, i + 1)
    }
}

pub proof fn lemma_word_end_bounds(s: Seq<char>, i: int)
    requires
        0 <= i <= s.len(),
    ensures
        i <= word_end(s, i) <= s.len(),
        forall|j: int| i <= j < word_end(s, i) ==> !is_ws(s[j]),
        word_end(s, i) < s.len() ==> is_ws(s[word_end(s, i)]),
    decreases s.len() - i,
{
    if i < s.len() && !is_ws(s[i]) {
        lemma_word_end_bounds(s, i + 1);
    }
}

/// The words of `s` from position `i` on: maximal runs of
/// non-whitespace characters, in order.
pub open spec fn words_from(s: Seq<char>, i: int) -> Seq<Seq<char>>
    decreases s.len() - i when 0 <= i <= s.len() via words_from_decreases
{
    if i >= s.len() {
        Seq::empty()
    } else if is_ws(s[i]) {
        words_from(s, i + 1)
    } else {
        seq![s.subrange(i, word_end(s, i + 1))] + words_from(s, word_end(s, i + 1))
    }
}

#[via_fn]
proof fn words_from_decreases(s: Seq<char>, i: int) {
    if 0 <= i < s.len() && !is_ws(s[i]) {
        lemma_word_end_bounds(s, i + 1);
    }
}

/// All words of `s`.
pub open spec fn words_of(s: Seq<char>) -> Seq<Seq<char>> {
    words_from(s, 0)
}

/// `parts` joined by `sep`.
pub open spec fn join_with(parts: Seq<Seq<char>>, sep: Seq<char>) -> Seq<char>
    decreases parts.len(),
{
    if parts.len() == 0 {
        Seq::empty()
    } else if parts.len() == 1 {
        parts[0]
    } else {
        parts[0] + sep + join_with(parts.drop_first(), sep)
    }
}

pub proof fn lemma_join_push(parts: Seq<Seq<char>>, sep: Seq<char>, w: Seq<char>)
    ensures
        parts.len() == 0 ==> join_with(parts.push(w), sep) == w,
        parts.len() > 0 ==> join_with(parts.push(w), sep) == join_with(parts, sep) + sep + w,
    decreases parts.len(),
{
    if parts.len() == 0 {
        assert(parts.push(w) =~= seq![w]);
        assert(join_with(seq![w], sep) == w);
    } else {
        lemma_join_push(parts.drop_first(), sep, w);
        assert(parts.push(w).drop_first() =~= parts.drop_first().push(w));
        if parts.len() == 1 {
            assert(parts.drop_first().len() == 0);
            assert(join_with(parts, sep) == parts[0]);
        }
    }
}

/// Runs of whitespace collapsed to a single space, with no leading or
/// trailing whitespace.
pub open spec fn collapse_ws(s: Seq<char>) -> Seq<char> {
    join_with(words_of(s), seq![' '])
}

/// Number of whitespace-separated words.
pub open spec fn word_count(s: Seq<char>) -> nat {
    words_of(s).len()
}

/// `s` with leading and trailing whitespace removed is empty, i.e. `s`
/// is all whitespace.
pub open spec fn all_ws(s: Seq<char>) -> bool {
    forall|i: int| 0 <= i < s.len() ==> is_ws(s[i])
}

/// The characters of `s` as a vector, for indexed scanning.
pub fn chars_of(s: &str) -> (r: Vec<char>)
    ensures
        r@ == s@,
{
    let n: usize = s.unicode_len();
    let mut r: Vec<char> = Vec::new();
    let mut i: usize = 0;
    while i < n
        invariant
            n == s@.len(),
            i <= n,
            r@ == s@.subrange(0, i as int),
        decreases n - i,
    {
        r.push(s.get_char(i));
        i = i + 1;
        proof {
            assert(r@ =~= s@.subrange(0, i as int));
        }
    }
    proof {
        assert(r@ =~= s@);
    }
    r
}

/// Executable ASCII whitespace test matching `is_ws`.
pub fn ws_char(c: char) -> (r: bool)
    ensures
        r == is_ws(c),
{
    c == ' ' || c == '\t' || c == '\n' || c == '\r' || c == '\u{b}' || c == '\u{c}'
}

/// Executable ASCII lowercase folding matching `lower_char`.
pub fn lower_char_exec(c: char) -> (r: char)
    ensures
        r == lower_char(c),
{
    if 'A' <= c && c <= 'Z' {
        ((c as u8) + 0x20) as char
    } else {
        c
    }
}

/// String equality over views.
pub fn str_eq(a: &str, b: &str) -> (r: bool)
    ensures
        r == (a@ == b@),
{
    let na: usize = a.unicode_len();
    let nb: usize = b.unicode_len();
    if na != nb {
        return false;
    }
    let mut i: usize = 0;
    while i < na
        invariant
            na == a@.len(),
            na == b@.len(),
            i <= na,
            forall|j: int| 0 <= j < i ==> a@[j] == b@[j],
        decreases na - i,
    {
        if a.get_char(i) != b.get_char(i) {
            return false;
        }
        i = i + 1;
    }
    proof {
        assert(a@ =~= b@);
    }
    true
}

/// Does `s` start with `p`?
pub fn str_starts_with(s: &str, p: &str) -> (r: bool)
    ensures
        r == (p@.len() <= s@.len() && s@.subrange(0, p@.len() as int) == p@),
{
    let np: usize = p.unicode_len();
    let ns: usize = s.unicode_len();
    if np > ns {
        return false;
    }
    let mut i: usize = 0;
    while i < np
        invariant
            np == p@.len(),
            ns == s@.len(),
            np <= ns,
            i <= np,
            forall|j: int| 0 <= j < i ==> s@[j] == p@[j],
        decreases np - i,
    {
        if s.get_char(i) != p.get_char(i) {
            proof {
                assert(s@.subrange(0, np as int)[i as int] == s@[i as int]);
            }
            return false;
        }
        i = i + 1;
    }
    proof {
        assert(s@.subrange(0, np as int) =~= p@);
    }
    true
}

/// Span `k` delimits word `k` of `s`.
pub open spec fn span_is_word(s: Seq<char>, spans: Seq<(usize, usize)>, k: int) -> bool {
    &&& spans[k].0 < spans[k].1 <= s.len()
    &&& s.subrange(spans[k].0 as int, spans[k].1 as int) == words_of(s)[k]
}

/// The word spans of `s`: for each word, its start (inclusive) and end
/// (exclusive) character positions.
pub fn word_spans(s: &str) -> (r: Vec<(usize, usize)>)
    ensures
        r@.len() == words_of(s@).len(),
        forall|k: int| 0 <= k < r@.len() ==> #[trigger] span_is_word(s@, r@, k),
{
    let n: usize = s.unicode_len();
    let mut r: Vec<(usize, usize)> = Vec::new();
    let mut i: usize = 0;
    while i < n
        invariant
            n == s@.len(),
            i <= n,
            words_of(s@) =~= words_from(s@, 0),
            words_of(s@).len() == r@.len() + words_from(s@, i as int).len(),
            words_of(s@) =~= words_of(s@).subrange(0, r@.len() as int) + words_from(
                s@,
                i as int,
            ),
            forall|k: int| 0 <= k < r@.len() ==> #[trigger] span_is_word(s@, r@, k),
        decreases n - i,
    {
        if ws_char(s.get_char(i)) {
            i = i + 1;
        } else {
            let start: usize = i;
            i = i + 1;
            proof {
                lemma_word_end_bounds(s@, i as int);
            }
            while i < n && !ws_char(s.get_char(i))
                invariant
                    n == s@.len(),
                    start < i <= n,
                    word_end(s@, start + 1) == word_end(s@, i as int),
                    forall|j: int| start < j < i ==> !is_ws(s@[j]),
                decreases n - i,
            {
                i = i + 1;
            }
            proof {
                assert(word_end(s@, i as int) == i as int);
            }
            let ghost w = s@.subrange(start as int, i as int);
            let ghost olds = r@.len() as int;
            let ghost oldr = r@;
            r.push((start, i));
            proof {
                assert(words_from(s@, start as int) =~= seq![w] + words_from(s@, i as int));
                assert(words_of(s@).subrange(0, r@.len() as int) =~= words_of(s@).subrange(
                    0,
                    olds,
                ).push(words_of(s@)[olds]));
                assert(words_of(s@)[olds] == w);
                assert(r@[olds] == (start, i));
                assert(span_is_word(s@, r@, olds));
                assert forall|k: int| 0 <= k < olds implies #[trigger] span_is_word(
                    s@,
                    r@,
                    k,
                ) by {
                    assert(span_is_word(s@, oldr, k));
                    assert(r@[k] == oldr[k]);
                }
            }
        }
    }
    r
}

/// `parts[from..]` joined by single spaces, starting from an already
/// accumulated prefix: helper spec for the joining loops.
pub open spec fn spans_words(s: Seq<char>, spans: Seq<(usize, usize)>) -> Seq<Seq<char>> {
    Seq::new(spans.len(), |k: int| s.subrange(spans[k].0 as int, spans[k].1 as int))
}

/// Join the given spans of `s` with single spaces.
pub fn join_spans(s: &str, spans: &Vec<(usize, usize)>, from: usize, to: usize) -> (r: String)
    requires
        from <= to <= spans@.len(),
        forall|k: int| 0 <= k < spans@.len() ==> #[trigger] spans@[k].0 <= spans@[k].1 <= s@.len(),
    ensures
        r@ == join_with(spans_words(s@, spans@.subrange(from as int, to as int)), seq![' ']),
{
    let mut r = String::new();
    let mut k: usize = from;
    while k < to
        invariant
            from <= k <= to <= spans@.len(),
            forall|j: int|
                0 <= j < spans@.len() ==> #[trigger] spans@[j].0 <= spans@[j].1 <= s@.len(),
            r@ == join_with(spans_words(s@, spans@.subrange(from as int, k as int)), seq![' ']),
        decreases to - k,
    {
        let (a, b) = spans[k];
        let piece = s.substring_char(a, b);
        if k > from {
            r.append(" ");
            proof {
                reveal_strlit(" ");
            }
        }
        r.append(piece);
        k = k + 1;
        proof {
            let pre = spans_words(s@, spans@.subrange(from as int, k - 1));
            let now = spans_words(s@, spans@.subrange(from as int, k as int));
            assert(now =~= pre.push(s@.subrange(a as int, b as int)));
            lemma_join_push(pre, seq![' '], s@.subrange(a as int, b as int));
            if k - 1 == from {
                assert(pre.len() == 0);
            }
        }
    }
    r
}

/// Runs of whitespace collapsed to single spaces, no leading or
/// trailing whitespace.
pub fn collapse_whitespace(s: &str) -> (r: String)
    ensures
        r@ == collapse_ws(s@),
{
    let spans = word_spans(s);
    let n = spans.len();
    proof {
        assert forall|k: int| 0 <= k < spans@.len() implies #[trigger] spans@[k].0 <= spans@[k].1
            <= s@.len() by {
            assert(span_is_word(s@, spans@, k));
        }
    }
    let r = join_spans(s, &spans, 0, n);
    proof {
        assert(spans@.subrange(0, n as int) =~= spans@);
        assert forall|k: int| 0 <= k < spans@.len() implies spans_words(s@, spans@)[k] == words_of(
            s@,
        )[k] by {
            assert(span_is_word(s@, spans@, k));
        }
        assert(spans_words(s@, spans@) =~= words_of(s@));
    }
    r
}

/// The first position `>= i` holding `sep`, or the length.
pub open spec fn scan_to(s: Seq<char>, i: int, sep: char) -> int
    decreases s.len() - i when 0 <= i <= s.len()
{
    if i >= s.len() {
        i
    } else if s[i] == sep {
        i
    } else {
        scan_to(s, i + 1, sep)
    }
}

pub proof fn lemma_scan_to_bounds(s: Seq<char>, i: int, sep: char)
    requires
        0 <= i <= s.len(),
    ensures
        i <= scan_to(s, i, sep) <= s.len(),
        forall|j: int| i <= j < scan_to(s, i, sep) ==> s[j] != sep,
        scan_to(s, i, sep) < s.len() ==> s[scan_to(s, i, sep)] == sep,
    decreases s.len() - i,
{
    if i < s.len() && s[i] != sep {
        lemma_scan_to_bounds(s, i + 1, sep);
    }
}

/// `s[i..]` split on `sep`, keeping empty segments.
pub open spec fn split_from(s: Seq<char>, i: int, sep: char) -> Seq<Seq<char>>
    decreases s.len() - i when 0 <= i <= s.len() via split_from_decreases
{
    if scan_to(s, i, sep) >= s.len() {
        seq![s.subrange(i, s.len() as int)]
    } else {
        seq![s.subrange(i, scan_to(s, i, sep))] + split_from(s, scan_to(s, i, sep) + 1, sep)
    }
}

#[via_fn]
proof fn split_from_decreases(s: Seq<char>, i: int, sep: char) {
    if 0 <= i <= s.len() {
        lemma_scan_to_bounds(s, i, sep);
    }
}

/// `s` split on `sep`, keeping empty segments; never empty.
pub open spec fn split_char(s: Seq<char>, sep: char) -> Seq<Seq<char>> {
    split_from(s, 0, sep)
}

/// The views of a vector of strings.
pub open spec fn views_of(v: Seq<String>) -> Seq<Seq<char>> {
    v.map_values(|x: String| x@)
}

/// Split `s` on `sep`, keeping empty segments.
pub fn split_char_exec(s: &str, sep: char) -> (r: Vec<String>)
    ensures
        views_of(r@) == split_char(s@, sep),
{
    let n: usize = s.unicode_len();
    let mut r: Vec<String> = Vec::new();
    let mut i: usize = 0;
    loop
        invariant
            n == s@.len(),
            i <= n,
            split_char(s@, sep) == views_of(r@) + split_from(s@, i as int, sep),
        decreases n - i,
    {
        let mut e: usize = i;
        proof {
            lemma_scan_to_bounds(s@, i as int, sep);
        }
        while e < n && s.get_char(e) != sep
            invariant
                n == s@.len(),
                i <= e <= n,
                scan_to(s@, i as int, sep) == scan_to(s@, e as int, sep),
            decreases n - e,
        {
            e = e + 1;
        }
        proof {
            assert(scan_to(s@, e as int, sep) == e as int);
        }
        let ghost oldviews = views_of(r@);
        r.push(s.substring_char(i, e).to_owned());
        proof {
            assert(views_of(r@) =~= oldviews.push(s@.subrange(i as int, e as int)));
        }
        if e >= n {
            proof {
                assert(split_from(s@, i as int, sep) =~= seq![
                    s@.subrange(i as int, s@.len() as int),
                ]);
                assert(views_of(r@) + Seq::<Seq<char>>::empty() =~= views_of(r@));
                assert(split_char(s@, sep) =~= views_of(r@));
            }
            return r;
        }
        proof {
            assert(split_from(s@, i as int, sep) =~= seq![s@.subrange(i as int, e as int)]
                + split_from(s@, e + 1, sep));
            assert(split_char(s@, sep) =~= views_of(r@) + split_from(s@, e + 1, sep));
        }
        i = e + 1;
    }
}

/// Join the strings with `sep`.
pub fn join_strings(parts: &Vec<String>, sep: &str) -> (r: String)
    ensures
        r@ == join_with(views_of(parts@), sep@),
{
    let n = parts.len();
    let mut r = String::new();
    let mut k: usize = 0;
    while k < n
        invariant
            n == parts@.len(),
            k <= n,
            r@ == join_with(views_of(parts@).subrange(0, k as int), sep@),
        decreases n - k,
    {
        if k > 0 {
            r.append(sep);
        }
        r.append(parts[k].as_str());
        k = k + 1;
        proof {
            let vs = views_of(parts@);
            assert(vs.subrange(0, k as int) =~= vs.subrange(0, k - 1).push(vs[k - 1]));
            lemma_join_push(vs.subrange(0, k - 1), sep@, vs[k - 1]);
        }
    }
    proof {
        assert(views_of(parts@).subrange(0, n as int) =~= views_of(parts@));
    }
    r
}

/// Does `s` end with `p`?
pub fn str_ends_with(s: &str, p: &str) -> (r: bool)
    ensures
        r == (p@.len() <= s@.len() && s@.subrange(s@.len() - p@.len(), s@.len() as int) == p@),
{
    let np: usize = p.unicode_len();
    let ns: usize = s.unicode_len();
    if np > ns {
        return false;
    }
    let off: usize = ns - np;
    let mut i: usize = 0;
    while i < np
        invariant
            np == p@.len(),
            ns == s@.len(),
            off == ns - np,
            i <= np,
            forall|j: int| 0 <= j < i ==> s@[off + j] == p@[j],
        decreases np - i,
    {
        if s.get_char(off + i) != p.get_char(i) {
            proof {
                assert(s@.subrange(off as int, ns as int)[i as int] == s@[off + i]);
            }
            return false;
        }
        i = i + 1;
    }
    proof {
        assert(s@.subrange(off as int, ns as int) =~= p@);
    }
    true
}

/// Is some string with the view of `s` in the list?
pub fn contains_view(v: &Vec<String>, s: &str) -> (r: bool)
    ensures
        r == views_of(v@).contains(s@),
{
    let n = v.len();
    let mut m: usize = 0;
    while m < n
        invariant
            n == v@.len(),
            m <= n,
            forall|t: int| 0 <= t < m ==> v@[t]@ != s@,
        decreases n - m,
    {
        if str_eq(v[m].as_str(), s) {
            proof {
                assert(views_of(v@)[m as int] == s@);
            }
            return true;
        }
        m = m + 1;
    }
    proof {
        if views_of(v@).contains(s@) {
            let t = choose|t: int| 0 <= t < views_of(v@).len() && views_of(v@)[t] == s@;
            assert(v@[t]@ == s@);
        }
    }
    false
}

/// Number of whitespace-separated words, matching `word_count`.
pub fn count_words_exec(s: &str) -> (r: usize)
    ensures
        r == word_count(s@),
{
    let spans = word_spans(s);
    spans.len()
}

} // verus!
