//! The search engine: read-only index access, query construction,
//! post-filters, snippets and grep-style context windows.
//!
//! Retrieval runs through tantivy behind trusted wrappers; what can
//! be said of an index's answers lives there. Everything downstream
//! of retrieval — filtering, ordering, snippets, windows — is
//! verified for every value the index can hand back.

use vstd::prelude::*;
use tantivy::schema::document::Value;
use crate::models::{MessageType, SearchQuery, SearchResult, SortOrder, same_result,
    spec_displayable};
use crate::strings::{chars_of, join_strings, join_with, lower_char, lower_char_exec,
    span_is_word, str_eq, str_starts_with, views_of, word_spans, words_of, join_spans,
    spans_words};
use crate::utils::{truncate_content, truncate_spec};

verus! {

/// Results ordered by ascending sequence number.
pub open spec fn sorted_by_seq(s: Seq<SearchResult>) -> bool {
    forall|p: int, q: int|
        0 <= p < q < s.len() ==> (#[trigger] s[p]).sequence_num <= (#[trigger] s[q]).sequence_num
}

/// Results ordered by ascending timestamp.
pub open spec fn sorted_by_time_asc(s: Seq<SearchResult>) -> bool {
    forall|p: int, q: int|
        0 <= p < q < s.len() ==> (#[trigger] s[p]).timestamp_ms <= (#[trigger] s[q]).timestamp_ms
}

/// Results ordered by descending timestamp.
pub open spec fn sorted_by_time_desc(s: Seq<SearchResult>) -> bool {
    forall|p: int, q: int|
        0 <= p < q < s.len() ==> (#[trigger] s[p]).timestamp_ms >= (#[trigger] s[q]).timestamp_ms
}

/// Stable insertion sort by sequence number.
pub fn sort_by_seq(v: &mut Vec<SearchResult>)
    ensures
        sorted_by_seq(final(v)@),
        final(v)@.to_multiset() == old(v)@.to_multiset(),
        final(v)@.len() == old(v)@.len(),
{
    let n = v.len();
    let mut i: usize = 1;
    while i < n && n > 0
        invariant
            n == v@.len(),
            1 <= i || n == 0,
            i <= n || n == 0,
            v@.to_multiset() == old(v)@.to_multiset(),
            forall|p: int, q: int|
                0 <= p < q < i ==> (#[trigger] v@[p]).sequence_num <= (
                #[trigger] v@[q]).sequence_num,
        decreases n - i,
    {
        let key = v[i].sequence_num;
        let mut j: usize = 0;
        while j < i && v[j].sequence_num <= key
            invariant
                i < n == v@.len(),
                j <= i,
                key == v@[i as int].sequence_num,
                forall|t: int| 0 <= t < j ==> (#[trigger] v@[t]).sequence_num <= key,
            decreases i - j,
        {
            j = j + 1;
        }
        let ghost pre = v@;
        let x = v.remove(i);
        v.insert(j, x);
        proof {
            broadcast use vstd::seq_lib::group_to_multiset_ensures, vstd::seq_lib::to_multiset_insert;

            assert(v@ =~= pre.remove(i as int).insert(j as int, pre[i as int]));
            assert(v@.to_multiset() == pre.to_multiset());
            assert forall|p: int, q: int|
                0 <= p < q < i + 1 implies (#[trigger] v@[p]).sequence_num <= (
                #[trigger] v@[q]).sequence_num by {
                let m = pre.remove(i as int);
                if j < i {
                    assert(pre[j as int].sequence_num > key);
                }
                assert(forall|t: int| 0 <= t < j ==> v@[t] == pre[t]);
                assert(v@[j as int] == pre[i as int]);
                assert(forall|t: int| j < t <= i ==> v@[t] == pre[t - 1]);
            }
        }
        i = i + 1;
    }
}

/// Stable insertion sort by ascending timestamp.
pub fn sort_by_time_asc(v: &mut Vec<SearchResult>)
    ensures
        sorted_by_time_asc(final(v)@),
        final(v)@.to_multiset() == old(v)@.to_multiset(),
        final(v)@.len() == old(v)@.len(),
{
    let n = v.len();
    let mut i: usize = 1;
    while i < n && n > 0
        invariant
            n == v@.len(),
            1 <= i || n == 0,
            i <= n || n == 0,
            v@.to_multiset() == old(v)@.to_multiset(),
            forall|p: int, q: int|
                0 <= p < q < i ==> (#[trigger] v@[p]).timestamp_ms <= (
                #[trigger] v@[q]).timestamp_ms,
        decreases n - i,
    {
        let key = v[i].timestamp_ms;
        let mut j: usize = 0;
        while j < i && v[j].timestamp_ms <= key
            invariant
                i < n == v@.len(),
                j <= i,
                key == v@[i as int].timestamp_ms,
                forall|t: int| 0 <= t < j ==> (#[trigger] v@[t]).timestamp_ms <= key,
            decreases i - j,
        {
            j = j + 1;
        }
        let ghost pre = v@;
        let x = v.remove(i);
        v.insert(j, x);
        proof {
            broadcast use vstd::seq_lib::group_to_multiset_ensures, vstd::seq_lib::to_multiset_insert;

            assert(v@ =~= pre.remove(i as int).insert(j as int, pre[i as int]));
            assert(v@.to_multiset() == pre.to_multiset());
            assert forall|p: int, q: int|
                0 <= p < q < i + 1 implies (#[trigger] v@[p]).timestamp_ms <= (
                #[trigger] v@[q]).timestamp_ms by {
                if j < i {
                    assert(pre[j as int].timestamp_ms > key);
                }
                assert(forall|t: int| 0 <= t < j ==> v@[t] == pre[t]);
                assert(v@[j as int] == pre[i as int]);
                assert(forall|t: int| j < t <= i ==> v@[t] == pre[t - 1]);
            }
        }
        i = i + 1;
    }
}

/// Reverse in place.
pub fn reverse_results(v: &mut Vec<SearchResult>)
    ensures
        final(v)@ == old(v)@.reverse(),
        final(v)@.to_multiset() == old(v)@.to_multiset(),
        final(v)@.len() == old(v)@.len(),
{
    let ghost orig = v@;
    let n = v.len();
    let mut r: Vec<SearchResult> = Vec::new();
    while v.len() > 0
        invariant
            v@.len() + r@.len() == n == orig.len(),
            v@ == orig.take(v@.len() as int),
            r@ =~= orig.skip(v@.len() as int).reverse(),
        decreases v@.len(),
    {
        match v.pop() {
            Some(x) => {
                proof {
                    let m = v@.len() as int;
                    assert(x == orig.take(m + 1)[m]);
                    assert(orig.take(m + 1)[m] == orig[m]);
                    assert(orig.take(m + 1).subrange(0, m) =~= orig.take(m));
                }
                r.push(x);
                proof {
                    let m = v@.len() as int;
                    assert(r@ =~= orig.skip(m).reverse());
                }
            },
            None => {
                proof {
                    assert(false);
                }
            },
        }
    }
    proof {
        assert(orig.skip(0) =~= orig);
        assert(r@ =~= orig.reverse());
    }
    *v = r;
    proof {
        orig.lemma_reverse_to_multiset();
    }
}

/// Sort results according to a requested order; relevance keeps the
/// retrieval order.
pub fn apply_sort(v: &mut Vec<SearchResult>, order: SortOrder)
    ensures
        final(v)@.to_multiset() == old(v)@.to_multiset(),
        final(v)@.len() == old(v)@.len(),
        order == SortOrder::Relevance ==> final(v)@ == old(v)@,
        order == SortOrder::DateAsc ==> sorted_by_time_asc(final(v)@),
        order == SortOrder::DateDesc ==> sorted_by_time_desc(final(v)@),
{
    match order {
        SortOrder::Relevance => {},
        SortOrder::DateAsc => sort_by_time_asc(v),
        SortOrder::DateDesc => {
            sort_by_time_asc(v);
            let ghost mid = v@;
            reverse_results(v);
            proof {
                assert forall|p: int, q: int|
                    0 <= p < q < v@.len() implies (#[trigger] v@[p]).timestamp_ms >= (
                    #[trigger] v@[q]).timestamp_ms by {
                    assert(v@[p] == mid[mid.len() - 1 - p]);
                    assert(v@[q] == mid[mid.len() - 1 - q]);
                }
            }
        },
    }
}

/// Case-insensitive containment of `n` in `h`.
pub open spec fn contains_ci(h: Seq<char>, n: Seq<char>) -> bool {
    exists|i: int| ci_at(h, i, n)
}

pub open spec fn ci_at(h: Seq<char>, i: int, n: Seq<char>) -> bool {
    &&& 0 <= i
    &&& i + n.len() <= h.len()
    &&& forall|k: int| 0 <= k < n.len() ==> lower_char(h[i + k]) == lower_char(n[k])
}

/// Case-insensitive substring search.
pub fn contains_ci_exec(h: &str, n: &str) -> (r: bool)
    ensures
        r == contains_ci(h@, n@),
{
    let hc = chars_of(h);
    let nc = chars_of(n);
    let hn = hc.len();
    let nn = nc.len();
    let mut i: usize = 0;
    loop
        invariant
            hc@ == h@,
            nc@ == n@,
            hn == h@.len(),
            nn == n@.len(),
            i <= hn,
            forall|ii: int| 0 <= ii < i ==> !ci_at(h@, ii, n@),
        decreases hn - i,
    {
        if hn - i >= nn {
            let mut k: usize = 0;
            let mut ok = true;
            while k < nn && ok
                invariant
                    hc@ == h@,
                    nc@ == n@,
                    hn == h@.len(),
                    nn == n@.len(),
                    i + nn <= hn,
                    k <= nn,
                    ok ==> forall|t: int| 0 <= t < k ==> lower_char(h@[i + t]) == lower_char(
                        n@[t],
                    ),
                    !ok ==> !ci_at(h@, i as int, n@),
                decreases nn - k, (if ok { 1int } else { 0int }),
            {
                if lower_char_exec(hc[i + k]) != lower_char_exec(nc[k]) {
                    ok = false;
                } else {
                    k = k + 1;
                }
            }
            if ok {
                proof {
                    assert(ci_at(h@, i as int, n@));
                }
                return true;
            }
        } else {
            proof {
                assert forall|ii: int| !ci_at(h@, ii, n@) by {
                    if 0 <= ii < i {
                    } else if ii >= i {
                        assert(ii + n@.len() > h@.len());
                    }
                }
            }
            return false;
        }
        i = i + 1;
    }
}

/// The text of the 30-word window starting at word `i`.
pub open spec fn win_text(content: Seq<char>, i: int) -> Seq<char> {
    join_with(words_of(content).subrange(i, i + 30), seq![' '])
}

/// How many query words occur (case-insensitively) in window `i`,
/// counting the first `j` query words.
pub open spec fn win_score(content: Seq<char>, qws: Seq<Seq<char>>, i: int, j: int) -> int
    decreases j,
{
    if j <= 0 {
        0
    } else {
        win_score(content, qws, i, j - 1) + if contains_ci(win_text(content, i), qws[j - 1]) {
            1int
        } else {
            0int
        }
    }
}

/// The leftmost highest-scoring window among the first `k` windows,
/// as (start, score); ties keep the earlier window.
pub open spec fn best_window(content: Seq<char>, qws: Seq<Seq<char>>, k: int) -> (int, int)
    decreases k,
{
    if k <= 0 {
        (0, 0)
    } else {
        let prev = best_window(content, qws, k - 1);
        let s = win_score(content, qws, k - 1, qws.len() as int);
        if s > prev.1 {
            (k - 1, s)
        } else {
            prev
        }
    }
}

/// The snippet of a result: content of at most 30 words verbatim;
/// otherwise the leftmost 30-word window holding the most query
/// words, with ellipses marking cut edges.
pub open spec fn snippet_spec(content: Seq<char>, query: Seq<char>) -> Seq<char> {
    let cw = words_of(content);
    if cw.len() <= 30 {
        content
    } else {
        let b = best_window(content, words_of(query), cw.len() - 29).0;
        let core = win_text(content, b);
        let pre = if b > 0 {
            "\u{2026}"@ + core
        } else {
            core
        };
        if b + 30 < cw.len() {
            pre + "\u{2026}"@
        } else {
            pre
        }
    }
}

/// Build the snippet of one result.
pub fn generate_snippet(content: &str, query: &str) -> (r: String)
    ensures
        r@ == snippet_spec(content@, query@),
{
    let spans = word_spans(content);
    let n = spans.len();
    if n <= 30 {
        return content.to_owned();
    }
    let qspans = word_spans(query);
    let mut qwords: Vec<String> = Vec::new();
    let nq = qspans.len();
    let mut t: usize = 0;
    while t < nq
        invariant
            nq == qspans@.len(),
            nq == words_of(query@).len(),
            forall|k: int| 0 <= k < nq ==> #[trigger] span_is_word(query@, qspans@, k),
            t <= nq,
            views_of(qwords@) =~= words_of(query@).take(t as int),
        decreases nq - t,
    {
        proof {
            assert(span_is_word(query@, qspans@, t as int));
        }
        let (a, b) = qspans[t];
        let ghost pre = views_of(qwords@);
        qwords.push(query.substring_char(a, b).to_owned());
        proof {
            assert(views_of(qwords@) =~= pre.push(words_of(query@)[t as int]));
            assert(views_of(qwords@) =~= words_of(query@).take(t + 1));
        }
        t = t + 1;
    }
    proof {
        assert(views_of(qwords@) =~= words_of(query@));
        assert forall|k: int| 0 <= k < spans@.len() implies #[trigger] spans@[k].0 <= spans@[k].1
            <= content@.len() by {
            assert(span_is_word(content@, spans@, k));
        }
    }
    let ghost qws = words_of(query@);
    let nwin = n - 29;
    let mut best_i: usize = 0;
    let mut best_s: usize = 0;
    let mut i: usize = 0;
    while i < nwin
        invariant
            n == spans@.len(),
            n == words_of(content@).len(),
            n > 30,
            nwin == n - 29,
            forall|k: int| 0 <= k < spans@.len() ==> #[trigger] span_is_word(content@, spans@, k),
            forall|k: int|
                0 <= k < spans@.len() ==> (#[trigger] spans@[k]).0 <= spans@[k].1
                    <= content@.len(),
            qws == words_of(query@),
            views_of(qwords@) == qws,
            nq == qws.len(),
            i <= nwin,
            best_i as int == best_window(content@, qws, i as int).0,
            best_s as int == best_window(content@, qws, i as int).1,
            best_i <= n - 30,
        decreases nwin - i,
    {
        let wtext = join_spans(content, &spans, i, i + 30);
        proof {
            assert(spans_words(content@, spans@.subrange(i as int, i + 30)) =~= words_of(
                content@,
            ).subrange(i as int, i + 30)) by {
                assert forall|k: int|
                    #![trigger words_of(content@).subrange(i as int, i + 30)[k]]
                    0 <= k < 30 implies spans_words(
                    content@,
                    spans@.subrange(i as int, i + 30),
                )[k] == words_of(content@).subrange(i as int, i + 30)[k] by {
                    assert(span_is_word(content@, spans@, i + k));
                }
            }
            assert(wtext@ == win_text(content@, i as int));
        }
        let mut score: usize = 0;
        let mut j: usize = 0;
        while j < nq
            invariant
                nq == qwords@.len(),
                nq == qws.len(),
                views_of(qwords@) == qws,
                wtext@ == win_text(content@, i as int),
                j <= nq,
                score <= j,
                score as int == win_score(content@, qws, i as int, j as int),
            decreases nq - j,
        {
            if contains_ci_exec(wtext.as_str(), qwords[j].as_str()) {
                proof {
                    assert(qwords@[j as int]@ == qws[j as int]);
                }
                score = score + 1;
            } else {
                proof {
                    assert(qwords@[j as int]@ == qws[j as int]);
                }
            }
            j = j + 1;
        }
        if score > best_s {
            best_i = i;
            best_s = score;
        }
        i = i + 1;
    }
    let core = join_spans(content, &spans, best_i, best_i + 30);
    proof {
        assert(spans_words(content@, spans@.subrange(best_i as int, best_i + 30)) =~= words_of(
            content@,
        ).subrange(best_i as int, best_i + 30)) by {
            assert forall|k: int|
                #![trigger words_of(content@).subrange(best_i as int, best_i + 30)[k]]
                0 <= k < 30 implies spans_words(
                content@,
                spans@.subrange(best_i as int, best_i + 30),
            )[k] == words_of(content@).subrange(best_i as int, best_i + 30)[k] by {
                assert(span_is_word(content@, spans@, best_i + k));
            }
        }
        assert(core@ == win_text(content@, best_i as int));
        reveal_strlit("\u{2026}");
    }
    let mut r = String::new();
    if best_i > 0 {
        r.append("\u{2026}");
    }
    r.append(core.as_str());
    if best_i + 30 < n {
        r.append("\u{2026}");
    }
    r
}

/// A search result with its surrounding context window.
#[derive(Clone, Debug)]
pub struct SearchResultWithContext {
    pub matched_message: SearchResult,
    pub context_messages: Vec<SearchResult>,
    pub match_index: usize,
    pub total_session_messages: usize,
}

/// Number of displayable results.
pub open spec fn displayable_count(s: Seq<SearchResult>) -> int
    decreases s.len(),
{
    if s.len() == 0 {
        0
    } else {
        displayable_count(s.drop_last()) + if spec_displayable(
            s.last().message_type,
            s.last().content@,
        ) {
            1int
        } else {
            0int
        }
    }
}

fn count_displayable(v: &Vec<SearchResult>) -> (r: usize)
    ensures
        r as int == displayable_count(v@),
{
    let n = v.len();
    let mut c: usize = 0;
    let mut i: usize = 0;
    while i < n
        invariant
            n == v@.len(),
            i <= n,
            c <= i,
            c as int == displayable_count(v@.take(i as int)),
        decreases n - i,
    {
        proof {
            assert(v@.take(i + 1).drop_last() =~= v@.take(i as int));
            assert(v@.take(i + 1).last() == v@[i as int]);
        }
        if v[i].is_displayable() {
            c = c + 1;
        }
        i = i + 1;
    }
    proof {
        assert(v@.take(n as int) =~= v@);
    }
    c
}

/// No two session messages share a uuid.
pub open spec fn uuids_distinct(s: Seq<SearchResult>) -> bool {
    forall|p: int, q: int| 0 <= p < q < s.len() ==> (#[trigger] s[p]).uuid@ != (#[trigger] s[q]).uuid@
}

/// A well-formed context window around a match: at most
/// `before + 1 + after` messages in sequence order, each drawn from
/// the session and displayable, with the match at `match_index` —
/// or, when filtering empties the window, the bare match alone.
pub open spec fn context_ok(
    r: SearchResultWithContext,
    m: SearchResult,
    session: Seq<SearchResult>,
    before: int,
    after: int,
) -> bool {
    &&& 1 <= r.context_messages@.len() <= before + 1 + after
    &&& r.match_index < r.context_messages@.len()
    &&& sorted_by_seq(r.context_messages@) || (r.context_messages@.len() == 1
        && r.context_messages@[0].uuid@ == m.uuid@)
    &&& (exists|idx: int|
        0 <= idx < session.len() && ((#[trigger] session[idx]).uuid@ == m.uuid@
            || session[idx].sequence_num == m.sequence_num) && (forall|k: int|
            0 <= k < r.context_messages@.len() ==> (exists|j: int|
                win_lo(idx, before) <= j < win_hi(idx, after, session.len() as int)
                    && same_result(#[trigger] r.context_messages@[k], session[j]))
                && spec_displayable(
                r.context_messages@[k].message_type,
                r.context_messages@[k].content@,
            ))) || (r.context_messages@.len() == 1 && r.context_messages@[0].uuid@ == m.uuid@)
}

/// First session position of the raw context window around `idx`.
pub open spec fn win_lo(idx: int, before: int) -> int {
    if idx >= before {
        idx - before
    } else {
        0
    }
}

/// One past the last session position of the raw context window.
pub open spec fn win_hi(idx: int, after: int, n: int) -> int {
    if idx + after + 1 <= n {
        idx + after + 1
    } else {
        n
    }
}

/// Assemble the context window around one match from its session's
/// messages (already sorted by sequence number): take the raw window,
/// keep the displayable messages, recompute the match position, and
/// fall back to the bare match when everything is filtered out.
pub fn assemble_context(
    m: &SearchResult,
    session: &Vec<SearchResult>,
    before: usize,
    after: usize,
) -> (r: SearchResultWithContext)
    requires
        sorted_by_seq(session@),
        after + 1 + before <= usize::MAX,
        session@.len() + after < usize::MAX,
    ensures
        context_ok(r, *m, session@, before as int, after as int),
        same_result(r.matched_message, *m),
        r.total_session_messages as int == if session@.len() == 0 {
            1
        } else {
            displayable_count(session@)
        },
        uuids_distinct(session@) && (exists|j: int|
            0 <= j < session@.len() && (#[trigger] session@[j]).uuid@ == m.uuid@
                && spec_displayable(session@[j].message_type, session@[j].content@)) ==> r
            .context_messages@[r.match_index as int].uuid@ == m.uuid@,
{
    let ghost centered = uuids_distinct(session@) && (exists|j: int|
        0 <= j < session@.len() && (#[trigger] session@[j]).uuid@ == m.uuid@
            && spec_displayable(session@[j].message_type, session@[j].content@));
    let total = session.len();
    if total == 0 {
        return SearchResultWithContext {
            matched_message: m.clone(),
            context_messages: make_single(m),
            match_index: 0,
            total_session_messages: 1,
        };
    }
    let displayable_total = count_displayable(session);

    let mut idx_opt: Option<usize> = None;
    let mut i: usize = 0;
    while idx_opt.is_none() && i < total
        invariant
            total == session@.len(),
            i <= total,
            idx_opt is Some ==> idx_opt.unwrap() < total && session@[idx_opt.unwrap() as int].uuid@
                == m.uuid@,
            idx_opt is None ==> forall|t: int| 0 <= t < i ==> (#[trigger] session@[t]).uuid@
                != m.uuid@,
        decreases total - i, (if idx_opt.is_none() { 1int } else { 0int }),
    {
        if str_eq(session[i].uuid.as_str(), m.uuid.as_str()) {
            idx_opt = Some(i);
        } else {
            i = i + 1;
        }
    }
    let ghost by_uuid = idx_opt is Some;
    if idx_opt.is_none() {
        let mut k: usize = 0;
        while idx_opt.is_none() && k < total
            invariant
                total == session@.len(),
                k <= total,
                idx_opt is Some ==> idx_opt.unwrap() < total
                    && session@[idx_opt.unwrap() as int].sequence_num == m.sequence_num,
            decreases total - k, (if idx_opt.is_none() { 1int } else { 0int }),
        {
            if session[k].sequence_num == m.sequence_num {
                idx_opt = Some(k);
            } else {
                k = k + 1;
            }
        }
    }
    let idx = match idx_opt {
        Some(x) => x,
        None => {
            // Not found by uuid, so a centered window is not owed.
            proof {
                assert(!centered);
            }
            return SearchResultWithContext {
                matched_message: m.clone(),
                context_messages: make_single(m),
                match_index: 0,
                total_session_messages: displayable_total,
            };
        },
    };
    proof {
        if centered && !by_uuid {
            let j = choose|j: int|
                0 <= j < session@.len() && (#[trigger] session@[j]).uuid@ == m.uuid@
                    && spec_displayable(session@[j].message_type, session@[j].content@);
            assert(false);
        }
        if centered {
            let j = choose|j: int|
                0 <= j < session@.len() && (#[trigger] session@[j]).uuid@ == m.uuid@
                    && spec_displayable(session@[j].message_type, session@[j].content@);
            assert(j == idx) by {
                if j != idx {
                    assert(session@[j].uuid@ != session@[idx as int].uuid@);
                }
            }
        }
    }
    let ghost found_ok = session@[idx as int].uuid@ == m.uuid@ || session@[idx as int].sequence_num
        == m.sequence_num;
    proof {
        assert(found_ok);
    }
    let start = if idx >= before {
        idx - before
    } else {
        0
    };
    let end = if idx + after + 1 <= total {
        idx + after + 1
    } else {
        total
    };
    proof {
        assert(start as int == win_lo(idx as int, before as int));
        assert(end as int == win_hi(idx as int, after as int, total as int));
    }
    let mut context: Vec<SearchResult> = Vec::new();
    let mut new_match_idx: usize = 0;
    let mut p: usize = start;
    while p < end
        invariant
            total == session@.len(),
            sorted_by_seq(session@),
            start <= p <= end <= total,
            end - start <= before + 1 + after,
            context@.len() <= p - start,
            new_match_idx <= context@.len(),
            new_match_idx < context@.len() || context@.len() == 0,
            forall|k: int|
                0 <= k < context@.len() ==> spec_displayable(
                    (#[trigger] context@[k]).message_type,
                    context@[k].content@,
                ),
            sorted_by_seq(context@),
            forall|k: int|
                0 <= k < context@.len() ==> exists|jj: int|
                    start <= jj < p && same_result(#[trigger] context@[k], session@[jj]),
            idx < total,
            session@[idx as int].uuid@ == m.uuid@ || session@[idx as int].sequence_num
                == m.sequence_num,
            start as int == win_lo(idx as int, before as int),
            end as int == win_hi(idx as int, after as int, total as int),
            centered ==> session@[idx as int].uuid@ == m.uuid@,
            centered ==> spec_displayable(
                session@[idx as int].message_type,
                session@[idx as int].content@,
            ),
            centered && p > idx ==> new_match_idx < context@.len() && (#[trigger] context@[
                new_match_idx as int]).uuid@ == m.uuid@,
        decreases end - p,
    {
        let ghost was_match_set = new_match_idx;
        if session[p].is_displayable() {
            if p == idx {
                new_match_idx = context.len();
            }
            let ghost pre = context@;
            context.push(session[p].clone());
            proof {
                assert(same_result(context@[context@.len() - 1], session@[p as int]));
                if centered && p == idx {
                    assert(context@[new_match_idx as int].uuid@ == session@[idx as int].uuid@);
                    assert(session@[idx as int].uuid@ == m.uuid@);
                }
                if centered && p > idx {
                    assert(context@[new_match_idx as int] == pre[new_match_idx as int]);
                }
                assert(context@.drop_last() =~= pre);
                assert forall|k: int|
                    0 <= k < context@.len() implies spec_displayable(
                    (#[trigger] context@[k]).message_type,
                    context@[k].content@,
                ) by {
                    if k < pre.len() {
                        assert(context@[k] == pre[k]);
                    }
                }
                assert forall|a: int, b: int|
                    0 <= a < b < context@.len() implies (#[trigger] context@[a]).sequence_num <= (
                    #[trigger] context@[b]).sequence_num by {
                    if b == context@.len() - 1 {
                        let jj = choose|jj: int|
                            start <= jj < p && same_result(pre[a], session@[jj]);
                        assert(session@[jj].sequence_num <= session@[p as int].sequence_num);
                    }
                }
                assert forall|k: int|
                    0 <= k < context@.len() implies exists|jj: int|
                    start <= jj < p + 1 && same_result(#[trigger] context@[k], session@[jj]) by {
                    if k < pre.len() {
                        let jj = choose|jj: int|
                            start <= jj < p && same_result(pre[k], session@[jj]);
                        assert(same_result(context@[k], session@[jj]));
                    } else {
                        assert(same_result(context@[k], session@[p as int]));
                    }
                }
            }
        }
        p = p + 1;
    }
    if context.len() == 0 {
        proof {
            assert(!centered);
        }
        return SearchResultWithContext {
            matched_message: m.clone(),
            context_messages: make_single(m),
            match_index: 0,
            total_session_messages: displayable_total,
        };
    }
    let nctx = context.len();
    SearchResultWithContext {
        matched_message: m.clone(),
        context_messages: context,
        match_index: if new_match_idx < nctx {
            new_match_idx
        } else {
            0
        },
        total_session_messages: displayable_total,
    }
}

/// A one-element window holding only the match itself.
fn make_single(m: &SearchResult) -> (r: Vec<SearchResult>)
    ensures
        r@.len() == 1,
        r@[0].uuid@ == m.uuid@,
{
    let mut v: Vec<SearchResult> = Vec::new();
    v.push(m.clone());
    proof {
        assert(same_result(v@[0], *m));
    }
    v
}

/// Maximum messages retrieved per session, safely above any real
/// session size.
pub const MAX_SESSION_MESSAGES: usize = 5000;

/// Why a search could not be answered.
#[derive(Clone, Copy, Debug, PartialEq, Eq, Structural)]
pub enum SearchError {
    /// The index could not be opened.
    OpenFailed,
    /// The on-disk schema lacks a required field.
    SchemaMismatch,
    /// The query could not be parsed or run.
    QueryFailed,
}

/// The open reader on one index. Holds the tantivy reader; opaque.
#[verifier::external_body]
pub struct ReaderHandle {
    index: tantivy::Index,
    reader: tantivy::IndexReader,
}

impl ReaderHandle {
    /// Relies on tantivy::Index::reader: a fresh reader that reloads
    /// on commit.
    #[verifier::external_body]
    fn from_index(ix: tantivy::Index) -> Result<ReaderHandle, tantivy::TantivyError> {
        let reader = ix.reader()?;
        Ok(ReaderHandle { index: ix, reader })
    }

    /// Relies on IndexReader::reload: the reader sees the last commit.
    #[verifier::external_body]
    fn reload(&self) -> Result<(), tantivy::TantivyError> {
        self.reader.reload()
    }

    /// Relies on QueryParser::{for_index, parse_query},
    /// Searcher::{search, doc} and TopDocs::with_limit: the stored
    /// documents of the top `limit` hits of the parsed query, by
    /// descending score.
    #[verifier::external_body]
    fn run_query(
        &self,
        query: &str,
        f1: tantivy::schema::Field,
        f2: tantivy::schema::Field,
        f3: tantivy::schema::Field,
        limit: usize,
    ) -> (r: Result<Vec<tantivy::TantivyDocument>, tantivy::TantivyError>)
        requires
            limit >= 1,
        ensures
            r is Ok ==> r.unwrap()@.len() <= limit,
    {
        let searcher = self.reader.searcher();
        let parser = tantivy::query::QueryParser::for_index(&self.index, vec![f1, f2, f3]);
        let q = parser.parse_query(query)?;
        let coll = tantivy::collector::TopDocs::with_limit(limit).order_by_score();
        let top = searcher.search(&q, &coll)?;
        top.into_iter().map(|(_score, addr)| searcher.doc(addr)).collect()
    }

    /// Relies on tantivy::query::AllQuery, Searcher::{search, doc}
    /// and TopDocs::with_limit: the stored documents of up to `limit`
    /// arbitrary documents of the index.
    #[verifier::external_body]
    fn run_all_query(&self, limit: usize) -> (r: Result<
        Vec<tantivy::TantivyDocument>,
        tantivy::TantivyError,
    >)
        requires
            limit >= 1,
        ensures
            r is Ok ==> r.unwrap()@.len() <= limit,
    {
        let searcher = self.reader.searcher();
        let q = tantivy::query::AllQuery;
        let coll = tantivy::collector::TopDocs::with_limit(limit).order_by_score();
        let top = searcher.search(&q, &coll)?;
        top.into_iter().map(|(_score, addr)| searcher.doc(addr)).collect()
    }
}

/// The first string value a stored document holds for a field, if
/// any: the name the materialization contracts are stated over.
pub uninterp spec fn doc_str_of(d: tantivy::TantivyDocument, f: tantivy::schema::Field) -> Option<
    Seq<char>,
>;

/// The first boolean value a stored document holds for a field.
pub uninterp spec fn doc_bool_of(d: tantivy::TantivyDocument, f: tantivy::schema::Field) -> Option<
    bool,
>;

/// The first u64 value a stored document holds for a field.
pub uninterp spec fn doc_u64_of(d: tantivy::TantivyDocument, f: tantivy::schema::Field) -> Option<
    u64,
>;

/// The first date value a stored document holds for a field, in
/// epoch milliseconds.
pub uninterp spec fn doc_date_ms_of(d: tantivy::TantivyDocument, f: tantivy::schema::Field) -> Option<
    i64,
>;

/// Relies on TantivyDocument::get_first and Value::as_str: the first
/// string value of the field, if any.
#[verifier::external_body]
fn doc_get_str(d: &tantivy::TantivyDocument, f: tantivy::schema::Field) -> (r: Option<String>)
    ensures
        r is Some <==> doc_str_of(*d, f) is Some,
        r is Some ==> r.unwrap()@ == doc_str_of(*d, f).unwrap(),
{
    Some(d.get_first(f)?.as_str()?.to_string())
}

/// Relies on TantivyDocument::get_first and Value::as_bool.
#[verifier::external_body]
fn doc_get_bool(d: &tantivy::TantivyDocument, f: tantivy::schema::Field) -> (r: Option<bool>)
    ensures
        r == doc_bool_of(*d, f),
{
    d.get_first(f)?.as_bool()
}

/// Relies on TantivyDocument::get_first and Value::as_u64.
#[verifier::external_body]
fn doc_get_u64(d: &tantivy::TantivyDocument, f: tantivy::schema::Field) -> (r: Option<u64>)
    ensures
        r == doc_u64_of(*d, f),
{
    d.get_first(f)?.as_u64()
}

/// Relies on TantivyDocument::get_first, Value::as_datetime and
/// DateTime::into_timestamp_millis (a division, which cannot
/// overflow).
#[verifier::external_body]
fn doc_get_date_ms(d: &tantivy::TantivyDocument, f: tantivy::schema::Field) -> (r: Option<i64>)
    ensures
        r == doc_date_ms_of(*d, f),
{
    Some(d.get_first(f)?.as_datetime()?.into_timestamp_millis())
}

/// An alphanumeric character (or any character outside ASCII).
pub open spec fn is_alnum(c: char) -> bool {
    ('a' <= c && c <= 'z') || ('A' <= c && c <= 'Z') || ('0' <= c && c <= '9') || (c as u32 > 127)
}

/// The string with every non-alphanumeric character blanked, so that
/// its words are exactly the alphanumeric segments.
pub open spec fn alnum_blanked(s: Seq<char>) -> Seq<char> {
    s.map_values(|c: char| if is_alnum(c) { c } else { ' ' })
}

/// The identifier segments of `s`: maximal alphanumeric runs. The
/// default analyzer tokenizes identifiers the same way, and the query
/// parser folds case, so these are AND-ed as term clauses verbatim.
pub open spec fn id_segments(s: Seq<char>) -> Seq<Seq<char>> {
    words_of(alnum_blanked(s))
}

/// Blank every non-alphanumeric character.
fn alnum_blank(s: &str) -> (r: String)
    ensures
        r@ == alnum_blanked(s@),
{
    let n: usize = s.unicode_len();
    let mut r = String::new();
    let mut i: usize = 0;
    while i < n
        invariant
            n == s@.len(),
            i <= n,
            r@ == alnum_blanked(s@).subrange(0, i as int),
        decreases n - i,
    {
        let c = s.get_char(i);
        if ('a' <= c && c <= 'z') || ('A' <= c && c <= 'Z') || ('0' <= c && c <= '9') || (c as u32
            > 127) {
            r.append(s.substring_char(i, i + 1));
        } else {
            r.append(" ");
            proof {
                reveal_strlit(" ");
            }
        }
        i = i + 1;
        proof {
            assert(r@ =~= alnum_blanked(s@).subrange(0, i as int));
        }
    }
    proof {
        assert(r@ =~= alnum_blanked(s@));
    }
    r
}

/// The term clauses `field:seg` of an identifier's segments.
pub open spec fn term_clauses(field: Seq<char>, segs: Seq<Seq<char>>) -> Seq<Seq<char>> {
    Seq::new(segs.len(), |k: int| field + ":"@ + segs[k])
}

/// The AND query over an identifier's segments against one field.
pub open spec fn id_query(field: Seq<char>, id: Seq<char>) -> Seq<char> {
    join_with(term_clauses(field, id_segments(id)), " AND "@)
}

/// Build the AND-of-segments query for an identifier field.
fn build_id_query(field: &str, id: &str) -> (r: String)
    ensures
        r@ == id_query(field@, id@),
{
    let blanked = alnum_blank(id);
    let spans = word_spans(blanked.as_str());
    let mut parts: Vec<String> = Vec::new();
    let n = spans.len();
    let mut k: usize = 0;
    while k < n
        invariant
            n == spans@.len(),
            n == id_segments(id@).len(),
            blanked@ == alnum_blanked(id@),
            forall|t: int| 0 <= t < n ==> #[trigger] span_is_word(blanked@, spans@, t),
            k <= n,
            views_of(parts@) =~= term_clauses(field@, id_segments(id@)).take(k as int),
        decreases n - k,
    {
        proof {
            assert(span_is_word(blanked@, spans@, k as int));
        }
        let (a, b) = spans[k];
        let mut part: String = field.to_owned();
        part.append(":");
        part.append(blanked.as_str().substring_char(a, b));
        let ghost pre = views_of(parts@);
        parts.push(part);
        proof {
            reveal_strlit(":");
            assert(views_of(parts@) =~= pre.push(field@ + ":"@ + id_segments(id@)[k as int]));
            assert(views_of(parts@) =~= term_clauses(field@, id_segments(id@)).take(k + 1));
        }
        k = k + 1;
    }
    proof {
        assert(term_clauses(field@, id_segments(id@)).take(n as int) =~= term_clauses(
            field@,
            id_segments(id@),
        ));
    }
    join_strings(&parts, " AND ")
}

/// The interaction count recorded for a session, else 0.
pub open spec fn count_of(s: Seq<(String, usize)>, key: Seq<char>) -> int
    decreases s.len(),
{
    if s.len() == 0 {
        0
    } else if s[0].0@ == key {
        s[0].1 as int
    } else {
        count_of(s.drop_first(), key)
    }
}

/// The basename of a project filter: its last non-empty
/// slash-separated component, else the filter itself.
pub open spec fn basename_of(s: Seq<char>) -> Seq<char> {
    match crate::parser::last_nonempty(crate::strings::split_char(s, '/')) {
        Some(c) => c,
        None => s,
    }
}

/// Last non-empty slash-separated component, else the whole string.
fn basename_exec(s: &str) -> (r: String)
    ensures
        r@ == basename_of(s@),
{
    let cs = crate::strings::split_char_exec(s, '/');
    let ghost csv = crate::strings::split_char(s@, '/');
    let n = cs.len();
    let mut j: usize = n;
    proof {
        assert(csv.subrange(0, n as int) =~= csv);
    }
    while j > 0
        invariant
            csv == crate::strings::split_char(s@, '/'),
            views_of(cs@) == csv,
            n == cs@.len(),
            j <= n,
            crate::parser::last_nonempty(csv.subrange(0, j as int))
                == crate::parser::last_nonempty(csv),
        decreases j,
    {
        proof {
            let sub = csv.subrange(0, j as int);
            assert(sub.last() == csv[j - 1]);
            assert(sub.drop_last() =~= csv.subrange(0, j - 1));
        }
        if cs[j - 1].as_str().unicode_len() > 0 {
            proof {
                let sub = csv.subrange(0, j as int);
                assert(cs@[j - 1]@ == views_of(cs@)[j - 1]);
                assert(sub.last().len() > 0);
                assert(crate::parser::last_nonempty(sub) == Some(csv[j - 1]));
            }
            return cs[j - 1].clone();
        }
        j = j - 1;
    }
    proof {
        assert(csv.subrange(0, 0) =~= Seq::<Seq<char>>::empty());
    }
    s.to_owned()
}

/// Does a result pass the query's post-filters: exact project
/// basename, session id prefix, inclusive date range?
pub open spec fn passes_filters(q: SearchQuery, r: SearchResult) -> bool {
    &&& match q.project_filter {
        Some(f) => r.project@ == basename_of(f@),
        None => true,
    }
    &&& match q.session_filter {
        Some(f) => f@.len() <= r.session_id@.len() && r.session_id@.subrange(0, f@.len() as int)
            == f@,
        None => true,
    }
    &&& match q.after {
        Some(a) => r.timestamp_ms >= a,
        None => true,
    }
    &&& match q.before {
        Some(b) => r.timestamp_ms <= b,
        None => true,
    }
}

/// Some requested id is a prefix of the result's uuid.
pub open spec fn some_id_prefixes(ids: Seq<String>, r: SearchResult) -> bool {
    exists|t: int|
        0 <= t < ids.len() && (#[trigger] ids[t])@.len() <= r.uuid@.len() && r.uuid@.subrange(
            0,
            ids[t]@.len() as int,
        ) == ids[t]@
}

/// Windows of a context row are well shaped: bounded, with the match
/// index inside, and in sequence order unless synthesized.
pub open spec fn context_shape_ok(r: SearchResultWithContext, before: int, after: int) -> bool {
    &&& 1 <= r.context_messages@.len() <= before + 1 + after
    &&& r.match_index < r.context_messages@.len()
    &&& sorted_by_seq(r.context_messages@) || r.context_messages@.len() == 1
    &&& (forall|k: int|
        0 <= k < r.context_messages@.len() ==> spec_displayable(
            (#[trigger] r.context_messages@[k]).message_type,
            r.context_messages@[k].content@,
        )) || (r.context_messages@.len() == 1 && r.context_messages@[0].uuid@
        == r.matched_message.uuid@)
}

/// Every field of a materialized result as a function of the stored
/// document, the schema fields, the interaction counts and the query
/// text: strings default to empty, flags to false, the timestamp to
/// zero; the project path falls back to the project name; blank
/// parent and agent ids become `None`; role names map onto the role
/// enum; tag bags are split on whitespace; the snippet is computed
/// from the stored content.
pub open spec fn doc_materializes(
    r: SearchResult,
    doc: tantivy::TantivyDocument,
    fields: crate::indexer::IndexFields,
    counts: Seq<(String, usize)>,
    query: Seq<char>,
) -> bool {
    &&& r.uuid@ == (match doc_str_of(doc, fields.uuid_field) {
        Some(s) => s,
        None => Seq::<char>::empty(),
    })
    &&& crate::parser::opt_view(r.parent_uuid) == (match doc_str_of(
        doc,
        fields.parent_uuid_field,
    ) {
        Some(s) => if s.len() > 0 {
            Some(s)
        } else {
            None
        },
        None => None,
    })
    &&& r.content@ == (match doc_str_of(doc, fields.content_field) {
        Some(s) => s,
        None => Seq::<char>::empty(),
    })
    &&& r.project@ == (match doc_str_of(doc, fields.project_field) {
        Some(s) => s,
        None => Seq::<char>::empty(),
    })
    &&& r.project_path@ == (match doc_str_of(doc, fields.cwd_field) {
        Some(s) => s,
        None => r.project@,
    })
    &&& r.session_id@ == (match doc_str_of(doc, fields.session_field) {
        Some(s) => s,
        None => Seq::<char>::empty(),
    })
    &&& r.timestamp_ms == (match doc_date_ms_of(doc, fields.timestamp_field) {
        Some(t) => t,
        None => 0,
    })
    &&& r.message_type == (match doc_str_of(doc, fields.message_type_field) {
        Some(s) => if s == "User"@ {
            MessageType::User
        } else if s == "Assistant"@ {
            MessageType::Assistant
        } else if s == "Summary"@ {
            MessageType::Summary
        } else {
            MessageType::System
        },
        None => MessageType::System,
    })
    &&& (query.len() == 0 ==> r.snippet@ == truncate_spec(r.content@, 150))
    &&& (query.len() > 0 ==> r.snippet@ == snippet_spec(r.content@, query))
    &&& views_of(r.technologies@) == words_of(
        match doc_str_of(doc, fields.technologies_field) {
            Some(s) => s,
            None => Seq::<char>::empty(),
        },
    )
    &&& views_of(r.code_languages@) == words_of(
        match doc_str_of(doc, fields.code_languages_field) {
            Some(s) => s,
            None => Seq::<char>::empty(),
        },
    )
    &&& views_of(r.tools_mentioned@) == words_of(
        match doc_str_of(doc, fields.tools_mentioned_field) {
            Some(s) => s,
            None => Seq::<char>::empty(),
        },
    )
    &&& r.has_code == (doc_bool_of(doc, fields.has_code_field) == Some(true))
    &&& r.has_error == (doc_bool_of(doc, fields.has_error_field) == Some(true))
    &&& r.sequence_num as int == (match doc_u64_of(doc, fields.sequence_num_field) {
        Some(v) => if v > usize::MAX as u64 {
            usize::MAX as int
        } else {
            v as int
        },
        None => 0,
    })
    &&& r.is_sidechain == (doc_bool_of(doc, fields.is_sidechain_field) == Some(true))
    &&& crate::parser::opt_view(r.agent_id) == (match doc_str_of(doc, fields.agent_id_field) {
        Some(s) => if s.len() > 0 {
            Some(s)
        } else {
            None
        },
        None => None,
    })
    &&& r.interaction_count as int == count_of(counts, r.session_id@)
}

/// The read-only search engine over one index.
pub struct SearchEngine {
    pub handle: ReaderHandle,
    pub fields: crate::indexer::IndexFields,
    pub interaction_counts: Vec<(String, usize)>,
}

impl SearchEngine {
    /// The recorded per-session interaction counts.
    pub open spec fn counts(&self) -> Seq<(String, usize)> {
        self.interaction_counts@
    }

    /// Open the index read-only. The interaction counts are an
    /// externally computed display enrichment; the engine never
    /// changes them.
    pub fn new(index_path: &str, interaction_counts: Vec<(String, usize)>) -> (r: Result<
        SearchEngine,
        SearchError,
    >)
        ensures
            r is Ok ==> r.unwrap().counts() == interaction_counts@,
    {
        let ix = match crate::indexer::index_open_in_dir(index_path) {
            Ok(ix) => ix,
            Err(_) => {
                return Err(SearchError::OpenFailed);
            },
        };
        Self::for_index(ix, interaction_counts)
    }

    /// An engine over an already opened index handle.
    pub fn for_index(ix: tantivy::Index, interaction_counts: Vec<(String, usize)>) -> (r: Result<
        SearchEngine,
        SearchError,
    >)
        ensures
            r is Ok ==> r.unwrap().counts() == interaction_counts@,
    {
        let schema = crate::indexer::index_schema(&ix);
        let fields = match crate::indexer::SearchIndexer::resolve_fields(&schema) {
            Some(f) => f,
            None => {
                return Err(SearchError::SchemaMismatch);
            },
        };
        match ReaderHandle::from_index(ix) {
            Ok(handle) => Ok(SearchEngine { handle, fields, interaction_counts }),
            Err(_) => Err(SearchError::OpenFailed),
        }
    }

    /// See the latest commit.
    pub fn refresh(&self) -> (r: Result<(), SearchError>) {
        match self.handle.reload() {
            Ok(()) => Ok(()),
            Err(_) => Err(SearchError::OpenFailed),
        }
    }

    /// The recorded interaction count of a session, else 0.
    pub fn get_interaction_count(&self, session_id: &str) -> (r: usize)
        ensures
            r as int == count_of(self.counts(), session_id@),
    {
        let n = self.interaction_counts.len();
        let mut i: usize = 0;
        proof {
            assert(self.interaction_counts@.skip(0) =~= self.interaction_counts@);
        }
        while i < n
            invariant
                n == self.interaction_counts@.len(),
                i <= n,
                count_of(self.interaction_counts@, session_id@) == count_of(
                    self.interaction_counts@.skip(i as int),
                    session_id@,
                ),
            decreases n - i,
        {
            let ghost rest = self.interaction_counts@.skip(i as int);
            proof {
                assert(rest[0] == self.interaction_counts@[i as int]);
                assert(rest.drop_first() =~= self.interaction_counts@.skip(i + 1));
            }
            if str_eq(self.interaction_counts[i].0.as_str(), session_id) {
                return self.interaction_counts[i].1;
            }
            i = i + 1;
        }
        proof {
            assert(self.interaction_counts@.skip(n as int)
                =~= Seq::<(String, usize)>::empty());
        }
        0
    }

    /// Materialize one stored document; missing fields fall back to
    /// neutral defaults. The snippet is computed from the stored
    /// content and the query text.
    pub fn doc_to_result(&self, doc: &tantivy::TantivyDocument, query_text: &str) -> (r:
        SearchResult)
        ensures
            doc_materializes(r, *doc, self.fields, self.counts(), query_text@),
    {
        proof {
            assert(words_of(Seq::<char>::empty()) =~= Seq::<Seq<char>>::empty());
            assert(views_of(Seq::<String>::empty()) =~= Seq::<Seq<char>>::empty());
        }
        let uuid = match doc_get_str(doc, self.fields.uuid_field) {
            Some(s) => s,
            None => String::new(),
        };
        let parent_uuid_raw = doc_get_str(doc, self.fields.parent_uuid_field);
        let parent_uuid = match parent_uuid_raw {
            Some(p) => {
                if p.as_str().unicode_len() > 0 {
                    Some(p)
                } else {
                    None
                }
            },
            None => None,
        };
        let content = match doc_get_str(doc, self.fields.content_field) {
            Some(s) => s,
            None => String::new(),
        };
        let project = match doc_get_str(doc, self.fields.project_field) {
            Some(s) => s,
            None => String::new(),
        };
        let project_path = match doc_get_str(doc, self.fields.cwd_field) {
            Some(s) => s,
            None => project.clone(),
        };
        let session_id = match doc_get_str(doc, self.fields.session_field) {
            Some(s) => s,
            None => String::new(),
        };
        let timestamp_ms = match doc_get_date_ms(doc, self.fields.timestamp_field) {
            Some(t) => t,
            None => 0,
        };
        let message_type = match doc_get_str(doc, self.fields.message_type_field) {
            Some(s) => {
                if str_eq(s.as_str(), "User") {
                    MessageType::User
                } else if str_eq(s.as_str(), "Assistant") {
                    MessageType::Assistant
                } else if str_eq(s.as_str(), "Summary") {
                    MessageType::Summary
                } else {
                    MessageType::System
                }
            },
            None => MessageType::System,
        };
        let snippet = if query_text.unicode_len() == 0 {
            truncate_content(content.as_str(), 150, false)
        } else {
            generate_snippet(content.as_str(), query_text)
        };
        let technologies = match doc_get_str(doc, self.fields.technologies_field) {
            Some(s) => split_ws_words(s.as_str()),
            None => Vec::new(),
        };
        let code_languages = match doc_get_str(doc, self.fields.code_languages_field) {
            Some(s) => split_ws_words(s.as_str()),
            None => Vec::new(),
        };
        let tools_mentioned = match doc_get_str(doc, self.fields.tools_mentioned_field) {
            Some(s) => split_ws_words(s.as_str()),
            None => Vec::new(),
        };
        let has_code = match doc_get_bool(doc, self.fields.has_code_field) {
            Some(b) => b,
            None => false,
        };
        let has_error = match doc_get_bool(doc, self.fields.has_error_field) {
            Some(b) => b,
            None => false,
        };
        let sequence_num_u64 = match doc_get_u64(doc, self.fields.sequence_num_field) {
            Some(v) => v,
            None => 0,
        };
        let sequence_num: usize = if sequence_num_u64 > usize::MAX as u64 {
            usize::MAX
        } else {
            sequence_num_u64 as usize
        };
        let is_sidechain = match doc_get_bool(doc, self.fields.is_sidechain_field) {
            Some(b) => b,
            None => false,
        };
        let agent_id_raw = doc_get_str(doc, self.fields.agent_id_field);
        let agent_id = match agent_id_raw {
            Some(a) => {
                if a.as_str().unicode_len() > 0 {
                    Some(a)
                } else {
                    None
                }
            },
            None => None,
        };
        let interaction_count = self.get_interaction_count(session_id.as_str());
        SearchResult {
            uuid,
            parent_uuid,
            content,
            project,
            project_path,
            session_id,
            timestamp_ms,
            message_type,
            snippet,
            technologies,
            code_languages,
            tools_mentioned,
            has_code,
            has_error,
            interaction_count,
            sequence_num,
            is_sidechain,
            agent_id,
        }
    }

    /// Run a search: parse the text against content, session and
    /// project, AND the identifier filters as term clauses, fetch the
    /// top hits, post-filter exactly, and order as requested.
    pub fn search(&self, query: &SearchQuery) -> (r: Result<Vec<SearchResult>, SearchError>)
        ensures
            query.limit == 0 ==> r is Ok && r.unwrap()@.len() == 0,
            crate::strings::all_ws(query.text@) ==> r is Ok && r.unwrap()@.len() == 0,
            r is Ok ==> r.unwrap()@.len() <= query.limit,
            r is Ok ==> forall|k: int|
                0 <= k < r.unwrap()@.len() ==> passes_filters(*query, #[trigger] r.unwrap()@[k]),
            r is Ok && query.sort_by == SortOrder::DateAsc ==> sorted_by_time_asc(r.unwrap()@),
            r is Ok && query.sort_by == SortOrder::DateDesc ==> sorted_by_time_desc(r.unwrap()@),
    {
        if query.limit == 0 {
            return Ok(Vec::new());
        }
        if crate::parser::text_is_blank(query.text.as_str()) {
            // An empty query matches nothing, as a must-clause over an
            // empty parsed query would.
            return Ok(Vec::new());
        }
        let mut qs: String = "(".to_owned();
        qs.append(query.text.as_str());
        qs.append(")");
        match &query.project_filter {
            Some(f) => {
                let sub = build_id_query("project", f.as_str());
                if sub.as_str().unicode_len() > 0 {
                    qs.append(" AND ");
                    qs.append(sub.as_str());
                }
            },
            None => {},
        }
        match &query.session_filter {
            Some(f) => {
                let sub = build_id_query("session_id", f.as_str());
                if sub.as_str().unicode_len() > 0 {
                    qs.append(" AND ");
                    qs.append(sub.as_str());
                }
            },
            None => {},
        }
        let docs = match self.handle.run_query(
            qs.as_str(),
            self.fields.content_field,
            self.fields.session_field,
            self.fields.project_field,
            query.limit,
        ) {
            Ok(d) => d,
            Err(_) => {
                return Err(SearchError::QueryFailed);
            },
        };
        let mut results: Vec<SearchResult> = Vec::new();
        let nd = docs.len();
        let mut i: usize = 0;
        while i < nd
            invariant
                nd == docs@.len(),
                nd <= query.limit,
                i <= nd,
                results@.len() <= i,
                forall|k: int|
                    0 <= k < results@.len() ==> passes_filters(*query, #[trigger] results@[k]),
            decreases nd - i,
        {
            let cand = self.doc_to_result(&docs[i], query.text.as_str());
            if self.passes_filters_exec(query, &cand) {
                results.push(cand);
            }
            i = i + 1;
        }
        let ghost pre_sort = results@;
        apply_sort(&mut results, query.sort_by);
        proof {
            broadcast use vstd::seq_lib::group_to_multiset_ensures;

            assert forall|k: int|
                0 <= k < results@.len() implies passes_filters(
                *query,
                #[trigger] results@[k],
            ) by {
                assert(pre_sort.to_multiset().contains(results@[k]));
                assert(pre_sort.contains(results@[k]));
                let j = choose|j: int| 0 <= j < pre_sort.len() && pre_sort[j] == results@[k];
            }
        }
        Ok(results)
    }

    /// The exact post-filter test.
    fn passes_filters_exec(&self, q: &SearchQuery, r: &SearchResult) -> (out: bool)
        ensures
            out == passes_filters(*q, *r),
    {
        let project_ok = match &q.project_filter {
            Some(f) => {
                let base = basename_exec(f.as_str());
                str_eq(r.project.as_str(), base.as_str())
            },
            None => true,
        };
        let session_ok = match &q.session_filter {
            Some(f) => str_starts_with(r.session_id.as_str(), f.as_str()),
            None => true,
        };
        let after_ok = match &q.after {
            Some(a) => r.timestamp_ms >= *a,
            None => true,
        };
        let before_ok = match &q.before {
            Some(b) => r.timestamp_ms <= *b,
            None => true,
        };
        project_ok && session_ok && after_ok && before_ok
    }

    /// All messages of one session (by full id or prefix), ascending
    /// by sequence number.
    pub fn get_session_messages(&self, session_id: &str) -> (r: Result<
        Vec<SearchResult>,
        SearchError,
    >)
        ensures
            r is Ok ==> {
                &&& r.unwrap()@.len() <= MAX_SESSION_MESSAGES
                &&& sorted_by_seq(r.unwrap()@)
                &&& forall|k: int|
                    0 <= k < r.unwrap()@.len() ==> session_id@.len() <= (
                    #[trigger] r.unwrap()@[k]).session_id@.len()
                        && r.unwrap()@[k].session_id@.subrange(0, session_id@.len() as int)
                        == session_id@
            },
    {
        let qs = build_id_query("session_id", session_id);
        if qs.as_str().unicode_len() == 0 {
            let mut empty: Vec<SearchResult> = Vec::new();
            return Ok(empty);
        }
        let docs = match self.handle.run_query(
            qs.as_str(),
            self.fields.session_field,
            self.fields.session_field,
            self.fields.session_field,
            MAX_SESSION_MESSAGES,
        ) {
            Ok(d) => d,
            Err(_) => {
                return Err(SearchError::QueryFailed);
            },
        };
        let mut results: Vec<SearchResult> = Vec::new();
        let nd = docs.len();
        let mut i: usize = 0;
        while i < nd
            invariant
                nd == docs@.len(),
                nd <= MAX_SESSION_MESSAGES,
                i <= nd,
                results@.len() <= i,
                forall|k: int|
                    0 <= k < results@.len() ==> session_id@.len() <= (
                    #[trigger] results@[k]).session_id@.len() && results@[k].session_id@.subrange(
                        0,
                        session_id@.len() as int,
                    ) == session_id@,
            decreases nd - i,
        {
            let cand = self.doc_to_result(&docs[i], "");
            if str_starts_with(cand.session_id.as_str(), session_id) {
                results.push(cand);
            }
            i = i + 1;
        }
        let ghost pre_sort = results@;
        sort_by_seq(&mut results);
        proof {
            broadcast use vstd::seq_lib::group_to_multiset_ensures;

            assert forall|k: int|
                0 <= k < results@.len() implies session_id@.len() <= (
                #[trigger] results@[k]).session_id@.len() && results@[k].session_id@.subrange(
                    0,
                    session_id@.len() as int,
                ) == session_id@ by {
                assert(pre_sort.to_multiset().contains(results@[k]));
                assert(pre_sort.contains(results@[k]));
                let j = choose|j: int| 0 <= j < pre_sort.len() && pre_sort[j] == results@[k];
            }
        }
        Ok(results)
    }

    /// Fetch records by uuid (exact or prefix), output order matching
    /// input order; ids with no match are skipped.
    pub fn get_messages_by_uuid(&self, ids: &Vec<String>) -> (r: Result<
        Vec<SearchResult>,
        SearchError,
    >)
        ensures
            r is Ok ==> r.unwrap()@.len() <= ids@.len(),
            r is Ok ==> forall|k: int|
                0 <= k < r.unwrap()@.len() ==> #[trigger] some_id_prefixes(
                    ids@,
                    r.unwrap()@[k],
                ),
    {
        let mut results: Vec<SearchResult> = Vec::new();
        let n = ids.len();
        let mut i: usize = 0;
        while i < n
            invariant
                n == ids@.len(),
                i <= n,
                results@.len() <= i,
                forall|k: int|
                    0 <= k < results@.len() ==> #[trigger] some_id_prefixes(ids@, results@[k]),
            decreases n - i,
        {
            let qs = build_id_query("uuid", ids[i].as_str());
            if qs.as_str().unicode_len() > 0 {
                match self.handle.run_query(
                    qs.as_str(),
                    self.fields.uuid_field,
                    self.fields.uuid_field,
                    self.fields.uuid_field,
                    10,
                ) {
                    Ok(docs) => {
                        let nd = docs.len();
                        let mut j: usize = 0;
                        let mut found = false;
                        while j < nd && !found
                            invariant
                                nd == docs@.len(),
                                i < n == ids@.len(),
                                j <= nd,
                                found ==> results@.len() <= i + 1,
                                !found ==> results@.len() <= i,
                                forall|k: int|
                                    0 <= k < results@.len() ==> #[trigger] some_id_prefixes(
                                        ids@,
                                        results@[k],
                                    ),
                            decreases nd - j, (if found { 0int } else { 1int }),
                        {
                            let cand = self.doc_to_result(&docs[j], "");
                            if str_starts_with(cand.uuid.as_str(), ids[i].as_str()) {
                                let ghost pre = results@;
                                results.push(cand);
                                found = true;
                                proof {
                                    assert(results@[results@.len() - 1].uuid@.subrange(
                                        0,
                                        ids@[i as int]@.len() as int,
                                    ) == ids@[i as int]@);
                                    assert(some_id_prefixes(ids@, results@[results@.len() - 1]));
                                }
                            }
                            j = j + 1;
                        }
                    },
                    Err(_) => {
                        return Err(SearchError::QueryFailed);
                    },
                }
            }
            i = i + 1;
        }
        Ok(results)
    }

    /// Search, then wrap every match in its context window
    /// (`before` preceding and `after` following displayable
    /// messages of the same session), and order the rows as
    /// requested.
    pub fn search_with_context(&self, query: &SearchQuery, before: usize, after: usize) -> (r:
        Result<Vec<SearchResultWithContext>, SearchError>)
        requires
            before + 1 + after <= usize::MAX,
        ensures
            r is Ok ==> r.unwrap()@.len() <= query.limit,
            r is Ok ==> forall|k: int|
                0 <= k < r.unwrap()@.len() ==> context_shape_ok(
                    #[trigger] r.unwrap()@[k],
                    before as int,
                    after as int,
                ),
    {
        let matches = match self.search(query) {
            Ok(m) => m,
            Err(e) => {
                return Err(e);
            },
        };
        let mut rows: Vec<SearchResultWithContext> = Vec::new();
        let nm = matches.len();
        let mut i: usize = 0;
        while i < nm
            invariant
                nm == matches@.len(),
                nm <= query.limit,
                before + 1 + after <= usize::MAX,
                i <= nm,
                rows@.len() == i,
                forall|k: int|
                    0 <= k < rows@.len() ==> context_shape_ok(
                        #[trigger] rows@[k],
                        before as int,
                        after as int,
                    ),
            decreases nm - i,
        {
            let m = &matches[i];
            let session = match self.get_session_messages(m.session_id.as_str()) {
                Ok(s) => s,
                Err(e) => {
                    return Err(e);
                },
            };
            if session.len() < usize::MAX - after {
                let row = assemble_context(m, &session, before, after);
                rows.push(row);
            } else {
                let row = SearchResultWithContext {
                    matched_message: m.clone(),
                    context_messages: make_single(m),
                    match_index: 0,
                    total_session_messages: session.len(),
                };
                rows.push(row);
            }
            i = i + 1;
        }
        Ok(rows)
    }

    /// Up to `limit` documents, optionally restricted to a project.
    pub fn get_all_documents(&self, project_filter: Option<&String>, limit: usize) -> (r: Result<
        Vec<SearchResult>,
        SearchError,
    >)
        ensures
            r is Ok ==> r.unwrap()@.len() <= limit,
    {
        if limit == 0 {
            let empty: Vec<SearchResult> = Vec::new();
            return Ok(empty);
        }
        let docs = match project_filter {
            Some(f) => {
                let qs = build_id_query("project", f.as_str());
                if qs.as_str().unicode_len() == 0 {
                    let empty: Vec<SearchResult> = Vec::new();
                    return Ok(empty);
                }
                match self.handle.run_query(
                    qs.as_str(),
                    self.fields.project_field,
                    self.fields.project_field,
                    self.fields.project_field,
                    limit,
                ) {
                    Ok(d) => d,
                    Err(_) => {
                        return Err(SearchError::QueryFailed);
                    },
                }
            },
            None => match self.handle.run_all_query(limit) {
                Ok(d) => d,
                Err(_) => {
                    return Err(SearchError::QueryFailed);
                },
            },
        };
        let mut results: Vec<SearchResult> = Vec::new();
        let nd = docs.len();
        let mut i: usize = 0;
        while i < nd
            invariant
                nd == docs@.len(),
                nd <= limit,
                i <= nd,
                results@.len() <= i,
            decreases nd - i,
        {
            let cand = self.doc_to_result(&docs[i], "");
            results.push(cand);
            i = i + 1;
        }
        Ok(results)
    }
}

/// Split a space-joined token bag back into tokens.
fn split_ws_words(s: &str) -> (r: Vec<String>)
    ensures
        views_of(r@) == words_of(s@),
{
    let spans = word_spans(s);
    let n = spans.len();
    let mut r: Vec<String> = Vec::new();
    let mut k: usize = 0;
    while k < n
        invariant
            n == spans@.len(),
            n == words_of(s@).len(),
            forall|t: int| 0 <= t < n ==> #[trigger] span_is_word(s@, spans@, t),
            k <= n,
            views_of(r@) =~= words_of(s@).take(k as int),
        decreases n - k,
    {
        proof {
            assert(span_is_word(s@, spans@, k as int));
        }
        let (a, b) = spans[k];
        let ghost pre = views_of(r@);
        r.push(s.substring_char(a, b).to_owned());
        proof {
            assert(views_of(r@) =~= pre.push(words_of(s@)[k as int]));
            assert(views_of(r@) =~= words_of(s@).take(k + 1));
        }
        k = k + 1;
    }
    proof {
        assert(views_of(r@) =~= words_of(s@).take(n as int));
        assert(words_of(s@).take(n as int) =~= words_of(s@));
    }
    r
}

} // verus!
