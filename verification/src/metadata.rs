//! Metadata extraction: a fixed table of case-insensitive
//! word-boundary patterns maps substrings of message content to tags
//! in three vocabularies (technologies, tools, code languages), plus
//! two boolean predicates (fenced code blocks, error-shaped words).
//!
//! Word characters are ASCII letters, digits, `_`, and every
//! character outside the ASCII range; case folding is ASCII-only.

use vstd::prelude::*;
use crate::strings::{chars_of, is_ws, lower_char, lower_char_exec, word_count, count_words_exec,
    ws_char};

verus! {

/// The shape of one pattern alternative.
#[derive(Clone, Copy, Debug, PartialEq, Eq, Structural)]
pub enum PatKind {
    /// `a` with a word boundary on both sides, case-insensitive.
    Word,
    /// `a`, any run of non-newline characters, then `b`, with word
    /// boundaries at the outer ends, case-insensitive.
    Gap,
    /// `a`, one or more whitespace characters, then `b`, with word
    /// boundaries at the outer ends, case-insensitive.
    WsPair,
    /// `a` after a word boundary, one or more whitespace characters,
    /// then a word boundary.
    Trail,
    /// `a` verbatim, case-sensitive, no boundary requirement.
    Exact,
}

/// One row of a pattern table: a tag and one alternative for it.
#[derive(Clone, Debug)]
pub struct PatRow {
    pub tag: String,
    pub kind: PatKind,
    pub a: String,
    pub b: String,
}

/// Spec-level image of a row.
pub open spec fn row_view(r: PatRow) -> (Seq<char>, PatKind, Seq<char>, Seq<char>) {
    (r.tag@, r.kind, r.a@, r.b@)
}

/// Is `s[i]` a word character (in range and word-shaped)?
pub open spec fn word_at(s: Seq<char>, i: int) -> bool {
    0 <= i < s.len() && is_word_char(s[i])
}

pub open spec fn is_word_char(c: char) -> bool {
    ('a' <= c && c <= 'z') || ('A' <= c && c <= 'Z') || ('0' <= c && c <= '9') || c == '_' || (
    c as u32 > 127)
}

/// A word boundary lies at position `p` iff exactly one of the two
/// neighbouring positions holds a word character.
pub open spec fn boundary(s: Seq<char>, p: int) -> bool {
    word_at(s, p - 1) != word_at(s, p)
}

/// `w` (already lowercase) occurs at `i` under ASCII case folding.
pub open spec fn ci_lit_at(s: Seq<char>, i: int, w: Seq<char>) -> bool {
    &&& 0 <= i
    &&& i + w.len() <= s.len()
    &&& forall|k: int| 0 <= k < w.len() ==> lower_char(s[i + k]) == w[k]
}

/// `w` occurs verbatim at `i`.
pub open spec fn exact_lit_at(s: Seq<char>, i: int, w: Seq<char>) -> bool {
    &&& 0 <= i
    &&& i + w.len() <= s.len()
    &&& forall|k: int| 0 <= k < w.len() ==> s[i + k] == w[k]
}

pub open spec fn word_hit_at(s: Seq<char>, i: int, w: Seq<char>) -> bool {
    &&& ci_lit_at(s, i, w)
    &&& boundary(s, i)
    &&& boundary(s, i + w.len())
}

pub open spec fn word_hit(s: Seq<char>, w: Seq<char>) -> bool {
    exists|i: int| word_hit_at(s, i, w)
}

pub open spec fn gap_hit_at(s: Seq<char>, i: int, j: int, a: Seq<char>, b: Seq<char>) -> bool {
    &&& ci_lit_at(s, i, a)
    &&& boundary(s, i)
    &&& i + a.len() <= j
    &&& ci_lit_at(s, j, b)
    &&& boundary(s, j + b.len())
    &&& forall|k: int| i + a.len() <= k < j ==> s[k] != '\n'
}

pub open spec fn gap_hit(s: Seq<char>, a: Seq<char>, b: Seq<char>) -> bool {
    exists|i: int, j: int| gap_hit_at(s, i, j, a, b)
}

pub open spec fn ws_pair_hit_at(s: Seq<char>, i: int, j: int, a: Seq<char>, b: Seq<char>) -> bool {
    &&& ci_lit_at(s, i, a)
    &&& boundary(s, i)
    &&& i + a.len() < j
    &&& ci_lit_at(s, j, b)
    &&& boundary(s, j + b.len())
    &&& forall|k: int| i + a.len() <= k < j ==> is_ws(s[k])
}

pub open spec fn ws_pair_hit(s: Seq<char>, a: Seq<char>, b: Seq<char>) -> bool {
    exists|i: int, j: int| ws_pair_hit_at(s, i, j, a, b)
}

pub open spec fn trail_hit_at(s: Seq<char>, i: int, j: int, a: Seq<char>) -> bool {
    &&& ci_lit_at(s, i, a)
    &&& boundary(s, i)
    &&& i + a.len() < j <= s.len()
    &&& boundary(s, j)
    &&& forall|k: int| i + a.len() <= k < j ==> is_ws(s[k])
}

pub open spec fn trail_hit(s: Seq<char>, a: Seq<char>) -> bool {
    exists|i: int, j: int| trail_hit_at(s, i, j, a)
}

pub open spec fn exact_hit(s: Seq<char>, a: Seq<char>) -> bool {
    exists|i: int| exact_lit_at(s, i, a)
}

/// Does the alternative described by a row occur in `s`?
pub open spec fn row_hit(s: Seq<char>, r: (Seq<char>, PatKind, Seq<char>, Seq<char>)) -> bool {
    match r.1 {
        PatKind::Word => word_hit(s, r.2),
        PatKind::Gap => gap_hit(s, r.2, r.3),
        PatKind::WsPair => ws_pair_hit(s, r.2, r.3),
        PatKind::Trail => trail_hit(s, r.2),
        PatKind::Exact => exact_hit(s, r.2),
    }
}

/// The set of tags of a table whose alternatives occur in `s`.
pub open spec fn matched_tags(
    s: Seq<char>,
    rows: Seq<(Seq<char>, PatKind, Seq<char>, Seq<char>)>,
) -> Set<Seq<char>> {
    Set::new(
        |t: Seq<char>|
            exists|k: int| 0 <= k < rows.len() && rows[k].0 == t && row_hit(s, #[trigger] rows[k]),
    )
}

/// The tags of the first `k` rows whose alternatives occur in `s`,
/// in table order, first occurrence kept.
pub open spec fn matched_prefix(
    s: Seq<char>,
    rows: Seq<(Seq<char>, PatKind, Seq<char>, Seq<char>)>,
    k: int,
) -> Seq<Seq<char>>
    decreases k,
{
    if k <= 0 {
        Seq::empty()
    } else {
        let pre = matched_prefix(s, rows, k - 1);
        if 0 <= k - 1 < rows.len() && row_hit(s, rows[k - 1]) && !pre.contains(rows[k - 1].0) {
            pre.push(rows[k - 1].0)
        } else {
            pre
        }
    }
}

/// The deduplicated tag list of a whole table, in table order.
pub open spec fn matched_list(
    s: Seq<char>,
    rows: Seq<(Seq<char>, PatKind, Seq<char>, Seq<char>)>,
) -> Seq<Seq<char>> {
    matched_prefix(s, rows, rows.len() as int)
}

/// The extracted tag list holds exactly the matched tags of the
/// table, without duplicates.
pub open spec fn tags_result_ok(
    s: Seq<char>,
    r: Seq<String>,
    rows: Seq<(Seq<char>, PatKind, Seq<char>, Seq<char>)>,
) -> bool {
    &&& forall|m: int| 0 <= m < r.len() ==> matched_tags(s, rows).contains(#[trigger] r[m]@)
    &&& forall|k: int|
        0 <= k < rows.len() && row_hit(s, #[trigger] rows[k]) ==> exists|m: int|
            0 <= m < r.len() && r[m]@ == rows[k].0
    &&& forall|p: int, q: int| 0 <= p < q < r.len() ==> r[p]@ != r[q]@
}

/// Is `text[p]` a word character?
fn word_at_exec(text: &Vec<char>, p: usize) -> (r: bool)
    ensures
        r == word_at(text@, p as int),
{
    if p < text.len() {
        let c = text[p];
        ('a' <= c && c <= 'z') || ('A' <= c && c <= 'Z') || ('0' <= c && c <= '9') || c == '_'
            || (c as u32 > 127)
    } else {
        false
    }
}

/// Word boundary test at `p` (`p <= text.len()` expected, but total).
fn boundary_exec(text: &Vec<char>, p: usize) -> (r: bool)
    ensures
        r == boundary(text@, p as int),
{
    let before = if p >= 1 {
        word_at_exec(text, p - 1)
    } else {
        false
    };
    let here = word_at_exec(text, p);
    before != here
}

/// Case-insensitive occurrence of `w` at `i`.
fn ci_lit_at_exec(text: &Vec<char>, i: usize, w: &Vec<char>) -> (r: bool)
    ensures
        r == ci_lit_at(text@, i as int, w@),
{
    let m = w.len();
    let n = text.len();
    if i > n || m > n - i {
        return false;
    }
    let mut k: usize = 0;
    while k < m
        invariant
            i + m <= n,
            n == text@.len(),
            m == w@.len(),
            k <= m,
            forall|t: int| 0 <= t < k ==> lower_char(text@[i + t]) == w@[t],
        decreases m - k,
    {
        if lower_char_exec(text[i + k]) != w[k] {
            return false;
        }
        k = k + 1;
    }
    true
}

/// Verbatim occurrence of `w` at `i`.
fn exact_lit_at_exec(text: &Vec<char>, i: usize, w: &Vec<char>) -> (r: bool)
    ensures
        r == exact_lit_at(text@, i as int, w@),
{
    let m = w.len();
    let n = text.len();
    if i > n || m > n - i {
        return false;
    }
    let mut k: usize = 0;
    while k < m
        invariant
            i + m <= n,
            n == text@.len(),
            m == w@.len(),
            k <= m,
            forall|t: int| 0 <= t < k ==> text@[i + t] == w@[t],
        decreases m - k,
    {
        if text[i + k] != w[k] {
            return false;
        }
        k = k + 1;
    }
    true
}

/// Search for a case-insensitive word-boundary occurrence of `w`.
fn word_hit_exec(text: &Vec<char>, w: &Vec<char>) -> (r: bool)
    ensures
        r == word_hit(text@, w@),
{
    let n = text.len();
    let mut i: usize = 0;
    loop
        invariant
            n == text@.len(),
            i <= n,
            forall|ii: int| 0 <= ii < i ==> !word_hit_at(text@, ii, w@),
        decreases n - i,
    {
        if ci_lit_at_exec(text, i, w) && boundary_exec(text, i) && boundary_exec(text, i + w.len())
        {
            proof {
                assert(word_hit_at(text@, i as int, w@));
            }
            return true;
        }
        if i >= n {
            proof {
                assert forall|ii: int| !word_hit_at(text@, ii, w@) by {
                    if 0 <= ii <= n {
                        assert(!word_hit_at(text@, ii, w@));
                    }
                }
            }
            return false;
        }
        i = i + 1;
    }
}

/// Search for a verbatim occurrence of `w`.
fn exact_hit_exec(text: &Vec<char>, w: &Vec<char>) -> (r: bool)
    ensures
        r == exact_hit(text@, w@),
{
    let n = text.len();
    let mut i: usize = 0;
    loop
        invariant
            n == text@.len(),
            i <= n,
            forall|ii: int| 0 <= ii < i ==> !exact_lit_at(text@, ii, w@),
        decreases n - i,
    {
        if exact_lit_at_exec(text, i, w) {
            return true;
        }
        if i >= n {
            proof {
                assert forall|ii: int| !exact_lit_at(text@, ii, w@) by {
                    if 0 <= ii <= n {
                        assert(!exact_lit_at(text@, ii, w@));
                    }
                }
            }
            return false;
        }
        i = i + 1;
    }
}

/// All follower positions `j` reachable from the end of `a` at `i`
/// have been rejected for the gap pattern.
fn gap_from(text: &Vec<char>, i: usize, la: usize, b: &Vec<char>) -> (r: bool)
    requires
        i + la <= text@.len(),
    ensures
        r == exists|j: int|
            #![trigger ci_lit_at(text@, j, b@)]
            i + la <= j && ci_lit_at(text@, j, b@) && boundary(text@, j + b@.len()) && (forall|
                k: int,
            |
                i + la <= k < j ==> text@[k] != '\n'),
{
    let n = text.len();
    let mut j: usize = i + la;
    loop
        invariant
            n == text@.len(),
            i + la <= j <= n,
            forall|k: int| i + la <= k < j ==> text@[k] != '\n',
            forall|jj: int|
                i + la <= jj < j ==> !(ci_lit_at(text@, jj, b@) && boundary(text@, jj + b@.len())),
        decreases n - j,
    {
        if ci_lit_at_exec(text, j, b) && boundary_exec(text, j + b.len()) {
            proof {
                assert(i + la <= j as int && ci_lit_at(text@, j as int, b@) && boundary(
                    text@,
                    j + b@.len(),
                ) && (forall|k: int| i + la <= k < j ==> text@[k] != '\n'));
            }
            return true;
        }
        if j >= n || text[j] == '\n' {
            proof {
                assert forall|jj: int|
                    !(i + la <= jj && ci_lit_at(text@, jj, b@) && boundary(text@, jj + b@.len())
                        && (forall|k: int| i + la <= k < jj ==> text@[k] != '\n')) by {
                    if i + la <= jj {
                        if jj <= j {
                            assert(jj == j || !(ci_lit_at(text@, jj, b@) && boundary(
                                text@,
                                jj + b@.len(),
                            )));
                        } else {
                            if (j as int) < n {
                                assert(i + la <= j < jj && text@[j as int] == '\n');
                            } else {
                                assert(jj + b@.len() > n);
                            }
                        }
                    }
                }
            }
            return false;
        }
        j = j + 1;
    }
}

/// Search for `a`, a non-newline gap, then `b`.
fn gap_hit_exec(text: &Vec<char>, a: &Vec<char>, b: &Vec<char>) -> (r: bool)
    ensures
        r == gap_hit(text@, a@, b@),
{
    let n = text.len();
    let mut i: usize = 0;
    loop
        invariant
            n == text@.len(),
            i <= n,
            forall|ii: int, j: int| 0 <= ii < i ==> !gap_hit_at(text@, ii, j, a@, b@),
        decreases n - i,
    {
        if ci_lit_at_exec(text, i, a) && boundary_exec(text, i) {
            if gap_from(text, i, a.len(), b) {
                proof {
                    let j = choose|j: int|
                        #![trigger ci_lit_at(text@, j, b@)]
                        i + a@.len() <= j && ci_lit_at(text@, j, b@) && boundary(
                            text@,
                            j + b@.len(),
                        ) && (forall|k: int| i + a@.len() <= k < j ==> text@[k] != '\n');
                    assert(gap_hit_at(text@, i as int, j, a@, b@));
                }
                return true;
            }
        }
        if i >= n {
            proof {
                assert forall|ii: int, j: int| !gap_hit_at(text@, ii, j, a@, b@) by {
                    if 0 <= ii <= n {
                        assert(!gap_hit_at(text@, ii, j, a@, b@));
                    }
                }
            }
            return false;
        }
        i = i + 1;
    }
}

/// All follower positions after at least one whitespace character
/// from the end of `a` at `i`, tested for `b` (or, with `trail`,
/// for a bare boundary).
fn ws_run_from(text: &Vec<char>, i: usize, la: usize, b: &Vec<char>, trail: bool) -> (r: bool)
    requires
        i + la <= text@.len(),
    ensures
        !trail ==> r == exists|j: int|
            #![trigger ci_lit_at(text@, j, b@)]
            i + la < j && ci_lit_at(text@, j, b@) && boundary(text@, j + b@.len()) && (forall|
                k: int,
            |
                i + la <= k < j ==> is_ws(text@[k])),
        trail ==> r == exists|j: int|
            #![trigger boundary(text@, j)]
            i + la < j <= text@.len() && boundary(text@, j) && (forall|k: int|
                i + la <= k < j ==> is_ws(text@[k])),
{
    let n = text.len();
    let mut j: usize = i + la;
    loop
        invariant
            n == text@.len(),
            i + la <= j <= n,
            forall|k: int| i + la <= k < j ==> is_ws(text@[k]),
            !trail ==> forall|jj: int|
                i + la < jj <= j ==> !(ci_lit_at(text@, jj, b@) && boundary(text@, jj + b@.len())),
            trail ==> forall|jj: int| i + la < jj <= j ==> !boundary(text@, jj),
        decreases n - j,
    {
        if j >= n || !ws_char(text[j]) {
            proof {
                if !trail {
                    assert forall|jj: int|
                        !(i + la < jj && ci_lit_at(text@, jj, b@) && boundary(text@, jj + b@.len())
                            && (forall|k: int| i + la <= k < jj ==> is_ws(text@[k]))) by {
                        if i + la < jj {
                            if jj <= j {
                            } else {
                                if (j as int) < n {
                                    assert(i + la <= j < jj && !is_ws(text@[j as int]));
                                } else {
                                    assert(jj + b@.len() > n);
                                }
                            }
                        }
                    }
                } else {
                    assert forall|jj: int|
                        !(i + la < jj <= text@.len() && boundary(text@, jj) && (forall|k: int|
                            i + la <= k < jj ==> is_ws(text@[k]))) by {
                        if i + la < jj <= text@.len() {
                            if jj <= j {
                            } else {
                                if (j as int) < n {
                                    assert(i + la <= j < jj && !is_ws(text@[j as int]));
                                }
                            }
                        }
                    }
                }
            }
            return false;
        }
        j = j + 1;
        if trail {
            if boundary_exec(text, j) {
                proof {
                    assert(i + la < j as int <= text@.len() && boundary(text@, j as int) && (
                    forall|k: int| i + la <= k < j ==> is_ws(text@[k])));
                }
                return true;
            }
        } else {
            if ci_lit_at_exec(text, j, b) && boundary_exec(text, j + b.len()) {
                proof {
                    assert(i + la < j as int && ci_lit_at(text@, j as int, b@) && boundary(
                        text@,
                        j + b@.len(),
                    ) && (forall|k: int| i + la <= k < j ==> is_ws(text@[k])));
                }
                return true;
            }
        }
    }
}

/// Search for `a`, whitespace, then `b`.
fn ws_pair_hit_exec(text: &Vec<char>, a: &Vec<char>, b: &Vec<char>) -> (r: bool)
    ensures
        r == ws_pair_hit(text@, a@, b@),
{
    let n = text.len();
    let mut i: usize = 0;
    loop
        invariant
            n == text@.len(),
            i <= n,
            forall|ii: int, j: int| 0 <= ii < i ==> !ws_pair_hit_at(text@, ii, j, a@, b@),
        decreases n - i,
    {
        if ci_lit_at_exec(text, i, a) && boundary_exec(text, i) {
            if ws_run_from(text, i, a.len(), b, false) {
                proof {
                    let j = choose|j: int|
                        #![trigger ci_lit_at(text@, j, b@)]
                        i + a@.len() < j && ci_lit_at(text@, j, b@) && boundary(
                            text@,
                            j + b@.len(),
                        ) && (forall|k: int| i + a@.len() <= k < j ==> is_ws(text@[k]));
                    assert(ws_pair_hit_at(text@, i as int, j, a@, b@));
                }
                return true;
            }
        }
        if i >= n {
            proof {
                assert forall|ii: int, j: int| !ws_pair_hit_at(text@, ii, j, a@, b@) by {
                    if 0 <= ii <= n {
                        assert(!ws_pair_hit_at(text@, ii, j, a@, b@));
                    }
                }
            }
            return false;
        }
        i = i + 1;
    }
}

/// Search for `a`, whitespace, then a word boundary.
fn trail_hit_exec(text: &Vec<char>, a: &Vec<char>) -> (r: bool)
    ensures
        r == trail_hit(text@, a@),
{
    let n = text.len();
    let empty: Vec<char> = Vec::new();
    let mut i: usize = 0;
    loop
        invariant
            n == text@.len(),
            i <= n,
            forall|ii: int, j: int| 0 <= ii < i ==> !trail_hit_at(text@, ii, j, a@),
        decreases n - i,
    {
        if ci_lit_at_exec(text, i, a) && boundary_exec(text, i) {
            if ws_run_from(text, i, a.len(), &empty, true) {
                proof {
                    let j = choose|j: int|
                        #![trigger boundary(text@, j)]
                        i + a@.len() < j <= text@.len() && boundary(text@, j) && (forall|k: int|
                            i + a@.len() <= k < j ==> is_ws(text@[k]));
                    assert(trail_hit_at(text@, i as int, j, a@));
                }
                return true;
            }
        }
        if i >= n {
            proof {
                assert forall|ii: int, j: int| !trail_hit_at(text@, ii, j, a@) by {
                    if 0 <= ii <= n {
                        assert(!trail_hit_at(text@, ii, j, a@));
                    }
                }
            }
            return false;
        }
        i = i + 1;
    }
}

/// Test one table row against the text.
fn row_hit_exec(text: &Vec<char>, row: &PatRow) -> (r: bool)
    ensures
        r == row_hit(text@, row_view(*row)),
{
    let a = chars_of(row.a.as_str());
    match row.kind {
        PatKind::Word => word_hit_exec(text, &a),
        PatKind::Gap => {
            let b = chars_of(row.b.as_str());
            gap_hit_exec(text, &a, &b)
        },
        PatKind::WsPair => {
            let b = chars_of(row.b.as_str());
            ws_pair_hit_exec(text, &a, &b)
        },
        PatKind::Trail => trail_hit_exec(text, &a),
        PatKind::Exact => exact_hit_exec(text, &a),
    }
}

/// Is some view-equal string already in the list?
fn contains_tag(v: &Vec<String>, tag: &String) -> (r: bool)
    ensures
        r == exists|m: int| 0 <= m < v@.len() && v@[m]@ == tag@,
{
    let n = v.len();
    let mut m: usize = 0;
    while m < n
        invariant
            n == v@.len(),
            m <= n,
            forall|t: int| 0 <= t < m ==> v@[t]@ != tag@,
        decreases n - m,
    {
        if crate::strings::str_eq(v[m].as_str(), tag.as_str()) {
            return true;
        }
        m = m + 1;
    }
    false
}

/// Tags of the table whose alternatives occur in the content, in
/// table order, deduplicated.
pub fn extract_matching(content: &str, rows: &Vec<PatRow>) -> (r: Vec<String>)
    ensures
        crate::strings::views_of(r@) == matched_list(
            content@,
            rows@.map_values(|x: PatRow| row_view(x)),
        ),
        tags_result_ok(content@, r@, rows@.map_values(|x: PatRow| row_view(x))),
{
    let ghost rv = rows@.map_values(|x: PatRow| row_view(x));
    let text = chars_of(content);
    let mut r: Vec<String> = Vec::new();
    let n = rows.len();
    let mut k: usize = 0;
    while k < n
        invariant
            rv == rows@.map_values(|x: PatRow| row_view(x)),
            text@ == content@,
            n == rows@.len(),
            k <= n,
            forall|m: int| 0 <= m < r@.len() ==> matched_tags(content@, rv).contains(
                #[trigger] r@[m]@,
            ),
            forall|kk: int|
                0 <= kk < k && row_hit(content@, #[trigger] rv[kk]) ==> exists|m: int|
                    0 <= m < r@.len() && r@[m]@ == rv[kk].0,
            forall|p: int, q: int| 0 <= p < q < r@.len() ==> r@[p]@ != r@[q]@,
            crate::strings::views_of(r@) == matched_prefix(content@, rv, k as int),
        decreases n - k,
    {
        let row = &rows[k];
        let hit = row_hit_exec(&text, row);
        proof {
            assert(rv[k as int] == row_view(rows@[k as int]));
        }
        if hit {
            let dup = contains_tag(&r, &row.tag);
            proof {
                let vs = crate::strings::views_of(r@);
                assert(dup == vs.contains(row.tag@)) by {
                    if dup {
                        let m = choose|m: int| 0 <= m < r@.len() && r@[m]@ == row.tag@;
                        assert(vs[m] == row.tag@);
                    } else if vs.contains(row.tag@) {
                        let m = choose|m: int| 0 <= m < vs.len() && vs[m] == row.tag@;
                        assert(r@[m]@ == row.tag@);
                    }
                }
            }
            if !dup {
                let ghost oldr = r@;
                r.push(row.tag.clone());
                proof {
                    assert(matched_tags(content@, rv).contains(r@[r@.len() - 1]@));
                    assert(forall|m: int|
                        0 <= m < oldr.len() ==> r@[m]@ == #[trigger] oldr[m]@);
                    assert(crate::strings::views_of(r@) =~= crate::strings::views_of(
                        oldr,
                    ).push(row.tag@));
                }
            }
        }
        k = k + 1;
    }
    r
}

/// Some row of the table matches `s`.
pub open spec fn any_hit(s: Seq<char>, rows: Seq<(Seq<char>, PatKind, Seq<char>, Seq<char>)>) -> bool {
    exists|k: int| 0 <= k < rows.len() && row_hit(s, #[trigger] rows[k])
}

/// Does any row of the table match the content?
pub fn any_row_hit(content: &str, rows: &Vec<PatRow>) -> (r: bool)
    ensures
        r == any_hit(content@, rows@.map_values(|x: PatRow| row_view(x))),
{
    let ghost rv = rows@.map_values(|x: PatRow| row_view(x));
    let text = chars_of(content);
    let n = rows.len();
    let mut k: usize = 0;
    while k < n
        invariant
            rv == rows@.map_values(|x: PatRow| row_view(x)),
            text@ == content@,
            n == rows@.len(),
            k <= n,
            forall|kk: int| 0 <= kk < k ==> !row_hit(content@, #[trigger] rv[kk]),
        decreases n - k,
    {
        if row_hit_exec(&text, &rows[k]) {
            proof {
                assert(rv[k as int] == row_view(rows@[k as int]));
            }
            return true;
        }
        proof {
            assert(rv[k as int] == row_view(rows@[k as int]));
        }
        k = k + 1;
    }
    false
}

/// A fenced code block opener: three backticks, an optional run of
/// word characters, then a newline.
pub open spec fn code_block_at(s: Seq<char>, i: int, j: int) -> bool {
    &&& 0 <= i
    &&& i + 3 <= j < s.len()
    &&& s[i] == '`' && s[i + 1] == '`' && s[i + 2] == '`'
    &&& forall|k: int| i + 3 <= k < j ==> is_word_char(s[k])
    &&& s[j] == '\n'
}

pub open spec fn has_code_block(s: Seq<char>) -> bool {
    exists|i: int, j: int| code_block_at(s, i, j)
}

/// Search for a fenced code block opener.
fn code_block_exec(text: &Vec<char>) -> (r: bool)
    ensures
        r == has_code_block(text@),
{
    let n = text.len();
    let mut i: usize = 0;
    loop
        invariant
            n == text@.len(),
            i <= n,
            forall|ii: int, j: int| 0 <= ii < i ==> !code_block_at(text@, ii, j),
        decreases n - i,
    {
        if i >= n {
            proof {
                assert forall|ii: int, j: int| !code_block_at(text@, ii, j) by {
                    if 0 <= ii < n {
                        assert(!code_block_at(text@, ii, j));
                    }
                }
            }
            return false;
        }
        if n - i >= 3 && text[i] == '`' && text[i + 1] == '`' && text[i + 2] == '`' {
            let mut j: usize = i + 3;
            while j < n && word_at_exec(text, j)
                invariant
                    n == text@.len(),
                    i + 3 <= j <= n,
                    forall|k: int| i + 3 <= k < j ==> is_word_char(text@[k]),
                decreases n - j,
            {
                j = j + 1;
            }
            if j < n && text[j] == '\n' {
                proof {
                    assert(code_block_at(text@, i as int, j as int));
                }
                return true;
            }
            proof {
                assert forall|jj: int| !code_block_at(text@, i as int, jj) by {
                    if i + 3 <= jj < n {
                        if jj < j {
                            assert(is_word_char(text@[jj]));
                            assert(text@[jj] != '\n');
                        } else if jj == j {
                        } else {
                            if (j as int) < n {
                                assert(!is_word_char(text@[j as int]) && text@[j as int] != '\n');
                            }
                        }
                    }
                }
            }
        }
        i = i + 1;
    }
}

/// Append one table row.
fn push_row(r: &mut Vec<PatRow>, tag: &str, kind: PatKind, a: &str, b: &str)
    ensures
        final(r)@.len() == old(r)@.len() + 1,
        final(r)@.map_values(|x: PatRow| row_view(x)) == old(r)@.map_values(
            |x: PatRow| row_view(x),
        ).push((tag@, kind, a@, b@)),
{
    let row = PatRow { tag: tag.to_owned(), kind, a: a.to_owned(), b: b.to_owned() };
    r.push(row);
    proof {
        assert(r@.map_values(|x: PatRow| row_view(x)) =~= old(r)@.map_values(
            |x: PatRow| row_view(x),
        ).push((tag@, kind, a@, b@)));
    }
}

pub open spec fn technology_rows_a() -> Seq<(Seq<char>, PatKind, Seq<char>, Seq<char>)> {
    seq![
        ("rust"@, PatKind::Word, "rust"@, ""@),
        ("rust"@, PatKind::Word, "cargo"@, ""@),
        ("rust"@, PatKind::Word, "rustc"@, ""@),
        ("rust"@, PatKind::Word, "rustup"@, ""@),
        ("python"@, PatKind::Word, "python"@, ""@),
        ("python"@, PatKind::Word, "pip"@, ""@),
        ("python"@, PatKind::Word, "conda"@, ""@),
        ("python"@, PatKind::Word, "virtualenv"@, ""@),
        ("python"@, PatKind::Word, "pytest"@, ""@),
        ("javascript"@, PatKind::Word, "javascript"@, ""@),
        ("javascript"@, PatKind::Word, "js"@, ""@),
        ("javascript"@, PatKind::Word, "node.js"@, ""@),
        ("javascript"@, PatKind::Word, "npm"@, ""@),
        ("javascript"@, PatKind::Word, "yarn"@, ""@),
        ("javascript"@, PatKind::Word, "react"@, ""@),
        ("javascript"@, PatKind::Word, "vue"@, ""@),
        ("typescript"@, PatKind::Word, "typescript"@, ""@),
        ("typescript"@, PatKind::Word, "ts"@, ""@),
        ("typescript"@, PatKind::Word, "tsc"@, ""@),
        ("go"@, PatKind::Word, "golang"@, ""@),
        ("go"@, PatKind::WsPair, "go"@, "run"@),
        ("go"@, PatKind::WsPair, "go"@, "build"@),
        ("go"@, PatKind::WsPair, "go"@, "mod"@),
        ("java"@, PatKind::Word, "java"@, ""@),
        ("java"@, PatKind::Word, "gradle"@, ""@),
        ("java"@, PatKind::Word, "maven"@, ""@),
        ("java"@, PatKind::Word, "spring"@, ""@),
        ("csharp"@, PatKind::Word, "c#"@, ""@),
        ("csharp"@, PatKind::Word, "csharp"@, ""@),
        ("csharp"@, PatKind::Word, "dotnet"@, ""@),
        ("csharp"@, PatKind::Word, "nuget"@, ""@),
        ("cpp"@, PatKind::Word, "c++"@, ""@),
        ("cpp"@, PatKind::Word, "cpp"@, ""@),
        ("cpp"@, PatKind::Word, "cmake"@, ""@),
        ("cpp"@, PatKind::Word, "clang++"@, ""@),
        ("cpp"@, PatKind::Word, "g++"@, ""@),
    ]
}

#[verifier::rlimit(60)]
fn technology_rows_part_a() -> (r: Vec<PatRow>)
    ensures
        r@.map_values(|x: PatRow| row_view(x)) == technology_rows_a(),
{
    let mut r: Vec<PatRow> = Vec::new();
    push_row(&mut r, "rust", PatKind::Word, "rust", "");
    push_row(&mut r, "rust", PatKind::Word, "cargo", "");
    push_row(&mut r, "rust", PatKind::Word, "rustc", "");
    push_row(&mut r, "rust", PatKind::Word, "rustup", "");
    push_row(&mut r, "python", PatKind::Word, "python", "");
    push_row(&mut r, "python", PatKind::Word, "pip", "");
    push_row(&mut r, "python", PatKind::Word, "conda", "");
    push_row(&mut r, "python", PatKind::Word, "virtualenv", "");
    push_row(&mut r, "python", PatKind::Word, "pytest", "");
    push_row(&mut r, "javascript", PatKind::Word, "javascript", "");
    push_row(&mut r, "javascript", PatKind::Word, "js", "");
    push_row(&mut r, "javascript", PatKind::Word, "node.js", "");
    push_row(&mut r, "javascript", PatKind::Word, "npm", "");
    push_row(&mut r, "javascript", PatKind::Word, "yarn", "");
    push_row(&mut r, "javascript", PatKind::Word, "react", "");
    push_row(&mut r, "javascript", PatKind::Word, "vue", "");
    push_row(&mut r, "typescript", PatKind::Word, "typescript", "");
    push_row(&mut r, "typescript", PatKind::Word, "ts", "");
    push_row(&mut r, "typescript", PatKind::Word, "tsc", "");
    push_row(&mut r, "go", PatKind::Word, "golang", "");
    push_row(&mut r, "go", PatKind::WsPair, "go", "run");
    push_row(&mut r, "go", PatKind::WsPair, "go", "build");
    push_row(&mut r, "go", PatKind::WsPair, "go", "mod");
    push_row(&mut r, "java", PatKind::Word, "java", "");
    push_row(&mut r, "java", PatKind::Word, "gradle", "");
    push_row(&mut r, "java", PatKind::Word, "maven", "");
    push_row(&mut r, "java", PatKind::Word, "spring", "");
    push_row(&mut r, "csharp", PatKind::Word, "c#", "");
    push_row(&mut r, "csharp", PatKind::Word, "csharp", "");
    push_row(&mut r, "csharp", PatKind::Word, "dotnet", "");
    push_row(&mut r, "csharp", PatKind::Word, "nuget", "");
    push_row(&mut r, "cpp", PatKind::Word, "c++", "");
    push_row(&mut r, "cpp", PatKind::Word, "cpp", "");
    push_row(&mut r, "cpp", PatKind::Word, "cmake", "");
    push_row(&mut r, "cpp", PatKind::Word, "clang++", "");
    push_row(&mut r, "cpp", PatKind::Word, "g++", "");
    proof {
        assert(r@.map_values(|x: PatRow| row_view(x)) =~~= technology_rows_a());
    }
    r
}

pub open spec fn technology_rows_b() -> Seq<(Seq<char>, PatKind, Seq<char>, Seq<char>)> {
    seq![
        ("c"@, PatKind::Word, "gcc"@, ""@),
        ("c"@, PatKind::Word, "clang"@, ""@),
        ("c"@, PatKind::Word, "make"@, ""@),
        ("react"@, PatKind::Word, "react"@, ""@),
        ("react"@, PatKind::Word, "jsx"@, ""@),
        ("react"@, PatKind::Word, "usestate"@, ""@),
        ("react"@, PatKind::Word, "useeffect"@, ""@),
        ("vue"@, PatKind::Word, "vue.js"@, ""@),
        ("vue"@, PatKind::Word, "vuex"@, ""@),
        ("vue"@, PatKind::Word, "nuxt"@, ""@),
        ("angular"@, PatKind::Word, "angular"@, ""@),
        ("angular"@, PatKind::Trail, "ng"@, ""@),
        ("angular"@, PatKind::Word, "@angular"@, ""@),
        ("django"@, PatKind::Word, "django"@, ""@),
        ("django"@, PatKind::Gap, "python"@, "web"@),
        ("flask"@, PatKind::Word, "flask"@, ""@),
        ("express"@, PatKind::Word, "express.js"@, ""@),
        ("express"@, PatKind::Word, "express"@, ""@),
        ("postgresql"@, PatKind::Word, "postgres"@, ""@),
        ("postgresql"@, PatKind::Word, "postgresql"@, ""@),
        ("postgresql"@, PatKind::Word, "psql"@, ""@),
        ("mysql"@, PatKind::Word, "mysql"@, ""@),
        ("mysql"@, PatKind::Word, "mariadb"@, ""@),
        ("sqlite"@, PatKind::Word, "sqlite"@, ""@),
        ("mongodb"@, PatKind::Word, "mongodb"@, ""@),
        ("mongodb"@, PatKind::Word, "mongo"@, ""@),
        ("mongodb"@, PatKind::Word, "mongoose"@, ""@),
        ("redis"@, PatKind::Word, "redis"@, ""@),
        ("docker"@, PatKind::Word, "docker"@, ""@),
        ("docker"@, PatKind::Word, "dockerfile"@, ""@),
        ("docker"@, PatKind::Word, "container"@, ""@),
        ("kubernetes"@, PatKind::Word, "kubernetes"@, ""@),
        ("kubernetes"@, PatKind::Word, "k8s"@, ""@),
        ("kubernetes"@, PatKind::Word, "kubectl"@, ""@),
        ("kubernetes"@, PatKind::Word, "helm"@, ""@),
        ("aws"@, PatKind::Word, "aws"@, ""@),
    ]
}

#[verifier::rlimit(60)]
fn technology_rows_part_b() -> (r: Vec<PatRow>)
    ensures
        r@.map_values(|x: PatRow| row_view(x)) == technology_rows_b(),
{
    let mut r: Vec<PatRow> = Vec::new();
    push_row(&mut r, "c", PatKind::Word, "gcc", "");
    push_row(&mut r, "c", PatKind::Word, "clang", "");
    push_row(&mut r, "c", PatKind::Word, "make", "");
    push_row(&mut r, "react", PatKind::Word, "react", "");
    push_row(&mut r, "react", PatKind::Word, "jsx", "");
    push_row(&mut r, "react", PatKind::Word, "usestate", "");
    push_row(&mut r, "react", PatKind::Word, "useeffect", "");
    push_row(&mut r, "vue", PatKind::Word, "vue.js", "");
    push_row(&mut r, "vue", PatKind::Word, "vuex", "");
    push_row(&mut r, "vue", PatKind::Word, "nuxt", "");
    push_row(&mut r, "angular", PatKind::Word, "angular", "");
    push_row(&mut r, "angular", PatKind::Trail, "ng", "");
    push_row(&mut r, "angular", PatKind::Word, "@angular", "");
    push_row(&mut r, "django", PatKind::Word, "django", "");
    push_row(&mut r, "django", PatKind::Gap, "python", "web");
    push_row(&mut r, "flask", PatKind::Word, "flask", "");
    push_row(&mut r, "express", PatKind::Word, "express.js", "");
    push_row(&mut r, "express", PatKind::Word, "express", "");
    push_row(&mut r, "postgresql", PatKind::Word, "postgres", "");
    push_row(&mut r, "postgresql", PatKind::Word, "postgresql", "");
    push_row(&mut r, "postgresql", PatKind::Word, "psql", "");
    push_row(&mut r, "mysql", PatKind::Word, "mysql", "");
    push_row(&mut r, "mysql", PatKind::Word, "mariadb", "");
    push_row(&mut r, "sqlite", PatKind::Word, "sqlite", "");
    push_row(&mut r, "mongodb", PatKind::Word, "mongodb", "");
    push_row(&mut r, "mongodb", PatKind::Word, "mongo", "");
    push_row(&mut r, "mongodb", PatKind::Word, "mongoose", "");
    push_row(&mut r, "redis", PatKind::Word, "redis", "");
    push_row(&mut r, "docker", PatKind::Word, "docker", "");
    push_row(&mut r, "docker", PatKind::Word, "dockerfile", "");
    push_row(&mut r, "docker", PatKind::Word, "container", "");
    push_row(&mut r, "kubernetes", PatKind::Word, "kubernetes", "");
    push_row(&mut r, "kubernetes", PatKind::Word, "k8s", "");
    push_row(&mut r, "kubernetes", PatKind::Word, "kubectl", "");
    push_row(&mut r, "kubernetes", PatKind::Word, "helm", "");
    push_row(&mut r, "aws", PatKind::Word, "aws", "");
    proof {
        assert(r@.map_values(|x: PatRow| row_view(x)) =~~= technology_rows_b());
    }
    r
}

pub open spec fn technology_rows_c() -> Seq<(Seq<char>, PatKind, Seq<char>, Seq<char>)> {
    seq![
        ("aws"@, PatKind::Gap, "amazon"@, "web"@),
        ("aws"@, PatKind::Word, "ec2"@, ""@),
        ("aws"@, PatKind::Word, "s3"@, ""@),
        ("aws"@, PatKind::Word, "lambda"@, ""@),
        ("gcp"@, PatKind::Word, "gcp"@, ""@),
        ("gcp"@, PatKind::Gap, "google"@, "cloud"@),
        ("gcp"@, PatKind::Word, "gke"@, ""@),
        ("azure"@, PatKind::Word, "azure"@, ""@),
        ("azure"@, PatKind::Gap, "microsoft"@, "cloud"@),
        ("terraform"@, PatKind::Word, "terraform"@, ""@),
        ("ansible"@, PatKind::Word, "ansible"@, ""@),
        ("git"@, PatKind::Word, "git"@, ""@),
        ("git"@, PatKind::Word, "github"@, ""@),
        ("git"@, PatKind::Word, "gitlab"@, ""@),
        ("git"@, PatKind::Word, "bitbucket"@, ""@),
        ("cicd"@, PatKind::Word, "jenkins"@, ""@),
        ("cicd"@, PatKind::Gap, "github"@, "actions"@),
        ("cicd"@, PatKind::Gap, "gitlab"@, "ci"@),
        ("cicd"@, PatKind::Word, "circleci"@, ""@),
        ("cicd"@, PatKind::Word, "travis"@, ""@),
        ("html"@, PatKind::Word, "html"@, ""@),
        ("html"@, PatKind::Word, "html5"@, ""@),
        ("css"@, PatKind::Word, "css"@, ""@),
        ("css"@, PatKind::Word, "css3"@, ""@),
        ("css"@, PatKind::Word, "sass"@, ""@),
        ("css"@, PatKind::Word, "scss"@, ""@),
        ("css"@, PatKind::Word, "less"@, ""@),
        ("api"@, PatKind::Word, "api"@, ""@),
        ("api"@, PatKind::Word, "rest"@, ""@),
        ("api"@, PatKind::Word, "graphql"@, ""@),
        ("api"@, PatKind::Word, "endpoint"@, ""@),
        ("elasticsearch"@, PatKind::Word, "elasticsearch"@, ""@),
        ("elasticsearch"@, PatKind::Word, "elastic"@, ""@),
        ("elasticsearch"@, PatKind::Word, "kibana"@, ""@),
        ("tantivy"@, PatKind::Word, "tantivy"@, ""@),
        ("lucene"@, PatKind::Word, "lucene"@, ""@),
    ]
}

#[verifier::rlimit(60)]
fn technology_rows_part_c() -> (r: Vec<PatRow>)
    ensures
        r@.map_values(|x: PatRow| row_view(x)) == technology_rows_c(),
{
    let mut r: Vec<PatRow> = Vec::new();
    push_row(&mut r, "aws", PatKind::Gap, "amazon", "web");
    push_row(&mut r, "aws", PatKind::Word, "ec2", "");
    push_row(&mut r, "aws", PatKind::Word, "s3", "");
    push_row(&mut r, "aws", PatKind::Word, "lambda", "");
    push_row(&mut r, "gcp", PatKind::Word, "gcp", "");
    push_row(&mut r, "gcp", PatKind::Gap, "google", "cloud");
    push_row(&mut r, "gcp", PatKind::Word, "gke", "");
    push_row(&mut r, "azure", PatKind::Word, "azure", "");
    push_row(&mut r, "azure", PatKind::Gap, "microsoft", "cloud");
    push_row(&mut r, "terraform", PatKind::Word, "terraform", "");
    push_row(&mut r, "ansible", PatKind::Word, "ansible", "");
    push_row(&mut r, "git", PatKind::Word, "git", "");
    push_row(&mut r, "git", PatKind::Word, "github", "");
    push_row(&mut r, "git", PatKind::Word, "gitlab", "");
    push_row(&mut r, "git", PatKind::Word, "bitbucket", "");
    push_row(&mut r, "cicd", PatKind::Word, "jenkins", "");
    push_row(&mut r, "cicd", PatKind::Gap, "github", "actions");
    push_row(&mut r, "cicd", PatKind::Gap, "gitlab", "ci");
    push_row(&mut r, "cicd", PatKind::Word, "circleci", "");
    push_row(&mut r, "cicd", PatKind::Word, "travis", "");
    push_row(&mut r, "html", PatKind::Word, "html", "");
    push_row(&mut r, "html", PatKind::Word, "html5", "");
    push_row(&mut r, "css", PatKind::Word, "css", "");
    push_row(&mut r, "css", PatKind::Word, "css3", "");
    push_row(&mut r, "css", PatKind::Word, "sass", "");
    push_row(&mut r, "css", PatKind::Word, "scss", "");
    push_row(&mut r, "css", PatKind::Word, "less", "");
    push_row(&mut r, "api", PatKind::Word, "api", "");
    push_row(&mut r, "api", PatKind::Word, "rest", "");
    push_row(&mut r, "api", PatKind::Word, "graphql", "");
    push_row(&mut r, "api", PatKind::Word, "endpoint", "");
    push_row(&mut r, "elasticsearch", PatKind::Word, "elasticsearch", "");
    push_row(&mut r, "elasticsearch", PatKind::Word, "elastic", "");
    push_row(&mut r, "elasticsearch", PatKind::Word, "kibana", "");
    push_row(&mut r, "tantivy", PatKind::Word, "tantivy", "");
    push_row(&mut r, "lucene", PatKind::Word, "lucene", "");
    proof {
        assert(r@.map_values(|x: PatRow| row_view(x)) =~~= technology_rows_c());
    }
    r
}

/// Spec-level technology pattern table: (tag, kind, a, b) rows.
pub open spec fn technology_rows_spec() -> Seq<(Seq<char>, PatKind, Seq<char>, Seq<char>)> {
    technology_rows_a() + technology_rows_b() + technology_rows_c()
}

/// The technology pattern table.
pub fn technology_rows() -> (r: Vec<PatRow>)
    ensures
        r@.map_values(|x: PatRow| row_view(x)) == technology_rows_spec(),
{
    let mut r = technology_rows_part_a();
    let mut b = technology_rows_part_b();
    let mut c = technology_rows_part_c();
    let ghost ra = r@;
    r.append(&mut b);
    let ghost rab = r@;
    r.append(&mut c);
    proof {
        assert(rab.map_values(|x: PatRow| row_view(x)) =~= technology_rows_a()
            + technology_rows_b());
        assert(r@.map_values(|x: PatRow| row_view(x)) =~= technology_rows_spec());
    }
    r
}

/// Spec-level tool pattern table: (tag, kind, a, b) rows.
pub open spec fn tool_rows_spec() -> Seq<(Seq<char>, PatKind, Seq<char>, Seq<char>)> {
    seq![
        ("bash"@, PatKind::Word, "bash"@, ""@),
        ("bash"@, PatKind::Word, "shell"@, ""@),
        ("bash"@, PatKind::Word, "terminal"@, ""@),
        ("bash"@, PatKind::Gap, "command"@, "line"@),
        ("grep"@, PatKind::Word, "grep"@, ""@),
        ("grep"@, PatKind::Word, "rg"@, ""@),
        ("grep"@, PatKind::Word, "ripgrep"@, ""@),
        ("grep"@, PatKind::Word, "search"@, ""@),
        ("find"@, PatKind::Word, "find"@, ""@),
        ("find"@, PatKind::Word, "locate"@, ""@),
        ("find"@, PatKind::Word, "which"@, ""@),
        ("curl"@, PatKind::Word, "curl"@, ""@),
        ("curl"@, PatKind::Word, "wget"@, ""@),
        ("curl"@, PatKind::Gap, "http"@, "request"@),
        ("ssh"@, PatKind::Word, "ssh"@, ""@),
        ("ssh"@, PatKind::Word, "scp"@, ""@),
        ("ssh"@, PatKind::Word, "rsync"@, ""@),
        ("systemctl"@, PatKind::Word, "systemctl"@, ""@),
        ("systemctl"@, PatKind::Word, "systemd"@, ""@),
        ("systemctl"@, PatKind::Word, "service"@, ""@),
        ("vim"@, PatKind::Word, "vim"@, ""@),
        ("vim"@, PatKind::Word, "neovim"@, ""@),
        ("vim"@, PatKind::Word, "nvim"@, ""@),
        ("vim"@, PatKind::Word, "editor"@, ""@),
        ("tmux"@, PatKind::Word, "tmux"@, ""@),
        ("tmux"@, PatKind::Word, "screen"@, ""@),
        ("tmux"@, PatKind::Word, "session"@, ""@),
    ]
}

/// The tool pattern table.
#[verifier::rlimit(60)]
pub fn tool_rows() -> (r: Vec<PatRow>)
    ensures
        r@.map_values(|x: PatRow| row_view(x)) == tool_rows_spec(),
{
    let mut r: Vec<PatRow> = Vec::new();
    push_row(&mut r, "bash", PatKind::Word, "bash", "");
    push_row(&mut r, "bash", PatKind::Word, "shell", "");
    push_row(&mut r, "bash", PatKind::Word, "terminal", "");
    push_row(&mut r, "bash", PatKind::Gap, "command", "line");
    push_row(&mut r, "grep", PatKind::Word, "grep", "");
    push_row(&mut r, "grep", PatKind::Word, "rg", "");
    push_row(&mut r, "grep", PatKind::Word, "ripgrep", "");
    push_row(&mut r, "grep", PatKind::Word, "search", "");
    push_row(&mut r, "find", PatKind::Word, "find", "");
    push_row(&mut r, "find", PatKind::Word, "locate", "");
    push_row(&mut r, "find", PatKind::Word, "which", "");
    push_row(&mut r, "curl", PatKind::Word, "curl", "");
    push_row(&mut r, "curl", PatKind::Word, "wget", "");
    push_row(&mut r, "curl", PatKind::Gap, "http", "request");
    push_row(&mut r, "ssh", PatKind::Word, "ssh", "");
    push_row(&mut r, "ssh", PatKind::Word, "scp", "");
    push_row(&mut r, "ssh", PatKind::Word, "rsync", "");
    push_row(&mut r, "systemctl", PatKind::Word, "systemctl", "");
    push_row(&mut r, "systemctl", PatKind::Word, "systemd", "");
    push_row(&mut r, "systemctl", PatKind::Word, "service", "");
    push_row(&mut r, "vim", PatKind::Word, "vim", "");
    push_row(&mut r, "vim", PatKind::Word, "neovim", "");
    push_row(&mut r, "vim", PatKind::Word, "nvim", "");
    push_row(&mut r, "vim", PatKind::Word, "editor", "");
    push_row(&mut r, "tmux", PatKind::Word, "tmux", "");
    push_row(&mut r, "tmux", PatKind::Word, "screen", "");
    push_row(&mut r, "tmux", PatKind::Word, "session", "");
    proof {
        assert(r@.map_values(|x: PatRow| row_view(x)) =~~= tool_rows_spec());
    }
    r
}
/// Spec-level language pattern table: (tag, kind, a, b) rows.
pub open spec fn language_rows_spec() -> Seq<(Seq<char>, PatKind, Seq<char>, Seq<char>)> {
    seq![
        ("rust"@, PatKind::Exact, "```rust\n"@, ""@),
        ("python"@, PatKind::Exact, "```python\n"@, ""@),
        ("javascript"@, PatKind::Exact, "```javascript\n"@, ""@),
        ("javascript"@, PatKind::Exact, "```js\n"@, ""@),
        ("typescript"@, PatKind::Exact, "```typescript\n"@, ""@),
        ("typescript"@, PatKind::Exact, "```ts\n"@, ""@),
        ("bash"@, PatKind::Exact, "```bash\n"@, ""@),
        ("bash"@, PatKind::Exact, "```sh\n"@, ""@),
        ("bash"@, PatKind::Exact, "```shell\n"@, ""@),
        ("json"@, PatKind::Exact, "```json\n"@, ""@),
        ("yaml"@, PatKind::Exact, "```yaml\n"@, ""@),
        ("yaml"@, PatKind::Exact, "```yml\n"@, ""@),
        ("toml"@, PatKind::Exact, "```toml\n"@, ""@),
        ("sql"@, PatKind::Exact, "```sql\n"@, ""@),
        ("dockerfile"@, PatKind::Exact, "```dockerfile\n"@, ""@),
        ("html"@, PatKind::Exact, "```html\n"@, ""@),
        ("css"@, PatKind::Exact, "```css\n"@, ""@),
        ("xml"@, PatKind::Exact, "```xml\n"@, ""@),
    ]
}

/// The language pattern table.
#[verifier::rlimit(60)]
pub fn language_rows() -> (r: Vec<PatRow>)
    ensures
        r@.map_values(|x: PatRow| row_view(x)) == language_rows_spec(),
{
    let mut r: Vec<PatRow> = Vec::new();
    push_row(&mut r, "rust", PatKind::Exact, "```rust\n", "");
    push_row(&mut r, "python", PatKind::Exact, "```python\n", "");
    push_row(&mut r, "javascript", PatKind::Exact, "```javascript\n", "");
    push_row(&mut r, "javascript", PatKind::Exact, "```js\n", "");
    push_row(&mut r, "typescript", PatKind::Exact, "```typescript\n", "");
    push_row(&mut r, "typescript", PatKind::Exact, "```ts\n", "");
    push_row(&mut r, "bash", PatKind::Exact, "```bash\n", "");
    push_row(&mut r, "bash", PatKind::Exact, "```sh\n", "");
    push_row(&mut r, "bash", PatKind::Exact, "```shell\n", "");
    push_row(&mut r, "json", PatKind::Exact, "```json\n", "");
    push_row(&mut r, "yaml", PatKind::Exact, "```yaml\n", "");
    push_row(&mut r, "yaml", PatKind::Exact, "```yml\n", "");
    push_row(&mut r, "toml", PatKind::Exact, "```toml\n", "");
    push_row(&mut r, "sql", PatKind::Exact, "```sql\n", "");
    push_row(&mut r, "dockerfile", PatKind::Exact, "```dockerfile\n", "");
    push_row(&mut r, "html", PatKind::Exact, "```html\n", "");
    push_row(&mut r, "css", PatKind::Exact, "```css\n", "");
    push_row(&mut r, "xml", PatKind::Exact, "```xml\n", "");
    proof {
        assert(r@.map_values(|x: PatRow| row_view(x)) =~~= language_rows_spec());
    }
    r
}
/// Spec-level error pattern table: (tag, kind, a, b) rows.
pub open spec fn error_rows_spec() -> Seq<(Seq<char>, PatKind, Seq<char>, Seq<char>)> {
    seq![
        ("error"@, PatKind::Word, "error"@, ""@),
        ("error"@, PatKind::Word, "exception"@, ""@),
        ("error"@, PatKind::Word, "failed"@, ""@),
        ("error"@, PatKind::Word, "failure"@, ""@),
        ("error"@, PatKind::Word, "panic"@, ""@),
        ("error"@, PatKind::Word, "crash"@, ""@),
        ("error"@, PatKind::Word, "bug"@, ""@),
        ("error"@, PatKind::Word, "issue"@, ""@),
        ("error"@, PatKind::Word, "problem"@, ""@),
        ("error"@, PatKind::Word, "broken"@, ""@),
    ]
}

/// The error pattern table.
#[verifier::rlimit(60)]
pub fn error_rows() -> (r: Vec<PatRow>)
    ensures
        r@.map_values(|x: PatRow| row_view(x)) == error_rows_spec(),
{
    let mut r: Vec<PatRow> = Vec::new();
    push_row(&mut r, "error", PatKind::Word, "error", "");
    push_row(&mut r, "error", PatKind::Word, "exception", "");
    push_row(&mut r, "error", PatKind::Word, "failed", "");
    push_row(&mut r, "error", PatKind::Word, "failure", "");
    push_row(&mut r, "error", PatKind::Word, "panic", "");
    push_row(&mut r, "error", PatKind::Word, "crash", "");
    push_row(&mut r, "error", PatKind::Word, "bug", "");
    push_row(&mut r, "error", PatKind::Word, "issue", "");
    push_row(&mut r, "error", PatKind::Word, "problem", "");
    push_row(&mut r, "error", PatKind::Word, "broken", "");
    proof {
        assert(r@.map_values(|x: PatRow| row_view(x)) =~~= error_rows_spec());
    }
    r
}

/// An error-shaped word occurs in `s`.
pub open spec fn error_hit(s: Seq<char>) -> bool {
    any_hit(s, error_rows_spec())
}

/// The pattern-table metadata extractor.
pub struct MetadataExtractor;

impl MetadataExtractor {
    /// Technology tags occurring in the content.
    pub fn extract_technologies(content: &str) -> (r: Vec<String>)
        ensures
            crate::strings::views_of(r@) == matched_list(content@, technology_rows_spec()),
            tags_result_ok(content@, r@, technology_rows_spec()),
    {
        let rows = technology_rows();
        extract_matching(content, &rows)
    }

    /// Tool tags occurring in the content.
    pub fn extract_tools_mentioned(content: &str) -> (r: Vec<String>)
        ensures
            crate::strings::views_of(r@) == matched_list(content@, tool_rows_spec()),
            tags_result_ok(content@, r@, tool_rows_spec()),
    {
        let rows = tool_rows();
        extract_matching(content, &rows)
    }

    /// Code-language tags from fenced code-block hints.
    pub fn extract_code_languages(content: &str) -> (r: Vec<String>)
        ensures
            crate::strings::views_of(r@) == matched_list(content@, language_rows_spec()),
            tags_result_ok(content@, r@, language_rows_spec()),
    {
        let rows = language_rows();
        extract_matching(content, &rows)
    }

    /// Does the content hold a fenced code block?
    pub fn has_code_blocks(content: &str) -> (r: bool)
        ensures
            r == has_code_block(content@),
    {
        let text = chars_of(content);
        code_block_exec(&text)
    }

    /// Does the content mention an error-shaped word?
    pub fn has_error_mentions(content: &str) -> (r: bool)
        ensures
            r == error_hit(content@),
    {
        let rows = error_rows();
        any_row_hit(content, &rows)
    }

    /// Number of whitespace-separated words.
    pub fn count_words(content: &str) -> (r: usize)
        ensures
            r == word_count(content@),
    {
        count_words_exec(content)
    }

    /// All derived metadata of one content string: technologies,
    /// tools, code languages, has-code, has-error.
    pub fn extract_all_metadata(content: &str) -> (r: (
        Vec<String>,
        Vec<String>,
        Vec<String>,
        bool,
        bool,
    ))
        ensures
            crate::strings::views_of(r.0@) == matched_list(content@, technology_rows_spec()),
            crate::strings::views_of(r.1@) == matched_list(content@, tool_rows_spec()),
            crate::strings::views_of(r.2@) == matched_list(content@, language_rows_spec()),
            tags_result_ok(content@, r.0@, technology_rows_spec()),
            tags_result_ok(content@, r.1@, tool_rows_spec()),
            tags_result_ok(content@, r.2@, language_rows_spec()),
            r.3 == has_code_block(content@),
            r.4 == error_hit(content@),
    {
        let technologies = Self::extract_technologies(content);
        let tools_mentioned = Self::extract_tools_mentioned(content);
        let code_languages = Self::extract_code_languages(content);
        let has_code = Self::has_code_blocks(content);
        let has_error = Self::has_error_mentions(content);
        (technologies, tools_mentioned, code_languages, has_code, has_error)
    }
}

} // verus!
