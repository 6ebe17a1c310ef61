//! Aggregations over retrieved results: tag frequencies and
//! per-project message counts, as the topics and statistics views
//! report them.

use vstd::prelude::*;
use crate::cache::sat_add_u64;
use crate::models::SearchResult;
use crate::strings::str_eq;

verus! {

/// `acc` with the count of `key` raised by one (first occurrence
/// updated, new keys appended).
pub open spec fn bump(acc: Seq<(Seq<char>, int)>, key: Seq<char>) -> Seq<(Seq<char>, int)>
    decreases acc.len(),
{
    if acc.len() == 0 {
        seq![(key, 1int)]
    } else if acc[0].0 == key {
        seq![(acc[0].0, sat_add_u64(acc[0].1, 1))] + acc.drop_first()
    } else {
        seq![acc[0]] + bump(acc.drop_first(), key)
    }
}

/// `acc` after counting the first `j` tags of one list.
pub open spec fn bump_all(acc: Seq<(Seq<char>, int)>, tags: Seq<Seq<char>>, j: int) -> Seq<
    (Seq<char>, int),
>
    decreases j,
{
    if j <= 0 {
        acc
    } else {
        bump(bump_all(acc, tags, j - 1), tags[j - 1])
    }
}

/// The tag counts over the first `i` of the given tag lists, keys in
/// first-appearance order.
pub open spec fn counts_upto(lists: Seq<Seq<Seq<char>>>, i: int) -> Seq<(Seq<char>, int)>
    decreases i,
{
    if i <= 0 {
        Seq::empty()
    } else {
        bump_all(counts_upto(lists, i - 1), lists[i - 1], lists[i - 1].len() as int)
    }
}

/// The view of a counted list.
pub open spec fn count_views(v: Seq<(String, u64)>) -> Seq<(Seq<char>, int)> {
    v.map_values(|e: (String, u64)| (e.0@, e.1 as int))
}

/// Raise the count of one key in place.
#[verifier::loop_isolation(false)]
fn bump_exec(v: &mut Vec<(String, u64)>, key: &str)
    ensures
        count_views(final(v)@) == bump(count_views(old(v)@), key@),
{
    let ghost pre = v@;
    let n = v.len();
    let mut i: usize = 0;
    while i < n
        invariant
            v@ == pre,
            i <= n,
            forall|t: int| 0 <= t < i ==> (#[trigger] v@[t]).0@ != key@,
        decreases n - i,
    {
        if str_eq(v[i].0.as_str(), key) {
            let c = v[i].1;
            let bumped = if c == u64::MAX {
                c
            } else {
                c + 1
            };
            let name = v[i].0.clone();
            v.set(i, (name, bumped));
            proof {
                assert forall|t: int| 0 <= t < i implies (#[trigger] count_views(pre)[t]).0
                    != key@ by {
                    assert(count_views(pre)[t].0 == pre[t].0@);
                }
                assert(count_views(pre)[i as int].0 == pre[i as int].0@);
                lemma_bump_at(count_views(pre), key@, i as int);
                assert(count_views(v@) =~= count_views(pre).update(
                    i as int,
                    (pre[i as int].0@, sat_add_u64(pre[i as int].1 as int, 1)),
                ));
            }
            return ;
        }
        i = i + 1;
    }
    v.push((key.to_owned(), 1));
    proof {
        assert forall|t: int| 0 <= t < count_views(pre).len() implies (#[trigger] count_views(
            pre,
        )[t]).0 != key@ by {
            assert(count_views(pre)[t].0 == pre[t].0@);
        }
        lemma_bump_missing(count_views(pre), key@);
        assert(count_views(v@) =~= count_views(pre).push((key@, 1int)));
    }
}

/// Bumping an existing first-occurrence key updates it in place.
proof fn lemma_bump_at(acc: Seq<(Seq<char>, int)>, key: Seq<char>, i: int)
    requires
        0 <= i < acc.len(),
        acc[i].0 == key,
        forall|t: int| 0 <= t < i ==> (#[trigger] acc[t]).0 != key,
    ensures
        bump(acc, key) =~= acc.update(i, (acc[i].0, sat_add_u64(acc[i].1, 1))),
    decreases i,
{
    if i == 0 {
        assert(bump(acc, key) =~= seq![(acc[0].0, sat_add_u64(acc[0].1, 1))] + acc.drop_first());
    } else {
        lemma_bump_at(acc.drop_first(), key, i - 1);
        assert(bump(acc, key) =~= seq![acc[0]] + bump(acc.drop_first(), key));
        assert(acc.update(i, (acc[i].0, sat_add_u64(acc[i].1, 1))).drop_first()
            =~= acc.drop_first().update(i - 1, (acc[i].0, sat_add_u64(acc[i].1, 1))));
    }
}

/// Bumping an absent key appends it with count one.
proof fn lemma_bump_missing(acc: Seq<(Seq<char>, int)>, key: Seq<char>)
    requires
        forall|t: int| 0 <= t < acc.len() ==> (#[trigger] acc[t]).0 != key,
    ensures
        bump(acc, key) =~= acc.push((key, 1int)),
    decreases acc.len(),
{
    if acc.len() > 0 {
        lemma_bump_missing(acc.drop_first(), key);
        assert(acc.push((key, 1int)).drop_first() =~= acc.drop_first().push((key, 1int)));
    }
}

/// Which tag list of a result to count.
#[derive(Clone, Copy, Debug, PartialEq, Eq, Structural)]
pub enum TagField {
    Technologies,
    CodeLanguages,
    ToolsMentioned,
}

/// The chosen tag list of one result.
pub open spec fn tags_of(r: SearchResult, which: TagField) -> Seq<Seq<char>> {
    match which {
        TagField::Technologies => crate::strings::views_of(r.technologies@),
        TagField::CodeLanguages => crate::strings::views_of(r.code_languages@),
        TagField::ToolsMentioned => crate::strings::views_of(r.tools_mentioned@),
    }
}

pub open spec fn tag_lists_of(results: Seq<SearchResult>, which: TagField) -> Seq<Seq<Seq<char>>> {
    results.map_values(|r: SearchResult| tags_of(r, which))
}

/// How often each tag of the chosen vocabulary occurs across the
/// results, keys in first-appearance order.
pub fn tag_frequencies(results: &Vec<SearchResult>, which: TagField) -> (r: Vec<(String, u64)>)
    ensures
        count_views(r@) == counts_upto(
            tag_lists_of(results@, which),
            results@.len() as int,
        ),
{
    let ghost lists = tag_lists_of(results@, which);
    let mut out: Vec<(String, u64)> = Vec::new();
    let n = results.len();
    let mut i: usize = 0;
    proof {
        assert(count_views(out@) =~= Seq::<(Seq<char>, int)>::empty());
    }
    while i < n
        invariant
            lists == tag_lists_of(results@, which),
            n == results@.len(),
            i <= n,
            count_views(out@) == counts_upto(lists, i as int),
        decreases n - i,
    {
        let tags = match which {
            TagField::Technologies => &results[i].technologies,
            TagField::CodeLanguages => &results[i].code_languages,
            TagField::ToolsMentioned => &results[i].tools_mentioned,
        };
        proof {
            assert(lists[i as int] == tags_of(results@[i as int], which));
        }
        let m = tags.len();
        let mut j: usize = 0;
        while j < m
            invariant
                lists == tag_lists_of(results@, which),
                n == results@.len(),
                i < n,
                m == tags@.len(),
                m == lists[i as int].len(),
                forall|t: int| 0 <= t < m ==> #[trigger] lists[i as int][t] == tags@[t]@,
                j <= m,
                count_views(out@) == bump_all(
                    counts_upto(lists, i as int),
                    lists[i as int],
                    j as int,
                ),
            decreases m - j,
        {
            bump_exec(&mut out, tags[j].as_str());
            j = j + 1;
        }
        i = i + 1;
    }
    out
}

/// How many of the results each project holds, keys in
/// first-appearance order.
pub fn project_message_counts(results: &Vec<SearchResult>) -> (r: Vec<(String, u64)>)
    ensures
        count_views(r@) == counts_upto(
            results@.map_values(|x: SearchResult| seq![x.project@]),
            results@.len() as int,
        ),
{
    let ghost lists = results@.map_values(|x: SearchResult| seq![x.project@]);
    let mut out: Vec<(String, u64)> = Vec::new();
    let n = results.len();
    let mut i: usize = 0;
    proof {
        assert(count_views(out@) =~= Seq::<(Seq<char>, int)>::empty());
    }
    while i < n
        invariant
            lists == results@.map_values(|x: SearchResult| seq![x.project@]),
            n == results@.len(),
            i <= n,
            count_views(out@) == counts_upto(lists, i as int),
        decreases n - i,
    {
        proof {
            assert(lists[i as int] == seq![results@[i as int].project@]);
            assert(lists[i as int].len() == 1);
            assert(lists[i as int][0] == results@[i as int].project@);
        }
        bump_exec(&mut out, results[i].project.as_str());
        proof {
            assert(bump_all(counts_upto(lists, i as int), lists[i as int], 0)
                == counts_upto(lists, i as int));
            assert(counts_upto(lists, i + 1) == bump(
                counts_upto(lists, i as int),
                lists[i as int][0],
            ));
        }
        i = i + 1;
    }
    out
}

/// Counted keys ordered by descending count (stable: equal counts
/// keep their first-appearance order).
pub fn sort_counts_desc(v: &mut Vec<(String, u64)>)
    ensures
        final(v)@.len() == old(v)@.len(),
        final(v)@.to_multiset() == old(v)@.to_multiset(),
        forall|p: int, q: int|
            0 <= p < q < final(v)@.len() ==> (#[trigger] final(v)@[p]).1 >= (
            #[trigger] final(v)@[q]).1,
{
    let n = v.len();
    let mut i: usize = 1;
    while i < n && n > 0
        invariant
            n == v@.len(),
            1 <= i || n == 0,
            i <= n || n == 0,
            v@.to_multiset() == old(v)@.to_multiset(),
            forall|p: int, q: int|
                0 <= p < q < i ==> (#[trigger] v@[p]).1 >= (#[trigger] v@[q]).1,
        decreases n - i,
    {
        let key = v[i].1;
        let mut j: usize = 0;
        while j < i && v[j].1 >= key
            invariant
                i < n == v@.len(),
                j <= i,
                key == v@[i as int].1,
                forall|t: int| 0 <= t < j ==> (#[trigger] v@[t]).1 >= key,
            decreases i - j,
        {
            j = j + 1;
        }
        let ghost pre = v@;
        let x = v.remove(i);
        v.insert(j, x);
        proof {
            broadcast use vstd::seq_lib::group_to_multiset_ensures, vstd::seq_lib::to_multiset_insert;

            assert(v@ =~= pre.remove(i as int).insert(j as int, pre[i as int]));
            assert(v@.to_multiset() == pre.to_multiset());
            assert forall|p: int, q: int|
                0 <= p < q < i + 1 implies (#[trigger] v@[p]).1 >= (#[trigger] v@[q]).1 by {
                if j < i {
                    assert(pre[j as int].1 < key);
                }
                assert(forall|t: int| 0 <= t < j ==> v@[t] == pre[t]);
                assert(v@[j as int] == pre[i as int]);
                assert(forall|t: int| j < t <= i ==> v@[t] == pre[t - 1]);
            }
        }
        i = i + 1;
    }
}

} // verus!
