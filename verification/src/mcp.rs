//! Tool-call layer data and policy: response payloads, the
//! command-line command model, and the deduplication-by-session
//! policy that the front-ends apply to search results.

use vstd::prelude::*;
use crate::search::SearchResultWithContext;
use crate::strings::{contains_view, str_eq, views_of};

verus! {

/// One text block of a tool-call response.
#[derive(Clone, Debug)]
pub struct ToolResult {
    pub result_type: String,
    pub text: String,
}

/// A tool-call response: text blocks, with an error marker.
#[derive(Clone, Debug)]
pub struct CallToolResponse {
    pub content: Vec<ToolResult>,
    pub is_error: Option<bool>,
}

/// The command model of the command-line tool.
#[allow(inconsistent_fields)]
#[derive(Clone, Debug)]
pub enum CliCommands {
    Index { action: Option<IndexAction> },
    Search { query: String, project: Option<String>, limit: usize, context: usize },
    Topics { project: Option<String>, limit: usize },
    Stats { project: Option<String> },
    Session { session_id: String, full: bool },
    Cache { action: CacheAction },
    Mcp,
    Install { project: bool },
}

/// Cache subcommands.
#[derive(Clone, Copy, Debug, PartialEq, Eq, Structural)]
pub enum CacheAction {
    Info,
    Clear,
}

/// Index subcommands.
#[derive(Clone, Copy, Debug, PartialEq, Eq, Structural)]
pub enum IndexAction {
    Status,
    Rebuild,
    Vacuum,
}

/// Advisory lock modes over the index directory.
#[derive(Clone, Copy, Debug, PartialEq, Eq, Structural)]
pub enum LockType {
    /// Multiple readers allowed.
    Shared,
    /// Single writer only.
    Exclusive,
}

/// Offset/limit paging bounds over a message list, clipped to the
/// total; `start` and one-past-the-end `end`.
pub fn page_bounds(total: usize, offset: usize, limit: usize) -> (r: (usize, usize))
    ensures
        r.0 as int == if offset <= total {
            offset as int
        } else {
            total as int
        },
        r.1 as int == if offset + limit <= total {
            offset + limit
        } else {
            total as int
        },
        r.0 <= r.1 <= total,
{
    let start = if offset <= total {
        offset
    } else {
        total
    };
    let end = if total - start >= limit {
        start + limit
    } else {
        total
    };
    (start, end)
}

/// Centered paging bounds: the raw window around position `idx`,
/// clipped at both ends, never wrapping.
pub fn center_bounds(idx: usize, before: usize, after: usize, total: usize) -> (r: (usize, usize))
    requires
        idx < total,
    ensures
        r.0 as int == crate::search::win_lo(idx as int, before as int),
        r.1 as int == crate::search::win_hi(idx as int, after as int, total as int),
        r.0 <= idx < r.1 <= total,
{
    let start = if idx >= before {
        idx - before
    } else {
        0
    };
    let end = if total - idx > after {
        idx + after + 1
    } else {
        total
    };
    (start, end)
}

/// Whether the pattern matches the text; `None` when the pattern is
/// not a valid regular expression.
pub uninterp spec fn regex_match_of(pat: Seq<char>, text: Seq<char>) -> Option<bool>;

/// Relies on regex::Regex::{new, is_match}: whether the user-supplied
/// exclusion pattern matches the text.
#[verifier::external_body]
pub fn regex_is_match(pat: &str, text: &str) -> (r: Option<bool>)
    ensures
        r == regex_match_of(pat@, text@),
{
    match regex::Regex::new(pat) {
        Ok(re) => Some(re.is_match(text)),
        Err(_) => None,
    }
}

/// A row is dropped when its session is the caller's own current
/// session, its project is explicitly excluded, or some exclusion
/// pattern matches its project name or path (invalid patterns never
/// match).
pub open spec fn row_excluded(
    row: SearchResultWithContext,
    exclude_projects: Seq<Seq<char>>,
    patterns: Seq<Seq<char>>,
    current_session: Option<Seq<char>>,
) -> bool {
    ||| current_session == Some(row.matched_message.session_id@)
    ||| exclude_projects.contains(row.matched_message.project@)
    ||| exists|k: int|
        0 <= k < patterns.len() && (regex_match_of(
            #[trigger] patterns[k],
            row.matched_message.project@,
        ) == Some(true) || regex_match_of(patterns[k], row.matched_message.project_path@) == Some(
            true,
        ))
}

/// The first `limit` rows that are not excluded and whose session was
/// not already taken: the deduplication-by-session policy of the
/// front-ends.
pub open spec fn dedup_rows(
    rows: Seq<SearchResultWithContext>,
    seen: Seq<Seq<char>>,
    exclude_projects: Seq<Seq<char>>,
    patterns: Seq<Seq<char>>,
    current_session: Option<Seq<char>>,
    limit: int,
) -> Seq<SearchResultWithContext>
    decreases rows.len(),
{
    if rows.len() == 0 || limit <= 0 {
        Seq::empty()
    } else {
        let row = rows[0];
        let sess = row.matched_message.session_id@;
        if row_excluded(row, exclude_projects, patterns, current_session) || seen.contains(sess) {
            dedup_rows(rows.drop_first(), seen, exclude_projects, patterns, current_session, limit)
        } else {
            seq![row] + dedup_rows(
                rows.drop_first(),
                seen.push(sess),
                exclude_projects,
                patterns,
                current_session,
                limit - 1,
            )
        }
    }
}

/// The exclusion test of one row.
fn excluded_exec(
    row: &SearchResultWithContext,
    exclude_projects: &Vec<String>,
    patterns: &Vec<String>,
    current_session: &Option<String>,
) -> (r: bool)
    ensures
        r == row_excluded(
            *row,
            views_of(exclude_projects@),
            views_of(patterns@),
            crate::parser::opt_view(*current_session),
        ),
{
    let is_current = match current_session {
        Some(c) => str_eq(c.as_str(), row.matched_message.session_id.as_str()),
        None => false,
    };
    if is_current {
        return true;
    }
    if contains_view(exclude_projects, row.matched_message.project.as_str()) {
        return true;
    }
    let n = patterns.len();
    let mut k: usize = 0;
    while k < n
        invariant
            n == patterns@.len(),
            k <= n,
            forall|t: int|
                0 <= t < k ==> !(regex_match_of(
                    #[trigger] views_of(patterns@)[t],
                    row.matched_message.project@,
                ) == Some(true) || regex_match_of(
                    views_of(patterns@)[t],
                    row.matched_message.project_path@,
                ) == Some(true)),
        decreases n - k,
    {
        let hit_project = match regex_is_match(
            patterns[k].as_str(),
            row.matched_message.project.as_str(),
        ) {
            Some(true) => true,
            _ => false,
        };
        let hit_path = match regex_is_match(
            patterns[k].as_str(),
            row.matched_message.project_path.as_str(),
        ) {
            Some(true) => true,
            _ => false,
        };
        proof {
            assert(views_of(patterns@)[k as int] == patterns@[k as int]@);
        }
        if hit_project || hit_path {
            return true;
        }
        k = k + 1;
    }
    false
}

/// Apply exclusion lists and the deduplication-by-session policy,
/// keeping the first `limit` surviving rows in order.
#[verifier::loop_isolation(false)]
pub fn dedup_by_session(
    rows: Vec<SearchResultWithContext>,
    exclude_projects: &Vec<String>,
    patterns: &Vec<String>,
    current_session: &Option<String>,
    limit: usize,
) -> (r: Vec<SearchResultWithContext>)
    ensures
        r@ == dedup_rows(
            rows@,
            Seq::empty(),
            views_of(exclude_projects@),
            views_of(patterns@),
            crate::parser::opt_view(*current_session),
            limit as int,
        ),
{
    let ghost orig = rows@;
    let mut rows = rows;
    let mut out: Vec<SearchResultWithContext> = Vec::new();
    let mut seen: Vec<String> = Vec::new();
    let mut taken: usize = 0;
    proof {
        assert(views_of(seen@) =~= Seq::<Seq<char>>::empty());
        assert(out@ + dedup_rows(
            rows@,
            views_of(seen@),
            views_of(exclude_projects@),
            views_of(patterns@),
            crate::parser::opt_view(*current_session),
            limit as int,
        ) =~= dedup_rows(
            rows@,
            views_of(seen@),
            views_of(exclude_projects@),
            views_of(patterns@),
            crate::parser::opt_view(*current_session),
            limit as int,
        ));
    }
    loop
        invariant
            taken == out@.len(),
            taken <= limit,
            dedup_rows(
                orig,
                Seq::empty(),
                views_of(exclude_projects@),
                views_of(patterns@),
                crate::parser::opt_view(*current_session),
                limit as int,
            ) == out@ + dedup_rows(
                rows@,
                views_of(seen@),
                views_of(exclude_projects@),
                views_of(patterns@),
                crate::parser::opt_view(*current_session),
                limit - taken,
            ),
        decreases rows@.len(),
    {
        if rows.len() == 0 || taken >= limit {
            proof {
                assert(dedup_rows(
                    rows@,
                    views_of(seen@),
                    views_of(exclude_projects@),
                    views_of(patterns@),
                    crate::parser::opt_view(*current_session),
                    limit - taken,
                ) =~= Seq::<SearchResultWithContext>::empty());
                assert(out@ + Seq::<SearchResultWithContext>::empty() =~= out@);
            }
            return out;
        }
        let ghost pre_rows = rows@;
        let row = rows.remove(0);
        proof {
            assert(rows@ =~= pre_rows.drop_first());
            assert(pre_rows[0] == row);
        }
        let excl = excluded_exec(&row, exclude_projects, patterns, current_session);
        if excl {
            proof {
                assert(row_excluded(
                    row,
                    views_of(exclude_projects@),
                    views_of(patterns@),
                    crate::parser::opt_view(*current_session),
                ));
            }
        } else {
            let dup = contains_view(&seen, row.matched_message.session_id.as_str());
            if !dup {
                let ghost pre_seen = views_of(seen@);
                let ghost pre_out = out@;
                seen.push(row.matched_message.session_id.clone());
                proof {
                    assert(views_of(seen@) =~= pre_seen.push(
                        row.matched_message.session_id@,
                    ));
                }
                out.push(row);
                taken = taken + 1;
                proof {
                    assert(out@ =~= pre_out.push(out@.last()));
                    assert(pre_out + (seq![out@.last()] + dedup_rows(
                        rows@,
                        views_of(seen@),
                        views_of(exclude_projects@),
                        views_of(patterns@),
                        crate::parser::opt_view(*current_session),
                        limit - taken,
                    )) =~= out@ + dedup_rows(
                        rows@,
                        views_of(seen@),
                        views_of(exclude_projects@),
                        views_of(patterns@),
                        crate::parser::opt_view(*current_session),
                        limit - taken,
                    ));
                }
            }
        }
    }
}

} // verus!
