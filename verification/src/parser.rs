//! The log parser: one conversation log file in, a finite ordered
//! sequence of normalized `ConversationEntry` records out, in file
//! order, with contiguous `sequence_num` starting at 0.
//!
//! The meaning of every field is pinned by spec functions over the
//! named JSON accessors of `crate::json`, so the whole parse is a
//! function of the file text and path: parsing is deterministic.

use vstd::prelude::*;
use crate::json::{json_block_bool_field, json_block_bool_field_of, json_block_content_str,
    json_block_content_str_of, json_block_count, json_block_count_of, json_block_input,
    json_block_input_of, json_block_item_count, json_block_item_count_of, json_block_item_text,
    json_block_item_text_of, json_block_str_field, json_block_str_field_of, json_bool_field,
    json_bool_field_of, json_msg_str_field, json_msg_str_field_of, json_str_field,
    json_str_field_of, parse_rfc3339_millis, rfc3339_millis_of};
use crate::metadata::{MetadataExtractor, matched_list, technology_rows_spec, tool_rows_spec,
    language_rows_spec, has_code_block, error_hit};
use crate::models::{ConversationEntry, MessageType};
use crate::strings::{all_ws, is_ws, contains_view, join_strings, join_with, split_char,
    split_from, split_char_exec, str_eq, str_starts_with, str_ends_with, views_of, ws_char};
use crate::utils::{truncate_content, truncate_spec};

verus! {

/// Character budgets for tool-shaped content blocks.
#[derive(Clone, Copy, Debug)]
pub struct ParserLimits {
    /// Budget for the JSON-serialized input of a `tool_use` block.
    pub tool_input_max_chars: usize,
    /// Budget for the content of a `tool_result` block.
    pub tool_result_max_chars: usize,
}

impl Default for ParserLimits {
    /// The stock budgets.
    fn default() -> (r: Self)
        ensures
            r.tool_input_max_chars == 200,
            r.tool_result_max_chars == 500,
    {
        ParserLimits { tool_input_max_chars: 200, tool_result_max_chars: 500 }
    }
}

/// View of an optional string.
pub open spec fn opt_view(o: Option<String>) -> Option<Seq<char>> {
    match o {
        Some(s) => Some(s@),
        None => None,
    }
}

/// The record role named by the source `type` field, if accepted.
pub open spec fn type_of(line: Seq<char>) -> Option<MessageType> {
    match json_str_field_of(line, "type"@) {
        Some(t) => if t == "user"@ {
            Some(MessageType::User)
        } else if t == "assistant"@ {
            Some(MessageType::Assistant)
        } else if t == "summary"@ {
            Some(MessageType::Summary)
        } else {
            None
        },
        None => None,
    }
}

/// The record timestamp in epoch milliseconds, if present and valid.
pub open spec fn ts_of(line: Seq<char>) -> Option<i64> {
    match json_str_field_of(line, "timestamp"@) {
        Some(s) => rfc3339_millis_of(s),
        None => None,
    }
}

/// The searchable text of a `tool_result` block's content: the string
/// itself, or the `text` fields of its items joined by newlines.
pub open spec fn tool_result_text_of(line: Seq<char>, idx: usize) -> Seq<char> {
    match json_block_content_str_of(line, idx) {
        Some(s) => s,
        None => match json_block_item_count_of(line, idx) {
            Some(n) => join_with(item_texts_of(line, idx, n as int), "\n"@),
            None => Seq::empty(),
        },
    }
}

/// The `text` fields of the first `n` items of a `tool_result`
/// content array, in order, absent ones skipped.
pub open spec fn item_texts_of(line: Seq<char>, idx: usize, n: int) -> Seq<Seq<char>>
    decreases n,
{
    if n <= 0 {
        Seq::empty()
    } else {
        item_texts_of(line, idx, n - 1) + (match json_block_item_text_of(
            line,
            idx,
            (n - 1) as usize,
        ) {
            Some(t) => seq![t],
            None => Seq::empty(),
        })
    }
}

/// The rendered text of block `idx`, or `None` when the block adds
/// nothing (unknown type, missing text, empty result).
pub open spec fn block_part_of(line: Seq<char>, idx: usize, limits: ParserLimits) -> Option<
    Seq<char>,
> {
    match json_block_str_field_of(line, idx, "type"@) {
        Some(k) => if k == "text"@ {
            json_block_str_field_of(line, idx, "text"@)
        } else if k == "thinking"@ {
            match json_block_str_field_of(line, idx, "thinking"@) {
                Some(t) => Some("[thinking] "@ + t),
                None => None,
            }
        } else if k == "tool_use"@ {
            let name = match json_block_str_field_of(line, idx, "name"@) {
                Some(n) => n,
                None => Seq::empty(),
            };
            let input = match json_block_input_of(line, idx) {
                Some(i) => i,
                None => Seq::empty(),
            };
            Some("["@ + name + "] "@ + truncate_spec(input, limits.tool_input_max_chars as int))
        } else if k == "tool_result"@ {
            let text = tool_result_text_of(line, idx);
            if json_block_bool_field_of(line, idx, "is_error"@) == Some(true) {
                Some("[error] "@ + truncate_spec(text, limits.tool_result_max_chars as int))
            } else if text.len() > 0 {
                Some("[result] "@ + truncate_spec(text, limits.tool_result_max_chars as int))
            } else {
                None
            }
        } else {
            None
        },
        None => None,
    }
}

/// The rendered texts of the first `n` blocks, in order.
pub open spec fn block_parts_of(line: Seq<char>, n: int, limits: ParserLimits) -> Seq<Seq<char>>
    decreases n,
{
    if n <= 0 {
        Seq::empty()
    } else {
        block_parts_of(line, n - 1, limits) + (match block_part_of(
            line,
            (n - 1) as usize,
            limits,
        ) {
            Some(p) => seq![p],
            None => Seq::empty(),
        })
    }
}

/// The normalized searchable content of one record.
pub open spec fn content_of(line: Seq<char>, limits: ParserLimits) -> Seq<char> {
    match json_msg_str_field_of(line, "content"@) {
        Some(s) => s,
        None => match json_block_count_of(line) {
            Some(n) => join_with(block_parts_of(line, n as int, limits), "\n"@),
            None => {
                let summary = if type_of(line) == Some(MessageType::Summary) {
                    json_str_field_of(line, "summary"@)
                } else {
                    None
                };
                match summary {
                    Some(s) => s,
                    None => match json_str_field_of(line, "content"@) {
                        Some(c) => c,
                        None => Seq::empty(),
                    },
                }
            },
        },
    }
}

/// Some `tool_result` block among the first `n` carries an error flag.
pub open spec fn source_err_upto(line: Seq<char>, n: int) -> bool
    decreases n,
{
    n > 0 && (source_err_upto(line, n - 1) || (json_block_str_field_of(
        line,
        (n - 1) as usize,
        "type"@,
    ) == Some("tool_result"@) && json_block_bool_field_of(line, (n - 1) as usize, "is_error"@)
        == Some(true)))
}

pub open spec fn source_err_of(line: Seq<char>) -> bool {
    match json_block_count_of(line) {
        Some(n) => source_err_upto(line, n as int),
        None => false,
    }
}

/// Tool names of the `tool_use` blocks among the first `n`, in order.
pub open spec fn block_tools_upto(line: Seq<char>, n: int) -> Seq<Seq<char>>
    decreases n,
{
    if n <= 0 {
        Seq::empty()
    } else {
        block_tools_upto(line, n - 1) + (if json_block_str_field_of(
            line,
            (n - 1) as usize,
            "type"@,
        ) == Some("tool_use"@) {
            match json_block_str_field_of(line, (n - 1) as usize, "name"@) {
                Some(nm) => seq![nm],
                None => Seq::empty(),
            }
        } else {
            Seq::empty()
        })
    }
}

pub open spec fn block_tools_of(line: Seq<char>) -> Seq<Seq<char>> {
    match json_block_count_of(line) {
        Some(n) => block_tools_upto(line, n as int),
        None => Seq::empty(),
    }
}

/// `acc` extended by each item not already present, in order.
pub open spec fn append_unique(acc: Seq<Seq<char>>, items: Seq<Seq<char>>) -> Seq<Seq<char>>
    decreases items.len(),
{
    if items.len() == 0 {
        acc
    } else {
        append_unique(
            if acc.contains(items[0]) {
                acc
            } else {
                acc.push(items[0])
            },
            items.drop_first(),
        )
    }
}

/// A line yields a record iff it is not blank, its type is accepted,
/// `uuid`, `sessionId` and a valid `timestamp` are present, and the
/// normalized content is non-empty after whitespace-trimming.
pub open spec fn line_kept(line: Seq<char>, limits: ParserLimits) -> bool {
    &&& !all_ws(line)
    &&& type_of(line) is Some
    &&& json_str_field_of(line, "uuid"@) is Some
    &&& json_str_field_of(line, "sessionId"@) is Some
    &&& ts_of(line) is Some
    &&& !all_ws(content_of(line, limits))
}

/// Skipped path components that never name a project.
pub open spec fn skip_component(c: Seq<char>) -> bool {
    c == "src"@ || c == "lib"@ || c == "bin"@ || c == "target"@ || c == "node_modules"@ || c
        == ".git"@
}

/// A component that can name a project: not in the skip list, longer
/// than one character, not hidden.
pub open spec fn good_component(c: Seq<char>) -> bool {
    !skip_component(c) && c.len() > 1 && c[0] != '.'
}

/// The last component satisfying `good_component`, if any.
pub open spec fn pick_component(cs: Seq<Seq<char>>) -> Option<Seq<char>>
    decreases cs.len(),
{
    if cs.len() == 0 {
        None
    } else if good_component(cs.last()) {
        Some(cs.last())
    } else {
        pick_component(cs.drop_last())
    }
}

/// The last non-empty component, if any.
pub open spec fn last_nonempty(cs: Seq<Seq<char>>) -> Option<Seq<char>>
    decreases cs.len(),
{
    if cs.len() == 0 {
        None
    } else if cs.last().len() > 0 {
        Some(cs.last())
    } else {
        last_nonempty(cs.drop_last())
    }
}

/// The project name derived from a working-directory path: the
/// deepest non-trivial component, else the last component, else
/// `"unknown"`.
pub open spec fn project_from_path(cwd: Seq<char>) -> Seq<char> {
    let cs = split_char(cwd, '/');
    match pick_component(cs) {
        Some(c) => c,
        None => match last_nonempty(cs) {
            Some(c) => c,
            None => "unknown"@,
        },
    }
}

/// The fallback project name of a log file: the name of its parent
/// directory.
pub open spec fn fallback_project_of(path: Seq<char>) -> Seq<char> {
    let cs = split_char(path, '/');
    if cs.len() >= 2 && cs[cs.len() - 2].len() > 0 {
        cs[cs.len() - 2]
    } else {
        "unknown"@
    }
}

/// The agent id encoded in a file name of the shape
/// `agent-<id>.jsonl`, if any.
pub open spec fn agent_hint_of(path: Seq<char>) -> Option<Seq<char>> {
    let nm = split_char(path, '/').last();
    if nm.len() > "agent-"@.len() + ".jsonl"@.len() && nm.subrange(0, "agent-"@.len() as int)
        == "agent-"@ && nm.subrange(nm.len() - ".jsonl"@.len(), nm.len() as int) == ".jsonl"@ {
        Some(nm.subrange("agent-"@.len() as int, nm.len() - ".jsonl"@.len()))
    } else {
        None
    }
}

/// The file text with one leading byte-order mark removed.
pub open spec fn bom_stripped(s: Seq<char>) -> Seq<char> {
    if s.len() > 0 && s[0] == '\u{feff}' {
        s.drop_first()
    } else {
        s
    }
}

/// A line with one trailing carriage return removed.
pub open spec fn strip_cr(l: Seq<char>) -> Seq<char> {
    if l.len() > 0 && l.last() == '\r' {
        l.drop_last()
    } else {
        l
    }
}

/// The logical lines of the file: BOM consumed, split on newlines,
/// carriage returns stripped.
pub open spec fn logical_lines(s: Seq<char>) -> Seq<Seq<char>> {
    split_char(bom_stripped(s), '\n').map_values(|l: Seq<char>| strip_cr(l))
}

/// The lines that yield records, in file order.
pub open spec fn kept_lines(ls: Seq<Seq<char>>, limits: ParserLimits) -> Seq<Seq<char>>
    decreases ls.len(),
{
    if ls.len() == 0 {
        Seq::empty()
    } else {
        (if line_kept(ls[0], limits) {
            seq![ls[0]]
        } else {
            Seq::empty()
        }) + kept_lines(ls.drop_first(), limits)
    }
}

/// Every field of one parsed record, as a function of its source line,
/// its position and the file path.
pub open spec fn entry_matches(
    e: ConversationEntry,
    line: Seq<char>,
    k: int,
    path: Seq<char>,
    limits: ParserLimits,
) -> bool {
    &&& Some(e.uuid@) == json_str_field_of(line, "uuid"@)
    &&& opt_view(e.parent_uuid) == json_str_field_of(line, "parentUuid"@)
    &&& Some(e.session_id@) == json_str_field_of(line, "sessionId"@)
    &&& e.project@ == (match json_str_field_of(line, "cwd"@) {
        Some(c) => project_from_path(c),
        None => fallback_project_of(path),
    })
    &&& opt_view(e.cwd) == json_str_field_of(line, "cwd"@)
    &&& Some(e.timestamp_ms) == ts_of(line)
    &&& Some(e.message_type) == type_of(line)
    &&& e.content@ == content_of(line, limits)
    &&& opt_view(e.model) == json_msg_str_field_of(line, "model"@)
    &&& e.sequence_num == k
    &&& e.is_sidechain == (json_bool_field_of(line, "isSidechain"@) == Some(true))
    &&& opt_view(e.agent_id) == (match json_str_field_of(line, "agentId"@) {
        Some(a) => Some(a),
        None => agent_hint_of(path),
    })
    &&& views_of(e.technologies@) == matched_list(content_of(line, limits), technology_rows_spec())
    &&& views_of(e.code_languages@) == matched_list(content_of(line, limits), language_rows_spec())
    &&& views_of(e.tools_mentioned@) == append_unique(
        matched_list(content_of(line, limits), tool_rows_spec()),
        block_tools_of(line),
    )
    &&& e.has_code == has_code_block(content_of(line, limits))
    &&& e.has_error == (source_err_of(line) || error_hit(content_of(line, limits)))
}

/// The whole parse result, as a function of file text and path.
pub open spec fn parse_output_matches(
    r: Seq<ConversationEntry>,
    text: Seq<char>,
    path: Seq<char>,
    limits: ParserLimits,
) -> bool {
    let kept = kept_lines(logical_lines(text), limits);
    &&& r.len() == kept.len()
    &&& forall|k: int| 0 <= k < r.len() ==> entry_matches(#[trigger] r[k], kept[k], k, path, limits)
}

/// The log parser.
pub struct JsonlParser;

impl JsonlParser {
    pub fn new() -> (r: Self) {
        JsonlParser
    }

    /// Project name from a working-directory path: the deepest
    /// non-trivial component.
    pub fn extract_project_name_from_path(&self, cwd_path: &str) -> (r: String)
        ensures
            r@ == project_from_path(cwd_path@),
    {
        let cs = split_char_exec(cwd_path, '/');
        let ghost csv = split_char(cwd_path@, '/');
        let n = cs.len();
        let mut i: usize = n;
        proof {
            assert(csv.subrange(0, n as int) =~= csv);
        }
        while i > 0
            invariant
                csv == split_char(cwd_path@, '/'),
                views_of(cs@) == csv,
                n == cs@.len(),
                i <= n,
                pick_component(csv.subrange(0, i as int)) == pick_component(csv),
            decreases i,
        {
            let c = &cs[i - 1];
            let good = !(str_eq(c.as_str(), "src") || str_eq(c.as_str(), "lib") || str_eq(
                c.as_str(),
                "bin",
            ) || str_eq(c.as_str(), "target") || str_eq(c.as_str(), "node_modules") || str_eq(
                c.as_str(),
                ".git",
            )) && c.as_str().unicode_len() > 1 && c.as_str().get_char(0) != '.';
            proof {
                let sub = csv.subrange(0, i as int);
                assert(sub.last() == csv[i - 1]);
                assert(sub.drop_last() =~= csv.subrange(0, i - 1));
            }
            if good {
                proof {
                    let sub = csv.subrange(0, i as int);
                    assert(good_component(sub.last()));
                    assert(pick_component(sub) == Some(csv[i - 1]));
                    assert(c@ == views_of(cs@)[i - 1]);
                }
                let out = c.clone();
                proof {
                    assert(out@ == c@);
                    let sub2 = csv.subrange(0, i as int);
                    assert(sub2.len() == i);
                    assert(sub2.last() == csv[i - 1]);
                    assert(good_component(sub2.last()));
                    assert(pick_component(sub2) == Some(sub2.last()));
                    assert(pick_component(csv) == Some(csv[i - 1]));
                    assert(csv == split_char(cwd_path@, '/'));
                    assert(project_from_path(cwd_path@) == csv[i - 1]);
                    assert(out@ == project_from_path(cwd_path@));
                }
                return out;
            }
            proof {
                assert(!good_component(csv[i - 1]));
            }
            i = i - 1;
        }
        proof {
            assert(csv.subrange(0, 0) =~= Seq::<Seq<char>>::empty());
        }
        let mut j: usize = n;
        proof {
            assert(csv.subrange(0, n as int) =~= csv);
        }
        while j > 0
            invariant
                csv == split_char(cwd_path@, '/'),
                views_of(cs@) == csv,
                n == cs@.len(),
                j <= n,
                pick_component(csv) is None,
                last_nonempty(csv.subrange(0, j as int)) == last_nonempty(csv),
            decreases j,
        {
            proof {
                let sub = csv.subrange(0, j as int);
                assert(sub.last() == csv[j - 1]);
                assert(sub.drop_last() =~= csv.subrange(0, j - 1));
            }
            if cs[j - 1].as_str().unicode_len() > 0 {
                proof {
                    let sub = csv.subrange(0, j as int);
                    assert(cs@[j - 1]@ == views_of(cs@)[j - 1]);
                    assert(sub.last().len() > 0);
                    assert(last_nonempty(sub) == Some(csv[j - 1]));
                }
                let out = cs[j - 1].clone();
                proof {
                    assert(out@ == csv[j - 1]);
                    assert(last_nonempty(split_char(cwd_path@, '/')) == Some(csv[j - 1]));
                    assert(project_from_path(cwd_path@) == csv[j - 1]);
                }
                return out;
            }
            j = j - 1;
        }
        proof {
            assert(csv.subrange(0, 0) =~= Seq::<Seq<char>>::empty());
        }
        "unknown".to_owned()
    }

    /// Fallback project name of a log file: its parent directory name.
    pub fn extract_project_name(&self, path: &str) -> (r: String)
        ensures
            r@ == fallback_project_of(path@),
    {
        let cs = split_char_exec(path, '/');
        let ghost csv = split_char(path@, '/');
        let n = cs.len();
        if n >= 2 && cs[n - 2].as_str().unicode_len() > 0 {
            proof {
                assert(csv[n - 2] == views_of(cs@)[n - 2]);
            }
            cs[n - 2].clone()
        } else {
            "unknown".to_owned()
        }
    }
}

/// Is the string all whitespace (or empty)?
pub fn text_is_blank(s: &str) -> (r: bool)
    ensures
        r == all_ws(s@),
{
    let n: usize = s.unicode_len();
    let mut i: usize = 0;
    while i < n
        invariant
            n == s@.len(),
            i <= n,
            forall|j: int| 0 <= j < i ==> is_ws(s@[j]),
        decreases n - i,
    {
        if !ws_char(s.get_char(i)) {
            return false;
        }
        i = i + 1;
    }
    true
}

/// The accepted role of the line, if any.
fn type_of_exec(line: &str) -> (r: Option<MessageType>)
    ensures
        r == type_of(line@),
{
    match json_str_field(line, "type") {
        Some(t) => {
            if str_eq(t.as_str(), "user") {
                Some(MessageType::User)
            } else if str_eq(t.as_str(), "assistant") {
                Some(MessageType::Assistant)
            } else if str_eq(t.as_str(), "summary") {
                Some(MessageType::Summary)
            } else {
                None
            }
        },
        None => None,
    }
}

/// The searchable text of a `tool_result` block's content.
fn tool_result_text_exec(line: &str, idx: usize) -> (r: String)
    ensures
        r@ == tool_result_text_of(line@, idx),
{
    match json_block_content_str(line, idx) {
        Some(s) => s,
        None => {
            match json_block_item_count(line, idx) {
                Some(n) => {
                    let mut parts: Vec<String> = Vec::new();
                    let mut i: usize = 0;
                    while i < n
                        invariant
                            i <= n,
                            json_block_item_count_of(line@, idx) == Some(n),
                            views_of(parts@) == item_texts_of(line@, idx, i as int),
                        decreases n - i,
                    {
                        let ghost oldv = views_of(parts@);
                        match json_block_item_text(line, idx, i) {
                            Some(t) => {
                                parts.push(t);
                                proof {
                                    assert(views_of(parts@) =~= oldv.push(
                                        json_block_item_text_of(line@, idx, i).unwrap(),
                                    ));
                                    assert(views_of(parts@) =~= item_texts_of(
                                        line@,
                                        idx,
                                        i + 1,
                                    ));
                                }
                            },
                            None => {
                                proof {
                                    assert(views_of(parts@) =~= item_texts_of(
                                        line@,
                                        idx,
                                        i + 1,
                                    ));
                                }
                            },
                        }
                        i = i + 1;
                    }
                    join_strings(&parts, "\n")
                },
                None => String::new(),
            }
        },
    }
}

/// The rendered text of one content block, if it adds anything.
fn block_part_exec(line: &str, idx: usize, limits: &ParserLimits) -> (r: Option<String>)
    requires
        limits.tool_input_max_chars >= 1,
        limits.tool_result_max_chars >= 1,
    ensures
        opt_view(r) == block_part_of(line@, idx, *limits),
{
    let kind = match json_block_str_field(line, idx, "type") {
        Some(k) => k,
        None => {
            return None;
        },
    };
    if str_eq(kind.as_str(), "text") {
        json_block_str_field(line, idx, "text")
    } else if str_eq(kind.as_str(), "thinking") {
        match json_block_str_field(line, idx, "thinking") {
            Some(t) => {
                let mut p: String = "[thinking] ".to_owned();
                p.append(t.as_str());
                Some(p)
            },
            None => None,
        }
    } else if str_eq(kind.as_str(), "tool_use") {
        let mut p: String = "[".to_owned();
        let ghost name_view: Seq<char> = match json_block_str_field_of(line@, idx, "name"@) {
            Some(n) => n,
            None => Seq::empty(),
        };
        match json_block_str_field(line, idx, "name") {
            Some(n) => {
                p.append(n.as_str());
            },
            None => {
                proof {
                    assert(p@ + name_view =~= p@);
                }
            },
        }
        p.append("] ");
        let input = match json_block_input(line, idx) {
            Some(i) => i,
            None => String::new(),
        };
        let t = truncate_content(input.as_str(), limits.tool_input_max_chars, false);
        p.append(t.as_str());
        Some(p)
    } else if str_eq(kind.as_str(), "tool_result") {
        let text = tool_result_text_exec(line, idx);
        let is_err = match json_block_bool_field(line, idx, "is_error") {
            Some(true) => true,
            _ => false,
        };
        if is_err {
            let mut p: String = "[error] ".to_owned();
            let t = truncate_content(text.as_str(), limits.tool_result_max_chars, false);
            p.append(t.as_str());
            Some(p)
        } else if text.as_str().unicode_len() > 0 {
            let mut p: String = "[result] ".to_owned();
            let t = truncate_content(text.as_str(), limits.tool_result_max_chars, false);
            p.append(t.as_str());
            Some(p)
        } else {
            None
        }
    } else {
        None
    }
}

/// The normalized searchable content of one line.
fn content_exec(line: &str, limits: &ParserLimits) -> (r: String)
    requires
        limits.tool_input_max_chars >= 1,
        limits.tool_result_max_chars >= 1,
    ensures
        r@ == content_of(line@, *limits),
{
    match json_msg_str_field(line, "content") {
        Some(s) => s,
        None => {
            match json_block_count(line) {
                Some(n) => {
                    let mut parts: Vec<String> = Vec::new();
                    let mut i: usize = 0;
                    while i < n
                        invariant
                            i <= n,
                            limits.tool_input_max_chars >= 1,
                            limits.tool_result_max_chars >= 1,
                            json_block_count_of(line@) == Some(n),
                            views_of(parts@) == block_parts_of(line@, i as int, *limits),
                        decreases n - i,
                    {
                        let ghost oldv = views_of(parts@);
                        match block_part_exec(line, i, limits) {
                            Some(p) => {
                                let ghost pv = p@;
                                parts.push(p);
                                proof {
                                    assert(views_of(parts@) =~= oldv.push(pv));
                                    assert(views_of(parts@) =~= block_parts_of(
                                        line@,
                                        i + 1,
                                        *limits,
                                    ));
                                }
                            },
                            None => {
                                proof {
                                    assert(views_of(parts@) =~= block_parts_of(
                                        line@,
                                        i + 1,
                                        *limits,
                                    ));
                                }
                            },
                        }
                        i = i + 1;
                    }
                    join_strings(&parts, "\n")
                },
                None => {
                    let is_summary = match type_of_exec(line) {
                        Some(MessageType::Summary) => true,
                        _ => false,
                    };
                    if is_summary {
                        match json_str_field(line, "summary") {
                            Some(s) => {
                                return s;
                            },
                            None => {},
                        }
                    }
                    match json_str_field(line, "content") {
                        Some(c) => c,
                        None => String::new(),
                    }
                },
            }
        },
    }
}

/// Did the source flag an error in some `tool_result` block?
fn source_err_exec(line: &str) -> (r: bool)
    ensures
        r == source_err_of(line@),
{
    let n = match json_block_count(line) {
        Some(n) => n,
        None => {
            return false;
        },
    };
    let mut err = false;
    let mut i: usize = 0;
    while i < n
        invariant
            i <= n,
            json_block_count_of(line@) == Some(n),
            err == source_err_upto(line@, i as int),
        decreases n - i,
    {
        let is_result = match json_block_str_field(line, i, "type") {
            Some(k) => str_eq(k.as_str(), "tool_result"),
            None => false,
        };
        if is_result {
            match json_block_bool_field(line, i, "is_error") {
                Some(true) => {
                    err = true;
                },
                _ => {},
            }
        }
        i = i + 1;
    }
    err
}

/// The tool names of the line's `tool_use` blocks, in order.
fn block_tools_exec(line: &str) -> (r: Vec<String>)
    ensures
        views_of(r@) == block_tools_of(line@),
{
    let mut r: Vec<String> = Vec::new();
    let n = match json_block_count(line) {
        Some(n) => n,
        None => {
            return r;
        },
    };
    let mut i: usize = 0;
    while i < n
        invariant
            i <= n,
            json_block_count_of(line@) == Some(n),
            views_of(r@) == block_tools_upto(line@, i as int),
        decreases n - i,
    {
        let ghost oldv = views_of(r@);
        let is_use = match json_block_str_field(line, i, "type") {
            Some(k) => str_eq(k.as_str(), "tool_use"),
            None => false,
        };
        if is_use {
            match json_block_str_field(line, i, "name") {
                Some(nm) => {
                    let ghost nv = nm@;
                    r.push(nm);
                    proof {
                        assert(views_of(r@) =~= oldv.push(nv));
                        assert(views_of(r@) =~= block_tools_upto(line@, i + 1));
                    }
                },
                None => {
                    proof {
                        assert(views_of(r@) =~= block_tools_upto(line@, i + 1));
                    }
                },
            }
        } else {
            proof {
                assert(views_of(r@) =~= block_tools_upto(line@, i + 1));
            }
        }
        i = i + 1;
    }
    r
}

/// The agent id hint encoded in the log file name, if any.
fn agent_hint_exec(path: &str) -> (r: Option<String>)
    ensures
        opt_view(r) == agent_hint_of(path@),
{
    let segs = split_char_exec(path, '/');
    let ghost csv = split_char(path@, '/');
    proof {
        assert(csv.len() > 0);
        assert(csv.last() == views_of(segs@)[csv.len() - 1]);
    }
    let nm = &segs[segs.len() - 1];
    let n: usize = nm.as_str().unicode_len();
    proof {
        reveal_strlit("agent-");
        reveal_strlit(".jsonl");
    }
    if n > 12 && str_starts_with(nm.as_str(), "agent-") && str_ends_with(nm.as_str(), ".jsonl") {
        let id = nm.as_str().substring_char(6, n - 6).to_owned();
        proof {
            assert(id@ =~= nm@.subrange(6, n - 6));
        }
        Some(id)
    } else {
        None
    }
}

/// Splitting a line list keeps and concatenates the kept lines.
proof fn lemma_kept_concat(a: Seq<Seq<char>>, b: Seq<Seq<char>>, limits: ParserLimits)
    ensures
        kept_lines(a + b, limits) == kept_lines(a, limits) + kept_lines(b, limits),
    decreases a.len(),
{
    if a.len() == 0 {
        assert(a + b =~= b);
        assert(kept_lines(a, limits) + kept_lines(b, limits) =~= kept_lines(b, limits));
    } else {
        lemma_kept_concat(a.drop_first(), b, limits);
        assert((a + b).drop_first() =~= a.drop_first() + b);
        assert((a + b)[0] == a[0]);
        if line_kept(a[0], limits) {
            assert(kept_lines(a + b, limits) =~= seq![a[0]] + (kept_lines(a.drop_first(), limits)
                + kept_lines(b, limits)));
            assert(kept_lines(a, limits) + kept_lines(b, limits) =~= seq![a[0]] + (kept_lines(
                a.drop_first(),
                limits,
            ) + kept_lines(b, limits)));
        } else {
            assert(kept_lines(a + b, limits) =~= kept_lines(a.drop_first(), limits) + kept_lines(
                b,
                limits,
            ));
        }
    }
}

impl JsonlParser {
    /// Parse one line into a record, if the line yields one.
    fn parse_entry(
        &self,
        line: &str,
        seq_num: usize,
        fallback_project: &String,
        hint: &Option<String>,
        Ghost(path): Ghost<Seq<char>>,
        limits: &ParserLimits,
    ) -> (r: Option<ConversationEntry>)
        requires
            limits.tool_input_max_chars >= 1,
            limits.tool_result_max_chars >= 1,
            fallback_project@ == fallback_project_of(path),
            opt_view(*hint) == agent_hint_of(path),
        ensures
            r is Some <==> line_kept(line@, *limits),
            r is Some ==> entry_matches(r.unwrap(), line@, seq_num as int, path, *limits),
    {
        if text_is_blank(line) {
            return None;
        }
        let message_type = match type_of_exec(line) {
            Some(t) => t,
            None => {
                return None;
            },
        };
        let uuid = match json_str_field(line, "uuid") {
            Some(u) => u,
            None => {
                return None;
            },
        };
        let session_id = match json_str_field(line, "sessionId") {
            Some(s) => s,
            None => {
                return None;
            },
        };
        let timestamp_ms = match json_str_field(line, "timestamp") {
            Some(s) => match parse_rfc3339_millis(s.as_str()) {
                Some(v) => v,
                None => {
                    return None;
                },
            },
            None => {
                return None;
            },
        };
        let content = content_exec(line, limits);
        if text_is_blank(content.as_str()) {
            return None;
        }
        let cwd = json_str_field(line, "cwd");
        let project = match &cwd {
            Some(c) => self.extract_project_name_from_path(c.as_str()),
            None => fallback_project.clone(),
        };
        let (technologies, tools_base, code_languages, has_code, meta_err) =
            MetadataExtractor::extract_all_metadata(content.as_str());
        let src_err = source_err_exec(line);
        let names = block_tools_exec(line);
        let ghost base_views = matched_list(content_of(line@, *limits), tool_rows_spec());
        let mut tools_mentioned = tools_base;
        let nn = names.len();
        let mut i: usize = 0;
        proof {
            assert(views_of(tools_mentioned@) == base_views);
            assert(views_of(names@).skip(0) =~= views_of(names@));
        }
        while i < nn
            invariant
                nn == names@.len(),
                i <= nn,
                append_unique(views_of(tools_mentioned@), views_of(names@).skip(i as int))
                    == append_unique(base_views, views_of(names@)),
            decreases nn - i,
        {
            let ghost rem = views_of(names@).skip(i as int);
            proof {
                assert(rem[0] == names@[i as int]@);
                assert(rem.drop_first() =~= views_of(names@).skip(i + 1));
            }
            let dup = contains_view(&tools_mentioned, names[i].as_str());
            let ghost oldv = views_of(tools_mentioned@);
            if !dup {
                tools_mentioned.push(names[i].clone());
                proof {
                    assert(views_of(tools_mentioned@) =~= oldv.push(names@[i as int]@));
                }
            }
            i = i + 1;
        }
        proof {
            assert(views_of(names@).skip(nn as int) =~= Seq::<Seq<char>>::empty());
        }
        let is_sidechain = match json_bool_field(line, "isSidechain") {
            Some(true) => true,
            _ => false,
        };
        let agent_id = match json_str_field(line, "agentId") {
            Some(a) => Some(a),
            None => match hint {
                Some(h) => Some(h.clone()),
                None => None,
            },
        };
        let model = json_msg_str_field(line, "model");
        let parent_uuid = json_str_field(line, "parentUuid");
        let has_error = src_err || meta_err;
        Some(
            ConversationEntry {
                uuid,
                parent_uuid,
                session_id,
                project,
                cwd,
                timestamp_ms,
                message_type,
                content,
                model,
                sequence_num: seq_num,
                is_sidechain,
                agent_id,
                technologies,
                code_languages,
                tools_mentioned,
                has_code,
                has_error,
            },
        )
    }

    /// Parse the text of one log file into its ordered record
    /// sequence. `path` is the file's own path, used only for the
    /// fallback project name and the agent-file heuristic; no file
    /// is read here.
    pub fn parse_text(&self, text: &str, path: &str, limits: &ParserLimits) -> (r: Vec<
        ConversationEntry,
    >)
        requires
            limits.tool_input_max_chars >= 1,
            limits.tool_result_max_chars >= 1,
        ensures
            parse_output_matches(r@, text@, path@, *limits),
    {
        let fallback = self.extract_project_name(path);
        let hint = agent_hint_exec(path);
        let n: usize = text.unicode_len();
        let stripped: &str = if n > 0 && text.get_char(0) == '\u{feff}' {
            let s = text.substring_char(1, n);
            proof {
                assert(s@ =~= bom_stripped(text@));
            }
            s
        } else {
            text
        };
        let lines = split_char_exec(stripped, '\n');
        let ghost ll = logical_lines(text@);
        proof {
            assert(ll =~= split_char(stripped@, '\n').map_values(|l: Seq<char>| strip_cr(l)));
        }
        let mut r: Vec<ConversationEntry> = Vec::new();
        let nl = lines.len();
        let mut i: usize = 0;
        proof {
            assert(ll.take(0) =~= Seq::<Seq<char>>::empty());
        }
        while i < nl
            invariant
                limits.tool_input_max_chars >= 1,
                limits.tool_result_max_chars >= 1,
                fallback@ == fallback_project_of(path@),
                opt_view(hint) == agent_hint_of(path@),
                nl == lines@.len(),
                i <= nl,
                ll == logical_lines(text@),
                ll.len() == nl,
                forall|k: int| 0 <= k < nl ==> ll[k] == strip_cr(#[trigger] lines@[k]@),
                r@.len() == kept_lines(ll.take(i as int), *limits).len(),
                forall|k: int|
                    0 <= k < r@.len() ==> entry_matches(
                        #[trigger] r@[k],
                        kept_lines(ll.take(i as int), *limits)[k],
                        k,
                        path@,
                        *limits,
                    ),
            decreases nl - i,
        {
            let raw = &lines[i];
            let m: usize = raw.as_str().unicode_len();
            let line: String = if m > 0 && raw.as_str().get_char(m - 1) == '\r' {
                let s = raw.as_str().substring_char(0, m - 1).to_owned();
                proof {
                    assert(s@ =~= strip_cr(raw@));
                }
                s
            } else {
                proof {
                    assert(raw@ =~= strip_cr(raw@));
                }
                raw.clone()
            };
            proof {
                assert(line@ == ll[i as int]);
            }
            let ghost kept_pre = kept_lines(ll.take(i as int), *limits);
            match self.parse_entry(
                line.as_str(),
                r.len(),
                &fallback,
                &hint,
                Ghost(path@),
                limits,
            ) {
                Some(e) => {
                    let ghost oldr = r@;
                    r.push(e);
                    proof {
                        lemma_kept_concat(ll.take(i as int), seq![ll[i as int]], *limits);
                        assert(ll.take(i as int) + seq![ll[i as int]] =~= ll.take(i + 1));
                        let one = seq![ll[i as int]];
                        assert(one[0] == ll[i as int]);
                        assert(line_kept(ll[i as int], *limits));
                        assert(one.drop_first() =~= Seq::<Seq<char>>::empty());
                        assert(kept_lines(one.drop_first(), *limits) =~= Seq::<
                            Seq<char>,
                        >::empty());
                        assert(kept_lines(one, *limits) =~= seq![ll[i as int]]);
                        assert(kept_lines(ll.take(i + 1), *limits) =~= kept_pre.push(
                            ll[i as int],
                        ));
                    }
                },
                None => {
                    proof {
                        lemma_kept_concat(ll.take(i as int), seq![ll[i as int]], *limits);
                        assert(ll.take(i as int) + seq![ll[i as int]] =~= ll.take(i + 1));
                        let one = seq![ll[i as int]];
                        assert(one[0] == ll[i as int]);
                        assert(!line_kept(ll[i as int], *limits));
                        assert(one.drop_first() =~= Seq::<Seq<char>>::empty());
                        assert(kept_lines(one.drop_first(), *limits) =~= Seq::<
                            Seq<char>,
                        >::empty());
                        assert(kept_lines(one, *limits) =~= Seq::<Seq<char>>::empty());
                        assert(kept_lines(ll.take(i + 1), *limits) =~= kept_pre);
                    }
                },
            }
            i = i + 1;
        }
        proof {
            assert(ll.take(nl as int) =~= ll);
        }
        r
    }
}

/// Records are parsed deterministically: any two record sequences
/// that parse the same file text the same way agree on every field.
pub proof fn lemma_parse_deterministic(
    r1: Seq<ConversationEntry>,
    r2: Seq<ConversationEntry>,
    text: Seq<char>,
    path: Seq<char>,
    limits: ParserLimits,
)
    requires
        parse_output_matches(r1, text, path, limits),
        parse_output_matches(r2, text, path, limits),
    ensures
        r1.len() == r2.len(),
        forall|k: int|
            0 <= k < r1.len() ==> #[trigger] entry_views_equal(r1[k], r2[k]),
{
    assert forall|k: int| 0 <= k < r1.len() implies #[trigger] entry_views_equal(
        r1[k],
        r2[k],
    ) by {
        assert(entry_matches(r1[k], kept_lines(logical_lines(text), limits)[k], k, path, limits));
        assert(entry_matches(r2[k], kept_lines(logical_lines(text), limits)[k], k, path, limits));
    }
}

/// Two records agree on the views of every field.
pub open spec fn entry_views_equal(a: ConversationEntry, b: ConversationEntry) -> bool {
    &&& a.uuid@ == b.uuid@
    &&& opt_view(a.parent_uuid) == opt_view(b.parent_uuid)
    &&& a.session_id@ == b.session_id@
    &&& a.project@ == b.project@
    &&& opt_view(a.cwd) == opt_view(b.cwd)
    &&& a.timestamp_ms == b.timestamp_ms
    &&& a.message_type == b.message_type
    &&& a.content@ == b.content@
    &&& opt_view(a.model) == opt_view(b.model)
    &&& a.sequence_num == b.sequence_num
    &&& a.is_sidechain == b.is_sidechain
    &&& opt_view(a.agent_id) == opt_view(b.agent_id)
    &&& views_of(a.technologies@) == views_of(b.technologies@)
    &&& views_of(a.code_languages@) == views_of(b.code_languages@)
    &&& views_of(a.tools_mentioned@) == views_of(b.tools_mentioned@)
    &&& a.has_code == b.has_code
    &&& a.has_error == b.has_error
}

/// Sequence numbers are 0, 1, 2, ... contiguous, in parse order.
pub proof fn lemma_sequence_contiguous(
    r: Seq<ConversationEntry>,
    text: Seq<char>,
    path: Seq<char>,
    limits: ParserLimits,
)
    requires
        parse_output_matches(r, text, path, limits),
    ensures
        forall|k: int| 0 <= k < r.len() ==> #[trigger] r[k].sequence_num == k,
{
}

/// Every kept line satisfies `line_kept`.
proof fn lemma_kept_lines_kept(ls: Seq<Seq<char>>, limits: ParserLimits, k: int)
    requires
        0 <= k < kept_lines(ls, limits).len(),
    ensures
        line_kept(kept_lines(ls, limits)[k], limits),
    decreases ls.len(),
{
    if ls.len() > 0 {
        if line_kept(ls[0], limits) {
            if k > 0 {
                lemma_kept_lines_kept(ls.drop_first(), limits, k - 1);
            }
        } else {
            lemma_kept_lines_kept(ls.drop_first(), limits, k);
        }
    }
}

/// Every parsed record's content is non-empty after
/// whitespace-trimming.
pub proof fn lemma_parsed_content_nonempty(
    r: Seq<ConversationEntry>,
    text: Seq<char>,
    path: Seq<char>,
    limits: ParserLimits,
)
    requires
        parse_output_matches(r, text, path, limits),
    ensures
        forall|k: int| 0 <= k < r.len() ==> !all_ws(#[trigger] r[k].content@),
{
    assert forall|k: int| 0 <= k < r.len() implies !all_ws(#[trigger] r[k].content@) by {
        lemma_kept_lines_kept(logical_lines(text), limits, k);
        assert(entry_matches(r[k], kept_lines(logical_lines(text), limits)[k], k, path, limits));
    }
}

/// Every segment of an all-whitespace text is all whitespace.
proof fn lemma_split_all_ws(s: Seq<char>, i: int, k: int)
    requires
        all_ws(s),
        0 <= i <= s.len(),
        0 <= k < split_from(s, i, '\n').len(),
    ensures
        all_ws(split_from(s, i, '\n')[k]),
    decreases s.len() - i,
{
    crate::strings::lemma_scan_to_bounds(s, i, '\n');
    let e = crate::strings::scan_to(s, i, '\n');
    if e >= s.len() {
        assert(split_from(s, i, '\n')[0] == s.subrange(i, s.len() as int));
    } else {
        if k == 0 {
            assert(split_from(s, i, '\n')[0] == s.subrange(i, e));
        } else {
            lemma_split_all_ws(s, e + 1, k - 1);
        }
    }
}

/// No line of an all-whitespace text is kept.
proof fn lemma_kept_of_all_ws_lines(ls: Seq<Seq<char>>, limits: ParserLimits)
    requires
        forall|k: int| 0 <= k < ls.len() ==> all_ws(#[trigger] ls[k]),
    ensures
        kept_lines(ls, limits).len() == 0,
    decreases ls.len(),
{
    if ls.len() > 0 {
        assert(!line_kept(ls[0], limits));
        assert(forall|k: int| 0 <= k < ls.drop_first().len() ==> ls.drop_first()[k] == ls[k + 1]);
        lemma_kept_of_all_ws_lines(ls.drop_first(), limits);
    }
}

/// An all-whitespace file text parses to no records.
pub proof fn lemma_blank_text_parses_empty(text: Seq<char>, limits: ParserLimits)
    requires
        all_ws(text),
    ensures
        kept_lines(logical_lines(text), limits).len() == 0,
{
    let b = bom_stripped(text);
    assert(all_ws(b)) by {
        if text.len() > 0 && text[0] == '\u{feff}' {
            assert(forall|j: int| 0 <= j < b.len() ==> b[j] == text[j + 1]);
        }
    }
    let ls = logical_lines(text);
    assert forall|k: int| 0 <= k < ls.len() implies all_ws(#[trigger] ls[k]) by {
        lemma_split_all_ws(b, 0, k);
        let seg = split_char(b, '\n')[k];
        assert(ls[k] == strip_cr(seg));
        if seg.len() > 0 && seg.last() == '\r' {
            assert(forall|j: int| 0 <= j < seg.drop_last().len() ==> seg.drop_last()[j] == seg[j]);
        }
    }
    lemma_kept_of_all_ws_lines(ls, limits);
}

/// A leading byte-order mark changes nothing: a BOM-prefixed file
/// parses exactly like the same file without it (stated for file
/// texts that do not themselves begin with a second BOM).
pub proof fn lemma_bom_invariance(
    r1: Seq<ConversationEntry>,
    r2: Seq<ConversationEntry>,
    text: Seq<char>,
    path: Seq<char>,
    limits: ParserLimits,
)
    requires
        text.len() == 0 || text[0] != '\u{feff}',
        parse_output_matches(r1, seq!['\u{feff}'] + text, path, limits),
        parse_output_matches(r2, text, path, limits),
    ensures
        r1.len() == r2.len(),
        forall|k: int| 0 <= k < r1.len() ==> #[trigger] entry_views_equal(r1[k], r2[k]),
{
    let bt = seq!['\u{feff}'] + text;
    assert(bt[0] == '\u{feff}');
    assert(bom_stripped(bt) =~= text);
    assert(bom_stripped(text) =~= text);
    assert(logical_lines(bt) == logical_lines(text));
    assert(parse_output_matches(r1, text, path, limits));
    lemma_parse_deterministic(r1, r2, text, path, limits);
}

} // verus!
