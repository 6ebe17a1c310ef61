//! Core data model: normalized message records, search queries and
//! search results.

use vstd::prelude::*;
use crate::strings::str_eq;

verus! {

/// Role of a message record, from the source `type` field. Records of
/// any other source type are dropped during parsing.
#[derive(Clone, Copy, Debug, PartialEq, Eq, Structural)]
pub enum MessageType {
    User,
    Assistant,
    Summary,
    System,
}

/// Sort order applied to search results.
#[derive(Clone, Copy, Debug, PartialEq, Eq, Structural)]
pub enum SortOrder {
    Relevance,
    DateDesc,
    DateAsc,
}

/// One normalized, indexable message derived from one log line.
#[derive(Clone, Debug)]
pub struct ConversationEntry {
    /// Stable identity, supplied by the source.
    pub uuid: String,
    /// Predecessor message in the same session, if any.
    pub parent_uuid: Option<String>,
    /// Shared by every message of one conversation.
    pub session_id: String,
    /// Short project name derived from `cwd` or the log directory.
    pub project: String,
    /// Absolute working directory of the conversation, if known.
    pub cwd: Option<String>,
    /// UTC instant, milliseconds since the epoch.
    pub timestamp_ms: i64,
    pub message_type: MessageType,
    /// Normalized, concatenated searchable text.
    pub content: String,
    pub model: Option<String>,
    /// Per-file position, assigned in parse order from 0, contiguous.
    pub sequence_num: usize,
    /// True for branched or sub-agent conversations.
    pub is_sidechain: bool,
    pub agent_id: Option<String>,
    pub technologies: Vec<String>,
    pub code_languages: Vec<String>,
    pub tools_mentioned: Vec<String>,
    pub has_code: bool,
    pub has_error: bool,
}

/// A search request against the index.
#[derive(Clone, Debug)]
pub struct SearchQuery {
    pub text: String,
    pub project_filter: Option<String>,
    pub session_filter: Option<String>,
    pub limit: usize,
    pub sort_by: SortOrder,
    /// Lower timestamp bound in epoch milliseconds, inclusive.
    pub after: Option<i64>,
    /// Upper timestamp bound in epoch milliseconds, inclusive.
    pub before: Option<i64>,
}

/// One materialized hit, all stored fields plus the computed snippet.
#[derive(Debug)]
pub struct SearchResult {
    pub uuid: String,
    pub parent_uuid: Option<String>,
    pub content: String,
    pub project: String,
    pub project_path: String,
    pub session_id: String,
    pub timestamp_ms: i64,
    pub message_type: MessageType,
    pub snippet: String,
    pub technologies: Vec<String>,
    pub code_languages: Vec<String>,
    pub tools_mentioned: Vec<String>,
    pub has_code: bool,
    pub has_error: bool,
    pub interaction_count: usize,
    pub sequence_num: usize,
    pub is_sidechain: bool,
    pub agent_id: Option<String>,
}

/// A record is displayable iff it is a User, Assistant or Summary
/// message and its content is not the literal `"Warmup"`.
pub open spec fn spec_displayable(message_type: MessageType, content: Seq<char>) -> bool {
    &&& (message_type == MessageType::User || message_type == MessageType::Assistant
        || message_type == MessageType::Summary)
    &&& content != "Warmup"@
}

/// Two results agree on every field (list fields by value, string
/// lists by their element values).
pub open spec fn same_result(a: SearchResult, b: SearchResult) -> bool {
    &&& a.uuid == b.uuid
    &&& a.parent_uuid == b.parent_uuid
    &&& a.content == b.content
    &&& a.project == b.project
    &&& a.project_path == b.project_path
    &&& a.session_id == b.session_id
    &&& a.timestamp_ms == b.timestamp_ms
    &&& a.message_type == b.message_type
    &&& a.snippet == b.snippet
    &&& a.technologies@ == b.technologies@
    &&& a.code_languages@ == b.code_languages@
    &&& a.tools_mentioned@ == b.tools_mentioned@
    &&& a.has_code == b.has_code
    &&& a.has_error == b.has_error
    &&& a.interaction_count == b.interaction_count
    &&& a.sequence_num == b.sequence_num
    &&& a.is_sidechain == b.is_sidechain
    &&& a.agent_id == b.agent_id
}

/// Clone a list of strings, element values kept.
pub fn clone_string_vec(v: &Vec<String>) -> (r: Vec<String>)
    ensures
        r@ == v@,
{
    let r = v.clone();
    proof {
        assert forall|i: int| 0 <= i < v@.len() implies r@[i] == v@[i] by {
            assert(vstd::pervasive::cloned::<String>(v@[i], r@[i]));
        }
        assert(r@ =~= v@);
    }
    r
}

/// Clone an optional string, value kept.
pub fn clone_opt_string(v: &Option<String>) -> (r: Option<String>)
    ensures
        r == *v,
{
    match v {
        Some(s) => Some(s.clone()),
        None => None,
    }
}

impl Clone for SearchResult {
    /// A field-for-field copy.
    fn clone(&self) -> (r: Self)
        ensures
            same_result(r, *self),
    {
        SearchResult {
            uuid: self.uuid.clone(),
            parent_uuid: clone_opt_string(&self.parent_uuid),
            content: self.content.clone(),
            project: self.project.clone(),
            project_path: self.project_path.clone(),
            session_id: self.session_id.clone(),
            timestamp_ms: self.timestamp_ms,
            message_type: self.message_type,
            snippet: self.snippet.clone(),
            technologies: clone_string_vec(&self.technologies),
            code_languages: clone_string_vec(&self.code_languages),
            tools_mentioned: clone_string_vec(&self.tools_mentioned),
            has_code: self.has_code,
            has_error: self.has_error,
            interaction_count: self.interaction_count,
            sequence_num: self.sequence_num,
            is_sidechain: self.is_sidechain,
            agent_id: clone_opt_string(&self.agent_id),
        }
    }
}

impl MessageType {
    /// Role label used in compact output.
    pub fn label(&self) -> (r: &'static str)
        ensures
            *self == MessageType::User ==> r@ == "User"@,
            *self == MessageType::Assistant ==> r@ == "AI"@,
            *self == MessageType::Summary ==> r@ == "Sum"@,
            *self == MessageType::System ==> r@ == "?"@,
    {
        match self {
            MessageType::User => "User",
            MessageType::Assistant => "AI",
            MessageType::Summary => "Sum",
            MessageType::System => "?",
        }
    }

    /// Full role name as stored in the index.
    pub fn name(&self) -> (r: &'static str)
        ensures
            *self == MessageType::User ==> r@ == "User"@,
            *self == MessageType::Assistant ==> r@ == "Assistant"@,
            *self == MessageType::Summary ==> r@ == "Summary"@,
            *self == MessageType::System ==> r@ == "System"@,
    {
        match self {
            MessageType::User => "User",
            MessageType::Assistant => "Assistant",
            MessageType::Summary => "Summary",
            MessageType::System => "System",
        }
    }
}

impl SearchResult {
    pub fn is_displayable(&self) -> (r: bool)
        ensures
            r == spec_displayable(self.message_type, self.content@),
    {
        let role_ok = match self.message_type {
            MessageType::User => true,
            MessageType::Assistant => true,
            MessageType::Summary => true,
            MessageType::System => false,
        };
        role_ok && !str_eq(self.content.as_str(), "Warmup")
    }
}

impl ConversationEntry {
    pub fn is_displayable(&self) -> (r: bool)
        ensures
            r == spec_displayable(self.message_type, self.content@),
    {
        let role_ok = match self.message_type {
            MessageType::User => true,
            MessageType::Assistant => true,
            MessageType::Summary => true,
            MessageType::System => false,
        };
        role_ok && !str_eq(self.content.as_str(), "Warmup")
    }
}

} // verus!
