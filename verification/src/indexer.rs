//! The index writer: owns the single mutable handle on the on-disk
//! full-text index, enforces the schema, and queues deletions before
//! appends.
//!
//! The index itself lives in tantivy behind a small set of trusted
//! wrappers. The schema builder is modeled by its set of field
//! names, and the write stream by a count of queued document
//! additions and the sequence of queued term deletions; the
//! incremental-update contracts are stated over them.

use vstd::prelude::*;
use tantivy::schema::{FAST, INDEXED, STORED, TEXT};
use crate::models::{ConversationEntry, MessageType};
use crate::strings::{join_strings, scan_to, lemma_scan_to_bounds};

verus! {

/// The version of the index field layout; a mismatch on open forces
/// a rebuild.
pub const SCHEMA_VERSION: u32 = 2;

#[verifier::external_type_specification]
#[verifier::external_body]
pub struct ExSchema(tantivy::schema::Schema);

#[verifier::external_type_specification]
#[verifier::external_body]
pub struct ExSchemaBuilder(tantivy::schema::SchemaBuilder);

#[verifier::external_type_specification]
#[verifier::external_body]
pub struct ExField(tantivy::schema::Field);

#[verifier::external_type_specification]
#[verifier::external_body]
pub struct ExIndex(tantivy::Index);

#[verifier::external_type_specification]
#[verifier::external_body]
pub struct ExTantivyDocument(tantivy::TantivyDocument);

#[verifier::external_type_specification]
#[verifier::external_body]
pub struct ExTantivyError(tantivy::TantivyError);

/// The open writer on one index, with the index handle it came from.
/// Holds the tantivy writer; opaque except for the count of queued
/// additions and the sequence of queued term deletions.
#[verifier::external_body]
pub struct WriterHandle {
    index: tantivy::Index,
    writer: tantivy::IndexWriter,
}

/// Number of document additions queued on this writer since it was
/// opened.
pub uninterp spec fn writer_adds(w: WriterHandle) -> int;

/// The term deletions queued on this writer since it was opened:
/// field and term text, in order.
pub uninterp spec fn writer_del_terms(w: WriterHandle) -> Seq<(tantivy::schema::Field, Seq<char>)>;

/// Number of term deletions queued on this writer since it was
/// opened.
pub open spec fn writer_dels(w: WriterHandle) -> int {
    writer_del_terms(w).len() as int
}

/// The names of the fields a schema builder holds so far. Adding a
/// name the builder already holds panics, so every add wrapper
/// requires its absence.
pub uninterp spec fn builder_fields(b: tantivy::schema::SchemaBuilder) -> Set<Seq<char>>;

/// The names of a built schema's fields.
pub uninterp spec fn schema_fields(s: tantivy::schema::Schema) -> Set<Seq<char>>;

/// Relies on tantivy::schema::SchemaBuilder::default: a builder with
/// no fields yet.
#[verifier::external_body]
fn new_schema_builder() -> (r: tantivy::schema::SchemaBuilder)
    ensures
        builder_fields(r) == Set::<Seq<char>>::empty(),
{
    tantivy::schema::SchemaBuilder::default()
}

/// Relies on SchemaBuilder::add_text_field with TEXT | STORED; it
/// panics on a duplicate field name, which `requires` excludes.
#[verifier::external_body]
fn add_text_field_stored(
    b: &mut tantivy::schema::SchemaBuilder,
    name: &str,
) -> (r: tantivy::schema::Field)
    requires
        !builder_fields(*old(b)).contains(name@),
    ensures
        builder_fields(*final(b)) == builder_fields(*old(b)).insert(name@),
{
    b.add_text_field(name, TEXT | STORED)
}

/// Relies on SchemaBuilder::add_text_field with TEXT | STORED | FAST;
/// it panics on a duplicate field name, which `requires` excludes.
#[verifier::external_body]
fn add_text_field_fast(
    b: &mut tantivy::schema::SchemaBuilder,
    name: &str,
) -> (r: tantivy::schema::Field)
    requires
        !builder_fields(*old(b)).contains(name@),
    ensures
        builder_fields(*final(b)) == builder_fields(*old(b)).insert(name@),
{
    b.add_text_field(name, TEXT | STORED | FAST)
}

/// Relies on SchemaBuilder::add_bool_field with INDEXED | STORED |
/// FAST; it panics on a duplicate field name, which `requires`
/// excludes.
#[verifier::external_body]
fn add_bool_field_fast(
    b: &mut tantivy::schema::SchemaBuilder,
    name: &str,
) -> (r: tantivy::schema::Field)
    requires
        !builder_fields(*old(b)).contains(name@),
    ensures
        builder_fields(*final(b)) == builder_fields(*old(b)).insert(name@),
{
    b.add_bool_field(name, INDEXED | STORED | FAST)
}

/// Relies on SchemaBuilder::add_u64_field with INDEXED | STORED |
/// FAST; it panics on a duplicate field name, which `requires`
/// excludes.
#[verifier::external_body]
fn add_u64_field_fast(
    b: &mut tantivy::schema::SchemaBuilder,
    name: &str,
) -> (r: tantivy::schema::Field)
    requires
        !builder_fields(*old(b)).contains(name@),
    ensures
        builder_fields(*final(b)) == builder_fields(*old(b)).insert(name@),
{
    b.add_u64_field(name, INDEXED | STORED | FAST)
}

/// Relies on SchemaBuilder::add_date_field with INDEXED | STORED |
/// FAST; it panics on a duplicate field name, which `requires`
/// excludes.
#[verifier::external_body]
fn add_date_field_fast(
    b: &mut tantivy::schema::SchemaBuilder,
    name: &str,
) -> (r: tantivy::schema::Field)
    requires
        !builder_fields(*old(b)).contains(name@),
    ensures
        builder_fields(*final(b)) == builder_fields(*old(b)).insert(name@),
{
    b.add_date_field(name, INDEXED | STORED | FAST)
}

/// Relies on SchemaBuilder::build: the schema holds exactly the
/// builder's fields.
#[verifier::external_body]
fn schema_build(b: tantivy::schema::SchemaBuilder) -> (r: tantivy::schema::Schema)
    ensures
        schema_fields(r) == builder_fields(b),
{
    b.build()
}

/// Relies on Schema::get_field: the field of that name, present iff
/// the schema holds the name.
#[verifier::external_body]
pub fn schema_get_field(s: &tantivy::schema::Schema, name: &str) -> (r: Option<
    tantivy::schema::Field,
>)
    ensures
        r is Some <==> schema_fields(*s).contains(name@),
{
    s.get_field(name).ok()
}

/// Relies on tantivy::Index::create_in_dir; the directory must exist.
#[verifier::external_body]
fn index_create_in_dir(
    path: &str,
    schema: tantivy::schema::Schema,
) -> Result<tantivy::Index, tantivy::TantivyError> {
    tantivy::Index::create_in_dir(path, schema)
}

/// Relies on tantivy::Index::create_in_ram.
#[verifier::external_body]
fn index_create_in_ram(schema: tantivy::schema::Schema) -> tantivy::Index {
    tantivy::Index::create_in_ram(schema)
}

/// Relies on tantivy::Index::open_in_dir.
#[verifier::external_body]
pub fn index_open_in_dir(path: &str) -> Result<tantivy::Index, tantivy::TantivyError> {
    tantivy::Index::open_in_dir(path)
}

/// Relies on tantivy::Index::schema.
#[verifier::external_body]
pub fn index_schema(ix: &tantivy::Index) -> tantivy::schema::Schema {
    ix.schema()
}

/// Relies on tantivy::TantivyDocument::new.
#[verifier::external_body]
fn doc_new() -> tantivy::TantivyDocument {
    tantivy::TantivyDocument::new()
}

/// Relies on TantivyDocument::add_text.
#[verifier::external_body]
fn doc_add_text(d: &mut tantivy::TantivyDocument, f: tantivy::schema::Field, v: &str) {
    d.add_text(f, v)
}

/// Relies on TantivyDocument::add_bool.
#[verifier::external_body]
fn doc_add_bool(d: &mut tantivy::TantivyDocument, f: tantivy::schema::Field, v: bool) {
    d.add_bool(f, v)
}

/// Relies on TantivyDocument::add_u64.
#[verifier::external_body]
fn doc_add_u64(d: &mut tantivy::TantivyDocument, f: tantivy::schema::Field, v: u64) {
    d.add_u64(f, v)
}

/// Millisecond timestamps the index can store: the conversion to
/// nanoseconds must stay inside an i64.
pub const MAX_STORABLE_TIMESTAMP_MS: i64 = 9_223_372_036_854;

/// Relies on TantivyDocument::add_date and
/// tantivy::DateTime::from_timestamp_millis, which converts to
/// nanoseconds and overflows outside the storable range; `requires`
/// excludes that.
#[verifier::external_body]
fn doc_add_date_ms(d: &mut tantivy::TantivyDocument, f: tantivy::schema::Field, ms: i64)
    requires
        -MAX_STORABLE_TIMESTAMP_MS <= ms <= MAX_STORABLE_TIMESTAMP_MS,
{
    d.add_date(f, tantivy::DateTime::from_timestamp_millis(ms))
}

impl WriterHandle {
    /// Relies on tantivy::Index::writer: a fresh writer with the given
    /// memory budget; nothing is queued on it yet.
    #[verifier::external_body]
    fn from_index(ix: tantivy::Index, heap_bytes: usize) -> (r: Result<
        WriterHandle,
        tantivy::TantivyError,
    >)
        ensures
            r is Ok ==> writer_adds(r.unwrap()) == 0 && writer_del_terms(r.unwrap())
                == Seq::<(tantivy::schema::Field, Seq<char>)>::empty(),
    {
        let writer = ix.writer(heap_bytes)?;
        Ok(WriterHandle { index: ix, writer })
    }

    /// Relies on IndexWriter::add_document: queues one more document
    /// addition on success; on failure at most that one operation was
    /// queued.
    #[verifier::external_body]
    fn add_document(&mut self, doc: tantivy::TantivyDocument) -> (r: Result<
        (),
        tantivy::TantivyError,
    >)
        ensures
            r is Ok ==> writer_adds(*final(self)) == writer_adds(*old(self)) + 1,
            writer_adds(*old(self)) <= writer_adds(*final(self)) <= writer_adds(*old(self)) + 1,
            writer_del_terms(*final(self)) == writer_del_terms(*old(self)),
    {
        self.writer.add_document(doc)?;
        Ok(())
    }

    /// Relies on Term::from_field_text and IndexWriter::delete_term:
    /// queues exactly one more deletion, of every document whose
    /// field holds the given term.
    #[verifier::external_body]
    fn delete_term_text(&mut self, f: tantivy::schema::Field, text: &str)
        ensures
            writer_del_terms(*final(self)) == writer_del_terms(*old(self)).push((f, text@)),
            writer_adds(*final(self)) == writer_adds(*old(self)),
    {
        let term = tantivy::Term::from_field_text(f, text);
        self.writer.delete_term(term);
    }

    /// Relies on IndexWriter::commit: makes the queued operations
    /// visible to readers; nothing new is queued.
    #[verifier::external_body]
    fn commit(&mut self) -> (r: Result<(), tantivy::TantivyError>)
        ensures
            writer_adds(*final(self)) == writer_adds(*old(self)),
            writer_del_terms(*final(self)) == writer_del_terms(*old(self)),
    {
        self.writer.commit()?;
        Ok(())
    }

    /// Relies on tantivy::Index being cheaply clonable: another handle
    /// on the same index, for opening readers.
    #[verifier::external_body]
    pub fn index_clone(&self) -> tantivy::Index {
        self.index.clone()
    }
}

/// The handles of every field of the index schema.
pub struct IndexFields {
    pub uuid_field: tantivy::schema::Field,
    pub parent_uuid_field: tantivy::schema::Field,
    pub content_field: tantivy::schema::Field,
    pub project_field: tantivy::schema::Field,
    pub session_field: tantivy::schema::Field,
    pub timestamp_field: tantivy::schema::Field,
    pub message_type_field: tantivy::schema::Field,
    pub model_field: tantivy::schema::Field,
    pub technologies_field: tantivy::schema::Field,
    pub code_languages_field: tantivy::schema::Field,
    pub tools_mentioned_field: tantivy::schema::Field,
    pub has_code_field: tantivy::schema::Field,
    pub has_error_field: tantivy::schema::Field,
    pub cwd_field: tantivy::schema::Field,
    pub sequence_num_field: tantivy::schema::Field,
    pub is_sidechain_field: tantivy::schema::Field,
    pub agent_id_field: tantivy::schema::Field,
}

/// Why an index could not be opened, created or written.
#[derive(Clone, Copy, Debug, PartialEq, Eq, Structural)]
pub enum IndexError {
    /// The index directory could not be created or initialized.
    CreateFailed,
    /// The index could not be opened.
    OpenFailed,
    /// The on-disk schema lacks a required field; callers treat this
    /// as a rebuild signal.
    SchemaMismatch,
    /// A write or commit failed.
    WriteFailed,
}

/// The single-writer handle on the full-text index.
pub struct SearchIndexer {
    pub handle: WriterHandle,
    pub fields: IndexFields,
}

/// The first hyphen-separated segment of a session id: the term a
/// session deletion matches on.
pub open spec fn first_segment(s: Seq<char>) -> Seq<char> {
    s.subrange(0, scan_to(s, 0, '-'))
}

/// The field names of the canonical schema.
pub open spec fn required_field_names() -> Set<Seq<char>> {
    set![
        "uuid"@,
        "parent_uuid"@,
        "content"@,
        "project"@,
        "session_id"@,
        "timestamp"@,
        "message_type"@,
        "model"@,
        "technologies"@,
        "code_languages"@,
        "tools_mentioned"@,
        "has_code"@,
        "has_error"@,
        "cwd"@,
        "sequence_num"@,
        "is_sidechain"@,
        "agent_id"@,
    ]
}

/// The schema holds every canonical field name.
pub open spec fn schema_has_required(s: tantivy::schema::Schema) -> bool {
    &&& schema_fields(s).contains("uuid"@)
    &&& schema_fields(s).contains("parent_uuid"@)
    &&& schema_fields(s).contains("content"@)
    &&& schema_fields(s).contains("project"@)
    &&& schema_fields(s).contains("session_id"@)
    &&& schema_fields(s).contains("timestamp"@)
    &&& schema_fields(s).contains("message_type"@)
    &&& schema_fields(s).contains("model"@)
    &&& schema_fields(s).contains("technologies"@)
    &&& schema_fields(s).contains("code_languages"@)
    &&& schema_fields(s).contains("tools_mentioned"@)
    &&& schema_fields(s).contains("has_code"@)
    &&& schema_fields(s).contains("has_error"@)
    &&& schema_fields(s).contains("cwd"@)
    &&& schema_fields(s).contains("sequence_num"@)
    &&& schema_fields(s).contains("is_sidechain"@)
    &&& schema_fields(s).contains("agent_id"@)
}

impl SearchIndexer {
    /// Number of document additions queued since this writer opened.
    pub open spec fn adds(&self) -> int {
        writer_adds(self.handle)
    }

    /// The term deletions queued since this writer opened, in order.
    pub open spec fn del_terms(&self) -> Seq<(tantivy::schema::Field, Seq<char>)> {
        writer_del_terms(self.handle)
    }

    /// Number of term deletions queued since this writer opened.
    pub open spec fn dels(&self) -> int {
        writer_dels(self.handle)
    }

    /// The canonical schema: every stored field of a message record.
    #[verifier::rlimit(60)]
    pub fn build_schema() -> (r: (tantivy::schema::Schema, IndexFields))
        ensures
            schema_fields(r.0) == required_field_names(),
    {
        proof {
            // Reveal the canonical names and record that they are
            // pairwise distinct: each add below then provably never
            // repeats a field name, which adding would panic on.
            reveal_strlit("uuid");
            reveal_strlit("parent_uuid");
            reveal_strlit("content");
            reveal_strlit("project");
            reveal_strlit("session_id");
            reveal_strlit("timestamp");
            reveal_strlit("message_type");
            reveal_strlit("model");
            reveal_strlit("technologies");
            reveal_strlit("code_languages");
            reveal_strlit("tools_mentioned");
            reveal_strlit("has_code");
            reveal_strlit("has_error");
            reveal_strlit("cwd");
            reveal_strlit("sequence_num");
            reveal_strlit("is_sidechain");
            reveal_strlit("agent_id");
            assert("uuid"@ != "parent_uuid"@) by { assert("uuid"@.len() == 4); assert("parent_uuid"@.len() == 11); }
            assert("uuid"@ != "content"@) by { assert("uuid"@.len() == 4); assert("content"@.len() == 7); }
            assert("uuid"@ != "project"@) by { assert("uuid"@.len() == 4); assert("project"@.len() == 7); }
            assert("uuid"@ != "session_id"@) by { assert("uuid"@.len() == 4); assert("session_id"@.len() == 10); }
            assert("uuid"@ != "timestamp"@) by { assert("uuid"@.len() == 4); assert("timestamp"@.len() == 9); }
            assert("uuid"@ != "message_type"@) by { assert("uuid"@.len() == 4); assert("message_type"@.len() == 12); }
            assert("uuid"@ != "model"@) by { assert("uuid"@.len() == 4); assert("model"@.len() == 5); }
            assert("uuid"@ != "technologies"@) by { assert("uuid"@.len() == 4); assert("technologies"@.len() == 12); }
            assert("uuid"@ != "code_languages"@) by { assert("uuid"@.len() == 4); assert("code_languages"@.len() == 14); }
            assert("uuid"@ != "tools_mentioned"@) by { assert("uuid"@.len() == 4); assert("tools_mentioned"@.len() == 15); }
            assert("uuid"@ != "has_code"@) by { assert("uuid"@.len() == 4); assert("has_code"@.len() == 8); }
            assert("uuid"@ != "has_error"@) by { assert("uuid"@.len() == 4); assert("has_error"@.len() == 9); }
            assert("uuid"@ != "cwd"@) by { assert("uuid"@.len() == 4); assert("cwd"@.len() == 3); }
            assert("uuid"@ != "sequence_num"@) by { assert("uuid"@.len() == 4); assert("sequence_num"@.len() == 12); }
            assert("uuid"@ != "is_sidechain"@) by { assert("uuid"@.len() == 4); assert("is_sidechain"@.len() == 12); }
            assert("uuid"@ != "agent_id"@) by { assert("uuid"@.len() == 4); assert("agent_id"@.len() == 8); }
            assert("parent_uuid"@ != "content"@) by { assert("parent_uuid"@.len() == 11); assert("content"@.len() == 7); }
            assert("parent_uuid"@ != "project"@) by { assert("parent_uuid"@.len() == 11); assert("project"@.len() == 7); }
            assert("parent_uuid"@ != "session_id"@) by { assert("parent_uuid"@.len() == 11); assert("session_id"@.len() == 10); }
            assert("parent_uuid"@ != "timestamp"@) by { assert("parent_uuid"@.len() == 11); assert("timestamp"@.len() == 9); }
            assert("parent_uuid"@ != "message_type"@) by { assert("parent_uuid"@.len() == 11); assert("message_type"@.len() == 12); }
            assert("parent_uuid"@ != "model"@) by { assert("parent_uuid"@.len() == 11); assert("model"@.len() == 5); }
            assert("parent_uuid"@ != "technologies"@) by { assert("parent_uuid"@.len() == 11); assert("technologies"@.len() == 12); }
            assert("parent_uuid"@ != "code_languages"@) by { assert("parent_uuid"@.len() == 11); assert("code_languages"@.len() == 14); }
            assert("parent_uuid"@ != "tools_mentioned"@) by { assert("parent_uuid"@.len() == 11); assert("tools_mentioned"@.len() == 15); }
            assert("parent_uuid"@ != "has_code"@) by { assert("parent_uuid"@.len() == 11); assert("has_code"@.len() == 8); }
            assert("parent_uuid"@ != "has_error"@) by { assert("parent_uuid"@.len() == 11); assert("has_error"@.len() == 9); }
            assert("parent_uuid"@ != "cwd"@) by { assert("parent_uuid"@.len() == 11); assert("cwd"@.len() == 3); }
            assert("parent_uuid"@ != "sequence_num"@) by { assert("parent_uuid"@.len() == 11); assert("sequence_num"@.len() == 12); }
            assert("parent_uuid"@ != "is_sidechain"@) by { assert("parent_uuid"@.len() == 11); assert("is_sidechain"@.len() == 12); }
            assert("parent_uuid"@ != "agent_id"@) by { assert("parent_uuid"@.len() == 11); assert("agent_id"@.len() == 8); }
            assert("content"@ != "project"@) by { assert("content"@[0] == 'c'); assert("project"@[0] == 'p'); }
            assert("content"@ != "session_id"@) by { assert("content"@.len() == 7); assert("session_id"@.len() == 10); }
            assert("content"@ != "timestamp"@) by { assert("content"@.len() == 7); assert("timestamp"@.len() == 9); }
            assert("content"@ != "message_type"@) by { assert("content"@.len() == 7); assert("message_type"@.len() == 12); }
            assert("content"@ != "model"@) by { assert("content"@.len() == 7); assert("model"@.len() == 5); }
            assert("content"@ != "technologies"@) by { assert("content"@.len() == 7); assert("technologies"@.len() == 12); }
            assert("content"@ != "code_languages"@) by { assert("content"@.len() == 7); assert("code_languages"@.len() == 14); }
            assert("content"@ != "tools_mentioned"@) by { assert("content"@.len() == 7); assert("tools_mentioned"@.len() == 15); }
            assert("content"@ != "has_code"@) by { assert("content"@.len() == 7); assert("has_code"@.len() == 8); }
            assert("content"@ != "has_error"@) by { assert("content"@.len() == 7); assert("has_error"@.len() == 9); }
            assert("content"@ != "cwd"@) by { assert("content"@.len() == 7); assert("cwd"@.len() == 3); }
            assert("content"@ != "sequence_num"@) by { assert("content"@.len() == 7); assert("sequence_num"@.len() == 12); }
            assert("content"@ != "is_sidechain"@) by { assert("content"@.len() == 7); assert("is_sidechain"@.len() == 12); }
            assert("content"@ != "agent_id"@) by { assert("content"@.len() == 7); assert("agent_id"@.len() == 8); }
            assert("project"@ != "session_id"@) by { assert("project"@.len() == 7); assert("session_id"@.len() == 10); }
            assert("project"@ != "timestamp"@) by { assert("project"@.len() == 7); assert("timestamp"@.len() == 9); }
            assert("project"@ != "message_type"@) by { assert("project"@.len() == 7); assert("message_type"@.len() == 12); }
            assert("project"@ != "model"@) by { assert("project"@.len() == 7); assert("model"@.len() == 5); }
            assert("project"@ != "technologies"@) by { assert("project"@.len() == 7); assert("technologies"@.len() == 12); }
            assert("project"@ != "code_languages"@) by { assert("project"@.len() == 7); assert("code_languages"@.len() == 14); }
            assert("project"@ != "tools_mentioned"@) by { assert("project"@.len() == 7); assert("tools_mentioned"@.len() == 15); }
            assert("project"@ != "has_code"@) by { assert("project"@.len() == 7); assert("has_code"@.len() == 8); }
            assert("project"@ != "has_error"@) by { assert("project"@.len() == 7); assert("has_error"@.len() == 9); }
            assert("project"@ != "cwd"@) by { assert("project"@.len() == 7); assert("cwd"@.len() == 3); }
            assert("project"@ != "sequence_num"@) by { assert("project"@.len() == 7); assert("sequence_num"@.len() == 12); }
            assert("project"@ != "is_sidechain"@) by { assert("project"@.len() == 7); assert("is_sidechain"@.len() == 12); }
            assert("project"@ != "agent_id"@) by { assert("project"@.len() == 7); assert("agent_id"@.len() == 8); }
            assert("session_id"@ != "timestamp"@) by { assert("session_id"@.len() == 10); assert("timestamp"@.len() == 9); }
            assert("session_id"@ != "message_type"@) by { assert("session_id"@.len() == 10); assert("message_type"@.len() == 12); }
            assert("session_id"@ != "model"@) by { assert("session_id"@.len() == 10); assert("model"@.len() == 5); }
            assert("session_id"@ != "technologies"@) by { assert("session_id"@.len() == 10); assert("technologies"@.len() == 12); }
            assert("session_id"@ != "code_languages"@) by { assert("session_id"@.len() == 10); assert("code_languages"@.len() == 14); }
            assert("session_id"@ != "tools_mentioned"@) by { assert("session_id"@.len() == 10); assert("tools_mentioned"@.len() == 15); }
            assert("session_id"@ != "has_code"@) by { assert("session_id"@.len() == 10); assert("has_code"@.len() == 8); }
            assert("session_id"@ != "has_error"@) by { assert("session_id"@.len() == 10); assert("has_error"@.len() == 9); }
            assert("session_id"@ != "cwd"@) by { assert("session_id"@.len() == 10); assert("cwd"@.len() == 3); }
            assert("session_id"@ != "sequence_num"@) by { assert("session_id"@.len() == 10); assert("sequence_num"@.len() == 12); }
            assert("session_id"@ != "is_sidechain"@) by { assert("session_id"@.len() == 10); assert("is_sidechain"@.len() == 12); }
            assert("session_id"@ != "agent_id"@) by { assert("session_id"@.len() == 10); assert("agent_id"@.len() == 8); }
            assert("timestamp"@ != "message_type"@) by { assert("timestamp"@.len() == 9); assert("message_type"@.len() == 12); }
            assert("timestamp"@ != "model"@) by { assert("timestamp"@.len() == 9); assert("model"@.len() == 5); }
            assert("timestamp"@ != "technologies"@) by { assert("timestamp"@.len() == 9); assert("technologies"@.len() == 12); }
            assert("timestamp"@ != "code_languages"@) by { assert("timestamp"@.len() == 9); assert("code_languages"@.len() == 14); }
            assert("timestamp"@ != "tools_mentioned"@) by { assert("timestamp"@.len() == 9); assert("tools_mentioned"@.len() == 15); }
            assert("timestamp"@ != "has_code"@) by { assert("timestamp"@.len() == 9); assert("has_code"@.len() == 8); }
            assert("timestamp"@ != "has_error"@) by { assert("timestamp"@[0] == 't'); assert("has_error"@[0] == 'h'); }
            assert("timestamp"@ != "cwd"@) by { assert("timestamp"@.len() == 9); assert("cwd"@.len() == 3); }
            assert("timestamp"@ != "sequence_num"@) by { assert("timestamp"@.len() == 9); assert("sequence_num"@.len() == 12); }
            assert("timestamp"@ != "is_sidechain"@) by { assert("timestamp"@.len() == 9); assert("is_sidechain"@.len() == 12); }
            assert("timestamp"@ != "agent_id"@) by { assert("timestamp"@.len() == 9); assert("agent_id"@.len() == 8); }
            assert("message_type"@ != "model"@) by { assert("message_type"@.len() == 12); assert("model"@.len() == 5); }
            assert("message_type"@ != "technologies"@) by { assert("message_type"@[0] == 'm'); assert("technologies"@[0] == 't'); }
            assert("message_type"@ != "code_languages"@) by { assert("message_type"@.len() == 12); assert("code_languages"@.len() == 14); }
            assert("message_type"@ != "tools_mentioned"@) by { assert("message_type"@.len() == 12); assert("tools_mentioned"@.len() == 15); }
            assert("message_type"@ != "has_code"@) by { assert("message_type"@.len() == 12); assert("has_code"@.len() == 8); }
            assert("message_type"@ != "has_error"@) by { assert("message_type"@.len() == 12); assert("has_error"@.len() == 9); }
            assert("message_type"@ != "cwd"@) by { assert("message_type"@.len() == 12); assert("cwd"@.len() == 3); }
            assert("message_type"@ != "sequence_num"@) by { assert("message_type"@[0] == 'm'); assert("sequence_num"@[0] == 's'); }
            assert("message_type"@ != "is_sidechain"@) by { assert("message_type"@[0] == 'm'); assert("is_sidechain"@[0] == 'i'); }
            assert("message_type"@ != "agent_id"@) by { assert("message_type"@.len() == 12); assert("agent_id"@.len() == 8); }
            assert("model"@ != "technologies"@) by { assert("model"@.len() == 5); assert("technologies"@.len() == 12); }
            assert("model"@ != "code_languages"@) by { assert("model"@.len() == 5); assert("code_languages"@.len() == 14); }
            assert("model"@ != "tools_mentioned"@) by { assert("model"@.len() == 5); assert("tools_mentioned"@.len() == 15); }
            assert("model"@ != "has_code"@) by { assert("model"@.len() == 5); assert("has_code"@.len() == 8); }
            assert("model"@ != "has_error"@) by { assert("model"@.len() == 5); assert("has_error"@.len() == 9); }
            assert("model"@ != "cwd"@) by { assert("model"@.len() == 5); assert("cwd"@.len() == 3); }
            assert("model"@ != "sequence_num"@) by { assert("model"@.len() == 5); assert("sequence_num"@.len() == 12); }
            assert("model"@ != "is_sidechain"@) by { assert("model"@.len() == 5); assert("is_sidechain"@.len() == 12); }
            assert("model"@ != "agent_id"@) by { assert("model"@.len() == 5); assert("agent_id"@.len() == 8); }
            assert("technologies"@ != "code_languages"@) by { assert("technologies"@.len() == 12); assert("code_languages"@.len() == 14); }
            assert("technologies"@ != "tools_mentioned"@) by { assert("technologies"@.len() == 12); assert("tools_mentioned"@.len() == 15); }
            assert("technologies"@ != "has_code"@) by { assert("technologies"@.len() == 12); assert("has_code"@.len() == 8); }
            assert("technologies"@ != "has_error"@) by { assert("technologies"@.len() == 12); assert("has_error"@.len() == 9); }
            assert("technologies"@ != "cwd"@) by { assert("technologies"@.len() == 12); assert("cwd"@.len() == 3); }
            assert("technologies"@ != "sequence_num"@) by { assert("technologies"@[0] == 't'); assert("sequence_num"@[0] == 's'); }
            assert("technologies"@ != "is_sidechain"@) by { assert("technologies"@[0] == 't'); assert("is_sidechain"@[0] == 'i'); }
            assert("technologies"@ != "agent_id"@) by { assert("technologies"@.len() == 12); assert("agent_id"@.len() == 8); }
            assert("code_languages"@ != "tools_mentioned"@) by { assert("code_languages"@.len() == 14); assert("tools_mentioned"@.len() == 15); }
            assert("code_languages"@ != "has_code"@) by { assert("code_languages"@.len() == 14); assert("has_code"@.len() == 8); }
            assert("code_languages"@ != "has_error"@) by { assert("code_languages"@.len() == 14); assert("has_error"@.len() == 9); }
            assert("code_languages"@ != "cwd"@) by { assert("code_languages"@.len() == 14); assert("cwd"@.len() == 3); }
            assert("code_languages"@ != "sequence_num"@) by { assert("code_languages"@.len() == 14); assert("sequence_num"@.len() == 12); }
            assert("code_languages"@ != "is_sidechain"@) by { assert("code_languages"@.len() == 14); assert("is_sidechain"@.len() == 12); }
            assert("code_languages"@ != "agent_id"@) by { assert("code_languages"@.len() == 14); assert("agent_id"@.len() == 8); }
            assert("tools_mentioned"@ != "has_code"@) by { assert("tools_mentioned"@.len() == 15); assert("has_code"@.len() == 8); }
            assert("tools_mentioned"@ != "has_error"@) by { assert("tools_mentioned"@.len() == 15); assert("has_error"@.len() == 9); }
            assert("tools_mentioned"@ != "cwd"@) by { assert("tools_mentioned"@.len() == 15); assert("cwd"@.len() == 3); }
            assert("tools_mentioned"@ != "sequence_num"@) by { assert("tools_mentioned"@.len() == 15); assert("sequence_num"@.len() == 12); }
            assert("tools_mentioned"@ != "is_sidechain"@) by { assert("tools_mentioned"@.len() == 15); assert("is_sidechain"@.len() == 12); }
            assert("tools_mentioned"@ != "agent_id"@) by { assert("tools_mentioned"@.len() == 15); assert("agent_id"@.len() == 8); }
            assert("has_code"@ != "has_error"@) by { assert("has_code"@.len() == 8); assert("has_error"@.len() == 9); }
            assert("has_code"@ != "cwd"@) by { assert("has_code"@.len() == 8); assert("cwd"@.len() == 3); }
            assert("has_code"@ != "sequence_num"@) by { assert("has_code"@.len() == 8); assert("sequence_num"@.len() == 12); }
            assert("has_code"@ != "is_sidechain"@) by { assert("has_code"@.len() == 8); assert("is_sidechain"@.len() == 12); }
            assert("has_code"@ != "agent_id"@) by { assert("has_code"@[0] == 'h'); assert("agent_id"@[0] == 'a'); }
            assert("has_error"@ != "cwd"@) by { assert("has_error"@.len() == 9); assert("cwd"@.len() == 3); }
            assert("has_error"@ != "sequence_num"@) by { assert("has_error"@.len() == 9); assert("sequence_num"@.len() == 12); }
            assert("has_error"@ != "is_sidechain"@) by { assert("has_error"@.len() == 9); assert("is_sidechain"@.len() == 12); }
            assert("has_error"@ != "agent_id"@) by { assert("has_error"@.len() == 9); assert("agent_id"@.len() == 8); }
            assert("cwd"@ != "sequence_num"@) by { assert("cwd"@.len() == 3); assert("sequence_num"@.len() == 12); }
            assert("cwd"@ != "is_sidechain"@) by { assert("cwd"@.len() == 3); assert("is_sidechain"@.len() == 12); }
            assert("cwd"@ != "agent_id"@) by { assert("cwd"@.len() == 3); assert("agent_id"@.len() == 8); }
            assert("sequence_num"@ != "is_sidechain"@) by { assert("sequence_num"@[0] == 's'); assert("is_sidechain"@[0] == 'i'); }
            assert("sequence_num"@ != "agent_id"@) by { assert("sequence_num"@.len() == 12); assert("agent_id"@.len() == 8); }
            assert("is_sidechain"@ != "agent_id"@) by { assert("is_sidechain"@.len() == 12); assert("agent_id"@.len() == 8); }
        }
        let mut b = new_schema_builder();
        let uuid_field = add_text_field_fast(&mut b, "uuid");
        let parent_uuid_field = add_text_field_fast(&mut b, "parent_uuid");
        let content_field = add_text_field_stored(&mut b, "content");
        let project_field = add_text_field_fast(&mut b, "project");
        let session_field = add_text_field_fast(&mut b, "session_id");
        let timestamp_field = add_date_field_fast(&mut b, "timestamp");
        let message_type_field = add_text_field_fast(&mut b, "message_type");
        let model_field = add_text_field_fast(&mut b, "model");
        let technologies_field = add_text_field_fast(&mut b, "technologies");
        let code_languages_field = add_text_field_fast(&mut b, "code_languages");
        let tools_mentioned_field = add_text_field_fast(&mut b, "tools_mentioned");
        let has_code_field = add_bool_field_fast(&mut b, "has_code");
        let has_error_field = add_bool_field_fast(&mut b, "has_error");
        let cwd_field = add_text_field_fast(&mut b, "cwd");
        let sequence_num_field = add_u64_field_fast(&mut b, "sequence_num");
        let is_sidechain_field = add_bool_field_fast(&mut b, "is_sidechain");
        let agent_id_field = add_text_field_fast(&mut b, "agent_id");
        let schema = schema_build(b);
        proof {
            assert(schema_fields(schema) =~= required_field_names());
        }
        let fields = IndexFields {
            uuid_field,
            parent_uuid_field,
            content_field,
            project_field,
            session_field,
            timestamp_field,
            message_type_field,
            model_field,
            technologies_field,
            code_languages_field,
            tools_mentioned_field,
            has_code_field,
            has_error_field,
            cwd_field,
            sequence_num_field,
            is_sidechain_field,
            agent_id_field,
        };
        (schema, fields)
    }

    /// Initialize a fresh index in an existing, empty directory.
    pub fn new(index_path: &str, heap_bytes: usize) -> (r: Result<SearchIndexer, IndexError>)
        ensures
            r is Ok ==> r.unwrap().adds() == 0 && r.unwrap().del_terms()
                == Seq::<(tantivy::schema::Field, Seq<char>)>::empty(),
    {
        let (schema, fields) = Self::build_schema();
        let ix = match index_create_in_dir(index_path, schema) {
            Ok(ix) => ix,
            Err(_) => {
                return Err(IndexError::CreateFailed);
            },
        };
        match WriterHandle::from_index(ix, heap_bytes) {
            Ok(handle) => Ok(SearchIndexer { handle, fields }),
            Err(_) => Err(IndexError::CreateFailed),
        }
    }

    /// Initialize a fresh index held in memory, for embedded use.
    pub fn new_in_ram(heap_bytes: usize) -> (r: Result<SearchIndexer, IndexError>)
        ensures
            r is Ok ==> r.unwrap().adds() == 0 && r.unwrap().del_terms()
                == Seq::<(tantivy::schema::Field, Seq<char>)>::empty(),
    {
        let (schema, fields) = Self::build_schema();
        let ix = index_create_in_ram(schema);
        match WriterHandle::from_index(ix, heap_bytes) {
            Ok(handle) => Ok(SearchIndexer { handle, fields }),
            Err(_) => Err(IndexError::CreateFailed),
        }
    }

    /// Reopen an existing index, resolving every schema field; a
    /// missing field is a schema mismatch, which callers treat as a
    /// rebuild signal.
    pub fn open(index_path: &str, heap_bytes: usize) -> (r: Result<SearchIndexer, IndexError>)
        ensures
            r is Ok ==> r.unwrap().adds() == 0 && r.unwrap().del_terms()
                == Seq::<(tantivy::schema::Field, Seq<char>)>::empty(),
    {
        let ix = match index_open_in_dir(index_path) {
            Ok(ix) => ix,
            Err(_) => {
                return Err(IndexError::OpenFailed);
            },
        };
        let schema = index_schema(&ix);
        let fields = match Self::resolve_fields(&schema) {
            Some(f) => f,
            None => {
                return Err(IndexError::SchemaMismatch);
            },
        };
        match WriterHandle::from_index(ix, heap_bytes) {
            Ok(handle) => Ok(SearchIndexer { handle, fields }),
            Err(_) => Err(IndexError::OpenFailed),
        }
    }

    /// Resolve every schema field by name; `Some` exactly when the
    /// schema holds every canonical field.
    pub fn resolve_fields(schema: &tantivy::schema::Schema) -> (r: Option<IndexFields>)
        ensures
            r is Some <==> schema_has_required(*schema),
    {
        let uuid_field = schema_get_field(schema, "uuid")?;
        let parent_uuid_field = schema_get_field(schema, "parent_uuid")?;
        let content_field = schema_get_field(schema, "content")?;
        let project_field = schema_get_field(schema, "project")?;
        let session_field = schema_get_field(schema, "session_id")?;
        let timestamp_field = schema_get_field(schema, "timestamp")?;
        let message_type_field = schema_get_field(schema, "message_type")?;
        let model_field = schema_get_field(schema, "model")?;
        let technologies_field = schema_get_field(schema, "technologies")?;
        let code_languages_field = schema_get_field(schema, "code_languages")?;
        let tools_mentioned_field = schema_get_field(schema, "tools_mentioned")?;
        let has_code_field = schema_get_field(schema, "has_code")?;
        let has_error_field = schema_get_field(schema, "has_error")?;
        let cwd_field = schema_get_field(schema, "cwd")?;
        let sequence_num_field = schema_get_field(schema, "sequence_num")?;
        let is_sidechain_field = schema_get_field(schema, "is_sidechain")?;
        let agent_id_field = schema_get_field(schema, "agent_id")?;
        Some(
            IndexFields {
                uuid_field,
                parent_uuid_field,
                content_field,
                project_field,
                session_field,
                timestamp_field,
                message_type_field,
                model_field,
                technologies_field,
                code_languages_field,
                tools_mentioned_field,
                has_code_field,
                has_error_field,
                cwd_field,
                sequence_num_field,
                is_sidechain_field,
                agent_id_field,
            },
        )
    }

    /// Does an existing on-disk index carry every required field?
    pub fn validate_schema(index_path: &str) -> (r: Result<bool, IndexError>) {
        let ix = match index_open_in_dir(index_path) {
            Ok(ix) => ix,
            Err(_) => {
                return Err(IndexError::OpenFailed);
            },
        };
        let schema = index_schema(&ix);
        match Self::resolve_fields(&schema) {
            Some(_) => Ok(true),
            None => Ok(false),
        }
    }

    /// Another handle on the same index, for opening readers.
    pub fn index_handle(&self) -> tantivy::Index {
        self.handle.index_clone()
    }

    /// Queue the deletion of every record of one session. The session
    /// field is tokenized on hyphens, so the first hyphen-separated
    /// segment of the id is matched; the caller always follows with a
    /// re-append of the session from its source file.
    pub fn delete_session(&mut self, session_id: &str)
        ensures
            final(self).del_terms() == old(self).del_terms().push(
                (old(self).fields.session_field, first_segment(session_id@)),
            ),
            final(self).adds() == old(self).adds(),
            final(self).fields == old(self).fields,
    {
        let n: usize = session_id.unicode_len();
        let mut e: usize = 0;
        proof {
            lemma_scan_to_bounds(session_id@, 0, '-');
        }
        while e < n && session_id.get_char(e) != '-'
            invariant
                n == session_id@.len(),
                e <= n,
                scan_to(session_id@, 0, '-') == scan_to(session_id@, e as int, '-'),
            decreases n - e,
        {
            e = e + 1;
        }
        proof {
            assert(scan_to(session_id@, e as int, '-') == e as int);
        }
        let seg = session_id.substring_char(0, e);
        let f = self.fields.session_field;
        self.handle.delete_term_text(f, seg);
    }

    /// Write all records; on return, any deletions queued in the same
    /// batch stand before these appends, and the batch is committed.
    pub fn index_conversations(&mut self, entries: Vec<ConversationEntry>) -> (r: Result<
        (),
        IndexError,
    >)
        ensures
            final(self).del_terms() == old(self).del_terms(),
            final(self).fields == old(self).fields,
            old(self).adds() <= final(self).adds() <= old(self).adds() + entries@.len(),
            r is Ok ==> final(self).adds() == old(self).adds() + entries@.len(),
    {
        let n = entries.len();
        let mut i: usize = 0;
        while i < n
            invariant
                n == entries@.len(),
                i <= n,
                self.del_terms() == old(self).del_terms(),
                self.fields == old(self).fields,
                self.adds() == old(self).adds() + i,
            decreases n - i,
        {
            let doc = build_document(&entries[i], &self.fields);
            match self.handle.add_document(doc) {
                Ok(()) => {},
                Err(_) => {
                    return Err(IndexError::WriteFailed);
                },
            }
            i = i + 1;
        }
        match self.handle.commit() {
            Ok(()) => Ok(()),
            Err(_) => Err(IndexError::WriteFailed),
        }
    }

    /// Write all records without committing; deletions queued earlier
    /// in the batch stay ordered before these appends.
    pub fn append(&mut self, entries: Vec<ConversationEntry>) -> (r: Result<(), IndexError>)
        ensures
            final(self).del_terms() == old(self).del_terms(),
            final(self).fields == old(self).fields,
            old(self).adds() <= final(self).adds() <= old(self).adds() + entries@.len(),
            r is Ok ==> final(self).adds() == old(self).adds() + entries@.len(),
    {
        let n = entries.len();
        let mut i: usize = 0;
        while i < n
            invariant
                n == entries@.len(),
                i <= n,
                self.del_terms() == old(self).del_terms(),
                self.fields == old(self).fields,
                self.adds() == old(self).adds() + i,
            decreases n - i,
        {
            let doc = build_document(&entries[i], &self.fields);
            match self.handle.add_document(doc) {
                Ok(()) => {},
                Err(_) => {
                    return Err(IndexError::WriteFailed);
                },
            }
            i = i + 1;
        }
        Ok(())
    }

    /// Commit any queued operations without appending.
    pub fn commit(&mut self) -> (r: Result<(), IndexError>)
        ensures
            final(self).del_terms() == old(self).del_terms(),
            final(self).adds() == old(self).adds(),
            final(self).fields == old(self).fields,
    {
        match self.handle.commit() {
            Ok(()) => Ok(()),
            Err(_) => Err(IndexError::WriteFailed),
        }
    }
}

/// One record turned into an index document, field by field.
fn build_document(e: &ConversationEntry, fields: &IndexFields) -> (r: tantivy::TantivyDocument) {
    let mut doc = doc_new();
    doc_add_text(&mut doc, fields.uuid_field, e.uuid.as_str());
    match &e.parent_uuid {
        Some(p) => doc_add_text(&mut doc, fields.parent_uuid_field, p.as_str()),
        None => doc_add_text(&mut doc, fields.parent_uuid_field, ""),
    }
    doc_add_text(&mut doc, fields.content_field, e.content.as_str());
    doc_add_text(&mut doc, fields.project_field, e.project.as_str());
    doc_add_text(&mut doc, fields.session_field, e.session_id.as_str());
    // Timestamps outside the index's storable range are clamped to
    // its bounds.
    let stored_ms: i64 = if e.timestamp_ms > MAX_STORABLE_TIMESTAMP_MS {
        MAX_STORABLE_TIMESTAMP_MS
    } else if e.timestamp_ms < -MAX_STORABLE_TIMESTAMP_MS {
        -MAX_STORABLE_TIMESTAMP_MS
    } else {
        e.timestamp_ms
    };
    doc_add_date_ms(&mut doc, fields.timestamp_field, stored_ms);
    doc_add_text(&mut doc, fields.message_type_field, e.message_type.name());
    match &e.model {
        Some(m) => doc_add_text(&mut doc, fields.model_field, m.as_str()),
        None => doc_add_text(&mut doc, fields.model_field, "unknown"),
    }
    let technologies = join_strings(&e.technologies, " ");
    doc_add_text(&mut doc, fields.technologies_field, technologies.as_str());
    let code_languages = join_strings(&e.code_languages, " ");
    doc_add_text(&mut doc, fields.code_languages_field, code_languages.as_str());
    let tools_mentioned = join_strings(&e.tools_mentioned, " ");
    doc_add_text(&mut doc, fields.tools_mentioned_field, tools_mentioned.as_str());
    doc_add_bool(&mut doc, fields.has_code_field, e.has_code);
    doc_add_bool(&mut doc, fields.has_error_field, e.has_error);
    match &e.cwd {
        Some(c) => doc_add_text(&mut doc, fields.cwd_field, c.as_str()),
        None => doc_add_text(&mut doc, fields.cwd_field, "unknown"),
    }
    doc_add_u64(&mut doc, fields.sequence_num_field, e.sequence_num as u64);
    doc_add_bool(&mut doc, fields.is_sidechain_field, e.is_sidechain);
    match &e.agent_id {
        Some(a) => doc_add_text(&mut doc, fields.agent_id_field, a.as_str()),
        None => doc_add_text(&mut doc, fields.agent_id_field, ""),
    }
    doc
}

} // verus!
