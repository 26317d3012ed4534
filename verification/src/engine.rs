//! The boundary to the search engine.
//!
//! Every item in this file is trusted: Verus believes the contracts stated
//! here and never reads the engine's code. Each wrapper makes one engine
//! call; each contract says what the engine's source shows of that call,
//! over the model of `crate::model`.

use crate::model::{DocValue, DocView, FieldSpec, WriterOp};
use tantivy::schema::{
    IndexRecordOption, Schema, SchemaBuilder, TextFieldIndexing, TextOptions, FAST, INDEXED, TEXT,
};
use tantivy::tokenizer::TextAnalyzer;
use tantivy::{Index, IndexReader, TantivyDocument, TantivyError};
use vstd::prelude::*;

verus! {

/// `tantivy::Index`: an index in a directory, with its schema and its
/// registry of analyzers.
#[verifier::external_type_specification]
#[verifier::external_body]
pub struct ExIndex(tantivy::Index);

/// `tantivy::schema::Schema`: the finished list of fields.
#[verifier::external_type_specification]
#[verifier::external_body]
pub struct ExSchema(tantivy::schema::Schema);

/// `tantivy::schema::SchemaBuilder`: a list of fields that still grows.
#[verifier::external_type_specification]
#[verifier::external_body]
pub struct ExSchemaBuilder(tantivy::schema::SchemaBuilder);

/// `tantivy::TantivyDocument`: a list of field values.
#[verifier::external_type_specification]
#[verifier::external_body]
pub struct ExDocument(tantivy::TantivyDocument);

/// `tantivy::TantivyError`: what the engine reports when a call fails.
#[verifier::external_type_specification]
#[verifier::external_body]
pub struct ExEngineError(tantivy::TantivyError);

/// `tantivy::IndexReader`: a read view of an index that can be reloaded.
#[verifier::external_type_specification]
#[verifier::external_body]
pub struct ExIndexReader(tantivy::IndexReader);

/// `tantivy::tokenizer::TextAnalyzer`: a compiled text pipeline.
#[verifier::external_type_specification]
#[verifier::external_body]
pub struct ExTextAnalyzer(tantivy::tokenizer::TextAnalyzer);

/// Holds a `tantivy::IndexWriter`. The engine's type is generic over a
/// trait of the engine, which Verus cannot declare, so the writer is kept
/// behind this struct and reached only through the wrappers below.
#[verifier::external_body]
pub struct EngineWriter {
    inner: tantivy::IndexWriter,
}

/// The fields added to a schema builder so far, in order.
pub uninterp spec fn builder_fields(builder: SchemaBuilder) -> Seq<FieldSpec>;

/// The fields of a finished schema, in order; a field's identifier is its
/// position.
pub uninterp spec fn schema_fields(schema: Schema) -> Seq<FieldSpec>;

/// The fields of the schema that an index was created with.
pub uninterp spec fn index_fields(index: Index) -> Seq<FieldSpec>;

/// The names under which an index's registry holds an analyzer.
pub uninterp spec fn index_analyzers(index: Index) -> Set<Seq<char>>;

/// The values added to a document so far, in order.
pub uninterp spec fn document_values(document: TantivyDocument) -> DocView;

/// The operations that a writer has accepted since it was opened, in order.
pub uninterp spec fn writer_ops(writer: EngineWriter) -> Seq<WriterOp>;

/// The fields of the index that a writer was opened on.
pub uninterp spec fn writer_fields(writer: EngineWriter) -> Seq<FieldSpec>;

/// The number of indexing threads that a writer was opened with.
pub uninterp spec fn writer_threads(writer: EngineWriter) -> nat;

/// The overall memory budget, in bytes, that a writer was opened with.
pub uninterp spec fn writer_budget(writer: EngineWriter) -> nat;

/// The least number of segments that the merge policy last installed on a
/// writer merges together.
pub uninterp spec fn writer_merge_floor(writer: EngineWriter) -> nat;

/// The analyzers that the engine registers on every new index.
pub open spec fn builtin_analyzers() -> Set<Seq<char>> {
    set!["raw"@, "default"@, "en_stem"@, "whitespace"@]
}

/// The engine takes `name` for a field: it is not empty and does not start
/// with a hyphen.
pub open spec fn valid_field_name(name: Seq<char>) -> bool {
    name.len() > 0 && name[0] != '-'
}

/// A builder can take one more field called `name`.
pub open spec fn can_push(fields: Seq<FieldSpec>, name: Seq<char>) -> bool {
    &&& valid_field_name(name)
    &&& fields.len() < u32::MAX
    &&& forall|i: int| 0 <= i < fields.len() ==> (#[trigger] fields[i]).name() != name
}

/// `Schema::builder`: a builder without fields.
#[verifier::external_body]
pub(crate) fn new_schema_builder() -> (builder: SchemaBuilder)
    ensures
        builder_fields(builder) == Seq::<FieldSpec>::empty(),
{
    Schema::builder()
}

/// `SchemaBuilder::add_u64_field` with the flags `FAST | INDEXED`: appends
/// an indexed, fast unsigned field. The engine panics on an invalid or
/// repeated name, which `requires` leaves out.
#[verifier::external_body]
pub(crate) fn push_row_key_field(builder: &mut SchemaBuilder, name: &str)
    requires
        can_push(builder_fields(*old(builder)), name@),
    ensures
        builder_fields(*final(builder)) == builder_fields(*old(builder)).push(
            FieldSpec::RowKey { name: name@ },
        ),
{
    builder.add_u64_field(name, FAST | INDEXED);
}

/// `SchemaBuilder::add_text_field` with the engine's constant `TEXT`:
/// appends a text field analysed by the analyzer called "default", indexed
/// with positions and frequencies, not stored.
#[verifier::external_body]
pub(crate) fn push_default_text_field(builder: &mut SchemaBuilder, name: &str)
    requires
        can_push(builder_fields(*old(builder)), name@),
    ensures
        builder_fields(*final(builder)) == builder_fields(*old(builder)).push(
            FieldSpec::Text { name: name@, analyzer: "default"@, stored: false },
        ),
{
    builder.add_text_field(name, TEXT);
}

/// `SchemaBuilder::add_text_field` with options that name an analyzer and
/// index positions and frequencies: appends such a text field, not stored.
#[verifier::external_body]
pub(crate) fn push_text_field(builder: &mut SchemaBuilder, name: &str, analyzer: &str)
    requires
        can_push(builder_fields(*old(builder)), name@),
    ensures
        builder_fields(*final(builder)) == builder_fields(*old(builder)).push(
            FieldSpec::Text { name: name@, analyzer: analyzer@, stored: false },
        ),
{
    let indexing = TextFieldIndexing::default()
        .set_tokenizer(analyzer)
        .set_index_option(IndexRecordOption::WithFreqsAndPositions);
    builder.add_text_field(name, TextOptions::default().set_indexing_options(indexing));
}

/// As `push_text_field`, with `TextOptions::set_stored` applied: the
/// appended field keeps the text as it was given.
#[verifier::external_body]
pub(crate) fn push_stored_text_field(builder: &mut SchemaBuilder, name: &str, analyzer: &str)
    requires
        can_push(builder_fields(*old(builder)), name@),
    ensures
        builder_fields(*final(builder)) == builder_fields(*old(builder)).push(
            FieldSpec::Text { name: name@, analyzer: analyzer@, stored: true },
        ),
{
    let indexing = TextFieldIndexing::default()
        .set_tokenizer(analyzer)
        .set_index_option(IndexRecordOption::WithFreqsAndPositions);
    let options = TextOptions::default().set_indexing_options(indexing).set_stored();
    builder.add_text_field(name, options);
}

/// `SchemaBuilder::build`: the schema holds the builder's fields.
#[verifier::external_body]
pub(crate) fn finish_schema(builder: SchemaBuilder) -> (schema: Schema)
    ensures
        schema_fields(schema) == builder_fields(builder),
{
    builder.build()
}

/// `Index::create_in_dir`: creates an index with `schema` in the directory
/// at `path`. Whether it succeeds depends on the directory. An index that
/// comes back has the schema's fields and the engine's built-in analyzers.
#[verifier::external_body]
pub(crate) fn create_index_in_dir(path: &str, schema: Schema) -> (result: Result<
    Index,
    TantivyError,
>)
    ensures
        result matches Ok(index) ==> index_fields(index) == schema_fields(schema)
            && index_analyzers(index) == builtin_analyzers(),
{
    Index::create_in_dir(path, schema)
}

/// `TokenizerManager::register` on `Index::tokenizers`: the registry holds
/// (a clone of) `analyzer` under `name` afterwards, in place of any
/// analyzer it held under that name. The schema is untouched.
#[verifier::external_body]
pub(crate) fn register_analyzer(index: &mut Index, name: &str, analyzer: &TextAnalyzer)
    ensures
        index_fields(*final(index)) == index_fields(*old(index)),
        index_analyzers(*final(index)) == index_analyzers(*old(index)).insert(name@),
{
    index.tokenizers().register(name, analyzer.clone());
}

/// `Index::schema`: the schema the index was created with.
#[verifier::external_body]
pub(crate) fn index_schema(index: &Index) -> (schema: Schema)
    ensures
        schema_fields(schema) == index_fields(*index),
{
    index.schema()
}

/// `Schema::get_field`: the identifier of the field called `name`, which
/// is its position in the schema, or an error when no field has that name.
#[verifier::external_body]
pub(crate) fn find_field(schema: &Schema, name: &str) -> (result: Result<u32, TantivyError>)
    ensures
        match result {
            Ok(id) => id < schema_fields(*schema).len() && schema_fields(*schema)[id as int].name()
                == name@,
            Err(_) => forall|i: int|
                0 <= i < schema_fields(*schema).len() ==> (#[trigger] schema_fields(
                    *schema,
                )[i]).name() != name@,
        },
{
    schema.get_field(name).map(|field| field.field_id())
}

/// `Index::writer_with_num_threads`: opens a writer on the index. Whether
/// it succeeds depends on the directory and on the budget. A writer that
/// comes back has accepted nothing yet. The engine divides by `threads`,
/// so zero is left out.
#[verifier::external_body]
pub(crate) fn open_writer(index: &Index, threads: usize, budget: usize) -> (result: Result<
    EngineWriter,
    TantivyError,
>)
    requires
        threads > 0,
    ensures
        result matches Ok(writer) ==> {
            &&& writer_ops(writer) == Seq::<WriterOp>::empty()
            &&& writer_fields(writer) == index_fields(*index)
            &&& writer_threads(writer) == threads
            &&& writer_budget(writer) == budget
        },
{
    Ok(EngineWriter { inner: index.writer_with_num_threads(threads, budget)? })
}

/// `IndexWriter::set_merge_policy` with a default `LogMergePolicy` after
/// `set_min_num_segments(min_segments)`: installs that policy. Nothing
/// else about the writer changes.
#[verifier::external_body]
pub(crate) fn install_merge_floor(writer: &mut EngineWriter, min_segments: usize)
    ensures
        writer_merge_floor(*final(writer)) == min_segments,
        writer_ops(*final(writer)) == writer_ops(*old(writer)),
        writer_fields(*final(writer)) == writer_fields(*old(writer)),
        writer_threads(*final(writer)) == writer_threads(*old(writer)),
        writer_budget(*final(writer)) == writer_budget(*old(writer)),
{
    let mut policy = tantivy::merge_policy::LogMergePolicy::default();
    policy.set_min_num_segments(min_segments);
    writer.inner.set_merge_policy(Box::new(policy));
}

/// `IndexWriter::get_merge_policy`, printed by its `Debug` form: a text
/// for people to read, of which nothing is claimed.
#[verifier::external_body]
pub(crate) fn describe_merge_policy(writer: &EngineWriter) -> (text: String) {
    format!("{:?}", writer.inner.get_merge_policy())
}

/// `TantivyDocument::default`: a document without values.
#[verifier::external_body]
pub(crate) fn new_document() -> (document: TantivyDocument)
    ensures
        document_values(document) == Seq::<(u32, DocValue)>::empty(),
{
    TantivyDocument::default()
}

/// `TantivyDocument::add_u64`: appends a number for the field `field`.
#[verifier::external_body]
pub(crate) fn document_add_number(document: &mut TantivyDocument, field: u32, value: u64)
    ensures
        document_values(*final(document)) == document_values(*old(document)).push(
            (field, DocValue::Number(value)),
        ),
{
    document.add_u64(tantivy::schema::Field::from_field_id(field), value);
}

/// `TantivyDocument::add_text`: appends a text for the field `field`.
#[verifier::external_body]
pub(crate) fn document_add_text(document: &mut TantivyDocument, field: u32, text: &str)
    ensures
        document_values(*final(document)) == document_values(*old(document)).push(
            (field, DocValue::Text(text@)),
        ),
{
    document.add_text(tantivy::schema::Field::from_field_id(field), text);
}

/// `IndexWriter::add_document`: hands the document to the indexing
/// threads. It fails when they have stopped; the document is then not
/// taken. The writer's settings stay as they are.
#[verifier::external_body]
pub(crate) fn writer_add(writer: &mut EngineWriter, document: TantivyDocument) -> (result: Result<
    u64,
    TantivyError,
>)
    ensures
        writer_ops(*final(writer)) == if result is Ok {
            writer_ops(*old(writer)).push(WriterOp::Add { doc: document_values(document) })
        } else {
            writer_ops(*old(writer))
        },
        same_settings(*old(writer), *final(writer)),
{
    writer.inner.add_document(document)
}

/// `IndexWriter::delete_term` on `Term::from_field_u64`: queues the
/// deletion of every document whose field `field` holds `key`. The engine
/// looks the field up in the writer's schema by position and panics when
/// there is none, which `requires` leaves out. Every field of the model is
/// indexed, so the deletion is always queued.
#[verifier::external_body]
pub(crate) fn writer_delete(writer: &mut EngineWriter, field: u32, key: u64) -> (stamp: u64)
    requires
        field < writer_fields(*old(writer)).len(),
    ensures
        writer_ops(*final(writer)) == writer_ops(*old(writer)).push(
            WriterOp::Delete { field, key },
        ),
        same_settings(*old(writer), *final(writer)),
{
    let term = tantivy::Term::from_field_u64(tantivy::schema::Field::from_field_id(field), key);
    writer.inner.delete_term(term)
}

/// `IndexWriter::commit`: makes everything accepted so far durable.
/// Whether it succeeds depends on the directory; nothing is said of the
/// log after a failure. The writer's settings stay as they are.
#[verifier::external_body]
pub(crate) fn writer_commit(writer: &mut EngineWriter) -> (result: Result<u64, TantivyError>)
    ensures
        result is Ok ==> writer_ops(*final(writer)) == writer_ops(*old(writer)).push(
            WriterOp::Commit,
        ),
        same_settings(*old(writer), *final(writer)),
{
    writer.inner.commit()
}

/// `IndexWriter::wait_merging_threads`: blocks until the writer's
/// indexing and merging threads have ended, and gives the writer up. The
/// result says whether every thread ended well; nothing is claimed of it.
#[verifier::external_body]
pub(crate) fn writer_drain(writer: EngineWriter) -> (result: Result<(), TantivyError>) {
    writer.inner.wait_merging_threads()
}

/// `IndexReader::reload`: loads the state of the last commit. Whether it
/// succeeds depends on the directory.
#[verifier::external_body]
pub(crate) fn reader_reload(reader: &IndexReader) -> (result: Result<(), TantivyError>) {
    reader.reload()
}

/// What a writer was opened on and with is the same in `before` and
/// `after`.
pub open spec fn same_settings(before: EngineWriter, after: EngineWriter) -> bool {
    &&& writer_fields(after) == writer_fields(before)
    &&& writer_threads(after) == writer_threads(before)
    &&& writer_budget(after) == writer_budget(before)
    &&& writer_merge_floor(after) == writer_merge_floor(before)
}

} // verus!
