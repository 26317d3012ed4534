//! The operations on an index by its path: create, index a row, delete
//! rows, commit, and free the writer.
//!
//! The two registries are handed in by the caller, so that each caller
//! decides how widely its handles are shared. What each operation does to
//! them is stated once as a predicate over their views, which the
//! operation ensures and the laws of `crate::laws` build on.

use crate::engine::{
    builtin_analyzers, create_index_in_dir, document_add_number, document_add_text,
    document_values, find_field, index_schema, install_merge_floor, new_document, open_writer,
    schema_fields,
};
use crate::error::{from_engine, Operation, SearchError};
use crate::model::{
    distinct_names, field_position, has_field, lemma_field_position_unique, string_views, DocValue,
    DocView, FieldSpec, WriterOp,
};
use crate::path::normalized;
use crate::reader_cache::{settle_reload, ReaderCache};
use crate::schema::{
    build_schema, columns_acceptable, derived_names, lemma_schema_plan, register_tokenizers,
    row_key_name, schema_plan, TokenizerConfig, TokenizerMap,
};
use crate::string_map::StringMap;
use crate::writer::{deletions, HandleView, RowTerm, WriterHandle, WriterView};
use crate::writer_cache::WriterCache;
use tantivy::schema::Schema;
use tantivy::{IndexReader, TantivyDocument, TantivyError};
use vstd::prelude::*;

verus! {

/// The number of indexing threads of every writer.
pub const WRITER_THREADS: usize = 2;

/// The memory budget of every writer, in bytes.
pub const WRITER_BUDGET_BYTES: usize = 67108864;

/// The least number of segments that a writer merges together.
pub const MIN_MERGE_SEGMENTS: usize = 5;

/// The registry of writer handles, as the contracts see it.
pub type Writers = Map<Seq<char>, HandleView>;

/// The registry of readers, as the contracts see it.
pub type Readers = Map<Seq<char>, IndexReader>;

/// The handle that creating an index at `path` over `columns` registers:
/// the planned schema, the built-in analyzers and those of `tokenizers`,
/// and a writer that has accepted nothing yet.
pub open spec fn fresh_handle(
    path: Seq<char>,
    columns: Seq<Seq<char>>,
    tokenizers: Map<Seq<char>, TokenizerConfig>,
) -> HandleView {
    HandleView {
        path: normalized(path),
        fields: schema_plan(columns, tokenizers),
        analyzers: builtin_analyzers().union(derived_names(tokenizers)),
        writer: Some(
            WriterView {
                ops: Seq::<WriterOp>::empty(),
                threads: WRITER_THREADS as nat,
                budget: WRITER_BUDGET_BYTES as nat,
                merge_floor: MIN_MERGE_SEGMENTS as nat,
            },
        ),
    }
}

/// The identifier of the field called `name`: its position in the schema.
pub open spec fn field_id(fields: Seq<FieldSpec>, name: Seq<char>) -> u32 {
    field_position(fields, name) as u32
}

/// Every column of `names` is a field of the schema.
pub open spec fn columns_known(fields: Seq<FieldSpec>, names: Seq<Seq<char>>) -> bool {
    forall|i: int| 0 <= i < names.len() ==> has_field(fields, #[trigger] names[i])
}

/// The column at `column` is the first of `names` that is no field of the
/// schema.
pub open spec fn first_unknown(fields: Seq<FieldSpec>, names: Seq<Seq<char>>, column: int)
    -> bool {
    &&& 0 <= column < names.len()
    &&& !has_field(fields, names[column])
    &&& forall|i: int| 0 <= i < column ==> has_field(fields, #[trigger] names[i])
}

/// The document of one row: the row key, then the text of each column
/// under that column's field, paired by position.
pub open spec fn document_for(
    fields: Seq<FieldSpec>,
    row_id: u64,
    names: Seq<Seq<char>>,
    texts: Seq<Seq<char>>,
) -> DocView {
    seq![(field_id(fields, row_key_name()), DocValue::Number(row_id))] + Seq::new(
        names.len(),
        |i: int| (field_id(fields, names[i]), DocValue::Text(texts[i])),
    )
}

/// The deletion keys of `row_ids` on the field `field`, in order.
pub open spec fn row_terms(field: u32, row_ids: Seq<u32>) -> Seq<RowTerm> {
    row_ids.map_values(|id: u32| RowTerm { field, key: id as u64 })
}

/// What deleting `row_ids` hands to the writer: one deletion for each row,
/// on the row-key field, then a commit.
pub open spec fn deleted_and_committed(fields: Seq<FieldSpec>, row_ids: Seq<u32>) -> Seq<
    WriterOp,
> {
    deletions(row_terms(field_id(fields, row_key_name()), row_ids)) + seq![WriterOp::Commit]
}

/// Freeing the reader of `path`: the reader leaves the registry, and the
/// result says whether there was one.
pub open spec fn freed_reader(
    before: Readers,
    path: Seq<char>,
    result: Result<bool, SearchError>,
    after: Readers,
) -> bool {
    &&& after == before.remove(normalized(path))
    &&& result == Ok::<bool, SearchError>(before.contains_key(normalized(path)))
}

/// What freeing a writer returns for the attempt to drain its handle. A
/// handle that was drained already, or none at all, leaves nothing to wait
/// for; a wait that the engine reports as failed fails the call.
pub open spec fn drain_outcome(attempt: Option<Result<(), TantivyError>>) -> Result<
    bool,
    SearchError,
> {
    match attempt {
        None => Ok(true),
        Some(Ok(_)) => Ok(true),
        Some(Err(cause)) => Err(SearchError::Engine { operation: Operation::FreeWriter, cause }),
    }
}

/// Freeing the writer of `path`. On success the handle has left the
/// registry, and the result says whether there was one. The call fails
/// only when a live writer was waited for and the engine reports the wait
/// as failed: the handle then stays registered, drained.
pub open spec fn freed_writer(
    before: Writers,
    path: Seq<char>,
    result: Result<bool, SearchError>,
    after: Writers,
) -> bool {
    let key = normalized(path);
    match result {
        Ok(found) => found == before.contains_key(key) && after == before.remove(key),
        Err(SearchError::Engine { operation, .. }) => {
            &&& operation == Operation::FreeWriter
            &&& before.contains_key(key)
            &&& before[key].is_open()
            &&& after == before.insert(key, before[key].drained())
        },
        Err(_) => false,
    }
}

/// Creating the index at `path`. The reader of the path is gone in every
/// case. When the old writer cannot be drained, the call fails under the
/// name of the free step before the engine is asked for anything: the old
/// handle stays registered, drained. Otherwise on success the path holds
/// the fresh handle and nothing of the old one, and on failure, which is
/// the engine's, the path holds no handle.
pub open spec fn created(
    writers: Writers,
    readers: Readers,
    path: Seq<char>,
    columns: Seq<Seq<char>>,
    tokenizers: Map<Seq<char>, TokenizerConfig>,
    result: Result<bool, SearchError>,
    writers_after: Writers,
    readers_after: Readers,
) -> bool {
    let key = normalized(path);
    &&& readers_after == readers.remove(key)
    &&& match result {
        Ok(done) => done && writers_after == writers.insert(
            key,
            fresh_handle(path, columns, tokenizers),
        ),
        Err(SearchError::Engine { operation, .. }) => {
            ||| operation == Operation::CreateIndex && writers_after == writers.remove(key)
            ||| {
                &&& operation == Operation::FreeWriter
                &&& writers.contains_key(key)
                &&& writers[key].is_open()
                &&& writers_after == writers.insert(key, writers[key].drained())
            }
        },
        Err(_) => false,
    }
}

/// Indexing one row at `path`. Without a handle: not found. With a column
/// that the schema lacks: a schema error that names the first such
/// column. With a drained handle: a state error. Otherwise the engine
/// decides, and on success the writer has accepted the row's document.
/// Nothing changes on any failure.
pub open spec fn indexed(
    writers: Writers,
    path: Seq<char>,
    row_id: u64,
    names: Seq<Seq<char>>,
    texts: Seq<Seq<char>>,
    result: Result<bool, SearchError>,
    writers_after: Writers,
) -> bool {
    let key = normalized(path);
    let held = writers.contains_key(key);
    let handle = writers[key];
    let known = columns_known(handle.fields, names);
    match result {
        Ok(done) => done && held && known && handle.is_open() && writers_after == writers.insert(
            key,
            handle.after(
                seq![WriterOp::Add { doc: document_for(handle.fields, row_id, names, texts) }],
            ),
        ),
        Err(SearchError::NotFound { operation }) => operation == Operation::IndexDocument && !held
            && writers_after == writers,
        Err(SearchError::Schema { operation, column }) => operation == Operation::IndexDocument
            && held && first_unknown(handle.fields, names, column as int) && writers_after
            == writers,
        Err(SearchError::State { operation }) => operation == Operation::IndexDocument && held
            && known && !handle.is_open() && writers_after == writers,
        Err(SearchError::Engine { operation, .. }) => operation == Operation::IndexDocument && held
            && known && handle.is_open() && writers_after == writers,
    }
}

/// Committing at `path`. Without a handle: not found. With a drained
/// handle: a state error. Otherwise the engine decides: on success the
/// writer has accepted a commit, and on failure nothing is known of what
/// it has accepted. Nothing else changes.
pub open spec fn committed(
    writers: Writers,
    path: Seq<char>,
    result: Result<bool, SearchError>,
    writers_after: Writers,
) -> bool {
    let key = normalized(path);
    let held = writers.contains_key(key);
    let handle = writers[key];
    match result {
        Ok(done) => done && held && handle.is_open() && writers_after == writers.insert(
            key,
            handle.after(seq![WriterOp::Commit]),
        ),
        Err(SearchError::NotFound { operation }) => operation == Operation::Commit && !held
            && writers_after == writers,
        Err(SearchError::State { operation }) => operation == Operation::Commit && held
            && !handle.is_open() && writers_after == writers,
        Err(SearchError::Engine { operation, .. }) => {
            &&& operation == Operation::Commit
            &&& held
            &&& handle.is_open()
            &&& writers_after.contains_key(key)
            &&& handle.same_but_ops(writers_after[key])
            &&& writers_after == writers.insert(key, writers_after[key])
        },
        Err(_) => false,
    }
}

/// Deleting rows at `path`. Without a handle: not found. With a drained
/// handle: a state error. Otherwise the writer is handed the deletions
/// and a commit. When the commit fails the error names the commit. When
/// it succeeds, the reader of the path is reloaded if there is one, and
/// only a reader that fails to reload fails the call, under the name of
/// the reload, with the deletions committed.
pub open spec fn deleted(
    writers: Writers,
    readers: Readers,
    path: Seq<char>,
    row_ids: Seq<u32>,
    result: Result<bool, SearchError>,
    writers_after: Writers,
) -> bool {
    let key = normalized(path);
    let held = writers.contains_key(key);
    let handle = writers[key];
    let done = writers.insert(key, handle.after(deleted_and_committed(handle.fields, row_ids)));
    match result {
        Ok(deleted) => deleted && held && handle.is_open() && writers_after == done,
        Err(SearchError::NotFound { operation }) => operation == Operation::DeleteRows && !held
            && writers_after == writers,
        Err(SearchError::State { operation }) => operation == Operation::DeleteRows && held
            && !handle.is_open() && writers_after == writers,
        Err(SearchError::Engine { operation, .. }) => held && handle.is_open() && {
            ||| {
                &&& operation == Operation::Commit
                &&& writers_after.contains_key(key)
                &&& handle.same_but_ops(writers_after[key])
                &&& writers_after == writers.insert(key, writers_after[key])
            }
            ||| {
                &&& operation == Operation::ReloadReader
                &&& readers.contains_key(key)
                &&& writers_after == done
            }
        },
        Err(_) => false,
    }
}

/// Drops the reader registered for `path`, if there is one. Returns
/// whether there was.
pub fn free_index_reader(readers: &mut ReaderCache, index_path: &str) -> (result: Result<
    bool,
    SearchError,
>)
    requires
        old(readers).wf(),
    ensures
        final(readers).wf(),
        freed_reader(old(readers)@, index_path@, result, final(readers)@),
{
    match readers.remove(index_path) {
        Ok(_) => Ok(true),
        Err(_) => Ok(false),
    }
}

/// Turns the attempt to drain a handle into the result of freeing its
/// writer.
pub fn settle_drain(attempt: Option<Result<(), TantivyError>>) -> (outcome: Result<
    bool,
    SearchError,
>)
    ensures
        outcome == drain_outcome(attempt),
{
    match attempt {
        None => Ok(true),
        Some(Ok(_)) => Ok(true),
        Some(Err(cause)) => Err(SearchError::Engine { operation: Operation::FreeWriter, cause }),
    }
}

/// Retires the writer handle registered for `path`: waits for its
/// background merges, gives its writer up, and, when the wait went well,
/// takes the handle out of the registry and returns it, drained. Returns
/// `None` when no handle was registered. When the engine reports the wait
/// as failed, its error is returned and the handle stays registered,
/// drained.
pub fn retire_index_writer(writers: &mut WriterCache, index_path: &str) -> (result: Result<
    Option<WriterHandle>,
    SearchError,
>)
    requires
        old(writers).wf(),
    ensures
        final(writers).wf(),
        ({
            let key = normalized(index_path@);
            let held = old(writers)@.contains_key(key);
            let handle = old(writers)@[key];
            match result {
                Ok(Some(retired)) => {
                    &&& held
                    &&& retired@ == handle.drained()
                    &&& retired.wf()
                    &&& final(writers)@ == old(writers)@.remove(key)
                },
                Ok(None) => !held && final(writers)@ == old(writers)@,
                Err(SearchError::Engine { operation, .. }) => {
                    &&& operation == Operation::FreeWriter
                    &&& held
                    &&& handle.is_open()
                    &&& final(writers)@ == old(writers)@.insert(key, handle.drained())
                },
                Err(_) => false,
            }
        }),
{
    let ghost key = normalized(index_path@);
    let ghost before = writers@;
    match writers.get_mut(index_path) {
        Some(handle) => {
            let attempt = handle.wait_merging_threads();
            match settle_drain(attempt) {
                Ok(_) => {},
                Err(error) => {
                    return Err(error);
                },
            }
        },
        None => {
            return Ok(None);
        },
    }
    let ghost drained = writers@;
    match writers.remove(index_path) {
        Ok(handle) => {
            proof {
                assert(drained.remove(key) =~= before.remove(key));
            }
            Ok(Some(handle))
        },
        Err(_) => Ok(None),
    }
}

/// Frees the writer of the index at `path`.
///
/// Where a handle is registered, its background merges are awaited and
/// its writer is given up; when the wait went well the handle leaves the
/// registry and the result is `true`. When the engine reports the wait as
/// failed, its error is returned and the handle stays registered, drained;
/// freeing it once more takes it out. Where no handle is registered there
/// is nothing to do, which is no error; the result is `false`.
pub fn free_index_writer(writers: &mut WriterCache, index_path: &str) -> (result: Result<
    bool,
    SearchError,
>)
    requires
        old(writers).wf(),
    ensures
        final(writers).wf(),
        freed_writer(old(writers)@, index_path@, result, final(writers)@),
{
    let ghost before = writers@;
    proof {
        if !before.contains_key(normalized(index_path@)) {
            assert(before.remove(normalized(index_path@)) =~= before);
        }
    }
    match retire_index_writer(writers, index_path) {
        Ok(Some(_)) => Ok(true),
        Ok(None) => Ok(false),
        Err(error) => Err(error),
    }
}

/// Creates the index at `path` over `columns`, analysed as `tokenizers`
/// says, and registers its writer handle.
///
/// The reader registered for the path is dropped first, then the writer
/// handle registered for it is retired; when that fails, so does the
/// call, with nothing created. The index is then created in the directory at
/// `path`, which the caller has emptied; the analyzers are registered; a
/// writer is opened with the fixed thread count and budget and given the
/// merge policy. Only then is the new handle registered. When the engine
/// fails at any step, its error is returned and no handle is registered
/// for the path.
///
/// The engine does not take every list of columns: see
/// `columns_acceptable`.
pub fn create_index_with_parameter(
    writers: &mut WriterCache,
    readers: &mut ReaderCache,
    index_path: &str,
    column_names: &Vec<String>,
    tokenizers: &TokenizerMap,
) -> (result: Result<bool, SearchError>)
    requires
        old(writers).wf(),
        old(readers).wf(),
        tokenizers.wf(),
        columns_acceptable(string_views(column_names@)),
    ensures
        final(writers).wf(),
        final(readers).wf(),
        created(
            old(writers)@,
            old(readers)@,
            index_path@,
            string_views(column_names@),
            tokenizers@,
            result,
            final(writers)@,
            final(readers)@,
        ),
{
    let ghost key = normalized(index_path@);
    let ghost names = string_views(column_names@);
    let ghost before = writers@;
    let _ = free_index_reader(readers, index_path);
    match free_index_writer(writers, index_path) {
        Ok(_) => {},
        Err(error) => {
            return Err(error);
        },
    }

    let schema = build_schema(column_names, tokenizers);
    let mut index =
        match from_engine(Operation::CreateIndex, create_index_in_dir(index_path, schema)) {
        Ok(index) => index,
        Err(error) => {
            return Err(error);
        },
    };
    register_tokenizers(&mut index, tokenizers);
    let opened = open_writer(&index, WRITER_THREADS, WRITER_BUDGET_BYTES);
    let mut writer = match from_engine(Operation::CreateIndex, opened) {
        Ok(writer) => writer,
        Err(error) => {
            return Err(error);
        },
    };
    install_merge_floor(&mut writer, MIN_MERGE_SEGMENTS);
    proof {
        lemma_schema_plan(names, tokenizers@);
    }
    let handle = WriterHandle::new(index, index_path, writer);
    let _ = writers.set(index_path, handle);
    proof {
        assert(before.remove(key).insert(key, handle@) =~= before.insert(key, handle@));
    }
    Ok(true)
}

/// Creates the index at `path` over `columns` with no tokenizer
/// configuration: every column is analysed by the default analyzer.
pub fn create_index(
    writers: &mut WriterCache,
    readers: &mut ReaderCache,
    index_path: &str,
    column_names: &Vec<String>,
) -> (result: Result<bool, SearchError>)
    requires
        old(writers).wf(),
        old(readers).wf(),
        columns_acceptable(string_views(column_names@)),
    ensures
        final(writers).wf(),
        final(readers).wf(),
        created(
            old(writers)@,
            old(readers)@,
            index_path@,
            string_views(column_names@),
            Map::<Seq<char>, TokenizerConfig>::empty(),
            result,
            final(writers)@,
            final(readers)@,
        ),
{
    let tokenizers: TokenizerMap = StringMap::new();
    create_index_with_parameter(writers, readers, index_path, column_names, &tokenizers)
}

/// The deletion keys of `row_ids` on the field `field`.
pub fn make_row_terms(field: u32, row_ids: &Vec<u32>) -> (terms: Vec<RowTerm>)
    ensures
        terms@ == row_terms(field, row_ids@),
{
    let mut terms: Vec<RowTerm> = Vec::new();
    let mut i: usize = 0;
    while i < row_ids.len()
        invariant
            i <= row_ids@.len(),
            terms@ == row_terms(field, row_ids@.take(i as int)),
        decreases row_ids@.len() - i,
    {
        proof {
            assert(row_ids@.take(i + 1) =~= row_ids@.take(i as int).push(row_ids@[i as int]));
            assert(row_terms(field, row_ids@.take(i + 1)) =~= row_terms(
                field,
                row_ids@.take(i as int),
            ).push(RowTerm { field, key: row_ids@[i as int] as u64 }));
        }
        terms.push(RowTerm { field, key: row_ids[i] as u64 });
        i += 1;
    }
    proof {
        assert(row_ids@.take(i as int) =~= row_ids@);
    }
    terms
}

/// Resolves the row-key field of `schema`: its identifier where the schema
/// has it, else the engine's error under the name of `operation`.
fn row_key_field(schema: &Schema, operation: Operation) -> (result: Result<u32, SearchError>)
    ensures
        match result {
            Ok(field) => field < schema_fields(*schema).len() && schema_fields(
                *schema,
            )[field as int].name() == row_key_name(),
            Err(SearchError::Engine { operation: named, .. }) => named == operation && !has_field(
                schema_fields(*schema),
                row_key_name(),
            ),
            Err(_) => false,
        },
{
    proof {
        reveal_strlit("row_id");
    }
    from_engine(operation, find_field(schema, "row_id"))
}

/// Builds the document of one row against `schema`, or names the first
/// column that is no field of it.
fn row_document(
    schema: &Schema,
    row_id: u64,
    column_names: &Vec<String>,
    column_docs: &Vec<String>,
) -> (result: Result<TantivyDocument, SearchError>)
    requires
        column_names@.len() == column_docs@.len(),
        schema_fields(*schema).len() > 0,
        schema_fields(*schema)[0] == (FieldSpec::RowKey { name: row_key_name() }),
        distinct_names(schema_fields(*schema)),
    ensures
        ({
            let fields = schema_fields(*schema);
            let names = string_views(column_names@);
            let texts = string_views(column_docs@);
            match result {
                Ok(document) => columns_known(fields, names) && document_values(document)
                    == document_for(fields, row_id, names, texts),
                Err(SearchError::Schema { operation, column }) => operation
                    == Operation::IndexDocument && first_unknown(fields, names, column as int),
                Err(_) => false,
            }
        }),
{
    let ghost fields = schema_fields(*schema);
    let ghost names = string_views(column_names@);
    let ghost texts = string_views(column_docs@);
    let row_field = match row_key_field(schema, Operation::IndexDocument) {
        Ok(field) => field,
        Err(error) => {
            proof {
                assert(fields[0].name() == row_key_name());
            }
            return Err(error);
        },
    };
    proof {
        lemma_field_position_unique(fields, row_key_name(), row_field as int);
    }
    let mut document = new_document();
    document_add_number(&mut document, row_field, row_id);
    let mut i: usize = 0;
    proof {
        assert(document_values(document) =~= document_for(
            fields,
            row_id,
            names.take(0),
            texts.take(0),
        ));
    }
    while i < column_names.len()
        invariant
            i <= names.len(),
            names.len() == texts.len(),
            names == string_views(column_names@),
            texts == string_views(column_docs@),
            schema_fields(*schema) == fields,
            distinct_names(fields),
            forall|k: int| 0 <= k < i ==> has_field(fields, #[trigger] names[k]),
            document_values(document) == document_for(
                fields,
                row_id,
                names.take(i as int),
                texts.take(i as int),
            ),
        decreases names.len() - i,
    {
        let column = &column_names[i];
        let text = &column_docs[i];
        proof {
            assert(names[i as int] == column@);
            assert(texts[i as int] == text@);
        }
        let field = match find_field(schema, column.as_str()) {
            Ok(field) => field,
            Err(_) => {
                return Err(
                    SearchError::Schema { operation: Operation::IndexDocument, column: i },
                );
            },
        };
        proof {
            lemma_field_position_unique(fields, column@, field as int);
            let shorter = document_for(fields, row_id, names.take(i as int), texts.take(i as int));
            let longer = document_for(fields, row_id, names.take(i + 1), texts.take(i + 1));
            assert(longer =~= shorter.push((field, DocValue::Text(text@))));
        }
        document_add_text(&mut document, field, text.as_str());
        i += 1;
    }
    proof {
        assert(names.take(i as int) =~= names);
        assert(texts.take(i as int) =~= texts);
    }
    Ok(document)
}

/// Buffers one row in the writer of the index at `path`: the row key and,
/// for each column, the text at the same position of `column_docs`.
/// Nothing is committed.
///
/// Fails when no handle is registered for the path; when a column is no
/// field of the index's schema, naming the first such column; when the
/// handle is drained; and when the engine does not take the document. The
/// registry and the writer are unchanged after any failure.
pub fn index_multi_column_docs(
    writers: &mut WriterCache,
    index_path: &str,
    row_id: u64,
    column_names: &Vec<String>,
    column_docs: &Vec<String>,
) -> (result: Result<bool, SearchError>)
    requires
        old(writers).wf(),
        column_names@.len() == column_docs@.len(),
    ensures
        final(writers).wf(),
        indexed(
            old(writers)@,
            index_path@,
            row_id,
            string_views(column_names@),
            string_views(column_docs@),
            result,
            final(writers)@,
        ),
{
    let ghost key = normalized(index_path@);
    let ghost before = writers@;
    proof {
        if before.contains_key(key) {
            assert(before.insert(key, before[key]) =~= before);
        }
    }
    let handle = match writers.get_mut(index_path) {
        Some(handle) => handle,
        None => {
            return Err(SearchError::NotFound { operation: Operation::IndexDocument });
        },
    };
    let schema = index_schema(handle.index());
    let document = match row_document(&schema, row_id, column_names, column_docs) {
        Ok(document) => document,
        Err(error) => {
            return Err(error);
        },
    };
    match handle.add_document(document) {
        Ok(_) => Ok(true),
        Err(error) => Err(error),
    }
}

/// Deletes the rows `row_ids` from the index at `path`: marks them in the
/// writer, commits, and has the reader registered for the path, if there
/// is one, load the commit.
///
/// Fails when no handle is registered for the path and when the handle is
/// drained, with nothing changed. Fails with the engine's error when the
/// commit fails, naming the commit, and when the reader fails to reload,
/// naming the reload; the deletions are committed in the second case. That
/// no reader is registered is no failure.
pub fn delete_row_ids(
    writers: &mut WriterCache,
    readers: &ReaderCache,
    index_path: &str,
    row_ids: &Vec<u32>,
) -> (result: Result<bool, SearchError>)
    requires
        old(writers).wf(),
        readers.wf(),
    ensures
        final(writers).wf(),
        deleted(old(writers)@, readers@, index_path@, row_ids@, result, final(writers)@),
{
    let ghost key = normalized(index_path@);
    let ghost before = writers@;
    proof {
        if before.contains_key(key) {
            assert(before.insert(key, before[key]) =~= before);
        }
    }
    let handle = match writers.get_mut(index_path) {
        Some(handle) => handle,
        None => {
            return Err(SearchError::NotFound { operation: Operation::DeleteRows });
        },
    };
    let ghost start = handle@;
    let ghost fields = handle@.fields;
    let schema = index_schema(handle.index());
    let row_field = match row_key_field(&schema, Operation::DeleteRows) {
        Ok(field) => field,
        Err(error) => {
            proof {
                assert(fields[0].name() == row_key_name());
            }
            return Err(error);
        },
    };
    proof {
        lemma_field_position_unique(fields, row_key_name(), row_field as int);
    }
    let terms = make_row_terms(row_field, row_ids);
    match handle.delete_terms(&terms) {
        Ok(_) => {},
        Err(error) => {
            return Err(error);
        },
    }
    match handle.commit() {
        Ok(_) => {},
        Err(error) => {
            return Err(error);
        },
    }
    proof {
        assert(start.after(deletions(terms@)).after(seq![WriterOp::Commit]) =~= start.after(
            deleted_and_committed(fields, row_ids@),
        )) by {
            assert((start.ops() + deletions(terms@)) + seq![WriterOp::Commit] =~= start.ops() + (
            deletions(terms@) + seq![WriterOp::Commit]));
        }
    }
    settle_reload(readers.reload(index_path))
}

/// Commits the writer of the index at `path`: everything buffered becomes
/// durable. No reader is reloaded.
///
/// Fails when no handle is registered for the path and when the handle is
/// drained, with nothing changed, and with the engine's error when the
/// engine cannot commit.
pub fn commit_index(writers: &mut WriterCache, index_path: &str) -> (result: Result<
    bool,
    SearchError,
>)
    requires
        old(writers).wf(),
    ensures
        final(writers).wf(),
        committed(old(writers)@, index_path@, result, final(writers)@),
{
    let ghost key = normalized(index_path@);
    let ghost before = writers@;
    proof {
        if before.contains_key(key) {
            assert(before.insert(key, before[key]) =~= before);
        }
    }
    let handle = match writers.get_mut(index_path) {
        Some(handle) => handle,
        None => {
            return Err(SearchError::NotFound { operation: Operation::Commit });
        },
    };
    match handle.commit() {
        Ok(_) => Ok(true),
        Err(error) => Err(error),
    }
}

} // verus!
