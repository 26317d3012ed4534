//! Laws of the lifecycle operations.
//!
//! Each law is proved from the predicates that the operations of
//! `crate::lifecycle` ensure, so it holds of every run of them.

use crate::error::{Operation, SearchError};
use crate::lifecycle::{
    columns_known, committed, created, deleted, deleted_and_committed, document_for, field_id,
    freed_writer, fresh_handle, indexed, row_terms, Readers, Writers,
};
use crate::model::{
    committed_len, durable, holds_key, lemma_committed_len, survives, DocValue, WriterOp,
};
use crate::path::normalized;
use crate::schema::{row_key_name, schema_plan, TokenizerConfig};
use crate::writer::deletions;
use vstd::prelude::*;

verus! {

/// Creating an index retires what was registered for its path. Whatever
/// the outcome, no reader is left for the path. On success the path holds
/// the new handle alone, under its own key: its schema is the one planned
/// for the new columns and its writer is live and has accepted nothing,
/// whatever the old writer had accepted. When the old writer could not be
/// drained, nothing was created and the old handle stays, drained. On any
/// other failure the path holds no handle. Other paths are untouched.
pub proof fn lemma_recreate_invalidates(
    writers: Writers,
    readers: Readers,
    path: Seq<char>,
    columns: Seq<Seq<char>>,
    tokenizers: Map<Seq<char>, TokenizerConfig>,
    result: Result<bool, SearchError>,
    writers_after: Writers,
    readers_after: Readers,
)
    requires
        created(writers, readers, path, columns, tokenizers, result, writers_after, readers_after),
    ensures
        !readers_after.contains_key(normalized(path)),
        result is Ok ==> {
            &&& writers_after.contains_key(normalized(path))
            &&& writers_after[normalized(path)] == fresh_handle(path, columns, tokenizers)
            &&& writers_after[normalized(path)].path == normalized(path)
            &&& writers_after[normalized(path)].fields == schema_plan(columns, tokenizers)
            &&& writers_after[normalized(path)].is_open()
            &&& writers_after[normalized(path)].ops() == Seq::<WriterOp>::empty()
        },
        result matches Err(SearchError::Engine { operation, .. }) && operation
            == Operation::FreeWriter ==> {
            &&& writers.contains_key(normalized(path))
            &&& writers_after.contains_key(normalized(path))
            &&& writers_after[normalized(path)] == writers[normalized(path)].drained()
        },
        result matches Err(SearchError::Engine { operation, .. }) && operation
            == Operation::CreateIndex ==> !writers_after.contains_key(normalized(path)),
        result is Err ==> !(writers_after.contains_key(normalized(path))
            && writers_after[normalized(path)].is_open()),
        forall|other: Seq<char>|
            other != normalized(path) ==> (#[trigger] writers_after.contains_key(other)
                <==> writers.contains_key(other)) && (writers.contains_key(other)
                ==> writers_after[other] == writers[other]),
{
}

/// Freeing a writer twice in a row: when the first call succeeded, the
/// second succeeds too, finds nothing to do and changes nothing.
pub proof fn lemma_free_is_idempotent(
    writers: Writers,
    path: Seq<char>,
    first: Result<bool, SearchError>,
    between: Writers,
    second: Result<bool, SearchError>,
    writers_after: Writers,
)
    requires
        freed_writer(writers, path, first, between),
        first is Ok,
        freed_writer(between, path, second, writers_after),
    ensures
        second == Ok::<bool, SearchError>(false),
        writers_after == between,
        !writers_after.contains_key(normalized(path)),
{
    assert(between.remove(normalized(path)) =~= between);
}

/// A handle leaves the registry through a free only when the wait for its
/// merges went well or there was nothing to wait for. When the wait
/// failed, the handle is still registered, drained, and the next free
/// takes it out without asking the engine again.
pub proof fn lemma_free_after_failure(
    writers: Writers,
    path: Seq<char>,
    first: Result<bool, SearchError>,
    between: Writers,
    second: Result<bool, SearchError>,
    writers_after: Writers,
)
    requires
        freed_writer(writers, path, first, between),
        first is Err,
        freed_writer(between, path, second, writers_after),
    ensures
        between.contains_key(normalized(path)),
        between[normalized(path)] == writers[normalized(path)].drained(),
        second == Ok::<bool, SearchError>(true),
        !writers_after.contains_key(normalized(path)),
{
}

/// Indexing a row that names a column which the schema lacks fails with a
/// schema error, and neither the registry nor the writer's log changes:
/// no part of the row is added.
pub proof fn lemma_unknown_column_changes_nothing(
    writers: Writers,
    path: Seq<char>,
    row_id: u64,
    names: Seq<Seq<char>>,
    texts: Seq<Seq<char>>,
    result: Result<bool, SearchError>,
    writers_after: Writers,
)
    requires
        indexed(writers, path, row_id, names, texts, result, writers_after),
        writers.contains_key(normalized(path)),
        !columns_known(writers[normalized(path)].fields, names),
    ensures
        result matches Err(SearchError::Schema { operation, .. }) && operation
            == Operation::IndexDocument,
        writers_after == writers,
{
}

/// A row that was indexed and then committed is durable: the writer's log
/// holds the row's document before its last commit, and nothing after the
/// document deletes it.
pub proof fn lemma_committed_row_is_durable(
    writers: Writers,
    path: Seq<char>,
    row_id: u64,
    names: Seq<Seq<char>>,
    texts: Seq<Seq<char>>,
    added: Result<bool, SearchError>,
    between: Writers,
    done: Result<bool, SearchError>,
    writers_after: Writers,
)
    requires
        indexed(writers, path, row_id, names, texts, added, between),
        added is Ok,
        committed(between, path, done, writers_after),
        done is Ok,
    ensures
        ({
            let key = normalized(path);
            let at = writers[key].ops().len() as int;
            let ops = writers_after[key].ops();
            &&& writers_after.contains_key(key)
            &&& at < ops.len()
            &&& ops[at] == (WriterOp::Add {
                doc: document_for(writers[key].fields, row_id, names, texts),
            })
            &&& durable(ops, at)
        }),
{
    let key = normalized(path);
    let ops = writers_after[key].ops();
    let start = writers[key].ops();
    let doc = document_for(writers[key].fields, row_id, names, texts);
    assert(ops =~= start.push(WriterOp::Add { doc }).push(WriterOp::Commit));
    lemma_committed_len(ops);
    assert(ops.take(ops.len() as int) =~= ops);
}

/// After rows were deleted, none of them is durable: whatever document
/// the writer's log keeps up to its last commit holds none of the deleted
/// row keys. This holds as soon as the deletions are committed, also when
/// the reader then fails to reload.
pub proof fn lemma_deleted_rows_are_gone(
    writers: Writers,
    readers: Readers,
    path: Seq<char>,
    row_ids: Seq<u32>,
    result: Result<bool, SearchError>,
    writers_after: Writers,
)
    requires
        deleted(writers, readers, path, row_ids, result, writers_after),
        result is Ok || (result matches Err(SearchError::Engine { operation, .. }) && operation
            == Operation::ReloadReader),
    ensures
        ({
            let key = normalized(path);
            let ops = writers_after[key].ops();
            let row_key = field_id(writers[key].fields, row_key_name());
            &&& writers_after.contains_key(key)
            &&& ops == writers[key].ops() + deleted_and_committed(writers[key].fields, row_ids)
            &&& forall|at: int, k: int|
                #[trigger] durable(ops, at) && 0 <= k < row_ids.len() ==> !holds_key(
                    ops[at]->doc,
                    row_key,
                    #[trigger] row_ids[k] as u64,
                )
        }),
{
    let key = normalized(path);
    let start = writers[key].ops();
    let row_key = field_id(writers[key].fields, row_key_name());
    let terms = row_terms(row_key, row_ids);
    let ops = writers_after[key].ops();
    assert(ops =~= start + deleted_and_committed(writers[key].fields, row_ids));
    lemma_committed_len(ops);
    assert(ops.take(ops.len() as int) =~= ops);
    assert forall|at: int, k: int| #[trigger]
        durable(ops, at) && 0 <= k < row_ids.len() implies !holds_key(
        ops[at]->doc,
        row_key,
        #[trigger] row_ids[k] as u64,
    ) by {
        let later = start.len() + k;
        assert(ops[later] == deletions(terms)[k]);
        assert(ops[later] == (WriterOp::Delete { field: row_key, key: row_ids[k] as u64 }));
        if at >= start.len() {
            if at < start.len() + row_ids.len() {
                assert(ops[at] == deletions(terms)[at - start.len()]);
            }
        }
    }
}

} // verus!
