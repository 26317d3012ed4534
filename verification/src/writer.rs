//! The handle of one index: the engine's index object, the path it is
//! registered under, and a slot that holds the live writer until the
//! handle is drained.

use crate::engine::{
    describe_merge_policy, document_values, index_analyzers, index_fields, index_schema, schema_fields, writer_add,
    writer_budget, writer_commit,
    writer_delete, writer_drain, writer_fields, writer_merge_floor, writer_ops, writer_threads,
    EngineWriter,
};
use crate::error::{from_engine, Operation, SearchError};
use crate::model::{distinct_names, FieldSpec, WriterOp};
use crate::path::{is_normal, normalize_path, normalized};
use crate::schema::row_key_name;
use tantivy::schema::Schema;
use tantivy::{Index, TantivyDocument, TantivyError};
use vstd::prelude::*;

verus! {

/// A deletion key: documents whose field `field` holds `key`.
#[derive(Clone, Copy, Debug, PartialEq, Eq, Structural)]
pub struct RowTerm {
    pub field: u32,
    pub key: u64,
}

/// What a live writer is: the operations it has accepted, and what it was
/// opened with.
pub struct WriterView {
    pub ops: Seq<WriterOp>,
    pub threads: nat,
    pub budget: nat,
    pub merge_floor: nat,
}

/// What a handle is.
pub struct HandleView {
    /// The key the handle belongs under.
    pub path: Seq<char>,
    /// The fields of the index's schema.
    pub fields: Seq<FieldSpec>,
    /// The names of the analyzers registered on the index.
    pub analyzers: Set<Seq<char>>,
    /// The live writer; `None` once the handle is drained.
    pub writer: Option<WriterView>,
}

impl HandleView {
    /// The handle is open: its slot holds a writer.
    pub open spec fn is_open(self) -> bool {
        self.writer is Some
    }

    /// The operations the live writer has accepted.
    pub open spec fn ops(self) -> Seq<WriterOp>
        recommends
            self.is_open(),
    {
        self.writer->0.ops
    }

    /// This open handle after its writer has accepted `ops` as well.
    pub open spec fn after(self, ops: Seq<WriterOp>) -> HandleView
        recommends
            self.is_open(),
    {
        HandleView {
            writer: Some(WriterView { ops: self.writer->0.ops + ops, ..self.writer->0 }),
            ..self
        }
    }

    /// This handle once drained.
    pub open spec fn drained(self) -> HandleView {
        HandleView { writer: None, ..self }
    }

    /// `other` is this open handle but for the operations accepted.
    pub open spec fn same_but_ops(self, other: HandleView) -> bool {
        &&& self.is_open()
        &&& other.is_open()
        &&& other == HandleView {
            writer: Some(WriterView { ops: other.writer->0.ops, ..self.writer->0 }),
            ..self
        }
    }

    /// The shape every handle has: a key for a path, a schema that starts
    /// with the row key, and no field name twice.
    pub open spec fn well_shaped(self) -> bool {
        &&& is_normal(self.path)
        &&& self.fields.len() > 0
        &&& self.fields[0] == (FieldSpec::RowKey { name: row_key_name() })
        &&& distinct_names(self.fields)
    }
}

/// The deletions that `terms` ask for, in order.
pub open spec fn deletions(terms: Seq<RowTerm>) -> Seq<WriterOp> {
    terms.map_values(|t: RowTerm| WriterOp::Delete { field: t.field, key: t.key })
}

/// The handle of one index.
pub struct WriterHandle {
    index: Index,
    path: String,
    writer: Option<EngineWriter>,
}

impl View for WriterHandle {
    type V = HandleView;

    closed spec fn view(&self) -> HandleView {
        HandleView {
            path: self.path@,
            fields: index_fields(self.index),
            analyzers: index_analyzers(self.index),
            writer: match self.writer {
                Some(writer) => Some(
                    WriterView {
                        ops: writer_ops(writer),
                        threads: writer_threads(writer),
                        budget: writer_budget(writer),
                        merge_floor: writer_merge_floor(writer),
                    },
                ),
                None => None,
            },
        }
    }
}

impl WriterHandle {
    /// The live writer, if any, works on the schema of the handle's index.
    pub closed spec fn bound(&self) -> bool {
        self.writer matches Some(writer) ==> writer_fields(writer) == index_fields(self.index)
    }

    /// The invariant of a handle.
    pub open spec fn wf(&self) -> bool {
        self@.well_shaped() && self.bound()
    }

    /// Wraps an index and the writer opened on it into the handle for
    /// `path`.
    pub(crate) fn new(index: Index, path: &str, writer: EngineWriter) -> (handle: WriterHandle)
        requires
            index_fields(index).len() > 0,
            index_fields(index)[0] == (FieldSpec::RowKey { name: row_key_name() }),
            distinct_names(index_fields(index)),
            writer_fields(writer) == index_fields(index),
        ensures
            handle.wf(),
            handle@ == (HandleView {
                path: normalized(path@),
                fields: index_fields(index),
                analyzers: index_analyzers(index),
                writer: Some(
                    WriterView {
                        ops: writer_ops(writer),
                        threads: writer_threads(writer),
                        budget: writer_budget(writer),
                        merge_floor: writer_merge_floor(writer),
                    },
                ),
            }),
    {
        WriterHandle { index, path: normalize_path(path), writer: Some(writer) }
    }

    /// The engine's index object.
    pub(crate) fn index(&self) -> (index: &Index)
        ensures
            index_fields(*index) == self@.fields,
            index_analyzers(*index) == self@.analyzers,
    {
        &self.index
    }

    /// The schema of the handle's index.
    pub fn schema(&self) -> (schema: Schema)
        ensures
            schema_fields(schema) == self@.fields,
    {
        index_schema(&self.index)
    }

    /// The key the handle belongs under.
    pub fn path(&self) -> (path: &String)
        ensures
            path@ == self@.path,
    {
        &self.path
    }

    /// Whether the slot still holds a writer.
    pub fn is_open(&self) -> (open: bool)
        ensures
            open == self@.is_open(),
    {
        self.writer.is_some()
    }

    /// The merge policy of the live writer as the engine prints it, for
    /// diagnostics; `None` on a drained handle.
    pub fn merge_policy(&self) -> (text: Option<String>)
        ensures
            text is Some <==> self@.is_open(),
    {
        match &self.writer {
            Some(writer) => Some(describe_merge_policy(writer)),
            None => None,
        }
    }

    /// Buffers `document` in the writer. Nothing is durable before the next
    /// commit.
    ///
    /// Fails with a state error when the handle is drained, and with the
    /// engine's error when the engine does not take the document; the
    /// handle is unchanged then.
    pub fn add_document(&mut self, document: TantivyDocument) -> (result: Result<u64, SearchError>)
        requires
            old(self).wf(),
        ensures
            final(self).wf(),
            match result {
                Ok(_) => old(self)@.is_open() && final(self)@ == old(self)@.after(
                    seq![WriterOp::Add { doc: document_values(document) }],
                ),
                Err(SearchError::State { operation }) => operation == Operation::IndexDocument
                    && !old(self)@.is_open() && final(self)@ == old(self)@,
                Err(SearchError::Engine { operation, .. }) => operation == Operation::IndexDocument
                    && old(self)@.is_open() && final(self)@ == old(self)@,
                Err(_) => false,
            },
    {
        match &mut self.writer {
            Some(writer) => {
                let ghost before = writer_ops(*writer);
                let taken = writer_add(writer, document);
                proof {
                    let added = seq![WriterOp::Add { doc: document_values(document) }];
                    assert(before.push(added[0]) =~= before + added);
                }
                from_engine(Operation::IndexDocument, taken)
            },
            None => Err(SearchError::State { operation: Operation::IndexDocument }),
        }
    }

    /// Marks for deletion every document that matches one of `terms`.
    /// Nothing is durable before the next commit.
    ///
    /// Fails with a state error when the handle is drained. The engine
    /// looks each term's field up by its number, so every term names a
    /// field of the schema.
    pub fn delete_terms(&mut self, terms: &Vec<RowTerm>) -> (result: Result<u64, SearchError>)
        requires
            old(self).wf(),
            forall|i: int| 0 <= i < terms@.len() ==> (#[trigger] terms@[i]).field < old(
                self,
            )@.fields.len(),
        ensures
            final(self).wf(),
            match result {
                Ok(_) => old(self)@.is_open() && final(self)@ == old(self)@.after(
                    deletions(terms@),
                ),
                Err(SearchError::State { operation }) => operation == Operation::DeleteRows
                    && !old(self)@.is_open() && final(self)@ == old(self)@,
                Err(_) => false,
            },
    {
        let ghost fields = index_fields(self.index);
        match &mut self.writer {
            Some(writer) => {
                let ghost before = *writer;
                let mut stamp: u64 = 0;
                let mut i: usize = 0;
                proof {
                    assert(deletions(terms@).take(0) =~= Seq::<WriterOp>::empty());
                    assert(writer_ops(before) + Seq::<WriterOp>::empty() =~= writer_ops(before));
                }
                while i < terms.len()
                    invariant
                        i <= terms@.len(),
                        forall|k: int| 0 <= k < terms@.len() ==> (#[trigger] terms@[k]).field
                            < fields.len(),
                        writer_fields(*writer) == fields,
                        writer_threads(*writer) == writer_threads(before),
                        writer_budget(*writer) == writer_budget(before),
                        writer_merge_floor(*writer) == writer_merge_floor(before),
                        writer_ops(*writer) == writer_ops(before) + deletions(terms@).take(
                            i as int,
                        ),
                    decreases terms@.len() - i,
                {
                    let term = terms[i];
                    proof {
                        let all = deletions(terms@);
                        assert(all.take(i + 1) =~= all.take(i as int).push(all[i as int]));
                        assert((writer_ops(before) + all.take(i as int)).push(all[i as int])
                            =~= writer_ops(before) + all.take(i + 1));
                    }
                    stamp = writer_delete(writer, term.field, term.key);
                    i += 1;
                }
                proof {
                    assert(deletions(terms@).take(i as int) =~= deletions(terms@));
                }
                Ok(stamp)
            },
            None => Err(SearchError::State { operation: Operation::DeleteRows }),
        }
    }

    /// Makes every operation accepted so far durable.
    ///
    /// Fails with a state error when the handle is drained, and with the
    /// engine's error when the engine cannot commit; nothing is known of
    /// the accepted operations then.
    pub fn commit(&mut self) -> (result: Result<u64, SearchError>)
        requires
            old(self).wf(),
        ensures
            final(self).wf(),
            match result {
                Ok(_) => old(self)@.is_open() && final(self)@ == old(self)@.after(
                    seq![WriterOp::Commit],
                ),
                Err(SearchError::State { operation }) => operation == Operation::Commit && !old(
                    self,
                )@.is_open() && final(self)@ == old(self)@,
                Err(SearchError::Engine { operation, .. }) => operation == Operation::Commit
                    && old(self)@.same_but_ops(final(self)@),
                Err(_) => false,
            },
    {
        match &mut self.writer {
            Some(writer) => {
                let ghost before = writer_ops(*writer);
                let done = writer_commit(writer);
                proof {
                    assert(before.push(WriterOp::Commit) =~= before + seq![WriterOp::Commit]);
                }
                from_engine(Operation::Commit, done)
            },
            None => Err(SearchError::State { operation: Operation::Commit }),
        }
    }

    /// Waits until the background merges of the writer have ended, then
    /// gives the writer up: the handle is drained afterwards, whatever the
    /// engine reports of the wait. Returns what the engine reported, or
    /// `None` on a handle that was drained already, where nothing is done.
    pub fn wait_merging_threads(&mut self) -> (attempt: Option<Result<(), TantivyError>>)
        requires
            old(self).wf(),
        ensures
            final(self).wf(),
            final(self)@ == old(self)@.drained(),
            attempt is Some <==> old(self)@.is_open(),
    {
        match self.writer.take() {
            Some(writer) => Some(writer_drain(writer)),
            None => None,
        }
    }
}

} // verus!
