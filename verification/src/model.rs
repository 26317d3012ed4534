//! The mathematical model of what the search engine holds: schema fields,
//! document values and the log of operations handed to a writer.
//!
//! Everything here is specification only. The contracts of the whole crate
//! are stated over these types.

use vstd::prelude::*;

verus! {

/// The views of `strings`, in order.
pub open spec fn string_views(strings: Seq<String>) -> Seq<Seq<char>> {
    strings.map_values(|s: String| s@)
}

/// One field of an index schema, as far as this crate configures fields.
pub enum FieldSpec {
    /// An unsigned 64-bit field that is indexed and kept for fast access.
    RowKey { name: Seq<char> },
    /// A text field indexed with positions and frequencies, analysed by the
    /// analyzer registered under `analyzer`, with the text kept as given
    /// when `stored` holds.
    Text { name: Seq<char>, analyzer: Seq<char>, stored: bool },
}

impl FieldSpec {
    /// The name under which the schema knows the field.
    pub open spec fn name(self) -> Seq<char> {
        match self {
            FieldSpec::RowKey { name } => name,
            FieldSpec::Text { name, .. } => name,
        }
    }
}

/// A value that a document holds for one field.
pub enum DocValue {
    Number(u64),
    Text(Seq<char>),
}

/// A document: field identifiers paired with values, in the order added.
pub type DocView = Seq<(u32, DocValue)>;

/// One operation handed to a writer.
pub enum WriterOp {
    /// A document was buffered.
    Add { doc: DocView },
    /// Every document whose `field` holds `key` was marked for deletion.
    Delete { field: u32, key: u64 },
    /// Everything before this point was made durable.
    Commit,
}

/// Some field of `fields` is called `name`.
pub open spec fn has_field(fields: Seq<FieldSpec>, name: Seq<char>) -> bool {
    exists|i: int| 0 <= i < fields.len() && (#[trigger] fields[i]).name() == name
}

/// No two fields of `fields` share a name.
pub open spec fn distinct_names(fields: Seq<FieldSpec>) -> bool {
    forall|i: int, j: int|
        0 <= i < j < fields.len() ==> (#[trigger] fields[i]).name() != (#[trigger] fields[j]).name()
}

/// The position of the field called `name`; meaningful when `has_field`.
pub open spec fn field_position(fields: Seq<FieldSpec>, name: Seq<char>) -> int {
    choose|i: int| 0 <= i < fields.len() && (#[trigger] fields[i]).name() == name
}

/// With distinct names, the field called `name` sits at exactly one position.
pub proof fn lemma_field_position_unique(fields: Seq<FieldSpec>, name: Seq<char>, i: int)
    requires
        distinct_names(fields),
        0 <= i < fields.len(),
        fields[i].name() == name,
    ensures
        has_field(fields, name),
        field_position(fields, name) == i,
{
    let j = field_position(fields, name);
    assert(0 <= j < fields.len() && fields[j].name() == name);
    if j < i {
        assert(fields[j].name() != fields[i].name());
    } else if i < j {
        assert(fields[i].name() != fields[j].name());
    }
}

/// The document `doc` holds the number `key` for the field `field`.
pub open spec fn holds_key(doc: DocView, field: u32, key: u64) -> bool {
    doc.contains((field, DocValue::Number(key)))
}

/// The number of operations of `ops` up to and with the last commit.
pub open spec fn committed_len(ops: Seq<WriterOp>) -> nat
    decreases ops.len(),
{
    if ops.len() == 0 {
        0
    } else if ops.last() is Commit {
        ops.len()
    } else {
        committed_len(ops.drop_last())
    }
}

/// The operation at `at` added a document, and no later operation of
/// `ops` deletes a key that the document holds. A deletion reaches the
/// documents added before it and no others.
pub open spec fn survives(ops: Seq<WriterOp>, at: int) -> bool {
    &&& 0 <= at < ops.len()
    &&& ops[at] is Add
    &&& forall|later: int|
        at < later < ops.len() ==> !((#[trigger] ops[later]) matches WriterOp::Delete { field, key }
            && holds_key(ops[at]->doc, field, key))
}

/// The document added at `at` is durable after `ops`: it was added before
/// the last commit and survives the operations up to that commit. This
/// reads a writer's log the way the engine documents adds, deletions and
/// commits; what a reader then finds on disk is the engine's.
pub open spec fn durable(ops: Seq<WriterOp>, at: int) -> bool {
    survives(ops.take(committed_len(ops) as int), at)
}

/// The operations up to the last commit are a prefix of the log, and a
/// log that ends in a commit is committed as a whole.
pub proof fn lemma_committed_len(ops: Seq<WriterOp>)
    ensures
        committed_len(ops) <= ops.len(),
        ops.len() > 0 && ops.last() is Commit ==> committed_len(ops) == ops.len(),
    decreases ops.len(),
{
    if ops.len() > 0 && !(ops.last() is Commit) {
        lemma_committed_len(ops.drop_last());
    }
}

} // verus!
