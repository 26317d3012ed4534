//! The schema of an index: one row-key field, then one text field for each
//! column.

use crate::engine::{
    builder_fields, can_push, finish_schema, index_analyzers, index_fields, new_schema_builder,
    push_default_text_field, push_row_key_field, push_stored_text_field, push_text_field,
    register_analyzer, schema_fields, valid_field_name,
};
use crate::model::{distinct_names, string_views, FieldSpec};
use crate::string_map::{distinct, StringMap};
use tantivy::schema::Schema;
use tantivy::tokenizer::TextAnalyzer;
use tantivy::Index;
use vstd::prelude::*;
use vstd::string::StrSliceExecFns;
use vstd::string::StringExecFns;

verus! {

/// How one column is analysed.
pub struct TokenizerConfig {
    /// The kind of tokenizer, by its identifier.
    pub kind: String,
    /// Whether the index keeps the column's text as it was given.
    pub doc_store: bool,
    /// The compiled analyzer.
    pub analyzer: TextAnalyzer,
}

/// The tokenizer configurations of an index, by column name.
pub type TokenizerMap = StringMap<TokenizerConfig>;

/// The name of the row-key field.
pub open spec fn row_key_name() -> Seq<char> {
    "row_id"@
}

/// The name of the analyzer of a column without a configuration.
pub open spec fn default_analyzer() -> Seq<char> {
    "default"@
}

/// The name under which the analyzer of `column` is registered: the
/// column, an underscore, the tokenizer kind.
pub open spec fn derived_name(column: Seq<char>, kind: Seq<char>) -> Seq<char> {
    column + seq!['_'] + kind
}

/// The names under which the analyzers of `tokenizers` are registered.
pub open spec fn derived_names(tokenizers: Map<Seq<char>, TokenizerConfig>) -> Set<Seq<char>> {
    Set::new(
        |name: Seq<char>|
            exists|column: Seq<char>| #[trigger]
                tokenizers.contains_key(column) && name == derived_name(
                    column,
                    tokenizers[column].kind@,
                ),
    )
}

/// The text field of `column`: analysed as its configuration says where
/// there is one, else by the default analyzer and not stored.
pub open spec fn field_for(column: Seq<char>, tokenizers: Map<Seq<char>, TokenizerConfig>)
    -> FieldSpec {
    if tokenizers.contains_key(column) {
        FieldSpec::Text {
            name: column,
            analyzer: derived_name(column, tokenizers[column].kind@),
            stored: tokenizers[column].doc_store,
        }
    } else {
        FieldSpec::Text { name: column, analyzer: default_analyzer(), stored: false }
    }
}

/// The fields of the index for `columns`: the row key first, then the
/// columns' text fields in the caller's order.
pub open spec fn schema_plan(columns: Seq<Seq<char>>, tokenizers: Map<Seq<char>, TokenizerConfig>)
    -> Seq<FieldSpec> {
    seq![FieldSpec::RowKey { name: row_key_name() }] + columns.map_values(
        |c: Seq<char>| field_for(c, tokenizers),
    )
}

/// The engine takes `columns` as the columns of one index: each is a valid
/// field name other than the row key's, none occurs twice, and with the row
/// key they are no more than the engine can number.
pub open spec fn columns_acceptable(columns: Seq<Seq<char>>) -> bool {
    &&& columns.len() < u32::MAX
    &&& forall|i: int|
        0 <= i < columns.len() ==> valid_field_name(#[trigger] columns[i]) && columns[i]
            != row_key_name()
    &&& distinct(columns)
}

/// The plan names the row key first, every column after it in order, and
/// no name twice.
pub proof fn lemma_schema_plan(columns: Seq<Seq<char>>, tokenizers: Map<Seq<char>, TokenizerConfig>)
    requires
        columns_acceptable(columns),
    ensures
        schema_plan(columns, tokenizers).len() == columns.len() + 1,
        schema_plan(columns, tokenizers)[0] == (FieldSpec::RowKey { name: row_key_name() }),
        forall|i: int|
            0 <= i < columns.len() ==> (#[trigger] schema_plan(columns, tokenizers)[i + 1]).name()
                == columns[i],
        distinct_names(schema_plan(columns, tokenizers)),
{
    let plan = schema_plan(columns, tokenizers);
    assert forall|i: int| 0 <= i < columns.len() implies (#[trigger] plan[i + 1]).name()
        == columns[i] by {
        assert(plan[i + 1] == field_for(columns[i], tokenizers));
    }
    assert forall|i: int, j: int| 0 <= i < j < plan.len() implies (#[trigger] plan[i]).name() != (
    #[trigger] plan[j]).name() by {
        assert(plan[j] == field_for(columns[j - 1], tokenizers));
        if i > 0 {
            assert(plan[i] == field_for(columns[i - 1], tokenizers));
            assert(columns[i - 1] != columns[j - 1]);
        }
    }
}

/// Whether the engine takes `columns` as the columns of one index.
pub fn acceptable_columns(columns: &Vec<String>) -> (ok: bool)
    ensures
        ok == columns_acceptable(string_views(columns@)),
{
    let ghost names = string_views(columns@);
    if columns.len() >= u32::MAX as usize {
        return false;
    }
    let row_key = String::from_str("row_id");
    let mut i: usize = 0;
    while i < columns.len()
        invariant
            i <= columns.len(),
            names == string_views(columns@),
            row_key@ == row_key_name(),
            forall|k: int|
                0 <= k < i ==> valid_field_name(#[trigger] names[k]) && names[k] != row_key_name(),
            forall|a: int, b: int| 0 <= a < b < i ==> #[trigger] names[a] != #[trigger] names[b],
        decreases columns.len() - i,
    {
        let name = &columns[i];
        assert(names[i as int] == name@);
        if name.as_str().is_empty() || name.as_str().get_char(0) == '-' || *name == row_key {
            return false;
        }
        let mut j: usize = 0;
        while j < i
            invariant
                j <= i < columns.len(),
                names == string_views(columns@),
                name@ == names[i as int],
                forall|a: int| 0 <= a < j ==> #[trigger] names[a] != names[i as int],
            decreases i - j,
        {
            assert(names[j as int] == columns@[j as int]@);
            if columns[j] == *name {
                return false;
            }
            j += 1;
        }
        i += 1;
    }
    true
}

/// The name under which the analyzer of `column` is registered.
pub fn analyzer_name(column: &str, kind: &str) -> (name: String)
    ensures
        name@ == derived_name(column@, kind@),
{
    proof {
        reveal_strlit("_");
        assert("_"@ =~= seq!['_']);
    }
    String::from_str(column).concat("_").concat(kind)
}

/// Builds the schema of an index over `columns`.
///
/// The row-key field comes first. Each column follows as a text field
/// indexed with positions and frequencies: under the analyzer registered
/// for it, stored or not as its configuration says, or under the default
/// analyzer and not stored when the column has no configuration.
pub fn build_schema(columns: &Vec<String>, tokenizers: &TokenizerMap) -> (schema: Schema)
    requires
        tokenizers.wf(),
        columns_acceptable(string_views(columns@)),
    ensures
        schema_fields(schema) == schema_plan(string_views(columns@), tokenizers@),
{
    let ghost names = string_views(columns@);
    let mut builder = new_schema_builder();
    proof {
        reveal_strlit("row_id");
    }
    push_row_key_field(&mut builder, "row_id");
    let mut i: usize = 0;
    proof {
        assert(names.take(0) =~= Seq::<Seq<char>>::empty());
        assert(builder_fields(builder) =~= schema_plan(names.take(0), tokenizers@));
    }
    while i < columns.len()
        invariant
            i <= columns.len(),
            tokenizers.wf(),
            names == string_views(columns@),
            columns_acceptable(names),
            builder_fields(builder) == schema_plan(names.take(i as int), tokenizers@),
        decreases columns.len() - i,
    {
        let column = &columns[i];
        proof {
            let done = names.take(i as int);
            let fields = builder_fields(builder);
            assert(names[i as int] == column@);
            assert forall|k: int| 0 <= k < fields.len() implies (#[trigger] fields[k]).name()
                != column@ by {
                if k > 0 {
                    assert(fields[k] == field_for(done[k - 1], tokenizers@));
                    assert(done[k - 1] == names[k - 1]);
                    assert(names[k - 1] != names[i as int]);
                }
            }
            assert(can_push(fields, column@));
            assert(names.take(i + 1) =~= done.push(column@));
            assert(schema_plan(names.take(i + 1), tokenizers@) =~= schema_plan(
                done,
                tokenizers@,
            ).push(field_for(column@, tokenizers@)));
        }
        match tokenizers.get(column.as_str()) {
            Some(config) => {
                let analyzer = analyzer_name(column.as_str(), config.kind.as_str());
                if config.doc_store {
                    push_stored_text_field(&mut builder, column.as_str(), analyzer.as_str());
                } else {
                    push_text_field(&mut builder, column.as_str(), analyzer.as_str());
                }
            },
            None => {
                push_default_text_field(&mut builder, column.as_str());
            },
        }
        i += 1;
    }
    proof {
        assert(names.take(i as int) =~= names);
    }
    finish_schema(builder)
}

/// The names derived from the first `n` of the columns `keys` and their
/// configurations `values`.
pub open spec fn names_through(keys: Seq<Seq<char>>, values: Seq<TokenizerConfig>, n: int) -> Set<
    Seq<char>,
> {
    Set::new(
        |name: Seq<char>|
            exists|j: int| 0 <= j < n && name == #[trigger] derived_name(keys[j], values[j].kind@),
    )
}

/// Registers the analyzer of every configuration of `tokenizers` on
/// `index`, each under the name derived from its column and kind. The
/// schema of the index is untouched.
pub fn register_tokenizers(index: &mut Index, tokenizers: &TokenizerMap)
    requires
        tokenizers.wf(),
    ensures
        index_fields(*final(index)) == index_fields(*old(index)),
        index_analyzers(*final(index)) == index_analyzers(*old(index)).union(
            derived_names(tokenizers@),
        ),
{
    let ghost start = index_analyzers(*index);
    let ghost fields = index_fields(*index);
    let ghost keys = tokenizers.key_seq();
    let ghost values = tokenizers.value_seq();
    let count = tokenizers.len();
    let mut i: usize = 0;
    proof {
        tokenizers.lemma_entries();
        assert(start.union(names_through(keys, values, 0)) =~= start);
    }
    while i < count
        invariant
            i <= count,
            tokenizers.wf(),
            count == keys.len(),
            keys.len() == values.len(),
            keys == tokenizers.key_seq(),
            values == tokenizers.value_seq(),
            index_fields(*index) == fields,
            index_analyzers(*index) == start.union(names_through(keys, values, i as int)),
        decreases count - i,
    {
        let column = tokenizers.key_at(i);
        let config = tokenizers.value_at(i);
        let name = analyzer_name(column.as_str(), config.kind.as_str());
        register_analyzer(index, name.as_str(), &config.analyzer);
        proof {
            let before = names_through(keys, values, i as int);
            let after = names_through(keys, values, i + 1);
            assert(name@ == derived_name(keys[i as int], values[i as int].kind@));
            assert forall|n: Seq<char>| after.contains(n) <==> (before.contains(n) || n
                == name@) by {
                if before.contains(n) {
                    let j = choose|j: int|
                        0 <= j < i && n == #[trigger] derived_name(keys[j], values[j].kind@);
                    assert(0 <= j < i + 1 && n == derived_name(keys[j], values[j].kind@));
                }
                if after.contains(n) {
                    let j = choose|j: int|
                        0 <= j < i + 1 && n == #[trigger] derived_name(keys[j], values[j].kind@);
                    if j < i {
                        assert(0 <= j < i && n == derived_name(keys[j], values[j].kind@));
                    }
                }
            }
            assert(start.union(before).insert(name@) =~= start.union(after));
        }
        i += 1;
    }
    proof {
        tokenizers.lemma_entries();
        let listed = names_through(keys, values, i as int);
        let wanted = derived_names(tokenizers@);
        assert forall|n: Seq<char>| listed.contains(n) <==> wanted.contains(n) by {
            if listed.contains(n) {
                let j = choose|j: int|
                    0 <= j < i && n == #[trigger] derived_name(keys[j], values[j].kind@);
                assert(tokenizers@.contains_key(keys[j]));
                assert(tokenizers@[keys[j]] == values[j]);
            }
            if wanted.contains(n) {
                let column = choose|column: Seq<char>| #[trigger]
                    tokenizers@.contains_key(column) && n == derived_name(
                        column,
                        tokenizers@[column].kind@,
                    );
                assert(keys.contains(column));
                let j = choose|j: int| 0 <= j < keys.len() && keys[j] == column;
                assert(tokenizers@.contains_key(keys[j]));
                assert(tokenizers@[keys[j]] == values[j]);
                assert(0 <= j < i && n == derived_name(keys[j], values[j].kind@));
            }
        }
        assert(listed =~= wanted);
    }
}

} // verus!
