use index_lifecycle::schema::{
    acceptable_columns, analyzer_name, build_schema, register_tokenizers, TokenizerConfig,
    TokenizerMap,
};
use tantivy::schema::{FieldType, IndexRecordOption, Schema};
use tantivy::tokenizer::{RawTokenizer, SimpleTokenizer, TextAnalyzer};
use tantivy::Index;

fn names(items: &[&str]) -> Vec<String> {
    items.iter().map(|s| s.to_string()).collect()
}

fn config(kind: &str, doc_store: bool) -> TokenizerConfig {
    TokenizerConfig {
        kind: kind.to_string(),
        doc_store,
        analyzer: TextAnalyzer::from(SimpleTokenizer::default()),
    }
}

fn text_field(schema: &Schema, name: &str) -> (u32, String, IndexRecordOption, bool) {
    let field = schema.get_field(name).unwrap();
    match schema.get_field_entry(field).field_type() {
        FieldType::Str(options) => {
            let indexing = options.get_indexing_options().unwrap();
            (
                field.field_id(),
                indexing.tokenizer().to_string(),
                indexing.index_option(),
                options.is_stored(),
            )
        }
        _ => panic!("not a text field"),
    }
}

#[test]
fn the_row_key_comes_first_and_is_indexed_and_fast() {
    let schema = build_schema(&names(&["title", "body"]), &TokenizerMap::new());
    assert_eq!(schema.num_fields(), 3);
    let row_id = schema.get_field("row_id").unwrap();
    assert_eq!(row_id.field_id(), 0);
    let entry = schema.get_field_entry(row_id);
    assert!(entry.is_indexed());
    assert!(entry.is_fast());
    assert!(!entry.is_stored());
    assert!(matches!(entry.field_type(), FieldType::U64(_)));
}

#[test]
fn a_schema_without_columns_has_the_row_key_only() {
    let schema = build_schema(&Vec::new(), &TokenizerMap::new());
    assert_eq!(schema.num_fields(), 1);
    assert_eq!(schema.get_field("row_id").unwrap().field_id(), 0);
}

#[test]
fn columns_without_configuration_use_the_default_analyzer() {
    let schema = build_schema(&names(&["title", "body"]), &TokenizerMap::new());
    assert_eq!(
        text_field(&schema, "title"),
        (1, "default".to_string(), IndexRecordOption::WithFreqsAndPositions, false)
    );
    assert_eq!(
        text_field(&schema, "body"),
        (2, "default".to_string(), IndexRecordOption::WithFreqsAndPositions, false)
    );
}

#[test]
fn configured_columns_use_the_derived_analyzer_name_and_stored_flag() {
    let mut tokenizers = TokenizerMap::new();
    tokenizers.insert("title".to_string(), config("ngram", true));
    tokenizers.insert("body".to_string(), config("chinese", false));
    tokenizers.insert("unused".to_string(), config("raw", true));
    let schema = build_schema(&names(&["body", "plain", "title"]), &tokenizers);
    assert_eq!(schema.num_fields(), 4);
    assert_eq!(
        text_field(&schema, "body"),
        (1, "body_chinese".to_string(), IndexRecordOption::WithFreqsAndPositions, false)
    );
    assert_eq!(
        text_field(&schema, "plain"),
        (2, "default".to_string(), IndexRecordOption::WithFreqsAndPositions, false)
    );
    assert_eq!(
        text_field(&schema, "title"),
        (3, "title_ngram".to_string(), IndexRecordOption::WithFreqsAndPositions, true)
    );
    assert!(schema.get_field("unused").is_err());
}

#[test]
fn a_configuration_matches_its_exact_column_name_only() {
    let mut tokenizers = TokenizerMap::new();
    tokenizers.insert("title".to_string(), config("raw", true));
    let schema = build_schema(&names(&["Title", "title2"]), &tokenizers);
    assert_eq!(text_field(&schema, "Title").1, "default");
    assert_eq!(text_field(&schema, "title2").1, "default");
}

#[test]
fn analyzer_names_join_column_and_kind_with_an_underscore() {
    assert_eq!(analyzer_name("title", "ngram"), "title_ngram");
    assert_eq!(analyzer_name("a_b", "c"), "a_b_c");
    assert_eq!(analyzer_name("", ""), "_");
}

#[test]
fn acceptable_columns_takes_distinct_valid_names() {
    assert!(acceptable_columns(&names(&["title", "body"])));
    assert!(acceptable_columns(&names(&[])));
    assert!(acceptable_columns(&names(&["a-b", "row_id2", "Row_id"])));
}

#[test]
fn acceptable_columns_refuses_what_the_engine_refuses() {
    assert!(!acceptable_columns(&names(&["title", "title"])));
    assert!(!acceptable_columns(&names(&["a", "b", "a"])));
    assert!(!acceptable_columns(&names(&["title", ""])));
    assert!(!acceptable_columns(&names(&["-title"])));
    assert!(!acceptable_columns(&names(&["title", "row_id"])));
}

#[test]
fn registering_tokenizers_adds_each_under_its_derived_name() {
    let schema = build_schema(&names(&["title"]), &TokenizerMap::new());
    let mut index = Index::create_in_ram(schema);
    assert!(index.tokenizers().get("title_raw").is_none());
    assert!(index.tokenizers().get("default").is_some());
    let mut tokenizers = TokenizerMap::new();
    tokenizers.insert(
        "title".to_string(),
        TokenizerConfig {
            kind: "raw".to_string(),
            doc_store: false,
            analyzer: TextAnalyzer::from(RawTokenizer::default()),
        },
    );
    tokenizers.insert("body".to_string(), config("simple", false));
    register_tokenizers(&mut index, &tokenizers);
    assert!(index.tokenizers().get("title_raw").is_some());
    assert!(index.tokenizers().get("body_simple").is_some());
    assert!(index.tokenizers().get("default").is_some());
    assert!(index.tokenizers().get("title").is_none());
    assert_eq!(index.schema().num_fields(), 2);
}
