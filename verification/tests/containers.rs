use index_lifecycle::error::{from_engine, Operation, SearchError};
use index_lifecycle::lifecycle::{create_index, make_row_terms};
use index_lifecycle::reader_cache::{settle_reload, ReaderCache};
use index_lifecycle::string_map::StringMap;
use index_lifecycle::writer::RowTerm;
use index_lifecycle::writer_cache::WriterCache;
use tantivy::collector::Count;
use tantivy::query::TermQuery;
use tantivy::schema::IndexRecordOption;
use tantivy::{Index, IndexReader, ReloadPolicy, TantivyDocument, TantivyError, Term};

fn names(items: &[&str]) -> Vec<String> {
    items.iter().map(|s| s.to_string()).collect()
}

fn reader_of(path: &str) -> IndexReader {
    let index = Index::open_in_dir(path).unwrap();
    let reader: IndexReader =
        index.reader_builder().reload_policy(ReloadPolicy::Manual).try_into().unwrap();
    reader
}

#[test]
fn a_string_map_keeps_one_value_for_each_key() {
    let mut map: StringMap<u32> = StringMap::new();
    assert_eq!(map.len(), 0);
    assert_eq!(map.insert("a".to_string(), 1), None);
    assert_eq!(map.insert("b".to_string(), 2), None);
    assert_eq!(map.insert("a".to_string(), 3), Some(1));
    assert_eq!(map.len(), 2);
    assert_eq!(map.get("a"), Some(&3));
    assert_eq!(map.get("b"), Some(&2));
    assert_eq!(map.get("c"), None);
    assert!(map.contains("a"));
    assert!(!map.contains("A"));
    assert_eq!(map.key_at(0).as_str(), "a");
    assert_eq!(map.key_at(1).as_str(), "b");
    assert_eq!(*map.value_at(0), 3);
    assert_eq!(*map.value_at(1), 2);
}

#[test]
fn a_string_map_removes_and_changes_in_place() {
    let mut map: StringMap<u32> = StringMap::new();
    map.insert("a".to_string(), 1);
    map.insert("b".to_string(), 2);
    map.insert("c".to_string(), 3);
    *map.get_mut("b").unwrap() = 20;
    assert!(map.get_mut("z").is_none());
    assert_eq!(map.get("b"), Some(&20));
    assert_eq!(map.remove("a"), Some(1));
    assert_eq!(map.remove("a"), None);
    assert_eq!(map.len(), 2);
    assert_eq!(map.key_at(0).as_str(), "b");
    assert_eq!(map.get("c"), Some(&3));
    assert_eq!(map.get("a"), None);
}

#[test]
fn the_writer_cache_reports_missing_paths() {
    let mut writers = WriterCache::new();
    assert!(!writers.contains("/x"));
    assert!(matches!(
        writers.get("/x"),
        Err(SearchError::NotFound { operation: Operation::Lookup })
    ));
    assert!(matches!(
        writers.remove("/x"),
        Err(SearchError::NotFound { operation: Operation::Remove })
    ));
}

#[test]
fn the_writer_cache_replaces_and_returns_the_previous_handle() {
    let first = tempfile::tempdir().unwrap();
    let second = tempfile::tempdir().unwrap();
    let first_path = first.path().to_str().unwrap();
    let second_path = second.path().to_str().unwrap();
    let mut writers = WriterCache::new();
    let mut readers = ReaderCache::new();
    assert!(matches!(create_index(&mut writers, &mut readers, first_path, &names(&["a"])), Ok(true)));
    assert!(matches!(
        create_index(&mut writers, &mut readers, second_path, &names(&["b"])),
        Ok(true)
    ));
    let moved = writers.remove(second_path).unwrap();
    assert_eq!(moved.path().as_str(), second_path);
    let mut previous = writers.set(first_path, moved).unwrap();
    assert_eq!(previous.path().as_str(), first_path);
    assert!(matches!(previous.wait_merging_threads(), Some(Ok(()))));
    assert!(writers.contains(first_path));
    assert!(!writers.contains(second_path));
    assert_eq!(writers.get(first_path).unwrap().path().as_str(), second_path);
    assert!(writers.get(first_path).unwrap().schema().get_field("b").is_ok());
}

#[test]
fn a_handle_takes_documents_and_deletions_directly() {
    let dir = tempfile::tempdir().unwrap();
    let path = dir.path().to_str().unwrap();
    let mut writers = WriterCache::new();
    let mut readers = ReaderCache::new();
    assert!(matches!(create_index(&mut writers, &mut readers, path, &names(&["a"])), Ok(true)));
    let mut handle = writers.remove(path).unwrap();
    let schema = handle.schema();
    let row_id = schema.get_field("row_id").unwrap();
    let column = schema.get_field("a").unwrap();
    assert_eq!(column.field_id(), 1);
    for key in [10u64, 11, 12] {
        let mut document = TantivyDocument::default();
        document.add_u64(row_id, key);
        document.add_text(column, "text");
        assert!(handle.add_document(document).is_ok());
    }
    let terms = vec![RowTerm { field: 0, key: 10 }, RowTerm { field: 0, key: 12 }];
    assert!(handle.delete_terms(&terms).is_ok());
    assert!(handle.commit().is_ok());
    let reader = reader_of(path);
    let searcher = reader.searcher();
    assert_eq!(searcher.num_docs(), 1);
    let query = TermQuery::new(Term::from_field_u64(row_id, 11), IndexRecordOption::Basic);
    assert_eq!(searcher.search(&query, &Count).unwrap(), 1);
    assert!(matches!(handle.wait_merging_threads(), Some(Ok(()))));
}

#[test]
fn row_terms_pair_each_row_with_the_field() {
    let terms = make_row_terms(4, &vec![7, 0, 4294967295]);
    assert_eq!(
        terms,
        vec![
            RowTerm { field: 4, key: 7 },
            RowTerm { field: 4, key: 0 },
            RowTerm { field: 4, key: 4294967295 },
        ]
    );
    assert!(make_row_terms(0, &Vec::new()).is_empty());
}

#[test]
fn the_reader_cache_keys_by_normalized_path() {
    let dir = tempfile::tempdir().unwrap();
    let path = dir.path().to_str().unwrap().to_string();
    let mut writers = WriterCache::new();
    let mut readers = ReaderCache::new();
    assert!(matches!(create_index(&mut writers, &mut readers, &path, &names(&["a"])), Ok(true)));
    assert!(readers.set(&format!("{}/", path), reader_of(&path)).is_none());
    assert!(readers.contains(&path));
    assert!(readers.get(&path).is_ok());
    assert!(readers.set(&path, reader_of(&path)).is_some());
    assert!(matches!(readers.reload(&path), Some(Ok(()))));
    assert!(readers.remove(&format!("{}//", path)).is_ok());
    assert!(!readers.contains(&path));
    assert!(readers.reload(&path).is_none());
    assert!(matches!(
        readers.get(&path),
        Err(SearchError::NotFound { operation: Operation::Lookup })
    ));
    assert!(matches!(
        readers.remove(&path),
        Err(SearchError::NotFound { operation: Operation::Remove })
    ));
}

#[test]
fn a_missing_reader_is_no_failure_and_a_failed_reload_is() {
    assert!(matches!(settle_reload(None), Ok(true)));
    assert!(matches!(settle_reload(Some(Ok(()))), Ok(true)));
    assert!(matches!(
        settle_reload(Some(Err(TantivyError::IndexAlreadyExists))),
        Err(SearchError::Engine {
            operation: Operation::ReloadReader,
            cause: TantivyError::IndexAlreadyExists
        })
    ));
}

#[test]
fn engine_errors_carry_the_operation_name() {
    assert!(matches!(from_engine(Operation::Commit, Ok::<u64, TantivyError>(42)), Ok(42)));
    let failed = from_engine(
        Operation::Commit,
        Err::<u64, TantivyError>(TantivyError::FieldNotFound("x".to_string())),
    );
    match failed {
        Err(SearchError::Engine { operation, cause: TantivyError::FieldNotFound(name) }) => {
            assert_eq!(operation, Operation::Commit);
            assert_eq!(name, "x");
        }
        _ => panic!("not the engine's error"),
    }
}

#[test]
fn an_error_names_its_operation() {
    let missing = SearchError::NotFound { operation: Operation::Lookup };
    assert_eq!(missing.operation(), Operation::Lookup);
    let schema = SearchError::Schema { operation: Operation::IndexDocument, column: 2 };
    assert_eq!(schema.operation(), Operation::IndexDocument);
    let state = SearchError::State { operation: Operation::Commit };
    assert_eq!(state.operation(), Operation::Commit);
    let engine = SearchError::Engine {
        operation: Operation::DeleteRows,
        cause: TantivyError::IndexAlreadyExists,
    };
    assert_eq!(engine.operation(), Operation::DeleteRows);
}
