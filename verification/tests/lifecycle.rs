use index_lifecycle::error::{Operation, SearchError};
use index_lifecycle::lifecycle::{
    commit_index, create_index, create_index_with_parameter, delete_row_ids, free_index_reader,
    free_index_writer, index_multi_column_docs, retire_index_writer, settle_drain,
};
use index_lifecycle::reader_cache::ReaderCache;
use index_lifecycle::schema::{TokenizerConfig, TokenizerMap};
use index_lifecycle::writer_cache::WriterCache;
use tantivy::collector::Count;
use tantivy::query::TermQuery;
use tantivy::schema::{IndexRecordOption, Value};
use tantivy::tokenizer::{RawTokenizer, TextAnalyzer};
use tantivy::{Index, IndexReader, ReloadPolicy, TantivyDocument, TantivyError, Term};

fn strings(items: &[&str]) -> Vec<String> {
    items.iter().map(|s| s.to_string()).collect()
}

fn open_reader(path: &str) -> IndexReader {
    let index = Index::open_in_dir(path).unwrap();
    let reader: IndexReader =
        index.reader_builder().reload_policy(ReloadPolicy::Manual).try_into().unwrap();
    reader
}

fn rows_with_key(reader: &IndexReader, row_id: u64) -> usize {
    let searcher = reader.searcher();
    let field = searcher.schema().get_field("row_id").unwrap();
    let query = TermQuery::new(Term::from_field_u64(field, row_id), IndexRecordOption::Basic);
    searcher.search(&query, &Count).unwrap()
}

fn rows_with_text(reader: &IndexReader, column: &str, token: &str) -> usize {
    let searcher = reader.searcher();
    let field = searcher.schema().get_field(column).unwrap();
    let query = TermQuery::new(Term::from_field_text(field, token), IndexRecordOption::Basic);
    searcher.search(&query, &Count).unwrap()
}

fn directory_in(parent: &tempfile::TempDir) -> tempfile::TempDir {
    tempfile::Builder::new().prefix("index").rand_bytes(0).tempdir_in(parent.path()).unwrap()
}

#[test]
fn create_index_commit_then_delete_scenario() {
    let dir = tempfile::tempdir().unwrap();
    let path = dir.path().to_str().unwrap();
    let mut writers = WriterCache::new();
    let mut readers = ReaderCache::new();
    let columns = strings(&["title", "body"]);
    let created =
        create_index_with_parameter(&mut writers, &mut readers, path, &columns, &TokenizerMap::new());
    assert!(matches!(created, Ok(true)));

    let indexed =
        index_multi_column_docs(&mut writers, path, 1, &columns, &strings(&["hello", "world"]));
    assert!(matches!(indexed, Ok(true)));
    assert!(matches!(commit_index(&mut writers, path), Ok(true)));

    let reader = open_reader(path);
    reader.reload().unwrap();
    assert_eq!(rows_with_key(&reader, 1), 1);
    assert_eq!(rows_with_text(&reader, "title", "hello"), 1);
    assert_eq!(rows_with_text(&reader, "body", "world"), 1);
    assert_eq!(rows_with_text(&reader, "body", "hello"), 0);

    readers.set(path, reader.clone());
    let row_ids: Vec<u32> = vec![1];
    assert!(matches!(delete_row_ids(&mut writers, &readers, path, &row_ids), Ok(true)));
    assert_eq!(rows_with_key(&reader, 1), 0);
    assert_eq!(reader.searcher().num_docs(), 0);
}

#[test]
fn uncommitted_rows_are_not_visible() {
    let dir = tempfile::tempdir().unwrap();
    let path = dir.path().to_str().unwrap();
    let mut writers = WriterCache::new();
    let mut readers = ReaderCache::new();
    let columns = strings(&["title"]);
    assert!(matches!(create_index(&mut writers, &mut readers, path, &columns), Ok(true)));
    assert!(matches!(
        index_multi_column_docs(&mut writers, path, 7, &columns, &strings(&["draft"])),
        Ok(true)
    ));
    let reader = open_reader(path);
    reader.reload().unwrap();
    assert_eq!(rows_with_key(&reader, 7), 0);
    assert!(matches!(commit_index(&mut writers, path), Ok(true)));
    assert_eq!(rows_with_key(&reader, 7), 0);
    reader.reload().unwrap();
    assert_eq!(rows_with_key(&reader, 7), 1);
}

#[test]
fn delete_commits_pending_rows_and_reloads_the_cached_reader() {
    let dir = tempfile::tempdir().unwrap();
    let path = dir.path().to_str().unwrap();
    let mut writers = WriterCache::new();
    let mut readers = ReaderCache::new();
    let columns = strings(&["body"]);
    assert!(matches!(create_index(&mut writers, &mut readers, path, &columns), Ok(true)));
    for row in 1u64..=3 {
        let texts = vec![format!("text{}", row)];
        assert!(matches!(
            index_multi_column_docs(&mut writers, path, row, &columns, &texts),
            Ok(true)
        ));
    }
    let reader = open_reader(path);
    readers.set(path, reader.clone());
    let row_ids: Vec<u32> = vec![2];
    assert!(matches!(delete_row_ids(&mut writers, &readers, path, &row_ids), Ok(true)));
    assert_eq!(rows_with_key(&reader, 1), 1);
    assert_eq!(rows_with_key(&reader, 2), 0);
    assert_eq!(rows_with_key(&reader, 3), 1);
    assert_eq!(reader.searcher().num_docs(), 2);
}

#[test]
fn delete_without_a_cached_reader_succeeds() {
    let dir = tempfile::tempdir().unwrap();
    let path = dir.path().to_str().unwrap();
    let mut writers = WriterCache::new();
    let mut readers = ReaderCache::new();
    let columns = strings(&["body"]);
    assert!(matches!(create_index(&mut writers, &mut readers, path, &columns), Ok(true)));
    assert!(matches!(
        index_multi_column_docs(&mut writers, path, 5, &columns, &strings(&["five"])),
        Ok(true)
    ));
    assert!(matches!(commit_index(&mut writers, path), Ok(true)));
    let row_ids: Vec<u32> = vec![5, 6];
    assert!(matches!(delete_row_ids(&mut writers, &readers, path, &row_ids), Ok(true)));
    let reader = open_reader(path);
    assert_eq!(rows_with_key(&reader, 5), 0);
}

#[test]
fn commit_does_not_reload_the_cached_reader() {
    let dir = tempfile::tempdir().unwrap();
    let path = dir.path().to_str().unwrap();
    let mut writers = WriterCache::new();
    let mut readers = ReaderCache::new();
    let columns = strings(&["body"]);
    assert!(matches!(create_index(&mut writers, &mut readers, path, &columns), Ok(true)));
    let reader = open_reader(path);
    readers.set(path, reader.clone());
    assert!(matches!(
        index_multi_column_docs(&mut writers, path, 9, &columns, &strings(&["nine"])),
        Ok(true)
    ));
    assert!(matches!(commit_index(&mut writers, path), Ok(true)));
    assert_eq!(rows_with_key(&reader, 9), 0);
    let empty: Vec<u32> = Vec::new();
    assert!(matches!(delete_row_ids(&mut writers, &readers, path, &empty), Ok(true)));
    assert_eq!(rows_with_key(&reader, 9), 1);
}

#[test]
fn free_writer_twice_succeeds_both_times() {
    let dir = tempfile::tempdir().unwrap();
    let path = dir.path().to_str().unwrap();
    let mut writers = WriterCache::new();
    let mut readers = ReaderCache::new();
    assert!(matches!(create_index(&mut writers, &mut readers, path, &strings(&["a"])), Ok(true)));
    assert!(writers.contains(path));
    assert!(matches!(free_index_writer(&mut writers, path), Ok(true)));
    assert!(!writers.contains(path));
    assert!(matches!(free_index_writer(&mut writers, path), Ok(false)));
    assert!(!writers.contains(path));
}

#[test]
fn free_writer_of_a_path_never_created_is_no_error() {
    let mut writers = WriterCache::new();
    assert!(matches!(free_index_writer(&mut writers, "/no/such/index"), Ok(false)));
}

#[test]
fn retire_returns_the_drained_handle() {
    let dir = tempfile::tempdir().unwrap();
    let path = dir.path().to_str().unwrap();
    let mut writers = WriterCache::new();
    let mut readers = ReaderCache::new();
    assert!(matches!(create_index(&mut writers, &mut readers, path, &strings(&["a"])), Ok(true)));
    let retired = retire_index_writer(&mut writers, path).unwrap().unwrap();
    assert!(!retired.is_open());
    assert!(!writers.contains(path));
    assert!(retire_index_writer(&mut writers, path).unwrap().is_none());
}

#[test]
fn free_reader_says_whether_one_was_registered() {
    let dir = tempfile::tempdir().unwrap();
    let path = dir.path().to_str().unwrap();
    let mut writers = WriterCache::new();
    let mut readers = ReaderCache::new();
    assert!(matches!(create_index(&mut writers, &mut readers, path, &strings(&["a"])), Ok(true)));
    assert!(matches!(free_index_reader(&mut readers, path), Ok(false)));
    readers.set(path, open_reader(path));
    assert!(readers.contains(path));
    assert!(matches!(free_index_reader(&mut readers, path), Ok(true)));
    assert!(!readers.contains(path));
    assert!(matches!(free_index_reader(&mut readers, path), Ok(false)));
}

#[test]
fn paths_that_differ_in_trailing_separators_share_one_handle() {
    let dir = tempfile::tempdir().unwrap();
    let path = dir.path().to_str().unwrap().to_string();
    let with_slash = format!("{}/", path);
    let with_slashes = format!("{}//", path);
    let mut writers = WriterCache::new();
    let mut readers = ReaderCache::new();
    let columns = strings(&["a"]);
    assert!(matches!(create_index(&mut writers, &mut readers, &with_slash, &columns), Ok(true)));
    assert!(writers.contains(&path));
    assert!(writers.contains(&with_slashes));
    assert_eq!(writers.get(&with_slashes).unwrap().path().as_str(), path.as_str());
    assert!(matches!(
        index_multi_column_docs(&mut writers, &path, 1, &columns, &strings(&["x"])),
        Ok(true)
    ));
    assert!(matches!(commit_index(&mut writers, &with_slashes), Ok(true)));
    assert!(matches!(free_index_writer(&mut writers, &path), Ok(true)));
    assert!(!writers.contains(&with_slash));
}

#[test]
fn recreate_retires_the_old_writer_and_reader() {
    let parent = tempfile::tempdir().unwrap();
    let dir = directory_in(&parent);
    let path_string = dir.path().to_str().unwrap().to_string();
    let path = path_string.as_str();
    let mut writers = WriterCache::new();
    let mut readers = ReaderCache::new();
    let old_columns = strings(&["title"]);
    assert!(matches!(create_index(&mut writers, &mut readers, path, &old_columns), Ok(true)));
    assert!(matches!(
        index_multi_column_docs(&mut writers, path, 1, &old_columns, &strings(&["old"])),
        Ok(true)
    ));
    readers.set(path, open_reader(path));

    assert!(matches!(free_index_reader(&mut readers, path), Ok(true)));
    assert!(matches!(free_index_writer(&mut writers, path), Ok(true)));
    dir.close().unwrap();
    let dir = directory_in(&parent);
    assert_eq!(dir.path().to_str().unwrap(), path);

    let new_columns = strings(&["summary"]);
    assert!(matches!(create_index(&mut writers, &mut readers, path, &new_columns), Ok(true)));
    assert!(!readers.contains(path));
    assert!(writers.contains(path));
    assert!(writers.get(path).unwrap().is_open());

    let stale = index_multi_column_docs(&mut writers, path, 2, &old_columns, &strings(&["x"]));
    assert!(matches!(
        stale,
        Err(SearchError::Schema { operation: Operation::IndexDocument, column: 0 })
    ));
    assert!(matches!(
        index_multi_column_docs(&mut writers, path, 2, &new_columns, &strings(&["fresh"])),
        Ok(true)
    ));
    assert!(matches!(commit_index(&mut writers, path), Ok(true)));
    let reader = open_reader(path);
    assert_eq!(rows_with_key(&reader, 1), 0);
    assert_eq!(rows_with_key(&reader, 2), 1);
    assert_eq!(reader.searcher().num_docs(), 1);
}

#[test]
fn a_failed_create_leaves_nothing_registered() {
    let dir = tempfile::tempdir().unwrap();
    let path = dir.path().to_str().unwrap();
    let mut writers = WriterCache::new();
    let mut readers = ReaderCache::new();
    let columns = strings(&["title"]);
    assert!(matches!(create_index(&mut writers, &mut readers, path, &columns), Ok(true)));
    readers.set(path, open_reader(path));

    let again = create_index(&mut writers, &mut readers, path, &columns);
    assert!(matches!(
        again,
        Err(SearchError::Engine { operation: Operation::CreateIndex, .. })
    ));
    assert!(!writers.contains(path));
    assert!(!readers.contains(path));
}

#[test]
fn create_in_a_missing_directory_fails_with_the_engine_error() {
    let dir = tempfile::tempdir().unwrap();
    let missing = format!("{}/absent", dir.path().to_str().unwrap());
    let mut writers = WriterCache::new();
    let mut readers = ReaderCache::new();
    let result = create_index(&mut writers, &mut readers, &missing, &strings(&["a"]));
    assert!(matches!(
        result,
        Err(SearchError::Engine { operation: Operation::CreateIndex, .. })
    ));
    assert!(!writers.contains(&missing));
}

#[test]
fn an_unknown_column_is_a_schema_error_and_adds_nothing() {
    let dir = tempfile::tempdir().unwrap();
    let path = dir.path().to_str().unwrap();
    let mut writers = WriterCache::new();
    let mut readers = ReaderCache::new();
    let columns = strings(&["title", "body"]);
    assert!(matches!(create_index(&mut writers, &mut readers, path, &columns), Ok(true)));
    let result = index_multi_column_docs(
        &mut writers,
        path,
        1,
        &strings(&["title", "author", "missing"]),
        &strings(&["t", "a", "m"]),
    );
    assert!(matches!(
        result,
        Err(SearchError::Schema { operation: Operation::IndexDocument, column: 1 })
    ));
    assert!(matches!(commit_index(&mut writers, path), Ok(true)));
    let reader = open_reader(path);
    assert_eq!(reader.searcher().num_docs(), 0);
    assert_eq!(rows_with_key(&reader, 1), 0);
}

#[test]
fn operations_on_an_unregistered_path_are_not_found() {
    let mut writers = WriterCache::new();
    let readers = ReaderCache::new();
    let columns = strings(&["a"]);
    assert!(matches!(
        index_multi_column_docs(&mut writers, "/nowhere", 1, &columns, &strings(&["x"])),
        Err(SearchError::NotFound { operation: Operation::IndexDocument })
    ));
    let row_ids: Vec<u32> = vec![1];
    assert!(matches!(
        delete_row_ids(&mut writers, &readers, "/nowhere", &row_ids),
        Err(SearchError::NotFound { operation: Operation::DeleteRows })
    ));
    assert!(matches!(
        commit_index(&mut writers, "/nowhere"),
        Err(SearchError::NotFound { operation: Operation::Commit })
    ));
}

#[test]
fn operations_on_a_drained_handle_are_state_errors() {
    let dir = tempfile::tempdir().unwrap();
    let path = dir.path().to_str().unwrap();
    let mut writers = WriterCache::new();
    let mut readers = ReaderCache::new();
    let columns = strings(&["a"]);
    assert!(matches!(create_index(&mut writers, &mut readers, path, &columns), Ok(true)));
    let mut handle = writers.remove(path).unwrap();
    assert!(handle.is_open());
    assert!(matches!(handle.wait_merging_threads(), Some(Ok(()))));
    assert!(!handle.is_open());
    assert!(handle.wait_merging_threads().is_none());
    assert!(matches!(
        handle.commit(),
        Err(SearchError::State { operation: Operation::Commit })
    ));
    assert!(matches!(
        handle.add_document(TantivyDocument::default()),
        Err(SearchError::State { operation: Operation::IndexDocument })
    ));
    assert!(matches!(
        handle.delete_terms(&Vec::new()),
        Err(SearchError::State { operation: Operation::DeleteRows })
    ));

    assert!(writers.set(path, handle).is_none());
    assert!(matches!(
        commit_index(&mut writers, path),
        Err(SearchError::State { operation: Operation::Commit })
    ));
    assert!(matches!(
        index_multi_column_docs(&mut writers, path, 1, &columns, &strings(&["x"])),
        Err(SearchError::State { operation: Operation::IndexDocument })
    ));
    let row_ids: Vec<u32> = vec![1];
    assert!(matches!(
        delete_row_ids(&mut writers, &readers, path, &row_ids),
        Err(SearchError::State { operation: Operation::DeleteRows })
    ));
    assert!(matches!(free_index_writer(&mut writers, path), Ok(true)));
}

#[test]
fn a_configured_column_uses_its_own_analyzer_and_keeps_its_text() {
    let dir = tempfile::tempdir().unwrap();
    let path = dir.path().to_str().unwrap();
    let mut writers = WriterCache::new();
    let mut readers = ReaderCache::new();
    let mut tokenizers = TokenizerMap::new();
    tokenizers.insert(
        "title".to_string(),
        TokenizerConfig {
            kind: "raw".to_string(),
            doc_store: true,
            analyzer: TextAnalyzer::from(RawTokenizer::default()),
        },
    );
    let columns = strings(&["title", "body"]);
    let created =
        create_index_with_parameter(&mut writers, &mut readers, path, &columns, &tokenizers);
    assert!(matches!(created, Ok(true)));
    assert!(matches!(
        index_multi_column_docs(
            &mut writers,
            path,
            3,
            &columns,
            &strings(&["Hello World", "Hello World"])
        ),
        Ok(true)
    ));
    assert!(matches!(commit_index(&mut writers, path), Ok(true)));

    let reader = open_reader(path);
    assert_eq!(rows_with_text(&reader, "title", "Hello World"), 1);
    assert_eq!(rows_with_text(&reader, "title", "hello"), 0);
    assert_eq!(rows_with_text(&reader, "body", "hello"), 1);
    assert_eq!(rows_with_text(&reader, "body", "Hello World"), 0);

    let searcher = reader.searcher();
    let schema = searcher.schema();
    let title = schema.get_field("title").unwrap();
    let body = schema.get_field("body").unwrap();
    let row_id = schema.get_field("row_id").unwrap();
    let query = TermQuery::new(Term::from_field_u64(row_id, 3), IndexRecordOption::Basic);
    let hits = searcher.search(&query, &tantivy::collector::TopDocs::with_limit(1)).unwrap();
    assert_eq!(hits.len(), 1);
    let stored: TantivyDocument = searcher.doc(hits[0].1).unwrap();
    assert_eq!(stored.get_first(title).unwrap().as_str(), Some("Hello World"));
    assert!(stored.get_first(body).is_none());
}

#[test]
fn a_path_never_has_more_than_one_writer() {
    let parent = tempfile::tempdir().unwrap();
    let dir = directory_in(&parent);
    let path = dir.path().to_str().unwrap().to_string();
    let with_slash = format!("{}/", path);
    let mut writers = WriterCache::new();
    let mut readers = ReaderCache::new();
    let columns = strings(&["a"]);
    assert_eq!(writers.len(), 0);
    assert!(matches!(create_index(&mut writers, &mut readers, &path, &columns), Ok(true)));
    assert_eq!(writers.len(), 1);

    assert!(create_index(&mut writers, &mut readers, &with_slash, &columns).is_err());
    assert_eq!(writers.len(), 0);

    dir.close().unwrap();
    let dir = directory_in(&parent);
    assert!(matches!(create_index(&mut writers, &mut readers, &with_slash, &columns), Ok(true)));
    assert_eq!(writers.len(), 1);
    assert!(matches!(free_index_writer(&mut writers, &path), Ok(true)));
    assert_eq!(writers.len(), 0);
    assert!(matches!(free_index_writer(&mut writers, &with_slash), Ok(false)));
    assert_eq!(writers.len(), 0);

    let other = tempfile::tempdir().unwrap();
    let other_path = other.path().to_str().unwrap();
    dir.close().unwrap();
    let _dir = directory_in(&parent);
    assert!(matches!(create_index(&mut writers, &mut readers, &path, &columns), Ok(true)));
    assert!(matches!(create_index(&mut writers, &mut readers, other_path, &columns), Ok(true)));
    assert_eq!(writers.len(), 2);
    assert!(matches!(free_index_writer(&mut writers, &with_slash), Ok(true)));
    assert_eq!(writers.len(), 1);
    assert!(writers.contains(other_path));
    assert_eq!(readers.len(), 0);
}

#[test]
fn a_new_writer_merges_no_fewer_than_five_segments() {
    let dir = tempfile::tempdir().unwrap();
    let path = dir.path().to_str().unwrap();
    let mut writers = WriterCache::new();
    let mut readers = ReaderCache::new();
    assert!(matches!(create_index(&mut writers, &mut readers, path, &strings(&["a"])), Ok(true)));
    let policy = writers.get(path).unwrap().merge_policy().unwrap();
    assert!(policy.contains("LogMergePolicy"));
    assert!(policy.contains("min_num_segments: 5"));
    let mut handle = writers.remove(path).unwrap();
    assert!(matches!(handle.wait_merging_threads(), Some(Ok(()))));
    assert!(handle.merge_policy().is_none());
}

fn break_the_writer(writers: &mut WriterCache, path: &str) {
    let mut handle = writers.remove(path).unwrap();
    let mut document = TantivyDocument::default();
    document.add_text(tantivy::schema::Field::from_field_id(99), "no such field");
    assert!(handle.add_document(document).is_ok());
    assert!(writers.set(path, handle).is_none());
}

#[test]
fn a_failed_wait_fails_the_free_and_keeps_the_handle_registered() {
    let dir = tempfile::tempdir().unwrap();
    let path = dir.path().to_str().unwrap();
    let mut writers = WriterCache::new();
    let mut readers = ReaderCache::new();
    assert!(matches!(create_index(&mut writers, &mut readers, path, &strings(&["a"])), Ok(true)));
    break_the_writer(&mut writers, path);

    let freed = free_index_writer(&mut writers, path);
    assert!(matches!(
        freed,
        Err(SearchError::Engine { operation: Operation::FreeWriter, .. })
    ));
    assert!(writers.contains(path));
    assert!(!writers.get(path).unwrap().is_open());
    assert_eq!(writers.len(), 1);

    assert!(matches!(free_index_writer(&mut writers, path), Ok(true)));
    assert!(!writers.contains(path));
    assert!(matches!(free_index_writer(&mut writers, path), Ok(false)));
}

#[test]
fn a_failed_wait_aborts_the_creation() {
    let dir = tempfile::tempdir().unwrap();
    let path = dir.path().to_str().unwrap();
    let mut writers = WriterCache::new();
    let mut readers = ReaderCache::new();
    let columns = strings(&["a"]);
    assert!(matches!(create_index(&mut writers, &mut readers, path, &columns), Ok(true)));
    readers.set(path, open_reader(path));
    break_the_writer(&mut writers, path);

    let again = create_index(&mut writers, &mut readers, path, &strings(&["b"]));
    assert!(matches!(
        again,
        Err(SearchError::Engine { operation: Operation::FreeWriter, .. })
    ));
    assert!(!readers.contains(path));
    assert!(writers.contains(path));
    let kept = writers.get(path).unwrap();
    assert!(!kept.is_open());
    assert!(kept.schema().get_field("a").is_ok());
    assert!(kept.schema().get_field("b").is_err());
}

#[test]
fn a_failed_wait_is_an_error_of_the_free_step() {
    assert!(matches!(settle_drain(None), Ok(true)));
    assert!(matches!(settle_drain(Some(Ok(()))), Ok(true)));
    let failed = settle_drain(Some(Err(TantivyError::ErrorInThread("merge".to_string()))));
    match failed {
        Err(SearchError::Engine {
            operation: Operation::FreeWriter,
            cause: TantivyError::ErrorInThread(text),
        }) => assert_eq!(text, "merge"),
        _ => panic!("not the engine's error under the free step"),
    }
}
