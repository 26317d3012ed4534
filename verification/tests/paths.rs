use index_lifecycle::path::normalize_path;

#[test]
fn trailing_separators_are_stripped() {
    assert_eq!(normalize_path("/data/index/"), "/data/index");
    assert_eq!(normalize_path("/data/index///"), "/data/index");
    assert_eq!(normalize_path("/data/index"), "/data/index");
}

#[test]
fn inner_separators_stay() {
    assert_eq!(normalize_path("a//b/"), "a//b");
    assert_eq!(normalize_path("a/b/c"), "a/b/c");
}

#[test]
fn a_path_of_separators_only_has_the_empty_key() {
    assert_eq!(normalize_path("/"), "");
    assert_eq!(normalize_path("///"), "");
    assert_eq!(normalize_path(""), "");
}

#[test]
fn normalizing_twice_changes_nothing() {
    let once = normalize_path("/tmp/x//");
    let twice = normalize_path(&once);
    assert_eq!(once, twice);
}

#[test]
fn characters_beyond_ascii_are_kept() {
    assert_eq!(normalize_path("/données/索引/"), "/données/索引");
}
