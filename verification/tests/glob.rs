use duckdb_opendal::glob::{glob_matches, glob_root, has_glob, parent};

#[test]
fn matches_full_path_globs() {
    assert!(glob_matches(b"root/**/*.parquet", b"root/a.parquet"));
    assert!(glob_matches(
        b"root/**/*.parquet",
        b"root/part=1/data.parquet"
    ));
    assert!(glob_matches(
        b"root/part=[0-2]/*.parquet",
        b"root/part=1/a.parquet"
    ));
    assert!(!glob_matches(b"root/*.parquet", b"root/nested/a.parquet"));
    assert!(!glob_matches(
        b"root/part=[0-2]/*.parquet",
        b"root/part=9/a.parquet"
    ));
}

#[test]
fn literals_match_themselves() {
    assert!(glob_matches(b"a/b.txt", b"a/b.txt"));
    assert!(!glob_matches(b"a/b.txt", b"a/b.tx"));
    assert!(!glob_matches(b"a/b.txt", b"a/b.txt2"));
    assert!(glob_matches(b"", b""));
    assert!(!glob_matches(b"", b"a"));
}

#[test]
fn single_wildcards_stay_in_a_directory() {
    assert!(glob_matches(b"a?c", b"abc"));
    assert!(!glob_matches(b"a?c", b"a/c"));
    assert!(!glob_matches(b"a?c", b"ac"));
    assert!(glob_matches(b"*", b""));
    assert!(!glob_matches(b"*", b"a/b"));
    assert!(!glob_matches(b"a[!x]c", b"a/c"));
}

#[test]
fn double_stars_cross_directories() {
    assert!(glob_matches(b"**", b"a/b/c"));
    assert!(glob_matches(b"**", b""));
    assert!(glob_matches(b"**/c", b"c"));
    assert!(glob_matches(b"**/c", b"a/b/c"));
    assert!(glob_matches(b"a**c", b"a/b/c"));
    assert!(!glob_matches(b"**/c", b"a/b/d"));
}

#[test]
fn classes_hold_bytes_and_ranges() {
    assert!(glob_matches(b"[abc]", b"b"));
    assert!(!glob_matches(b"[abc]", b"d"));
    assert!(glob_matches(b"[!abc]", b"d"));
    assert!(glob_matches(b"[^a-c]", b"d"));
    assert!(!glob_matches(b"[^a-c]", b"b"));
    assert!(glob_matches(b"[a-]", b"-"));
    assert!(glob_matches(b"[0-9a-f]", b"e"));
    // A class that is not closed matches nothing, nor does an empty one.
    assert!(!glob_matches(b"[abc", b"a"));
    assert!(!glob_matches(b"[]", b"a"));
}

#[test]
fn long_patterns_are_decided_quickly() {
    let pattern = b"**a**a**a**a**a**a**a**a**a**b";
    let value = vec![b'a'; 200];
    assert!(!glob_matches(pattern, &value));
}

#[test]
fn patterns_have_a_static_prefix() {
    assert!(has_glob("a/*"));
    assert!(has_glob("a?"));
    assert!(has_glob("[a]"));
    assert!(!has_glob("a/b]"));
    assert_eq!(glob_root("data/part-*/x/*.csv"), "data/");
    assert_eq!(glob_root("*.csv"), "");
    assert_eq!(glob_root("a/b/c"), "a/b/");
    assert_eq!(glob_root("/d\u{e9}p\u{f4}t/**"), "/d\u{e9}p\u{f4}t/");
}

#[test]
fn paths_have_a_parent() {
    assert_eq!(parent("a/b/c.txt"), "a/b");
    assert_eq!(parent("a/b/"), "a");
    assert_eq!(parent("c.txt"), "");
    assert_eq!(parent("/c.txt"), "");
    assert_eq!(parent("a//"), "");
}
