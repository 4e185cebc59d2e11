use coap_server::app::path_matcher::{key_from_path, PathMatcher};

fn path_to_vec(path: &str) -> Vec<String> {
    if path.is_empty() {
        return vec![];
    }
    path.split('/').map(|p| p.to_string()).collect()
}

fn new_matcher<const N: usize>(paths: [&str; N]) -> PathMatcher<String> {
    let pairs: Vec<(Vec<String>, String)> = paths
        .into_iter()
        .map(|path| (path_to_vec(path), path.to_string()))
        .collect();
    PathMatcher::from_pairs(pairs)
}

fn assert_no_match(matcher: &PathMatcher<String>, path: &str) {
    let paths = path_to_vec(path);
    assert!(matcher.lookup(&paths).is_none());
}

fn assert_exact_match(matcher: &PathMatcher<String>, path: &str) {
    assert_prefix_match(matcher, path, path, "");
}

fn assert_prefix_match(matcher: &PathMatcher<String>, path: &str, expected_value: &str, expected_suffix: &str) {
    let paths = path_to_vec(path);
    let result = matcher.lookup(&paths);
    let matched = result.unwrap_or_else(|| panic!("Expected {expected_value}"));
    assert_eq!(matched.value, expected_value);
    let actual_suffix = &paths[matched.matched_index..];
    assert_eq!(actual_suffix, &path_to_vec(expected_suffix));
}

#[test]
fn test_unambiguous_exact_match() {
    let matcher = new_matcher(["/a/b/c", "/a/b/d"]);
    assert_exact_match(&matcher, "/a/b/c");
    assert_exact_match(&matcher, "/a/b/d");
}

#[test]
fn test_ambiguous_match() {
    let matcher = new_matcher(["/a/b/c", "/a/b/d"]);
    assert_no_match(&matcher, "/a/b");
}

#[test]
fn test_inexact_match() {
    let matcher = new_matcher(["/a/b/c"]);
    assert_prefix_match(&matcher, "/a/b/c/d", "/a/b/c", "d");
}

#[test]
fn key_from_path_drops_empty_segments() {
    assert_eq!(key_from_path("/a//b/"), vec!["a".to_string(), "b".to_string()]);
    assert_eq!(key_from_path(""), Vec::<String>::new());
    assert_eq!(key_from_path("/"), Vec::<String>::new());
    assert_eq!(key_from_path("foo"), vec!["foo".to_string()]);
}

#[test]
fn match_all_returns_most_specific_first() {
    let matcher = PathMatcher::from_path_strings(vec![
        ("/foo".to_string(), 1),
        ("/foo/bar".to_string(), 2),
        ("/baz".to_string(), 3),
    ]);
    let path = key_from_path("/foo/bar");
    let all = matcher.match_all(&path);
    let found: Vec<(usize, i32)> = all.iter().map(|m| (m.matched_index, *m.value)).collect();
    assert_eq!(found, vec![(2, 2), (1, 1)]);
    // The most specific match is the first of match_all.
    let best = matcher.lookup(&path).unwrap();
    assert_eq!((best.matched_index, *best.value), found[0]);
}

#[test]
fn match_all_without_matches_is_empty() {
    let matcher = PathMatcher::from_path_strings(vec![("/foo".to_string(), 1)]);
    assert!(matcher.match_all(&key_from_path("/bar")).is_empty());
    assert!(matcher.lookup(&key_from_path("/bar")).is_none());
}

#[test]
fn root_key_matches_everything() {
    let matcher = PathMatcher::from_path_strings(vec![("/".to_string(), "root")]);
    let m = matcher.lookup(&key_from_path("/x/y")).unwrap();
    assert_eq!(*m.value, "root");
    assert_eq!(m.matched_index, 0);
}

#[test]
fn insert_then_lookup_exact() {
    let mut matcher: PathMatcher<i32> = PathMatcher::new_empty();
    assert_eq!(matcher.insert(key_from_path("/a/b"), 1), None);
    assert_eq!(matcher.lookup_exact(&key_from_path("/a/b")), Some(&1));
    assert_eq!(matcher.insert(key_from_path("/a/b"), 2), Some(1));
    assert_eq!(matcher.lookup_exact(&key_from_path("/a/b")), Some(&2));
    assert_eq!(matcher.lookup_exact(&key_from_path("/a")), None);
    let m = matcher.lookup(&key_from_path("/a/b")).unwrap();
    assert_eq!(m.matched_index, 2);
}

#[test]
fn remove_forgets_the_key() {
    let mut matcher = PathMatcher::from_path_strings(vec![("/a".to_string(), 1), ("/b".to_string(), 2)]);
    assert_eq!(matcher.remove(&key_from_path("/a")), Some(1));
    assert_eq!(matcher.remove(&key_from_path("/a")), None);
    assert_eq!(matcher.lookup_exact(&key_from_path("/a")), None);
    assert_eq!(matcher.lookup_exact(&key_from_path("/b")), Some(&2));
}

#[test]
fn later_duplicate_path_wins() {
    let matcher = PathMatcher::from_path_strings(vec![("/a".to_string(), 1), ("a/".to_string(), 2)]);
    assert_eq!(matcher.lookup_exact(&key_from_path("/a")), Some(&2));
    assert_eq!(matcher.values().len(), 1);
}

#[test]
fn values_lists_each_value_once() {
    let matcher = PathMatcher::from_path_strings(vec![("/a".to_string(), 1), ("/b".to_string(), 2)]);
    let mut values: Vec<i32> = matcher.values().into_iter().copied().collect();
    values.sort();
    assert_eq!(values, vec![1, 2]);
}

#[test]
fn match_related_goes_both_ways() {
    let matcher = PathMatcher::from_path_strings(vec![
        ("resources/abc/some_property".to_string(), 1),
        ("resources/abc".to_string(), 2),
        ("resources".to_string(), 3),
        ("/resources/xyz".to_string(), 4),
    ]);
    let mut related: Vec<i32> = matcher
        .match_related(&key_from_path("resources/abc"))
        .into_iter()
        .copied()
        .collect();
    related.sort();
    assert_eq!(related, vec![1, 2, 3]);
}

#[test]
fn key_round_trips_through_join() {
    let r = key_from_path("//a/b//c/");
    assert!(r.iter().all(|s| !s.is_empty() && !s.contains('/')));
    assert_eq!(key_from_path(&r.join("/")), r);
    assert_eq!(key_from_path(&format!("/{}", "a/b")), key_from_path("a/b"));
}

#[test]
fn distinct_path_strings_are_all_found() {
    let src = vec![("/a".to_string(), 1), ("/a/b".to_string(), 2), ("c".to_string(), 3)];
    let matcher = PathMatcher::from_path_strings(src.clone());
    for (path, v) in &src {
        assert_eq!(matcher.lookup_exact(&key_from_path(path)), Some(v));
    }
    assert_eq!(matcher.values().len(), src.len());
}
