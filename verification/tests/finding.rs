use unix_socket_switcher::find::{
    collect_paths, sort_paths, FoundPath, GlobEntry, GlobExpansion, ModTime,
};
use unix_socket_switcher::GlobSort;

fn found(path: &str, modified: Option<(i64, u32)>) -> FoundPath {
    FoundPath {
        path: path.as_bytes().to_vec(),
        modified: modified.map(|(secs, nanos)| ModTime { secs, nanos }),
    }
}

fn entries(paths: &[(&str, Option<(i64, u32)>)]) -> GlobExpansion {
    GlobExpansion::Entries(
        paths
            .iter()
            .map(|(path, modified)| GlobEntry::Matched(found(path, *modified)))
            .collect(),
    )
}

fn names(paths: &[FoundPath]) -> Vec<String> {
    paths
        .iter()
        .map(|found| String::from_utf8(found.path.clone()).unwrap())
        .collect()
}

#[test]
fn names_are_sorted_across_patterns() {
    let expansions = vec![
        entries(&[("/run/z", None), ("/run/a-b", None)]),
        entries(&[("/run/a/c", None), ("/run/B", None)]),
    ];
    assert_eq!(
        names(&collect_paths(expansions, GlobSort::Name)),
        vec!["/run/B", "/run/a/c", "/run/a-b", "/run/z"]
    );
}

#[test]
fn malformed_patterns_and_unreadable_entries_add_nothing() {
    let expansions = vec![
        GlobExpansion::Invalid,
        GlobExpansion::Entries(vec![
            GlobEntry::Unreadable,
            GlobEntry::Matched(found("b", None)),
            GlobEntry::Unreadable,
        ]),
        GlobExpansion::Entries(Vec::new()),
        GlobExpansion::Invalid,
        entries(&[("a", None)]),
    ];
    assert_eq!(names(&collect_paths(expansions, GlobSort::Name)), vec!["a", "b"]);
    assert!(collect_paths(vec![GlobExpansion::Invalid], GlobSort::TimestampNewest).is_empty());
    assert!(collect_paths(Vec::new(), GlobSort::Name).is_empty());
}

#[test]
fn a_path_that_two_patterns_match_occurs_twice() {
    let expansions = vec![entries(&[("a", None), ("b", None)]), entries(&[("a", None)])];
    assert_eq!(names(&collect_paths(expansions, GlobSort::Name)), vec!["a", "a", "b"]);
}

#[test]
fn oldest_comes_first_and_unknown_times_before_all() {
    let expansions = vec![entries(&[
        ("c", Some((20, 0))),
        ("a", Some((10, 5))),
        ("u", None),
        ("b", Some((10, 4))),
        ("n", Some((-1, 999_999_999))),
    ])];
    assert_eq!(
        names(&collect_paths(expansions, GlobSort::TimestampOldest)),
        vec!["u", "n", "b", "a", "c"]
    );
}

#[test]
fn newest_comes_first_and_unknown_times_after_all() {
    let expansions = vec![entries(&[
        ("c", Some((20, 0))),
        ("a", Some((10, 5))),
        ("u", None),
        ("b", Some((10, 4))),
        ("n", Some((-1, 999_999_999))),
    ])];
    assert_eq!(
        names(&collect_paths(expansions, GlobSort::TimestampNewest)),
        vec!["c", "a", "b", "n", "u"]
    );
}

#[test]
fn ties_stay_as_they_stood() {
    let tied = [("z", Some((1, 0))), ("y", Some((2, 0))), ("x", Some((1, 0))), ("w", Some((2, 0)))];
    assert_eq!(
        names(&collect_paths(vec![entries(&tied)], GlobSort::TimestampOldest)),
        vec!["z", "x", "y", "w"]
    );
    assert_eq!(
        names(&collect_paths(vec![entries(&tied)], GlobSort::TimestampNewest)),
        vec!["y", "w", "z", "x"]
    );
    let same_steps = [("a//b", None), ("a/b", None), ("a/./b", None), ("a", None)];
    assert_eq!(
        names(&collect_paths(vec![entries(&same_steps)], GlobSort::Name)),
        vec!["a", "a//b", "a/b", "a/./b"]
    );
}

#[test]
fn sorting_agrees_with_a_stable_sort_of_the_standard_library() {
    let mut seed: u64 = 7;
    for _ in 0..200 {
        let mut input: Vec<(String, Option<(i64, u32)>)> = Vec::new();
        for position in 0..12 {
            seed = seed.wrapping_mul(6364136223846793005).wrapping_add(1442695040888963407);
            let time = (seed >> 33) % 5;
            let modified = if time == 0 { None } else { Some((time as i64 - 3, (seed >> 60) as u32)) };
            input.push((format!("p{}/{}", (seed >> 40) % 4, position), modified));
        }
        let make = || -> Vec<FoundPath> { input.iter().map(|(p, m)| found(p, *m)).collect() };
        let mut by_name = input.clone();
        by_name.sort_by(|a, b| std::path::Path::new(&a.0).cmp(std::path::Path::new(&b.0)));
        let mut oldest = input.clone();
        oldest.sort_by(|a, b| a.1.cmp(&b.1));
        let mut newest = input.clone();
        newest.sort_by(|a, b| b.1.cmp(&a.1));
        for (sort, expected) in [
            (GlobSort::Name, by_name),
            (GlobSort::TimestampOldest, oldest),
            (GlobSort::TimestampNewest, newest),
        ] {
            let expected: Vec<FoundPath> = expected.iter().map(|(p, m)| found(p, *m)).collect();
            assert_eq!(sort_paths(sort, make()), expected);
        }
    }
}
