use unix_socket_switcher::connection::{Connection, ConnectionAction, ConnectionEvent};
use unix_socket_switcher::find::{FoundPath, GlobEntry, GlobExpansion, ModTime};
use unix_socket_switcher::span::Span;
use unix_socket_switcher::GlobSort;

fn expansion(paths: &[(&str, i64)]) -> Vec<GlobExpansion> {
    vec![GlobExpansion::Entries(
        paths
            .iter()
            .map(|(path, secs)| {
                GlobEntry::Matched(FoundPath {
                    path: path.as_bytes().to_vec(),
                    modified: Some(ModTime { secs: *secs, nanos: 0 }),
                })
            })
            .collect(),
    )]
}

/// Runs the search; gives the paths that were tried and whether the last accepted.
fn search(
    targets: &[(&str, i64)],
    fallback: Option<&[(&str, i64)]>,
    sort: GlobSort,
    reachable: &[&str],
) -> (Vec<String>, Connection) {
    let timeout = Some(Span::from_millis(250));
    let fallback_globs: Vec<String> = fallback.iter().map(|_| "/run/f*".to_string()).collect();
    let target_globs = vec!["/run/t*".to_string(), "/run/u*".to_string()];
    let mut connection = Connection::new(&target_globs, &fallback_globs, timeout, sort);
    let mut tried = Vec::new();
    loop {
        let event = match connection.action() {
            ConnectionAction::ExpandTargets { globs, with_times } => {
                assert_eq!(globs, target_globs);
                assert_eq!(with_times, sort != GlobSort::Name);
                ConnectionEvent::TargetsExpanded(expansion(targets))
            }
            ConnectionAction::ExpandFallback { globs, with_times } => {
                assert_eq!(globs, fallback_globs);
                assert_eq!(with_times, sort != GlobSort::Name);
                ConnectionEvent::FallbackExpanded(expansion(fallback.unwrap()))
            }
            ConnectionAction::Connect { path, timeout: bound } => {
                assert_eq!(bound, timeout);
                let path = String::from_utf8(path).unwrap();
                let accepted = reachable.contains(&path.as_str());
                tried.push(path);
                if accepted {
                    ConnectionEvent::Connected
                } else if tried.len() % 2 == 0 {
                    ConnectionEvent::ConnectTimedOut
                } else {
                    ConnectionEvent::ConnectFailed
                }
            }
            _ => return (tried, connection),
        };
        assert!(connection.expects(&event));
        connection = connection.step(event);
    }
}

#[test]
fn the_first_target_that_accepts_is_proxied_to() {
    let (tried, connection) =
        search(&[("c", 1), ("a", 2), ("b", 3)], Some(&[("f", 1)]), GlobSort::Name, &["b", "c", "f"]);
    assert_eq!(tried, vec!["a", "b"]);
    assert!(matches!(connection.action(), ConnectionAction::Proxy));
    let connection = connection.step(ConnectionEvent::Proxied(Ok(())));
    assert!(matches!(connection.action(), ConnectionAction::Finish(Ok(()))));
}

#[test]
fn the_newest_target_that_accepts_wins() {
    let (tried, connection) = search(
        &[("old", 1), ("newest", 9), ("newer", 5)],
        None,
        GlobSort::TimestampNewest,
        &["old", "newer"],
    );
    assert_eq!(tried, vec!["newest", "newer"]);
    assert!(matches!(connection.action(), ConnectionAction::Proxy));
}

#[test]
fn fallbacks_come_after_all_targets() {
    let (tried, connection) = search(
        &[("z", 1), ("y", 2)],
        Some(&[("b", 1), ("a", 2)]),
        GlobSort::Name,
        &["b"],
    );
    assert_eq!(tried, vec!["y", "z", "a", "b"]);
    assert!(matches!(connection.action(), ConnectionAction::Proxy));
    let (tried, _) = search(&[], Some(&[("a", 2)]), GlobSort::Name, &["a"]);
    assert_eq!(tried, vec!["a"]);
}

#[test]
fn a_client_without_a_target_is_turned_away() {
    for (targets, fallback) in [
        (Vec::new(), None),
        (vec![("a", 1)], None),
        (vec![("a", 1)], Some(vec![("b", 1)])),
        (Vec::new(), Some(Vec::new())),
    ] {
        let (tried, connection) =
            search(&targets, fallback.as_deref(), GlobSort::TimestampOldest, &[]);
        assert_eq!(tried.len(), targets.len() + fallback.map_or(0, |f| f.len()));
        match connection.action() {
            ConnectionAction::Finish(Err(e)) => {
                assert_eq!(e, "No target socket found; cannot proxy request")
            }
            other => panic!("{:?}", other),
        }
    }
}

#[test]
fn an_error_while_copying_is_handed_on() {
    let (_, connection) = search(&[("a", 1)], None, GlobSort::Name, &["a"]);
    let connection = connection.step(ConnectionEvent::Proxied(Err("broken pipe".to_string())));
    match connection.action() {
        ConnectionAction::Finish(Err(e)) => assert_eq!(e, "broken pipe"),
        other => panic!("{:?}", other),
    }
}

#[test]
fn only_what_comes_of_an_action_is_expected() {
    let connection =
        Connection::new(&["/run/t*".to_string()], &["/run/f*".to_string()], None, GlobSort::Name);
    assert!(connection.expects(&ConnectionEvent::TargetsExpanded(Vec::new())));
    assert!(!connection.expects(&ConnectionEvent::FallbackExpanded(Vec::new())));
    assert!(!connection.expects(&ConnectionEvent::Connected));
    let connection = connection.step(ConnectionEvent::TargetsExpanded(expansion(&[("a", 1)])));
    assert!(connection.expects(&ConnectionEvent::ConnectTimedOut));
    assert!(!connection.expects(&ConnectionEvent::Proxied(Ok(()))));
    match connection.action() {
        ConnectionAction::Connect { timeout, .. } => assert_eq!(timeout, None),
        other => panic!("{:?}", other),
    }
}
