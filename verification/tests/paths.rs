use std::path::Path;

use unix_socket_switcher::order::Order;
use unix_socket_switcher::path::{compare_paths, path_parts, PathPart};

const SAMPLES: [&str; 32] = [
    "",
    "/",
    "//",
    ".",
    "./",
    "./.",
    "..",
    "../",
    "...",
    ".a",
    "a",
    "a/",
    "a//",
    "a/.",
    "./a",
    "/a",
    "//a",
    "/./a",
    "/../a",
    "a/b",
    "a//b",
    "a/./b",
    "a/../b",
    "a-b",
    "a-b/c",
    "a/b/c",
    "ab",
    "B",
    "/tmp/ssh-XX/agent.10",
    "/tmp/ssh-XX/agent.9",
    "/tmp/ssh-X/agent.1",
    "/tmp/gr\u{fc}n",
];

fn numbered(order: Order) -> i32 {
    match order {
        Order::Less => -1,
        Order::Equal => 0,
        Order::Greater => 1,
    }
}

fn standard(a: &str, b: &str) -> i32 {
    match Path::new(a).cmp(Path::new(b)) {
        std::cmp::Ordering::Less => -1,
        std::cmp::Ordering::Equal => 0,
        std::cmp::Ordering::Greater => 1,
    }
}

#[test]
fn paths_are_ordered_like_the_standard_library_orders_them() {
    for a in SAMPLES {
        for b in SAMPLES {
            assert_eq!(
                numbered(compare_paths(a.as_bytes(), b.as_bytes())),
                standard(a, b),
                "{:?} {:?}",
                a,
                b
            );
        }
    }
}

#[test]
fn path_order_is_a_total_preorder_on_samples() {
    for a in SAMPLES {
        for b in SAMPLES {
            let ab = compare_paths(a.as_bytes(), b.as_bytes());
            let ba = compare_paths(b.as_bytes(), a.as_bytes());
            assert_eq!(numbered(ab), -numbered(ba));
            for c in SAMPLES {
                let bc = compare_paths(b.as_bytes(), c.as_bytes());
                if ab != Order::Greater && bc != Order::Greater {
                    assert_ne!(compare_paths(a.as_bytes(), c.as_bytes()), Order::Greater);
                }
            }
        }
    }
}

#[test]
fn paths_that_are_no_text_are_ordered_by_their_bytes() {
    assert_eq!(compare_paths(b"/x/\xff", b"/x/\xfe"), Order::Greater);
    assert_eq!(compare_paths(b"/x/\x80", b"/x/a"), Order::Greater);
    assert_eq!(compare_paths(b"/x/\x80", b"/x/\x80/y"), Order::Less);
}

#[test]
fn a_path_splits_into_its_steps() {
    let parts = path_parts(b"/a//./../b/");
    assert_eq!(parts.len(), 4);
    assert!(matches!(parts[0], PathPart::Root));
    assert!(matches!(&parts[1], PathPart::Name(name) if name.as_slice() == b"a"));
    assert!(matches!(parts[2], PathPart::Parent));
    assert!(matches!(&parts[3], PathPart::Name(name) if name.as_slice() == b"b"));
    let parts = path_parts(b"./x");
    assert_eq!(parts.len(), 2);
    assert!(matches!(parts[0], PathPart::Current));
    assert!(matches!(&parts[1], PathPart::Name(name) if name.as_slice() == b"x"));
    assert!(path_parts(b"").is_empty());
}
