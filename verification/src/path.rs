//! Unix paths, held as the bytes that the system knows them by, and their order.

use vstd::prelude::*;

use crate::order::{
    dictionary_order, int_order, law_dictionary_total_preorder, law_first_difference_decides,
    total_preorder, Order,
};

verus! {

/// One step of a path.
#[derive(Debug)]
pub enum PathPart {
    /// The root directory: the slash that an absolute path begins with.
    Root,
    /// A dot that a relative path begins with.
    Current,
    /// Two dots.
    Parent,
    /// Any other name.
    Name(Vec<u8>),
}

/// What a [`PathPart`] is, as a value.
pub enum PathStep {
    Root,
    Current,
    Parent,
    Name(Seq<u8>),
}

impl View for PathPart {
    type V = PathStep;

    open spec fn view(&self) -> PathStep {
        match self {
            PathPart::Root => PathStep::Root,
            PathPart::Current => PathStep::Current,
            PathPart::Parent => PathStep::Parent,
            PathPart::Name(name) => PathStep::Name(name@),
        }
    }
}

/// The bytes of an optional path.
pub open spec fn optional_path(path: Option<Vec<u8>>) -> Option<Seq<u8>> {
    match path {
        Some(path) => Some(path@),
        None => None,
    }
}

/// A copy of a path.
pub fn copy_path(path: &Vec<u8>) -> (copy: Vec<u8>)
    ensures
        copy@ == path@,
{
    let copy: Vec<u8> = path.clone();
    assert(copy@ == path@);
    copy
}

/// A copy of an optional path.
pub fn copy_optional_path(path: &Option<Vec<u8>>) -> (copy: Option<Vec<u8>>)
    ensures
        optional_path(copy) == optional_path(*path),
        match (*path, copy) {
            (Some(p), Some(c)) => c@ == p@,
            (None, None) => true,
            _ => false,
        },
{
    match path {
        Some(path) => Some(copy_path(path)),
        None => None,
    }
}

/// The byte between two segments of a path.
pub const SLASH: u8 = 0x2f;

/// The byte that the segments `.` and `..` are made of.
pub const DOT: u8 = 0x2e;

/// The length of the segment that `path` begins with: up to the first slash, or
/// all of it.
pub open spec fn segment_len(path: Seq<u8>) -> nat
    decreases path.len(),
{
    if path.len() == 0 || path[0] == SLASH {
        0
    } else {
        1 + segment_len(path.skip(1))
    }
}

/// The step that a segment stands for, if any. Empty segments, and dots that do
/// not come first in the path, stand for none.
pub open spec fn segment_steps(segment: Seq<u8>, first: bool) -> Seq<PathStep> {
    if segment.len() == 0 {
        seq![]
    } else if segment == seq![DOT] {
        if first {
            seq![PathStep::Current]
        } else {
            seq![]
        }
    } else if segment == seq![DOT, DOT] {
        seq![PathStep::Parent]
    } else {
        seq![PathStep::Name(segment)]
    }
}

/// What is left of `path` after the segment that it begins with, and the slash
/// behind that.
pub open spec fn after_segment(path: Seq<u8>) -> Seq<u8> {
    if segment_len(path) < path.len() {
        path.skip(segment_len(path) as int + 1)
    } else {
        seq![]
    }
}

/// The steps of a path without its root; `first` tells whether nothing stands
/// before it.
pub open spec fn relative_steps(path: Seq<u8>, first: bool) -> Seq<PathStep>
    decreases path.len(),
{
    if path.len() == 0 {
        seq![]
    } else {
        segment_steps(path.take(segment_len(path) as int), first) + relative_steps(
            after_segment(path),
            false,
        )
    }
}

/// The steps of `path`. Repeated and trailing slashes do not show, nor do dots
/// but for one that a relative path begins with.
pub open spec fn path_steps(path: Seq<u8>) -> Seq<PathStep> {
    if path.len() > 0 && path[0] == SLASH {
        seq![PathStep::Root] + relative_steps(path.skip(1), false)
    } else {
        relative_steps(path, true)
    }
}

/// How two bytes stand to each other.
pub open spec fn byte_order() -> spec_fn(u8, u8) -> Order {
    |a: u8, b: u8| int_order(a as int, b as int)
}

/// Where a kind of step stands among the others: the root first, names last.
pub open spec fn step_rank(step: PathStep) -> int {
    match step {
        PathStep::Root => 0,
        PathStep::Current => 1,
        PathStep::Parent => 2,
        PathStep::Name(_) => 3,
    }
}

/// How two steps stand to each other: by their kinds, and two names by their
/// bytes.
pub open spec fn step_order() -> spec_fn(PathStep, PathStep) -> Order {
    |a: PathStep, b: PathStep|
        match (a, b) {
            (PathStep::Name(x), PathStep::Name(y)) => dictionary_order(x, y, byte_order()),
            _ => int_order(step_rank(a), step_rank(b)),
        }
}

/// How two paths stand to each other: step by step.
pub open spec fn path_order(a: Seq<u8>, b: Seq<u8>) -> Order {
    dictionary_order(path_steps(a), path_steps(b), step_order())
}

proof fn lemma_step_order_total_preorder()
    ensures
        total_preorder(step_order()),
{
    law_dictionary_total_preorder(byte_order());
    let names = |a: Seq<u8>, b: Seq<u8>| dictionary_order(a, b, byte_order());
    assert(total_preorder(names));
    let order = step_order();
    assert forall|a: PathStep, b: PathStep| #[trigger] order(a, b) == order(b, a).flipped() by {
        if a is Name && b is Name {
            assert(names(a->0, b->0) == names(b->0, a->0).flipped());
        }
    }
    assert forall|a: PathStep, b: PathStep, c: PathStep| #[trigger]
        order(a, b) != Order::Greater && #[trigger] order(b, c) != Order::Greater implies order(
        a,
        c,
    ) != Order::Greater by {
        if a is Name && b is Name && c is Name {
            assert(names(a->0, b->0) != Order::Greater);
            assert(names(b->0, c->0) != Order::Greater);
            assert(names(a->0, c->0) != Order::Greater);
        }
    }
}

/// Paths are totally preordered: any two compare, turning the arguments around
/// turns the answer around, and the order is transitive.
pub proof fn law_path_order_total_preorder()
    ensures
        total_preorder(|a: Seq<u8>, b: Seq<u8>| path_order(a, b)),
{
    lemma_step_order_total_preorder();
    law_dictionary_total_preorder(step_order());
    let steps = |a: Seq<PathStep>, b: Seq<PathStep>| dictionary_order(a, b, step_order());
    assert(total_preorder(steps));
    let paths = |a: Seq<u8>, b: Seq<u8>| path_order(a, b);
    assert forall|a: Seq<u8>, b: Seq<u8>| #[trigger] paths(a, b) == paths(b, a).flipped() by {
        assert(steps(path_steps(a), path_steps(b)) == steps(
            path_steps(b),
            path_steps(a),
        ).flipped());
    }
    assert forall|a: Seq<u8>, b: Seq<u8>, c: Seq<u8>| #[trigger]
        paths(a, b) != Order::Greater && #[trigger] paths(b, c) != Order::Greater implies paths(
        a,
        c,
    ) != Order::Greater by {
        assert(steps(path_steps(a), path_steps(b)) != Order::Greater);
        assert(steps(path_steps(b), path_steps(c)) != Order::Greater);
        assert(steps(path_steps(a), path_steps(c)) != Order::Greater);
    }
}

proof fn lemma_segment_len(path: Seq<u8>, n: int)
    requires
        0 <= n <= path.len(),
        forall|i: int| 0 <= i < n ==> #[trigger] path[i] != SLASH,
        n == path.len() || path[n] == SLASH,
    ensures
        segment_len(path) == n,
    decreases path.len(),
{
    if n > 0 {
        assert(path[0] != SLASH);
        assert forall|i: int| 0 <= i < n - 1 implies #[trigger] path.skip(1)[i] != SLASH by {
            assert(path[i + 1] != SLASH);
        }
        lemma_segment_len(path.skip(1), n - 1);
    }
}

/// The steps of a sequence of parts.
pub open spec fn parts_view(parts: Seq<PathPart>) -> Seq<PathStep> {
    parts.map_values(|part: PathPart| part@)
}

/// Appends to `parts` the step that the segment from `start` to `end` stands for.
fn push_segment(parts: &mut Vec<PathPart>, path: &[u8], start: usize, end: usize, first: bool)
    requires
        start <= end <= path@.len(),
    ensures
        parts_view(final(parts)@) == parts_view(old(parts)@) + segment_steps(
            path@.subrange(start as int, end as int),
            first,
        ),
{
    let ghost segment = path@.subrange(start as int, end as int);
    if start == end {
        assert(segment_steps(segment, first) == Seq::<PathStep>::empty());
        return;
    }
    if end - start == 1 && path[start] == DOT {
        assert(segment == seq![DOT]);
        if first {
            parts.push(PathPart::Current);
        }
        return;
    }
    assert(segment != seq![DOT]) by {
        if segment == seq![DOT] {
            assert(segment[0] == DOT);
        }
    }
    if end - start == 2 && path[start] == DOT && path[start + 1] == DOT {
        assert(segment == seq![DOT, DOT]);
        parts.push(PathPart::Parent);
        return;
    }
    assert(segment != seq![DOT, DOT]) by {
        if segment == seq![DOT, DOT] {
            assert(segment[0] == DOT && segment[1] == DOT);
        }
    }
    let mut name: Vec<u8> = Vec::new();
    let mut i: usize = start;
    while i < end
        invariant
            start <= i <= end <= path@.len(),
            name@ == path@.subrange(start as int, i as int),
        decreases end - i,
    {
        name.push(path[i]);
        i = i + 1;
    }
    parts.push(PathPart::Name(name));
}

/// Splits a path into its steps.
pub fn path_parts(path: &[u8]) -> (parts: Vec<PathPart>)
    ensures
        parts_view(parts@) == path_steps(path@),
        parts@.len() == path_steps(path@).len(),
        forall|i: int|
            0 <= i < parts@.len() ==> match #[trigger] parts@[i] {
                PathPart::Root => path_steps(path@)[i] is Root,
                PathPart::Current => path_steps(path@)[i] is Current,
                PathPart::Parent => path_steps(path@)[i] is Parent,
                PathPart::Name(name) => path_steps(path@)[i] == PathStep::Name(name@),
            },
{
    let mut parts: Vec<PathPart> = Vec::new();
    let mut start: usize = 0;
    let mut first: bool = true;
    if path.len() > 0 && path[0] == SLASH {
        parts.push(PathPart::Root);
        start = 1;
        first = false;
    } else {
        assert(path@.skip(0) == path@);
    }
    while start < path.len()
        invariant
            start <= path@.len(),
            parts_view(parts@) + relative_steps(path@.skip(start as int), first) == path_steps(
                path@,
            ),
        decreases path.len() - start,
    {
        let mut end: usize = start;
        while end < path.len() && path[end] != SLASH
            invariant
                start <= end <= path@.len(),
                forall|i: int| start <= i < end ==> #[trigger] path@[i] != SLASH,
            decreases path.len() - end,
        {
            end = end + 1;
        }
        let ghost rest = path@.skip(start as int);
        proof {
            assert forall|i: int| 0 <= i < end - start implies #[trigger] rest[i] != SLASH by {
                assert(path@[start + i] != SLASH);
            }
            lemma_segment_len(rest, end - start);
            assert(rest.take(end - start) == path@.subrange(start as int, end as int));
        }
        push_segment(&mut parts, path, start, end, first);
        first = false;
        if end < path.len() {
            assert(after_segment(rest) == path@.skip(end + 1));
            start = end + 1;
        } else {
            assert(after_segment(rest) == path@.skip(end as int));
            start = end;
        }
    }
    proof {
        let steps = parts_view(parts@);
        assert forall|i: int| 0 <= i < parts@.len() implies match #[trigger] parts@[i] {
            PathPart::Root => path_steps(path@)[i] is Root,
            PathPart::Current => path_steps(path@)[i] is Current,
            PathPart::Parent => path_steps(path@)[i] is Parent,
            PathPart::Name(name) => path_steps(path@)[i] == PathStep::Name(name@),
        } by {
            assert(steps[i] == parts@[i]@);
        }
    }
    parts
}

/// Compares two names byte by byte.
fn compare_names(a: &Vec<u8>, b: &Vec<u8>) -> (order: Order)
    ensures
        order == dictionary_order(a@, b@, byte_order()),
{
    let mut i: usize = 0;
    assert(a@.skip(0) == a@ && b@.skip(0) == b@);
    while i < a.len() && i < b.len()
        invariant
            i <= a.len(),
            i <= b.len(),
            dictionary_order(a@.skip(i as int), b@.skip(i as int), byte_order())
                == dictionary_order(a@, b@, byte_order()),
        decreases a.len() - i,
    {
        assert(a@.skip(i as int).skip(1) == a@.skip(i + 1));
        assert(b@.skip(i as int).skip(1) == b@.skip(i + 1));
        if a[i] < b[i] {
            return Order::Less;
        }
        if a[i] > b[i] {
            return Order::Greater;
        }
        i = i + 1;
    }
    compare_lens(a.len(), b.len())
}

/// Compares two lengths.
fn compare_lens(a: usize, b: usize) -> (order: Order)
    ensures
        order == int_order(a as int, b as int),
{
    if a < b {
        Order::Less
    } else if a == b {
        Order::Equal
    } else {
        Order::Greater
    }
}

/// Where a kind of part stands among the others.
fn rank(part: &PathPart) -> (rank: usize)
    ensures
        rank == step_rank(part@),
{
    match part {
        PathPart::Root => 0,
        PathPart::Current => 1,
        PathPart::Parent => 2,
        PathPart::Name(_) => 3,
    }
}

/// Compares two steps.
fn compare_parts(a: &PathPart, b: &PathPart) -> (order: Order)
    ensures
        order == step_order()(a@, b@),
{
    match (a, b) {
        (PathPart::Name(x), PathPart::Name(y)) => compare_names(x, y),
        _ => compare_lens(rank(a), rank(b)),
    }
}

/// Compares two paths the way the standard library orders them: by their steps.
pub fn compare_paths(a: &[u8], b: &[u8]) -> (order: Order)
    ensures
        order == path_order(a@, b@),
{
    let left: Vec<PathPart> = path_parts(a);
    let right: Vec<PathPart> = path_parts(b);
    let ghost x = path_steps(a@);
    let ghost y = path_steps(b@);
    assert(x.skip(0) == x && y.skip(0) == y);
    let mut i: usize = 0;
    while i < left.len() && i < right.len()
        invariant
            x == path_steps(a@),
            y == path_steps(b@),
            parts_view(left@) == x,
            parts_view(right@) == y,
            i <= left.len(),
            i <= right.len(),
            dictionary_order(x.skip(i as int), y.skip(i as int), step_order()) == dictionary_order(
                x,
                y,
                step_order(),
            ),
        decreases left.len() - i,
    {
        assert(left@[i as int]@ == x[i as int] && right@[i as int]@ == y[i as int]);
        assert(x.skip(i as int).skip(1) == x.skip(i + 1));
        assert(y.skip(i as int).skip(1) == y.skip(i + 1));
        let order: Order = compare_parts(&left[i], &right[i]);
        if order != Order::Equal {
            return order;
        }
        i = i + 1;
    }
    assert(left.len() == x.len() && right.len() == y.len());
    compare_lens(left.len(), right.len())
}

/// Two optional paths have the same bytes only where both are absent or both are
/// there with the same bytes.
pub proof fn law_optional_path(a: Option<Vec<u8>>, b: Option<Vec<u8>>)
    ensures
        optional_path(a) is Some <==> a is Some,
        optional_path(a) == optional_path(b) <==> match (a, b) {
            (Some(x), Some(y)) => x@ == y@,
            (None, None) => true,
            _ => false,
        },
        a is Some ==> optional_path(a)->0 == a->0@,
{
}

/// A path without a slash is one step: a dot, two dots, or a name that holds all of
/// its bytes. An empty path has no step.
pub proof fn law_path_of_one_segment(segment: Seq<u8>)
    requires
        !segment.contains(0x2fu8),
    ensures
        if segment.len() == 0 {
            path_steps(segment) == Seq::<PathStep>::empty()
        } else if segment == seq![0x2eu8] {
            path_steps(segment) == seq![PathStep::Current]
        } else if segment == seq![0x2eu8, 0x2eu8] {
            path_steps(segment) == seq![PathStep::Parent]
        } else {
            path_steps(segment) == seq![PathStep::Name(segment)]
        },
{
    if segment.len() > 0 {
        assert(segment.contains(segment[0]));
    }
    lemma_one_segment(segment, true);
}

proof fn lemma_one_segment(segment: Seq<u8>, first: bool)
    requires
        !segment.contains(SLASH),
    ensures
        relative_steps(segment, first) == segment_steps(segment, first),
{
    assert forall|i: int| 0 <= i < segment.len() implies #[trigger] segment[i] != SLASH by {
        assert(segment.contains(segment[i]));
    }
    lemma_segment_len(segment, segment.len() as int);
    assert(segment.take(segment.len() as int) == segment);
    assert(relative_steps(after_segment(segment), false) == Seq::<PathStep>::empty());
}

/// Where the segment that a path begins with ends.
proof fn lemma_segment_ends(path: Seq<u8>)
    ensures
        segment_len(path) <= path.len(),
        forall|i: int| 0 <= i < segment_len(path) ==> #[trigger] path[i] != SLASH,
        segment_len(path) < path.len() ==> path[segment_len(path) as int] == SLASH,
    decreases path.len(),
{
    if path.len() > 0 && path[0] != SLASH {
        let rest = path.skip(1);
        lemma_segment_ends(rest);
        assert forall|i: int| 0 <= i < segment_len(path) implies #[trigger] path[i] != SLASH by {
            if i > 0 {
                assert(path[i] == rest[i - 1]);
            }
        }
    }
}

proof fn lemma_append_segment(path: Seq<u8>, first: bool, segment: Seq<u8>)
    requires
        !segment.contains(SLASH),
        path.len() > 0 || !first,
    ensures
        relative_steps(path + seq![SLASH] + segment, first) == relative_steps(path, first)
            + segment_steps(segment, false),
    decreases path.len(),
{
    let whole = path + seq![SLASH] + segment;
    let n = segment_len(path) as int;
    lemma_segment_ends(path);
    assert forall|i: int| 0 <= i < n implies #[trigger] whole[i] != SLASH by {
        assert(whole[i] == path[i]);
    }
    assert(whole[n] == SLASH);
    lemma_segment_len(whole, n);
    assert(whole.take(n) == path.take(n));
    if n < path.len() {
        lemma_append_segment(after_segment(path), false, segment);
        assert(after_segment(whole) == after_segment(path) + seq![SLASH] + segment);
    } else {
        assert(after_segment(whole) == segment);
        lemma_one_segment(segment, false);
        if path.len() > 0 {
            assert(relative_steps(after_segment(path), false) == Seq::<PathStep>::empty());
        } else {
            assert(segment_steps(whole.take(0), first) == Seq::<PathStep>::empty());
        }
    }
    assert(relative_steps(whole, first) =~= relative_steps(path, first) + segment_steps(
        segment,
        false,
    ));
}

/// A slash and one more segment add at most one step to a path: none for an empty
/// segment or a dot, and otherwise two dots or a name that holds all of its bytes.
/// Where nothing stands before the slash, it is the root.
pub proof fn law_path_of_one_more_segment(path: Seq<u8>, segment: Seq<u8>)
    requires
        !segment.contains(0x2fu8),
    ensures
        ({
            let before = if path.len() == 0 {
                seq![PathStep::Root]
            } else {
                path_steps(path)
            };
            let after = path_steps(path + seq![0x2fu8] + segment);
            if segment.len() == 0 || segment == seq![0x2eu8] {
                after == before
            } else if segment == seq![0x2eu8, 0x2eu8] {
                after == before.push(PathStep::Parent)
            } else {
                after == before.push(PathStep::Name(segment))
            }
        }),
{
    let whole = path + seq![0x2fu8] + segment;
    if path.len() == 0 {
        assert(whole.skip(1) == segment);
        lemma_one_segment(segment, false);
    } else if path[0] == SLASH {
        assert(whole.skip(1) == path.skip(1) + seq![0x2fu8] + segment);
        lemma_append_segment(path.skip(1), false, segment);
    } else {
        lemma_append_segment(path, true, segment);
    }
    let before = if path.len() == 0 {
        seq![PathStep::Root]
    } else {
        path_steps(path)
    };
    assert(path_steps(whole) =~= before + segment_steps(segment, false));
}

proof fn lemma_same_steps(x: Seq<PathStep>, y: Seq<PathStep>, k: int)
    requires
        0 <= k <= x.len(),
        k <= y.len(),
        x.take(k) == y.take(k),
    ensures
        forall|i: int| 0 <= i < k ==> step_order()(#[trigger] x[i], y[i]) == Order::Equal,
        forall|i: int| 0 <= i < k ==> step_order()(#[trigger] y[i], x[i]) == Order::Equal,
{
    lemma_step_order_total_preorder();
    let order = step_order();
    assert forall|i: int| 0 <= i < k implies order(#[trigger] x[i], y[i]) == Order::Equal by {
        assert(x.take(k)[i] == x[i] && y.take(k)[i] == y[i]);
        assert(order(x[i], x[i]) == order(x[i], x[i]).flipped());
    }
    assert forall|i: int| 0 <= i < k implies order(#[trigger] y[i], x[i]) == Order::Equal by {
        assert(x.take(k)[i] == x[i] && y.take(k)[i] == y[i]);
        assert(order(y[i], y[i]) == order(y[i], y[i]).flipped());
    }
}

/// A path whose steps are those that another one begins with comes before it, and
/// is equal to it where there are no more.
pub proof fn law_shorter_path_first(a: Seq<u8>, b: Seq<u8>)
    requires
        path_steps(a).len() <= path_steps(b).len(),
        path_steps(b).take(path_steps(a).len() as int) == path_steps(a),
    ensures
        path_steps(a).len() < path_steps(b).len() ==> path_order(a, b) == Order::Less
            && path_order(b, a) == Order::Greater,
        path_steps(a).len() == path_steps(b).len() ==> path_order(a, b) == Order::Equal
            && path_order(b, a) == Order::Equal,
{
    let x = path_steps(a);
    let y = path_steps(b);
    assert(x.take(x.len() as int) == x);
    lemma_same_steps(x, y, x.len() as int);
    law_first_difference_decides(x, y, step_order(), x.len() as int);
    law_first_difference_decides(y, x, step_order(), x.len() as int);
}

/// Where two paths first differ in the kind of a step, the root comes first, then a
/// dot, then two dots, then a name.
pub proof fn law_first_different_kind_decides(a: Seq<u8>, b: Seq<u8>, k: int)
    requires
        0 <= k < path_steps(a).len(),
        k < path_steps(b).len(),
        path_steps(a).take(k) == path_steps(b).take(k),
        match path_steps(a)[k] {
            PathStep::Root => !(path_steps(b)[k] is Root),
            PathStep::Current => path_steps(b)[k] is Parent || path_steps(b)[k] is Name,
            PathStep::Parent => path_steps(b)[k] is Name,
            PathStep::Name(_) => false,
        },
    ensures
        path_order(a, b) == Order::Less,
        path_order(b, a) == Order::Greater,
{
    let x = path_steps(a);
    let y = path_steps(b);
    lemma_same_steps(x, y, k);
    law_first_difference_decides(x, y, step_order(), k);
    law_first_difference_decides(y, x, step_order(), k);
}

proof fn lemma_names_ordered(m: Seq<u8>, n: Seq<u8>, j: int)
    requires
        0 <= j <= m.len(),
        j < n.len(),
        m.take(j) == n.take(j),
        j < m.len() ==> m[j] < n[j],
    ensures
        dictionary_order(m, n, byte_order()) == Order::Less,
        dictionary_order(n, m, byte_order()) == Order::Greater,
{
    assert forall|i: int| 0 <= i < j implies byte_order()(#[trigger] m[i], n[i])
        == Order::Equal by {
        assert(m.take(j)[i] == m[i] && n.take(j)[i] == n[i]);
    }
    assert forall|i: int| 0 <= i < j implies byte_order()(#[trigger] n[i], m[i])
        == Order::Equal by {
        assert(m.take(j)[i] == m[i] && n.take(j)[i] == n[i]);
    }
    law_first_difference_decides(m, n, byte_order(), j);
    law_first_difference_decides(n, m, byte_order(), j);
}

/// Where two paths first differ in a name, the first byte in which the two names
/// differ decides; a name that ends there comes first.
pub proof fn law_first_different_name_decides(
    a: Seq<u8>,
    b: Seq<u8>,
    k: int,
    m: Seq<u8>,
    n: Seq<u8>,
    j: int,
)
    requires
        0 <= k < path_steps(a).len(),
        k < path_steps(b).len(),
        path_steps(a).take(k) == path_steps(b).take(k),
        path_steps(a)[k] == PathStep::Name(m),
        path_steps(b)[k] == PathStep::Name(n),
        0 <= j <= m.len(),
        j < n.len(),
        m.take(j) == n.take(j),
        j < m.len() ==> m[j] < n[j],
    ensures
        path_order(a, b) == Order::Less,
        path_order(b, a) == Order::Greater,
{
    let x = path_steps(a);
    let y = path_steps(b);
    lemma_same_steps(x, y, k);
    lemma_names_ordered(m, n, j);
    law_first_difference_decides(x, y, step_order(), k);
    law_first_difference_decides(y, x, step_order(), k);
}

/// Whether these bytes can be the name of a file: not empty, without a slash, and
/// neither a dot nor two dots.
pub open spec fn file_name(name: Seq<u8>) -> bool {
    &&& name.len() > 0
    &&& !name.contains(0x2fu8)
    &&& name != seq![0x2eu8]
    &&& name != seq![0x2eu8, 0x2eu8]
}

/// Two files in one directory are ordered by the first byte in which their names
/// differ, wherever it stands; a name that ends there comes first.
pub proof fn law_siblings_ordered_by_name(
    directory: Seq<u8>,
    name: Seq<u8>,
    other: Seq<u8>,
    j: int,
)
    requires
        file_name(name),
        file_name(other),
        0 <= j <= name.len(),
        j < other.len(),
        name.take(j) == other.take(j),
        j < name.len() ==> name[j] < other[j],
    ensures
        path_order(directory + seq![0x2fu8] + name, directory + seq![0x2fu8] + other)
            == Order::Less,
        path_order(directory + seq![0x2fu8] + other, directory + seq![0x2fu8] + name)
            == Order::Greater,
{
    law_path_of_one_more_segment(directory, name);
    law_path_of_one_more_segment(directory, other);
    let a = directory + seq![0x2fu8] + name;
    let b = directory + seq![0x2fu8] + other;
    let k = path_steps(a).len() - 1;
    assert(path_steps(a).take(k) == path_steps(b).take(k));
    law_first_different_name_decides(a, b, k, name, other, j);
}

/// What lies in two directories next to each other is ordered by the names of the
/// directories, whatever its own names are.
pub proof fn law_directories_ordered_by_name(
    directory: Seq<u8>,
    name: Seq<u8>,
    other: Seq<u8>,
    j: int,
    inner: Seq<u8>,
    outer: Seq<u8>,
)
    requires
        file_name(name),
        file_name(other),
        file_name(inner),
        file_name(outer),
        0 <= j <= name.len(),
        j < other.len(),
        name.take(j) == other.take(j),
        j < name.len() ==> name[j] < other[j],
    ensures
        path_order(
            directory + seq![0x2fu8] + name + seq![0x2fu8] + inner,
            directory + seq![0x2fu8] + other + seq![0x2fu8] + outer,
        ) == Order::Less,
{
    let x = directory + seq![0x2fu8] + name;
    let y = directory + seq![0x2fu8] + other;
    law_path_of_one_more_segment(directory, name);
    law_path_of_one_more_segment(directory, other);
    law_path_of_one_more_segment(x, inner);
    law_path_of_one_more_segment(y, outer);
    let a = x + seq![0x2fu8] + inner;
    let b = y + seq![0x2fu8] + outer;
    let k = path_steps(x).len() - 1;
    assert(path_steps(a).take(k) == path_steps(b).take(k));
    assert(path_steps(a)[k] == path_steps(x)[k]);
    assert(path_steps(b)[k] == path_steps(y)[k]);
    law_first_different_name_decides(a, b, k, name, other, j);
}

/// A directory comes before every file in it.
pub proof fn law_directory_before_its_files(directory: Seq<u8>, name: Seq<u8>)
    requires
        directory.len() > 0,
        file_name(name),
    ensures
        path_order(directory, directory + seq![0x2fu8] + name) == Order::Less,
{
    law_path_of_one_more_segment(directory, name);
    let inside = directory + seq![0x2fu8] + name;
    assert(path_steps(inside).take(path_steps(directory).len() as int) == path_steps(directory));
    law_shorter_path_first(directory, inside);
}

proof fn lemma_equal_names(m: Seq<u8>, n: Seq<u8>)
    requires
        dictionary_order(m, n, byte_order()) == Order::Equal,
    ensures
        m == n,
    decreases m.len(),
{
    if m.len() > 0 && n.len() > 0 {
        lemma_equal_names(m.skip(1), n.skip(1));
        assert(m == seq![m[0]] + m.skip(1));
        assert(n == seq![n[0]] + n.skip(1));
    } else {
        assert(m == n);
    }
}

proof fn lemma_equal_steps(x: Seq<PathStep>, y: Seq<PathStep>)
    requires
        dictionary_order(x, y, step_order()) == Order::Equal,
    ensures
        x == y,
    decreases x.len(),
{
    if x.len() > 0 && y.len() > 0 {
        if x[0] is Name && y[0] is Name {
            lemma_equal_names(x[0]->0, y[0]->0);
        }
        assert(x[0] == y[0]);
        lemma_equal_steps(x.skip(1), y.skip(1));
        assert(x == seq![x[0]] + x.skip(1));
        assert(y == seq![y[0]] + y.skip(1));
    } else {
        assert(x == y);
    }
}

/// Two paths are equal in order only where they have the same steps.
pub proof fn law_equal_paths_have_the_same_steps(a: Seq<u8>, b: Seq<u8>)
    ensures
        path_order(a, b) == Order::Equal <==> path_steps(a) == path_steps(b),
{
    if path_order(a, b) == Order::Equal {
        lemma_equal_steps(path_steps(a), path_steps(b));
    }
    if path_steps(a) == path_steps(b) {
        assert(path_steps(b).take(path_steps(a).len() as int) == path_steps(a));
        law_shorter_path_first(a, b);
    }
}

} // verus!
