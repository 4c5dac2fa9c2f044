//! Collecting the candidate target sockets that glob patterns match.

use vstd::prelude::*;

use crate::order::{int_order, total_preorder, Order};
use crate::path::{
    compare_paths, law_equal_paths_have_the_same_steps, law_path_order_total_preorder, path_order,
    path_steps,
};

verus! {

/// How to sort glob results before attempting connections.
#[derive(Clone, Copy, Debug, PartialEq, Eq, Structural)]
pub enum GlobSort {
    /// Sort alphabetically by path name.
    Name,
    /// Sort by filesystem modification time, oldest first.
    TimestampOldest,
    /// Sort by filesystem modification time, newest first.
    TimestampNewest,
}

/// A point in time: seconds since the epoch (before it, if negative), and the
/// nanoseconds after that second.
#[derive(Clone, Copy, Debug, PartialEq, Eq, Structural)]
pub struct ModTime {
    pub secs: i64,
    pub nanos: u32,
}

/// A path that a glob pattern matched, and when it was last modified, if that
/// could be told.
#[derive(Debug, PartialEq, Eq)]
pub struct FoundPath {
    pub path: Vec<u8>,
    pub modified: Option<ModTime>,
}

/// One result of walking the file system for a glob pattern.
#[derive(Debug)]
pub enum GlobEntry {
    /// A path that matches.
    Matched(FoundPath),
    /// A path that could not be read to tell whether anything in it matches.
    Unreadable,
}

/// What a glob pattern stands for.
#[derive(Debug)]
pub enum GlobExpansion {
    /// Nothing: the pattern is malformed.
    Invalid,
    /// The results of walking the file system.
    Entries(Vec<GlobEntry>),
}

/// The paths that match, in the order in which they were found.
pub open spec fn matched_entries(entries: Seq<GlobEntry>) -> Seq<FoundPath>
    decreases entries.len(),
{
    if entries.len() == 0 {
        seq![]
    } else {
        match entries.last() {
            GlobEntry::Matched(found) => matched_entries(entries.drop_last()).push(found),
            GlobEntry::Unreadable => matched_entries(entries.drop_last()),
        }
    }
}

/// The paths that any of the patterns matches, pattern by pattern. A path that
/// several patterns match occurs several times; malformed patterns add nothing.
pub open spec fn matched_paths(expansions: Seq<GlobExpansion>) -> Seq<FoundPath>
    decreases expansions.len(),
{
    if expansions.len() == 0 {
        seq![]
    } else {
        match expansions.last() {
            GlobExpansion::Entries(entries) => matched_paths(expansions.drop_last())
                + matched_entries(entries@),
            GlobExpansion::Invalid => matched_paths(expansions.drop_last()),
        }
    }
}

/// How two modification times stand to each other; unknown ones come first.
pub open spec fn time_order(a: Option<ModTime>, b: Option<ModTime>) -> Order {
    match (a, b) {
        (None, None) => Order::Equal,
        (None, Some(_)) => Order::Less,
        (Some(_), None) => Order::Greater,
        (Some(x), Some(y)) => if x.secs != y.secs {
            int_order(x.secs as int, y.secs as int)
        } else {
            int_order(x.nanos as int, y.nanos as int)
        },
    }
}

/// How two paths stand to each other under `sort`.
pub open spec fn found_order(sort: GlobSort, a: FoundPath, b: FoundPath) -> Order {
    match sort {
        GlobSort::Name => path_order(a.path@, b.path@),
        GlobSort::TimestampOldest => time_order(a.modified, b.modified),
        GlobSort::TimestampNewest => time_order(b.modified, a.modified),
    }
}

/// Whether no path in `paths` comes before one that `sort` puts ahead of it.
pub open spec fn sorted(sort: GlobSort, paths: Seq<FoundPath>) -> bool {
    forall|i: int, j: int|
        0 <= i < j < paths.len() ==> found_order(sort, #[trigger] paths[i], #[trigger] paths[j])
            != Order::Greater
}

/// The paths in `paths` that `sort` does not tell apart from `found`, in the
/// order in which they stand there.
pub open spec fn tied(sort: GlobSort, paths: Seq<FoundPath>, found: FoundPath) -> Seq<FoundPath> {
    paths.filter(|other: FoundPath| found_order(sort, other, found) == Order::Equal)
}

/// Whether `output` is `input` put in order by a sort that keeps paths which it
/// does not tell apart as they stood.
pub open spec fn stably_sorted(
    sort: GlobSort,
    input: Seq<FoundPath>,
    output: Seq<FoundPath>,
) -> bool {
    &&& sorted(sort, output)
    &&& forall|found: FoundPath| #[trigger]
        tied(sort, output, found) == tied(sort, input, found)
}

/// The paths that any of the patterns matches, put in order stably.
pub open spec fn collected_paths(expansions: Seq<GlobExpansion>, sort: GlobSort) -> Seq<FoundPath> {
    choose|output: Seq<FoundPath>| stably_sorted(sort, matched_paths(expansions), output)
}

/// Every sort order is a total preorder on the found paths.
pub proof fn law_found_order_total_preorder(sort: GlobSort)
    ensures
        total_preorder(|a: FoundPath, b: FoundPath| found_order(sort, a, b)),
{
    law_path_order_total_preorder();
    let names = |a: Seq<u8>, b: Seq<u8>| path_order(a, b);
    assert(total_preorder(names));
    let order = |a: FoundPath, b: FoundPath| found_order(sort, a, b);
    assert forall|a: FoundPath, b: FoundPath| #[trigger] order(a, b) == order(b, a).flipped() by {
        assert(names(a.path@, b.path@) == names(b.path@, a.path@).flipped());
    }
    assert forall|a: FoundPath, b: FoundPath, c: FoundPath| #[trigger]
        order(a, b) != Order::Greater && #[trigger] order(b, c) != Order::Greater implies order(
        a,
        c,
    ) != Order::Greater by {
        if sort == GlobSort::Name {
            assert(names(a.path@, b.path@) != Order::Greater);
            assert(names(b.path@, c.path@) != Order::Greater);
            assert(names(a.path@, c.path@) != Order::Greater);
        }
    }
}

proof fn lemma_order(sort: GlobSort, a: FoundPath, b: FoundPath, c: FoundPath)
    ensures
        found_order(sort, a, a) == Order::Equal,
        found_order(sort, a, b) == found_order(sort, b, a).flipped(),
        found_order(sort, a, b) != Order::Greater && found_order(sort, b, c) != Order::Greater
            ==> found_order(sort, a, c) != Order::Greater,
{
    law_found_order_total_preorder(sort);
    let order = |x: FoundPath, y: FoundPath| found_order(sort, x, y);
    assert(total_preorder(order));
    assert(order(a, a) == order(a, a).flipped());
    assert(order(a, b) == order(b, a).flipped());
    if order(a, b) != Order::Greater && order(b, c) != Order::Greater {
        assert(order(a, c) != Order::Greater);
    }
}

/// What is tied in a sequence that begins with `head`.
proof fn lemma_tied_cons(
    sort: GlobSort,
    head: FoundPath,
    rest: Seq<FoundPath>,
    found: FoundPath,
)
    ensures
        tied(sort, seq![head] + rest, found) == if found_order(sort, head, found) == Order::Equal {
            seq![head] + tied(sort, rest, found)
        } else {
            tied(sort, rest, found)
        },
{
    let same = |other: FoundPath| found_order(sort, other, found) == Order::Equal;
    let head_only = seq![head];
    Seq::filter_distributes_over_add(head_only, rest, same);
    assert(head_only.drop_last() == Seq::<FoundPath>::empty());
    reveal_with_fuel(Seq::filter, 2);
    assert(head_only.filter(same) =~= if same(head) {
        seq![head]
    } else {
        Seq::empty()
    });
    assert(Seq::<FoundPath>::empty() + rest.filter(same) =~= rest.filter(same));
}

proof fn lemma_tied_head(sort: GlobSort, paths: Seq<FoundPath>, found: FoundPath)
    requires
        paths.len() > 0,
        found_order(sort, paths[0], found) == Order::Equal,
    ensures
        tied(sort, paths, found).len() > 0,
        tied(sort, paths, found)[0] == paths[0],
{
    lemma_tied_cons(sort, paths[0], paths.skip(1), found);
    assert(seq![paths[0]] + paths.skip(1) == paths);
}

/// What is tied in a sequence stands in it.
proof fn lemma_tied_member(sort: GlobSort, paths: Seq<FoundPath>, found: FoundPath) -> (i: int)
    requires
        tied(sort, paths, found).len() > 0,
    ensures
        0 <= i < paths.len(),
        found_order(sort, paths[i], found) == Order::Equal,
    decreases paths.len(),
{
    if paths.len() == 0 {
        reveal(Seq::filter);
        0
    } else {
        lemma_tied_cons(sort, paths[0], paths.skip(1), found);
        assert(seq![paths[0]] + paths.skip(1) == paths);
        if found_order(sort, paths[0], found) == Order::Equal {
            0
        } else {
            1 + lemma_tied_member(sort, paths.skip(1), found)
        }
    }
}

/// The first of a sorted sequence does not come after the first of another one
/// with the same ties.
proof fn lemma_first_not_after(sort: GlobSort, a: Seq<FoundPath>, b: Seq<FoundPath>)
    requires
        a.len() > 0,
        sorted(sort, b),
        tied(sort, a, a[0]) == tied(sort, b, a[0]),
    ensures
        b.len() > 0,
        found_order(sort, b[0], a[0]) != Order::Greater,
{
    lemma_order(sort, a[0], a[0], a[0]);
    lemma_tied_head(sort, a, a[0]);
    let i = lemma_tied_member(sort, b, a[0]);
    lemma_order(sort, b[0], b[i], a[0]);
    if i == 0 {
        lemma_order(sort, b[0], b[0], a[0]);
    }
}

proof fn lemma_same_ties_same_sequence(sort: GlobSort, a: Seq<FoundPath>, b: Seq<FoundPath>)
    requires
        sorted(sort, a),
        sorted(sort, b),
        forall|found: FoundPath| #[trigger] tied(sort, a, found) == tied(sort, b, found),
    ensures
        a == b,
    decreases a.len(),
{
    if a.len() > 0 {
        assert(tied(sort, a, a[0]) == tied(sort, b, a[0]));
        lemma_first_not_after(sort, a, b);
        assert(tied(sort, a, b[0]) == tied(sort, b, b[0]));
        lemma_first_not_after(sort, b, a);
        lemma_order(sort, a[0], b[0], a[0]);
        lemma_order(sort, a[0], a[0], a[0]);
        lemma_tied_head(sort, a, a[0]);
        lemma_tied_head(sort, b, a[0]);
        assert(a[0] == b[0]);
        let x = a.skip(1);
        let y = b.skip(1);
        assert(a == seq![a[0]] + x);
        assert(b == seq![a[0]] + y);
        assert forall|found: FoundPath| #[trigger] tied(sort, x, found) == tied(sort, y, found) by {
            assert(tied(sort, a, found) == tied(sort, b, found));
            lemma_tied_cons(sort, a[0], x, found);
            lemma_tied_cons(sort, a[0], y, found);
            assert((seq![a[0]] + tied(sort, x, found)).skip(1) == tied(sort, x, found));
            assert((seq![a[0]] + tied(sort, y, found)).skip(1) == tied(sort, y, found));
        }
        assert(sorted(sort, x)) by {
            assert forall|i: int, j: int| 0 <= i < j < x.len() implies found_order(
                sort,
                #[trigger] x[i],
                #[trigger] x[j],
            ) != Order::Greater by {
                assert(x[i] == a[i + 1] && x[j] == a[j + 1]);
            }
        }
        assert(sorted(sort, y)) by {
            assert forall|i: int, j: int| 0 <= i < j < y.len() implies found_order(
                sort,
                #[trigger] y[i],
                #[trigger] y[j],
            ) != Order::Greater by {
                assert(y[i] == b[i + 1] && y[j] == b[j + 1]);
            }
        }
        lemma_same_ties_same_sequence(sort, x, y);
    } else if b.len() > 0 {
        assert(tied(sort, a, b[0]) == tied(sort, b, b[0]));
        lemma_first_not_after(sort, b, a);
    } else {
        assert(a == b);
    }
}

/// There is one way only to put paths in order stably.
pub proof fn law_stable_sort_unique(
    sort: GlobSort,
    input: Seq<FoundPath>,
    a: Seq<FoundPath>,
    b: Seq<FoundPath>,
)
    requires
        stably_sorted(sort, input, a),
        stably_sorted(sort, input, b),
    ensures
        a == b,
{
    assert forall|found: FoundPath| #[trigger] tied(sort, a, found) == tied(sort, b, found) by {
        assert(tied(sort, a, found) == tied(sort, input, found));
        assert(tied(sort, b, found) == tied(sort, input, found));
    }
    lemma_same_ties_same_sequence(sort, a, b);
}

proof fn lemma_insert_ties(
    sort: GlobSort,
    paths: Seq<FoundPath>,
    at: int,
    new: FoundPath,
    found: FoundPath,
)
    requires
        0 <= at <= paths.len(),
        forall|i: int| 0 <= i < at ==> found_order(sort, #[trigger] paths[i], new) == Order::Less,
    ensures
        tied(sort, paths.insert(at, new), found) == tied(sort, seq![new] + paths, found),
{
    let same = |other: FoundPath| found_order(sort, other, found) == Order::Equal;
    let front = paths.take(at);
    let back = paths.skip(at);
    assert(paths.insert(at, new) == front + (seq![new] + back));
    assert(paths == front + back);
    Seq::filter_distributes_over_add(front, seq![new] + back, same);
    Seq::filter_distributes_over_add(front, back, same);
    lemma_tied_cons(sort, new, back, found);
    lemma_tied_cons(sort, new, paths, found);
    if found_order(sort, new, found) == Order::Equal {
        if tied(sort, front, found).len() > 0 {
            let i = lemma_tied_member(sort, front, found);
            assert(front[i] == paths[i]);
            lemma_order(sort, found, new, paths[i]);
            lemma_order(sort, new, found, paths[i]);
            lemma_order(sort, paths[i], found, new);
            lemma_order(sort, paths[i], new, found);
        }
        assert(tied(sort, front, found) == Seq::<FoundPath>::empty());
        assert(Seq::<FoundPath>::empty() + (seq![new] + tied(sort, back, found)) == seq![new]
            + tied(sort, back, found));
        assert(Seq::<FoundPath>::empty() + tied(sort, back, found) == tied(sort, back, found));
    }
}

/// Inserting a path ahead of the first one that it does not come after keeps a
/// stable sort stable.
proof fn lemma_insert_stable(
    sort: GlobSort,
    input: Seq<FoundPath>,
    output: Seq<FoundPath>,
    at: int,
    new: FoundPath,
)
    requires
        stably_sorted(sort, input, output),
        0 <= at <= output.len(),
        forall|i: int| 0 <= i < at ==> found_order(sort, #[trigger] output[i], new) == Order::Less,
        at == output.len() || found_order(sort, output[at], new) != Order::Less,
    ensures
        stably_sorted(sort, seq![new] + input, output.insert(at, new)),
{
    let after = output.insert(at, new);
    assert forall|i: int, j: int| 0 <= i < j < after.len() implies found_order(
        sort,
        #[trigger] after[i],
        #[trigger] after[j],
    ) != Order::Greater by {
        let old_i = if i < at {
            i
        } else {
            i - 1
        };
        let old_j = if j < at {
            j
        } else {
            j - 1
        };
        if i == at {
            lemma_order(sort, new, output[at], output[old_j]);
            lemma_order(sort, output[at], new, new);
        } else if j == at {
            assert(after[i] == output[i]);
        } else {
            assert(after[i] == output[old_i] && after[j] == output[old_j]);
        }
    }
    assert forall|found: FoundPath| #[trigger]
        tied(sort, after, found) == tied(sort, seq![new] + input, found) by {
        lemma_insert_ties(sort, output, at, new, found);
        lemma_tied_cons(sort, new, output, found);
        lemma_tied_cons(sort, new, input, found);
        assert(tied(sort, output, found) == tied(sort, input, found));
    }
}

proof fn lemma_place(sort: GlobSort, paths: Seq<FoundPath>, new: FoundPath) -> (at: int)
    ensures
        0 <= at <= paths.len(),
        forall|i: int| 0 <= i < at ==> found_order(sort, #[trigger] paths[i], new) == Order::Less,
        at == paths.len() || found_order(sort, paths[at], new) != Order::Less,
    decreases paths.len(),
{
    if paths.len() > 0 && found_order(sort, paths[0], new) == Order::Less {
        let at = lemma_place(sort, paths.skip(1), new);
        assert forall|i: int| 0 <= i < at + 1 implies found_order(sort, #[trigger] paths[i], new)
            == Order::Less by {
            if i > 0 {
                assert(paths[i] == paths.skip(1)[i - 1]);
            }
        }
        at + 1
    } else {
        0
    }
}

proof fn lemma_stable_sort(sort: GlobSort, input: Seq<FoundPath>) -> (output: Seq<FoundPath>)
    ensures
        stably_sorted(sort, input, output),
        output.to_multiset() == input.to_multiset(),
    decreases input.len(),
{
    if input.len() == 0 {
        input
    } else {
        let output = lemma_stable_sort(sort, input.skip(1));
        let at = lemma_place(sort, output, input[0]);
        lemma_insert_stable(sort, input.skip(1), output, at, input[0]);
        lemma_insert_multiset(output, at, input[0]);
        lemma_insert_multiset(input.skip(1), 0, input[0]);
        assert(seq![input[0]] + input.skip(1) == input);
        assert(input.skip(1).insert(0, input[0]) == input);
        output.insert(at, input[0])
    }
}

proof fn lemma_insert_multiset(paths: Seq<FoundPath>, at: int, new: FoundPath)
    requires
        0 <= at <= paths.len(),
    ensures
        paths.insert(at, new).to_multiset() == paths.to_multiset().insert(new),
{
    broadcast use vstd::seq_lib::group_to_multiset_ensures;

    let after = paths.insert(at, new);
    assert(after.remove(at) == paths);
    assert(after.contains(after[at]));
    assert(after.to_multiset() =~= paths.to_multiset().insert(new));
}

/// Putting paths in order stably neither adds nor drops any.
pub proof fn law_stable_sort_keeps_everything(
    sort: GlobSort,
    input: Seq<FoundPath>,
    output: Seq<FoundPath>,
)
    requires
        stably_sorted(sort, input, output),
    ensures
        output.to_multiset() == input.to_multiset(),
        output.len() == input.len(),
{
    broadcast use vstd::seq_lib::group_to_multiset_ensures;

    let other = lemma_stable_sort(sort, input);
    law_stable_sort_unique(sort, input, output, other);
    assert(output.len() == output.to_multiset().len());
    assert(input.len() == input.to_multiset().len());
}

/// What is collected is what the patterns match, put in order stably.
pub proof fn law_collected_paths_stably_sorted(expansions: Seq<GlobExpansion>, sort: GlobSort)
    ensures
        stably_sorted(sort, matched_paths(expansions), collected_paths(expansions, sort)),
{
    let output = lemma_stable_sort(sort, matched_paths(expansions));
    assert(stably_sorted(sort, matched_paths(expansions), output));
}

/// Compares two modification times.
fn compare_times(a: &Option<ModTime>, b: &Option<ModTime>) -> (order: Order)
    ensures
        order == time_order(*a, *b),
{
    match (a, b) {
        (None, None) => Order::Equal,
        (None, Some(_)) => Order::Less,
        (Some(_), None) => Order::Greater,
        (Some(x), Some(y)) => if x.secs < y.secs {
            Order::Less
        } else if x.secs > y.secs {
            Order::Greater
        } else if x.nanos < y.nanos {
            Order::Less
        } else if x.nanos > y.nanos {
            Order::Greater
        } else {
            Order::Equal
        },
    }
}

/// Compares two found paths.
pub fn compare_found(sort: GlobSort, a: &FoundPath, b: &FoundPath) -> (order: Order)
    ensures
        order == found_order(sort, *a, *b),
{
    match sort {
        GlobSort::Name => compare_paths(a.path.as_slice(), b.path.as_slice()),
        GlobSort::TimestampOldest => compare_times(&a.modified, &b.modified),
        GlobSort::TimestampNewest => compare_times(&b.modified, &a.modified),
    }
}

/// Puts `new` into its place among `paths`, ahead of those that it is tied with.
fn insert_sorted(
    sort: GlobSort,
    paths: &mut Vec<FoundPath>,
    new: FoundPath,
    Ghost(input): Ghost<Seq<FoundPath>>,
)
    requires
        stably_sorted(sort, input, old(paths)@),
    ensures
        stably_sorted(sort, seq![new] + input, final(paths)@),
{
    let ghost before = paths@;
    let mut at: usize = 0;
    while at < paths.len() && compare_found(sort, &paths[at], &new) == Order::Less
        invariant
            paths@ == before,
            at <= paths.len(),
            forall|i: int|
                0 <= i < at ==> found_order(sort, #[trigger] paths@[i], new) == Order::Less,
        ensures
            at == paths.len() || found_order(sort, paths@[at as int], new) != Order::Less,
        decreases paths.len() - at,
    {
        at = at + 1;
    }
    paths.insert(at, new);
    proof {
        lemma_insert_stable(sort, input, before, at as int, new);
    }
}

/// Puts paths in order; those that `sort` does not tell apart stay as they stood.
pub fn sort_paths(sort: GlobSort, paths: Vec<FoundPath>) -> (output: Vec<FoundPath>)
    ensures
        stably_sorted(sort, paths@, output@),
        output@.to_multiset() == paths@.to_multiset(),
{
    let ghost input = paths@;
    let mut pending: Vec<FoundPath> = paths;
    let mut output: Vec<FoundPath> = Vec::new();
    assert(input.skip(input.len() as int) == output@);
    while pending.len() > 0
        invariant
            pending@.len() <= input.len(),
            pending@ == input.take(pending@.len() as int),
            stably_sorted(sort, input.skip(pending@.len() as int), output@),
        decreases pending@.len(),
    {
        let ghost rest = input.skip(pending@.len() as int);
        match pending.pop() {
            Some(next) => {
                proof {
                    assert(next == input[pending@.len() as int]);
                    assert(input.skip(pending@.len() as int) == seq![next] + rest);
                }
                insert_sorted(sort, &mut output, next, Ghost(rest));
            },
            None => {},
        }
    }
    proof {
        assert(input.skip(0) == input);
        law_stable_sort_keeps_everything(sort, input, output@);
    }
    output
}

/// Collects all paths matching the glob patterns, sorted according to `sort`.
///
/// `expansions` holds what each of the patterns stands for, one after the other.
/// Malformed patterns and unreadable entries are left out.
pub fn collect_paths(expansions: Vec<GlobExpansion>, sort: GlobSort) -> (paths: Vec<FoundPath>)
    ensures
        paths@ == collected_paths(expansions@, sort),
        stably_sorted(sort, matched_paths(expansions@), paths@),
        paths@.to_multiset() == matched_paths(expansions@).to_multiset(),
{
    let ghost all = expansions@;
    let mut found: Vec<FoundPath> = Vec::new();
    for expansion in outer: expansions
        invariant
            outer.seq() == all,
            found@ == matched_paths(all.take(outer.index() as int)),
    {
        let ghost k = outer.index() as int;
        assert(all.take(k + 1).drop_last() == all.take(k));
        match expansion {
            GlobExpansion::Entries(entries) => {
                let ghost before = found@;
                let ghost listed = entries@;
                for entry in inner: entries
                    invariant
                        inner.seq() == listed,
                        found@ == before + matched_entries(listed.take(inner.index() as int)),
                {
                    let ghost m = inner.index() as int;
                    assert(listed.take(m + 1).drop_last() == listed.take(m));
                    match entry {
                        GlobEntry::Matched(path) => found.push(path),
                        GlobEntry::Unreadable => {},
                    }
                }
                assert(listed.take(listed.len() as int) == listed);
            },
            GlobExpansion::Invalid => {},
        }
    }
    assert(all.take(all.len() as int) == all);
    let paths: Vec<FoundPath> = sort_paths(sort, found);
    proof {
        law_stable_sort_unique(sort, matched_paths(all), paths@, collected_paths(all, sort));
    }
    paths
}

/// Of two known times the earlier one is less: by its seconds, and within the same
/// second by its nanoseconds. Where these make up less than a second, that is the one
/// with fewer nanoseconds since the epoch. An unknown time is less than every known
/// one.
pub proof fn law_earlier_time_is_less(x: ModTime, y: ModTime)
    ensures
        time_order(Some(x), Some(y)) == Order::Less <==> x.secs < y.secs || (x.secs == y.secs
            && x.nanos < y.nanos),
        time_order(Some(x), Some(y)) == Order::Equal <==> x.secs == y.secs && x.nanos == y.nanos,
        time_order(Some(x), Some(y)) == Order::Greater <==> x.secs > y.secs || (x.secs == y.secs
            && x.nanos > y.nanos),
        x.nanos < 1_000_000_000 && y.nanos < 1_000_000_000 ==> (time_order(Some(x), Some(y))
            == Order::Less <==> x.secs * 1_000_000_000 + x.nanos < y.secs * 1_000_000_000
            + y.nanos),
        time_order(None, Some(x)) == Order::Less,
        time_order(Some(x), None) == Order::Greater,
        time_order(None, None) == Order::Equal,
{
}

/// Oldest first puts the earlier of two known times first, and newest first the
/// later one; by name, the path alone counts.
pub proof fn law_found_order_by_sort(a: FoundPath, b: FoundPath, x: ModTime, y: ModTime)
    requires
        a.modified == Some(x),
        b.modified == Some(y),
    ensures
        found_order(GlobSort::TimestampOldest, a, b) == Order::Less <==> x.secs < y.secs || (x.secs
            == y.secs && x.nanos < y.nanos),
        found_order(GlobSort::TimestampNewest, a, b) == Order::Less <==> x.secs > y.secs || (x.secs
            == y.secs && x.nanos > y.nanos),
        found_order(GlobSort::TimestampOldest, a, b) == found_order(
            GlobSort::TimestampNewest,
            b,
            a,
        ),
        found_order(GlobSort::Name, a, b) == path_order(a.path@, b.path@),
{
}

/// Of paths whose time is not known, oldest first puts them ahead of all others,
/// and newest first behind them.
pub proof fn law_found_order_of_unknown_times(a: FoundPath, b: FoundPath)
    requires
        a.modified is None,
    ensures
        b.modified is Some ==> found_order(GlobSort::TimestampOldest, a, b) == Order::Less,
        b.modified is Some ==> found_order(GlobSort::TimestampNewest, a, b) == Order::Greater,
        b.modified is None ==> found_order(GlobSort::TimestampOldest, a, b) == Order::Equal,
        b.modified is None ==> found_order(GlobSort::TimestampNewest, a, b) == Order::Equal,
        found_order(GlobSort::Name, a, b) == path_order(a.path@, b.path@),
{
}

/// Paths with the same time stay as they stood.
proof fn lemma_times_keep_places(
    sort: GlobSort,
    input: Seq<FoundPath>,
    output: Seq<FoundPath>,
    time: Option<ModTime>,
)
    requires
        sort != GlobSort::Name,
        stably_sorted(sort, input, output),
    ensures
        output.filter(|f: FoundPath| f.modified == time) == input.filter(
            |f: FoundPath| f.modified == time,
        ),
{
    let path = choose|path: Vec<u8>| path@.len() == 0;
    let found = FoundPath { path, modified: time };
    let same = |f: FoundPath| f.modified == time;
    let ties = |other: FoundPath| found_order(sort, other, found) == Order::Equal;
    assert forall|f: FoundPath| #[trigger] same(f) == ties(f) by {
        match (f.modified, time) {
            (Some(x), Some(y)) => {
                law_earlier_time_is_less(x, y);
            },
            _ => {},
        }
    }
    assert(same =~= ties);
    assert(tied(sort, output, found) == tied(sort, input, found));
}

/// Sorted newest first, no path stands behind an older one, nor a known time behind
/// an unknown one. Paths with the same time stay as they stood, and all are kept.
pub proof fn law_sorted_newest_first(
    input: Seq<FoundPath>,
    output: Seq<FoundPath>,
    time: Option<ModTime>,
)
    requires
        stably_sorted(GlobSort::TimestampNewest, input, output),
    ensures
        forall|i: int, j: int|
            0 <= i < j < output.len() ==> match (
                (#[trigger] output[i]).modified,
                (#[trigger] output[j]).modified,
            ) {
                (Some(x), Some(y)) => x.secs > y.secs || (x.secs == y.secs && x.nanos >= y.nanos),
                (None, Some(_)) => false,
                _ => true,
            },
        output.filter(|f: FoundPath| f.modified == time) == input.filter(
            |f: FoundPath| f.modified == time,
        ),
        output.to_multiset() == input.to_multiset(),
{
    law_stable_sort_keeps_everything(GlobSort::TimestampNewest, input, output);
    lemma_times_keep_places(GlobSort::TimestampNewest, input, output, time);
    assert forall|i: int, j: int| 0 <= i < j < output.len() implies match (
        (#[trigger] output[i]).modified,
        (#[trigger] output[j]).modified,
    ) {
        (Some(x), Some(y)) => x.secs > y.secs || (x.secs == y.secs && x.nanos >= y.nanos),
        (None, Some(_)) => false,
        _ => true,
    } by {
        assert(found_order(GlobSort::TimestampNewest, output[i], output[j]) != Order::Greater);
    }
}

/// Sorted oldest first, no path stands behind a newer one, nor an unknown time behind
/// a known one. Paths with the same time stay as they stood, and all are kept.
pub proof fn law_sorted_oldest_first(
    input: Seq<FoundPath>,
    output: Seq<FoundPath>,
    time: Option<ModTime>,
)
    requires
        stably_sorted(GlobSort::TimestampOldest, input, output),
    ensures
        forall|i: int, j: int|
            0 <= i < j < output.len() ==> match (
                (#[trigger] output[i]).modified,
                (#[trigger] output[j]).modified,
            ) {
                (Some(x), Some(y)) => x.secs < y.secs || (x.secs == y.secs && x.nanos <= y.nanos),
                (Some(_), None) => false,
                _ => true,
            },
        output.filter(|f: FoundPath| f.modified == time) == input.filter(
            |f: FoundPath| f.modified == time,
        ),
        output.to_multiset() == input.to_multiset(),
{
    law_stable_sort_keeps_everything(GlobSort::TimestampOldest, input, output);
    lemma_times_keep_places(GlobSort::TimestampOldest, input, output, time);
    assert forall|i: int, j: int| 0 <= i < j < output.len() implies match (
        (#[trigger] output[i]).modified,
        (#[trigger] output[j]).modified,
    ) {
        (Some(x), Some(y)) => x.secs < y.secs || (x.secs == y.secs && x.nanos <= y.nanos),
        (Some(_), None) => false,
        _ => true,
    } by {
        assert(found_order(GlobSort::TimestampOldest, output[i], output[j]) != Order::Greater);
    }
}

/// Sorted by name, no path stands behind a greater one. Paths with the same steps
/// stay as they stood, and all are kept.
pub proof fn law_sorted_by_name(
    input: Seq<FoundPath>,
    output: Seq<FoundPath>,
    path: Vec<u8>,
)
    requires
        stably_sorted(GlobSort::Name, input, output),
    ensures
        forall|i: int, j: int|
            0 <= i < j < output.len() ==> path_order(
                (#[trigger] output[i]).path@,
                (#[trigger] output[j]).path@,
            ) != Order::Greater,
        output.filter(|f: FoundPath| path_steps(f.path@) == path_steps(path@)) == input.filter(
            |f: FoundPath| path_steps(f.path@) == path_steps(path@),
        ),
        output.to_multiset() == input.to_multiset(),
{
    law_stable_sort_keeps_everything(GlobSort::Name, input, output);
    assert forall|i: int, j: int| 0 <= i < j < output.len() implies path_order(
        (#[trigger] output[i]).path@,
        (#[trigger] output[j]).path@,
    ) != Order::Greater by {
        assert(found_order(GlobSort::Name, output[i], output[j]) != Order::Greater);
    }
    let found = FoundPath { path, modified: None };
    let same = |f: FoundPath| path_steps(f.path@) == path_steps(path@);
    let ties = |other: FoundPath| found_order(GlobSort::Name, other, found) == Order::Equal;
    assert forall|f: FoundPath| #[trigger] same(f) == ties(f) by {
        law_equal_paths_have_the_same_steps(f.path@, path@);
    }
    assert(same =~= ties);
    assert(tied(GlobSort::Name, output, found) == tied(GlobSort::Name, input, found));
}

/// What entries match, one after the other, is what the first of them match and then
/// what the others match. A path that matches is found, and an unreadable one is not.
pub proof fn law_matched_entries_add_up(
    a: Seq<GlobEntry>,
    b: Seq<GlobEntry>,
    found: FoundPath,
)
    ensures
        matched_entries(a + b) == matched_entries(a) + matched_entries(b),
        matched_entries(Seq::empty()) == Seq::<FoundPath>::empty(),
        matched_entries(seq![GlobEntry::Matched(found)]) == seq![found],
        matched_entries(seq![GlobEntry::Unreadable]) == Seq::<FoundPath>::empty(),
    decreases b.len(),
{
    let one = seq![GlobEntry::Matched(found)];
    assert(one.drop_last() == Seq::<GlobEntry>::empty());
    let none = seq![GlobEntry::Unreadable];
    assert(none.drop_last() == Seq::<GlobEntry>::empty());
    assert(matched_entries(Seq::empty()) == Seq::<FoundPath>::empty());
    assert(matched_entries(one) == seq![found]);
    if b.len() == 0 {
        assert(a + b == a);
    } else {
        law_matched_entries_add_up(a, b.drop_last(), found);
        assert((a + b).drop_last() == a + b.drop_last());
    }
    assert(matched_entries(a + b) =~= matched_entries(a) + matched_entries(b));
}

/// What patterns match, one after the other, is what the first of them match and then
/// what the others match. One pattern matches what its entries match, and nothing
/// where it is malformed.
pub proof fn law_matched_paths_add_up(
    a: Seq<GlobExpansion>,
    b: Seq<GlobExpansion>,
    entries: Vec<GlobEntry>,
)
    ensures
        matched_paths(a + b) == matched_paths(a) + matched_paths(b),
        matched_paths(Seq::empty()) == Seq::<FoundPath>::empty(),
        matched_paths(seq![GlobExpansion::Entries(entries)]) == matched_entries(entries@),
        matched_paths(seq![GlobExpansion::Invalid]) == Seq::<FoundPath>::empty(),
    decreases b.len(),
{
    let one = seq![GlobExpansion::Entries(entries)];
    assert(one.drop_last() == Seq::<GlobExpansion>::empty());
    let none = seq![GlobExpansion::Invalid];
    assert(none.drop_last() == Seq::<GlobExpansion>::empty());
    assert(matched_paths(Seq::empty()) == Seq::<FoundPath>::empty());
    assert(matched_paths(one) == matched_entries(entries@));
    if b.len() == 0 {
        assert(a + b == a);
    } else {
        law_matched_paths_add_up(a, b.drop_last(), entries);
        assert((a + b).drop_last() == a + b.drop_last());
    }
    assert(matched_paths(a + b) =~= matched_paths(a) + matched_paths(b));
}

/// Whether one of the patterns matched this path.
pub open spec fn was_matched(expansions: Seq<GlobExpansion>, found: FoundPath) -> bool {
    exists|i: int, j: int|
        0 <= i < expansions.len() && #[trigger] entry_at(expansions[i], j) == Some(
            GlobEntry::Matched(found),
        )
}

/// The entry at place `j` of what a pattern stands for, if there is one.
pub open spec fn entry_at(expansion: GlobExpansion, j: int) -> Option<GlobEntry> {
    match expansion {
        GlobExpansion::Entries(entries) if 0 <= j < entries@.len() => Some(entries@[j]),
        _ => None,
    }
}

proof fn lemma_matched_entry(entries: Seq<GlobEntry>, found: FoundPath)
    ensures
        matched_entries(entries).contains(found) <==> entries.contains(GlobEntry::Matched(found)),
    decreases entries.len(),
{
    if entries.len() > 0 {
        let earlier = entries.drop_last();
        lemma_matched_entry(earlier, found);
        let wanted = GlobEntry::Matched(found);
        if entries.contains(wanted) {
            let j = choose|j: int| 0 <= j < entries.len() && entries[j] == wanted;
            if j < earlier.len() {
                assert(earlier[j] == wanted);
                let k = choose|k: int|
                    0 <= k < matched_entries(earlier).len() && matched_entries(earlier)[k] == found;
                assert(matched_entries(entries)[k] == found);
            } else {
                assert(matched_entries(entries).last() == found);
            }
        }
        if matched_entries(entries).contains(found) {
            let k = choose|k: int|
                0 <= k < matched_entries(entries).len() && matched_entries(entries)[k] == found;
            if k < matched_entries(earlier).len() {
                assert(matched_entries(earlier)[k] == found);
                let j = choose|j: int| 0 <= j < earlier.len() && earlier[j] == wanted;
                assert(entries[j] == wanted);
            } else {
                assert(entries.last() == wanted);
            }
        }
    }
}

proof fn lemma_matched_path(expansions: Seq<GlobExpansion>, found: FoundPath)
    ensures
        matched_paths(expansions).contains(found) <==> was_matched(expansions, found),
    decreases expansions.len(),
{
    if expansions.len() > 0 {
        let earlier = expansions.drop_last();
        let last = expansions.last();
        let wanted = Some(GlobEntry::Matched(found));
        lemma_matched_path(earlier, found);
        let front = matched_paths(earlier);
        let back = match last {
            GlobExpansion::Entries(entries) => matched_entries(entries@),
            GlobExpansion::Invalid => Seq::empty(),
        };
        assert(matched_paths(expansions) =~= front + back);
        match last {
            GlobExpansion::Entries(entries) => {
                lemma_matched_entry(entries@, found);
            },
            GlobExpansion::Invalid => {},
        }
        if was_matched(expansions, found) {
            let (i, j) = choose|i: int, j: int|
                0 <= i < expansions.len() && #[trigger] entry_at(expansions[i], j) == wanted;
            if i < earlier.len() {
                assert(entry_at(earlier[i], j) == wanted);
                let k = choose|k: int| 0 <= k < front.len() && front[k] == found;
                assert((front + back)[k] == found);
            } else {
                let k = choose|k: int| 0 <= k < back.len() && back[k] == found;
                assert((front + back)[front.len() + k] == found);
            }
        }
        if matched_paths(expansions).contains(found) {
            let k = choose|k: int|
                0 <= k < (front + back).len() && (front + back)[k] == found;
            if k < front.len() {
                assert(front[k] == found);
                let (i, j) = choose|i: int, j: int|
                    0 <= i < earlier.len() && #[trigger] entry_at(earlier[i], j) == wanted;
                assert(entry_at(expansions[i], j) == wanted);
            } else {
                assert(back[k - front.len()] == found);
                let entries = last->Entries_0@;
                let j = choose|j: int|
                    0 <= j < entries.len() && entries[j] == GlobEntry::Matched(found);
                assert(entry_at(expansions[expansions.len() - 1], j) == wanted);
            }
        }
    }
}

/// A path is collected if and only if some pattern matched it.
pub proof fn law_collects_what_was_matched(
    expansions: Seq<GlobExpansion>,
    sort: GlobSort,
    found: FoundPath,
)
    ensures
        collected_paths(expansions, sort).contains(found) <==> exists|i: int, j: int|
            0 <= i < expansions.len() && #[trigger] entry_at(expansions[i], j) == Some(
                GlobEntry::Matched(found),
            ),
{
    broadcast use vstd::seq_lib::group_to_multiset_ensures;

    let all = matched_paths(expansions);
    let collected = collected_paths(expansions, sort);
    law_collected_paths_stably_sorted(expansions, sort);
    law_stable_sort_keeps_everything(sort, all, collected);
    lemma_matched_path(expansions, found);
    assert(collected.contains(found) <==> collected.to_multiset().count(found) > 0);
    assert(all.contains(found) <==> all.to_multiset().count(found) > 0);
}

/// As many paths are collected as were matched, each as often.
pub proof fn law_collects_each_as_often(
    expansions: Seq<GlobExpansion>,
    sort: GlobSort,
)
    ensures
        collected_paths(expansions, sort).len() == matched_paths(expansions).len(),
        collected_paths(expansions, sort).to_multiset() == matched_paths(expansions).to_multiset(),
{
    law_collected_paths_stably_sorted(expansions, sort);
    law_stable_sort_keeps_everything(
        sort,
        matched_paths(expansions),
        collected_paths(expansions, sort),
    );
}

} // verus!
