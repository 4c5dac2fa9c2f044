//! Three-way comparisons, and how they extend to sequences.

use vstd::prelude::*;

verus! {

/// How one value stands to another.
#[derive(Clone, Copy, Debug, PartialEq, Eq, Structural)]
pub enum Order {
    Less,
    Equal,
    Greater,
}

impl Order {
    /// How the other value stands to the first.
    pub open spec fn flipped(self) -> Order {
        match self {
            Order::Less => Order::Greater,
            Order::Equal => Order::Equal,
            Order::Greater => Order::Less,
        }
    }
}

/// How two integers stand to each other.
pub open spec fn int_order(a: int, b: int) -> Order {
    if a < b {
        Order::Less
    } else if a == b {
        Order::Equal
    } else {
        Order::Greater
    }
}

/// How two sequences stand to each other in the dictionary order that `order`
/// gives: by the first place where they differ, and where one is the start of
/// the other, by their lengths.
pub open spec fn dictionary_order<T>(
    a: Seq<T>,
    b: Seq<T>,
    order: spec_fn(T, T) -> Order,
) -> Order
    decreases a.len(),
{
    if a.len() == 0 || b.len() == 0 {
        int_order(a.len() as int, b.len() as int)
    } else if order(a[0], b[0]) != Order::Equal {
        order(a[0], b[0])
    } else {
        dictionary_order(a.skip(1), b.skip(1), order)
    }
}

/// Whether `order` is a total preorder: turning the arguments around turns the
/// answer around, and what is no greater than a lesser value is no greater.
pub open spec fn total_preorder<T>(order: spec_fn(T, T) -> Order) -> bool {
    &&& forall|a: T, b: T| #[trigger] order(a, b) == order(b, a).flipped()
    &&& forall|a: T, b: T, c: T|
        #[trigger] order(a, b) != Order::Greater && #[trigger] order(b, c) != Order::Greater
            ==> order(a, c) != Order::Greater
}

proof fn lemma_dictionary_flips<T>(a: Seq<T>, b: Seq<T>, order: spec_fn(T, T) -> Order)
    requires
        total_preorder(order),
    ensures
        dictionary_order(a, b, order) == dictionary_order(b, a, order).flipped(),
    decreases a.len(),
{
    if a.len() > 0 && b.len() > 0 {
        assert(order(a[0], b[0]) == order(b[0], a[0]).flipped());
        lemma_dictionary_flips(a.skip(1), b.skip(1), order);
    }
}

proof fn lemma_dictionary_transitive<T>(
    a: Seq<T>,
    b: Seq<T>,
    c: Seq<T>,
    order: spec_fn(T, T) -> Order,
)
    requires
        total_preorder(order),
        dictionary_order(a, b, order) != Order::Greater,
        dictionary_order(b, c, order) != Order::Greater,
    ensures
        dictionary_order(a, c, order) != Order::Greater,
    decreases a.len(),
{
    if a.len() > 0 && b.len() > 0 && c.len() > 0 {
        let ab = order(a[0], b[0]);
        let bc = order(b[0], c[0]);
        let ac = order(a[0], c[0]);
        assert(ab == order(b[0], a[0]).flipped());
        assert(bc == order(c[0], b[0]).flipped());
        assert(ac == order(c[0], a[0]).flipped());
        assert(ac != Order::Greater);
        if ac == Order::Equal {
            assert(order(b[0], a[0]) != Order::Greater);
            assert(order(c[0], b[0]) != Order::Greater);
            lemma_dictionary_transitive(a.skip(1), b.skip(1), c.skip(1), order);
        }
    }
}

/// The dictionary order over a total preorder is a total preorder.
pub proof fn law_dictionary_total_preorder<T>(order: spec_fn(T, T) -> Order)
    requires
        total_preorder(order),
    ensures
        total_preorder(|a: Seq<T>, b: Seq<T>| dictionary_order(a, b, order)),
{
    let extended = |a: Seq<T>, b: Seq<T>| dictionary_order(a, b, order);
    assert forall|a: Seq<T>, b: Seq<T>| #[trigger]
        extended(a, b) == extended(b, a).flipped() by {
        lemma_dictionary_flips(a, b, order);
    }
    assert forall|a: Seq<T>, b: Seq<T>, c: Seq<T>| #[trigger]
        extended(a, b) != Order::Greater && #[trigger] extended(b, c)
            != Order::Greater implies extended(a, c) != Order::Greater by {
        lemma_dictionary_transitive(a, b, c, order);
    }
}

/// Integers are told apart by which is smaller, and equal only to themselves.
pub proof fn law_int_order(a: int, b: int)
    ensures
        int_order(a, b) == Order::Less <==> a < b,
        int_order(a, b) == Order::Equal <==> a == b,
        int_order(a, b) == Order::Greater <==> a > b,
{
}

/// Two sequences that agree up to place `k` are told apart by what stands there; if
/// one of them ends there, the one that goes on is greater.
pub proof fn law_first_difference_decides<T>(
    a: Seq<T>,
    b: Seq<T>,
    order: spec_fn(T, T) -> Order,
    k: int,
)
    requires
        0 <= k <= a.len(),
        k <= b.len(),
        forall|i: int| 0 <= i < k ==> order(#[trigger] a[i], b[i]) == Order::Equal,
        k < a.len() && k < b.len() ==> order(a[k], b[k]) != Order::Equal,
    ensures
        k < a.len() && k < b.len() ==> dictionary_order(a, b, order) == order(a[k], b[k]),
        k == a.len() && k < b.len() ==> dictionary_order(a, b, order) == Order::Less,
        k < a.len() && k == b.len() ==> dictionary_order(a, b, order) == Order::Greater,
        k == a.len() && k == b.len() ==> dictionary_order(a, b, order) == Order::Equal,
    decreases k,
{
    if k > 0 {
        assert(order(a[0], b[0]) == Order::Equal);
        let x = a.skip(1);
        let y = b.skip(1);
        assert forall|i: int| 0 <= i < k - 1 implies order(#[trigger] x[i], y[i])
            == Order::Equal by {
            assert(x[i] == a[i + 1]);
        }
        law_first_difference_decides(x, y, order, k - 1);
    }
}

} // verus!
