//! The validity predicate: three cards form a set exactly when, for each of
//! the four attribute kinds independently, the number of distinct values
//! among the three cards is one or three — never two.

use vstd::prelude::*;

use crate::card::Attribute;
use crate::card::Card;

verus! {

/// How many distinct values appear among three values of one attribute kind.
pub open spec fn distinct_count<T>(x: T, y: T, z: T) -> int {
    if x == y && y == z {
        1
    } else if x != y && x != z && y != z {
        3
    } else {
        2
    }
}

/// One attribute kind allows a set: its three values are all equal or all
/// pairwise distinct.
pub open spec fn attr_ok<T>(x: T, y: T, z: T) -> bool {
    distinct_count(x, y, z) == 1 || distinct_count(x, y, z) == 3
}

/// Three cards form a valid set: every one of the four attribute kinds
/// allows it.
pub open spec fn valid_set(a: Card, b: Card, c: Card) -> bool {
    &&& attr_ok(a.color, b.color, c.color)
    &&& attr_ok(a.count, b.count, c.count)
    &&& attr_ok(a.shape, b.shape, c.shape)
    &&& attr_ok(a.fill, b.fill, c.fill)
}

fn attr_check<T: Attribute>(x: T, y: T, z: T) -> (r: bool)
    ensures
        r == attr_ok(x, y, z),
{
    let xy = x.same_as(y);
    let xz = x.same_as(z);
    let yz = y.same_as(z);
    (xy && yz) || (!xy && !xz && !yz)
}

/// Whether three cards form a valid set.
pub fn check_triple(a: Card, b: Card, c: Card) -> (r: bool)
    ensures
        r == valid_set(a, b, c),
{
    attr_check(a.color, b.color, c.color) && attr_check(a.count, b.count, c.count) && attr_check(
        a.shape,
        b.shape,
        c.shape,
    ) && attr_check(a.fill, b.fill, c.fill)
}

/// Whether the three cards of a triple form a valid set.
pub fn check(cards: [Card; 3]) -> (r: bool)
    ensures
        r == valid_set(cards@[0], cards@[1], cards@[2]),
{
    check_triple(cards[0], cards[1], cards[2])
}

/// Validity does not depend on the order of the three cards: every
/// permutation of the inputs gives the same verdict.
pub proof fn lemma_check_symmetric(a: Card, b: Card, c: Card)
    ensures
        valid_set(a, b, c) == valid_set(a, c, b),
        valid_set(a, b, c) == valid_set(b, a, c),
        valid_set(a, b, c) == valid_set(b, c, a),
        valid_set(a, b, c) == valid_set(c, a, b),
        valid_set(a, b, c) == valid_set(c, b, a),
{
}

/// A distinct-value count of two on any attribute kind invalidates the whole
/// triple, and counts of one or three never do: the verdict is exactly the
/// conjunction of the four per-kind counts avoiding two, each kind judged
/// independently of the other three.
pub proof fn lemma_distinct_count_rule(a: Card, b: Card, c: Card)
    ensures
        1 <= distinct_count(a.color, b.color, c.color) <= 3,
        1 <= distinct_count(a.count, b.count, c.count) <= 3,
        1 <= distinct_count(a.shape, b.shape, c.shape) <= 3,
        1 <= distinct_count(a.fill, b.fill, c.fill) <= 3,
        valid_set(a, b, c) <==> (distinct_count(a.color, b.color, c.color) != 2 && distinct_count(
            a.count,
            b.count,
            c.count,
        ) != 2 && distinct_count(a.shape, b.shape, c.shape) != 2 && distinct_count(
            a.fill,
            b.fill,
            c.fill,
        ) != 2),
{
}

} // verus!
