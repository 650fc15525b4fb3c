//! The two solvers. Both search a table of cards for a valid set and agree on
//! whether one exists: the exhaustive solver tries every triple, the
//! algebraic one derives, for each pair, the unique third card that would
//! complete it and looks that card up on the table.

use vstd::prelude::*;

use crate::card::Attribute;
use crate::card::Card;
use crate::rules::check_triple;
use crate::rules::valid_set;

verus! {

/// The unique value an attribute of a third card must have to complete a
/// valid set with a given pair of cards.
pub fn next_property<Property: Attribute>(property1: Property, property2: Property) -> (r:
    Property)
    ensures
        r == property1.third_val(property2),
{
    proof {
        property1.third_val_spec(property2);
    }
    if property1.same_as(property2) {
        property1
    } else {
        property1.remaining(property2)
    }
}

/// The unique card that completes a valid set with the given pair: per
/// attribute kind, the shared value where the pair agrees and the remaining
/// value of the domain where it disagrees.
pub open spec fn third_card(a: Card, b: Card) -> Card {
    Card {
        color: a.color.third_val(b.color),
        count: a.count.third_val(b.count),
        shape: a.shape.third_val(b.shape),
        fill: a.fill.third_val(b.fill),
    }
}

/// The derived third card always completes a valid set with its pair,
/// whatever the two cards are.
pub proof fn lemma_third_card_completes(a: Card, b: Card)
    ensures
        valid_set(a, b, third_card(a, b)),
{
    a.color.third_val_spec(b.color);
    a.count.third_val_spec(b.count);
    a.shape.third_val_spec(b.shape);
    a.fill.third_val_spec(b.fill);
}

/// The derived third card is the only card that completes a valid set with
/// its pair.
pub proof fn lemma_third_card_unique(a: Card, b: Card, c: Card)
    requires
        valid_set(a, b, c),
    ensures
        c == third_card(a, b),
{
    a.color.third_val_spec(b.color);
    a.count.third_val_spec(b.count);
    a.shape.third_val_spec(b.shape);
    a.fill.third_val_spec(b.fill);
}

/// Some three cards at distinct positions of the table form a valid set.
pub open spec fn has_triple(s: Seq<Card>) -> bool {
    exists|i: int, j: int, k: int|
        0 <= i < j < k < s.len() && #[trigger] valid_set(s[i], s[j], s[k])
}

fn contains_card(table: &Vec<Card>, card: Card) -> (r: bool)
    ensures
        r == table@.contains(card),
{
    let mut i: usize = 0;
    while i < table.len()
        invariant
            i <= table@.len(),
            forall|j: int| 0 <= j < i ==> table@[j] != card,
        decreases table@.len() - i,
    {
        if table[i] == card {
            return true;
        }
        i += 1;
    }
    false
}

/// Exhaustive search: try every triple of distinct table positions and hand
/// back the first valid set found, or nothing when the table holds none.
pub fn find_set_bruteforce(table: &Vec<Card>) -> (r: Option<[Card; 3]>)
    requires
        table@.no_duplicates(),
    ensures
        (r is Some) == has_triple(table@),
        (match r {
            Some(cards) => {
                &&& table@.contains(cards@[0])
                &&& table@.contains(cards@[1])
                &&& table@.contains(cards@[2])
                &&& cards@[0] != cards@[1]
                &&& cards@[0] != cards@[2]
                &&& cards@[1] != cards@[2]
                &&& valid_set(cards@[0], cards@[1], cards@[2])
            },
            None => true,
        }),
{
    let n = table.len();
    let mut i: usize = 0;
    while i < n
        invariant
            n == table@.len(),
            i <= n,
            table@.no_duplicates(),
            forall|a: int, b: int, c: int|
                0 <= a < b < c < n && a < i ==> !#[trigger] valid_set(
                    table@[a],
                    table@[b],
                    table@[c],
                ),
        decreases n - i,
    {
        let mut j: usize = i + 1;
        while j < n
            invariant
                n == table@.len(),
                i < n,
                i < j <= n,
                table@.no_duplicates(),
                forall|a: int, b: int, c: int|
                    0 <= a < b < c < n && a < i ==> !#[trigger] valid_set(
                        table@[a],
                        table@[b],
                        table@[c],
                    ),
                forall|b: int, c: int|
                    i < b < c < n && b < j ==> !#[trigger] valid_set(
                        table@[i as int],
                        table@[b],
                        table@[c],
                    ),
            decreases n - j,
        {
            let mut k: usize = j + 1;
            while k < n
                invariant
                    n == table@.len(),
                    i < j < n,
                    j < k <= n,
                    table@.no_duplicates(),
                    forall|c: int|
                        j < c < k ==> !#[trigger] valid_set(
                            table@[i as int],
                            table@[j as int],
                            table@[c],
                        ),
                decreases n - k,
            {
                if check_triple(table[i], table[j], table[k]) {
                    proof {
                        assert(valid_set(table@[i as int], table@[j as int], table@[k as int]));
                    }
                    return Some([table[i], table[j], table[k]]);
                }
                k += 1;
            }
            j += 1;
        }
        i += 1;
    }
    proof {
        if has_triple(table@) {
            let (a, b, c) = choose|a: int, b: int, c: int|
                0 <= a < b < c < table@.len() && #[trigger] valid_set(
                    table@[a],
                    table@[b],
                    table@[c],
                );
            assert(false);
        }
    }
    None
}

/// Algebraic search: for every pair of table positions, derive the unique
/// third card that would complete the pair and look it up on the table; hand
/// back the first completed pair, or nothing when no pair completes.
pub fn find_set_third_card(table: &Vec<Card>) -> (r: Option<[Card; 3]>)
    requires
        table@.no_duplicates(),
    ensures
        (r is Some) == has_triple(table@),
        (match r {
            Some(cards) => {
                &&& table@.contains(cards@[0])
                &&& table@.contains(cards@[1])
                &&& table@.contains(cards@[2])
                &&& cards@[0] != cards@[1]
                &&& cards@[0] != cards@[2]
                &&& cards@[1] != cards@[2]
                &&& valid_set(cards@[0], cards@[1], cards@[2])
            },
            None => true,
        }),
{
    let n = table.len();
    let mut i: usize = 0;
    while i < n
        invariant
            n == table@.len(),
            i <= n,
            table@.no_duplicates(),
            forall|a: int, b: int|
                0 <= a < b < n && a < i ==> !table@.contains(
                    #[trigger] third_card(table@[a], table@[b]),
                ),
        decreases n - i,
    {
        let card1 = table[i];
        let mut j: usize = i + 1;
        while j < n
            invariant
                n == table@.len(),
                i < n,
                i < j <= n,
                card1 == table@[i as int],
                table@.no_duplicates(),
                forall|a: int, b: int|
                    0 <= a < b < n && a < i ==> !table@.contains(
                        #[trigger] third_card(table@[a], table@[b]),
                    ),
                forall|b: int|
                    i < b < j ==> !table@.contains(
                        #[trigger] third_card(table@[i as int], table@[b]),
                    ),
            decreases n - j,
        {
            let card2 = table[j];
            let color3 = next_property(card1.color, card2.color);
            let count3 = next_property(card1.count, card2.count);
            let shape3 = next_property(card1.shape, card2.shape);
            let fill3 = next_property(card1.fill, card2.fill);
            let card3 = Card::new(color3, count3, shape3, fill3);
            proof {
                assert(card3 == third_card(card1, card2));
            }
            if contains_card(table, card3) {
                proof {
                    lemma_third_card_completes(card1, card2);
                    assert(valid_set(card1, card2, card3));
                    let k = choose|k: int| 0 <= k < table@.len() && table@[k] == card3;
                    assert(card3 != card1 && card3 != card2);
                    if k < i {
                        assert(valid_set(table@[k], table@[i as int], table@[j as int])) by {
                            crate::rules::lemma_check_symmetric(card1, card2, card3);
                        }
                        assert(has_triple(table@));
                    } else if k < j {
                        assert(valid_set(table@[i as int], table@[k], table@[j as int])) by {
                            crate::rules::lemma_check_symmetric(card1, card2, card3);
                        }
                        assert(has_triple(table@));
                    } else {
                        assert(valid_set(table@[i as int], table@[j as int], table@[k]));
                        assert(has_triple(table@));
                    }
                }
                return Some([card1, card2, card3]);
            }
            j += 1;
        }
        i += 1;
    }
    proof {
        if has_triple(table@) {
            let (a, b, c) = choose|a: int, b: int, c: int|
                0 <= a < b < c < table@.len() && #[trigger] valid_set(
                    table@[a],
                    table@[b],
                    table@[c],
                );
            lemma_third_card_unique(table@[a], table@[b], table@[c]);
            assert(table@.contains(table@[c]));
            assert(false);
        }
    }
    None
}

} // verus!
