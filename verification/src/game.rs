//! The game state: one deck, the table of cards in play, and the record of
//! sets found so far. Across every operation the 81 cards stay globally
//! unique: no card is ever in two places at once, and none is lost.

use vstd::multiset::Multiset;
use vstd::prelude::*;

use crate::card::Card;
use crate::deck::Deck;
use crate::rules::valid_set;
use crate::solver::find_set_third_card;
use crate::solver::has_triple;

verus! {

broadcast use vstd::seq_lib::group_to_multiset_ensures, vstd::multiset::group_multiset_axioms;

/// The three cards of one found set, as a multiset: the record of sets is
/// unordered and so is each triple in it.
pub open spec fn triple_multiset(t: [Card; 3]) -> Multiset<Card> {
    Multiset::empty().insert(t@[0]).insert(t@[1]).insert(t@[2])
}

/// All cards in a record of found sets.
pub open spec fn sets_multiset(s: Seq<[Card; 3]>) -> Multiset<Card>
    decreases s.len(),
{
    if s.len() == 0 {
        Multiset::empty()
    } else {
        sets_multiset(s.drop_last()).add(triple_multiset(s.last()))
    }
}

/// A running game: the deck still to be dealt, the table in play, and the
/// sets found and set aside.
pub struct Game {
    pub deck: Deck,
    pub table: Vec<Card>,
    pub sets: Vec<[Card; 3]>,
}

/// The least number of cards the table is topped up to at the start of a
/// turn.
pub const TABLE_MINIMUM: usize = 12;

impl Game {
    /// Every card the game has anywhere: still in the deck, on the table, or
    /// inside a found set.
    pub open spec fn live(self) -> Multiset<Card> {
        self.deck@.to_multiset().add(self.table@.to_multiset()).add(sets_multiset(self.sets@))
    }

    /// The game's one core invariant: the deck deals in whole threes, and no
    /// card exists twice anywhere in the game.
    pub open spec fn inv(self) -> bool {
        &&& self.deck.inv()
        &&& forall|c: Card| self.live().count(c) <= 1
    }

    proof fn lemma_table_no_dup(self)
        requires
            self.inv(),
        ensures
            self.table@.no_duplicates(),
    {
        assert forall|c: Card|
            self.table@.to_multiset().contains(c) implies self.table@.to_multiset().count(c)
            == 1 by {
            assert(self.live().count(c) == self.deck@.to_multiset().add(
                self.table@.to_multiset(),
            ).count(c) + sets_multiset(self.sets@).count(c));
            assert(self.deck@.to_multiset().add(self.table@.to_multiset()).count(c)
                == self.deck@.to_multiset().count(c) + self.table@.to_multiset().count(c));
            assert(self.live().count(c) <= 1);
        }
        self.table@.lemma_multiset_has_no_duplicates_conv();
    }

    /// A fresh game: a newly shuffled deck with twelve cards dealt onto the
    /// table and no sets found yet. Every card of the catalog is in play
    /// exactly once.
    pub fn new() -> (game: Game)
        ensures
            game.inv(),
            game.sets@.len() == 0,
            game.table@.len() == TABLE_MINIMUM,
            game.deck@.len() == 81 - TABLE_MINIMUM,
            forall|c: Card| game.live().count(c) == 1,
    {
        let deck = Deck::new();
        proof {
            deck@.lemma_multiset_has_no_duplicates();
            assert(forall|c: Card| deck@.to_multiset().count(c) > 0);
            assert(forall|c: Card| deck@.to_multiset().count(c) == 1);
        }
        let mut game = Game { deck, table: Vec::new(), sets: Vec::new() };
        while game.table.len() < TABLE_MINIMUM
            invariant
                game.deck.inv(),
                game.table@.len() % 3 == 0,
                game.table@.len() <= TABLE_MINIMUM,
                game.deck@.len() + game.table@.len() == 81,
                game.sets@.len() == 0,
                forall|c: Card| game.live().count(c) == 1,
            decreases TABLE_MINIMUM - game.table@.len(),
        {
            let ghost before = game.live();
            let dealt = game.deck.deal();
            proof {
                assert(dealt is Some);
            }
            if let Some(cards) = dealt {
                game.table.push(cards[0]);
                game.table.push(cards[1]);
                game.table.push(cards[2]);
                proof {
                    assert(game.live() =~= before);
                }
            }
        }
        game
    }

    /// Start-of-turn upkeep: when the table has dropped below the minimum,
    /// deal once from the deck. The found sets are untouched, no card is
    /// created or lost, and a table already at the minimum is left alone.
    pub fn upkeep(&mut self)
        requires
            old(self).inv(),
        ensures
            final(self).inv(),
            final(self).live() == old(self).live(),
            final(self).sets == old(self).sets,
            old(self).table@.len() >= TABLE_MINIMUM ==> *final(self) == *old(self),
            old(self).table@.len() < TABLE_MINIMUM ==> {
                &&& old(self).deck@.len() == 0 ==> *final(self) == *old(self)
                &&& old(self).deck@.len() > 0 ==> {
                    &&& final(self).deck@ == old(self).deck@.subrange(
                        0,
                        old(self).deck@.len() - 3,
                    )
                    &&& final(self).table@ == old(self).table@ + old(self).deck@.subrange(
                        old(self).deck@.len() - 3,
                        old(self).deck@.len() as int,
                    ).reverse()
                }
            },
    {
        if self.table.len() < TABLE_MINIMUM {
            let _ = self.add_cards();
        }
    }

    /// Search the table for a valid set. When one is there, move its three
    /// cards from the table into the record of found sets and report success;
    /// when none is, report failure and change nothing. Success is reported
    /// exactly when the table held a valid set.
    pub fn find_set(&mut self) -> (r: bool)
        requires
            old(self).inv(),
        ensures
            final(self).inv(),
            final(self).live() == old(self).live(),
            final(self).deck == old(self).deck,
            r == has_triple(old(self).table@),
            !r ==> *final(self) == *old(self),
            r ==> {
                &&& final(self).sets@.len() == old(self).sets@.len() + 1
                &&& final(self).sets@.drop_last() == old(self).sets@
                &&& valid_set(
                    final(self).sets@.last()@[0],
                    final(self).sets@.last()@[1],
                    final(self).sets@.last()@[2],
                )
                &&& old(self).table@.to_multiset() == final(self).table@.to_multiset().insert(
                    final(self).sets@.last()@[0],
                ).insert(final(self).sets@.last()@[1]).insert(final(self).sets@.last()@[2])
            },
    {
        proof {
            old(self).lemma_table_no_dup();
        }
        let found_set = find_set_third_card(&self.table);
        if let Some(cards) = found_set {
            let ghost before = self.live();
            let ghost old_sets = self.sets@;
            let ghost old_table = self.table@;
            remove_card(&mut self.table, cards[0]);
            proof {
                assert(self.table@.to_multiset().count(cards[1]) > 0);
            }
            remove_card(&mut self.table, cards[1]);
            proof {
                assert(self.table@.to_multiset().count(cards[2]) > 0);
            }
            remove_card(&mut self.table, cards[2]);
            self.sets.push(cards);
            proof {
                assert(self.sets@.drop_last() =~= old_sets);
                assert(sets_multiset(self.sets@) == sets_multiset(old_sets).add(
                    triple_multiset(cards),
                ));
                assert(old_table.to_multiset() == self.table@.to_multiset().insert(
                    cards@[0],
                ).insert(cards@[1]).insert(cards@[2])) by {
                    assert(old_table.to_multiset().count(cards@[0]) > 0);
                    assert(old_table.to_multiset().remove(cards@[0]).count(cards@[1]) > 0);
                    assert(old_table.to_multiset().remove(cards@[0]).remove(cards@[1]).count(
                        cards@[2],
                    ) > 0);
                    assert(old_table.to_multiset() =~= self.table@.to_multiset().insert(
                        cards@[0],
                    ).insert(cards@[1]).insert(cards@[2]));
                }
                assert(self.live() =~= before);
            }
            true
        } else {
            false
        }
    }

    /// Deal three cards from the deck onto the table, when any are left.
    /// Success is reported exactly when the deck was not exhausted; on
    /// failure nothing changes.
    pub fn add_cards(&mut self) -> (r: bool)
        requires
            old(self).inv(),
        ensures
            final(self).inv(),
            final(self).live() == old(self).live(),
            final(self).sets == old(self).sets,
            r == (old(self).deck@.len() > 0),
            !r ==> *final(self) == *old(self),
            r ==> {
                &&& final(self).deck@ == old(self).deck@.subrange(0, old(self).deck@.len() - 3)
                &&& final(self).table@ == old(self).table@ + old(self).deck@.subrange(
                    old(self).deck@.len() - 3,
                    old(self).deck@.len() as int,
                ).reverse()
            },
    {
        let ghost before = self.live();
        if let Some(cards) = self.deck.deal() {
            self.table.push(cards[0]);
            self.table.push(cards[1]);
            self.table.push(cards[2]);
            proof {
                assert(self.table@ =~= old(self).table@ + old(self).deck@.subrange(
                    old(self).deck@.len() - 3,
                    old(self).deck@.len() as int,
                ).reverse());
                assert(self.live() =~= before);
            }
            true
        } else {
            false
        }
    }
}

/// Remove one occurrence of a card from the table.
fn remove_card(cards: &mut Vec<Card>, card: Card)
    requires
        old(cards)@.contains(card),
    ensures
        final(cards)@.to_multiset() == old(cards)@.to_multiset().remove(card),
        final(cards)@.len() == old(cards)@.len() - 1,
{
    let mut i: usize = 0;
    while i < cards.len()
        invariant
            i <= cards@.len(),
            cards@ == old(cards)@,
            forall|j: int| 0 <= j < i ==> cards@[j] != card,
        decreases cards@.len() - i,
    {
        if cards[i] == card {
            let _ = cards.remove(i);
            proof {
                assert(cards@.to_multiset() == old(cards)@.to_multiset().remove(card));
            }
            return;
        }
        i += 1;
    }
    proof {
        assert(false);
    }
}

} // verus!
