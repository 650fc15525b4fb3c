//! The deck: the full 81-card catalog, randomly ordered once at construction,
//! dealt from its end three cards at a time.

use vstd::prelude::*;

use crate::card::Card;
use crate::card::Color;
use crate::card::Count;
use crate::card::Fill;
use crate::card::Shape;
use crate::card::card_index;
use crate::card::color_index;
use crate::card::count_index;
use crate::card::fill_index;
use crate::card::lemma_card_index_bounds;
use crate::card::lemma_card_index_injective;
use crate::card::shape_index;

verus! {

broadcast use vstd::seq_lib::group_to_multiset_ensures;

fn color_from(i: usize) -> (c: Color)
    requires
        i < 3,
    ensures
        color_index(c) == i as int,
{
    if i == 0 {
        Color::Green
    } else if i == 1 {
        Color::Purple
    } else {
        Color::Red
    }
}

fn count_from(i: usize) -> (c: Count)
    requires
        i < 3,
    ensures
        count_index(c) == i as int,
{
    if i == 0 {
        Count::One
    } else if i == 1 {
        Count::Two
    } else {
        Count::Three
    }
}

fn shape_from(i: usize) -> (s: Shape)
    requires
        i < 3,
    ensures
        shape_index(s) == i as int,
{
    if i == 0 {
        Shape::Oval
    } else if i == 1 {
        Shape::Wave
    } else {
        Shape::Diamond
    }
}

fn fill_from(i: usize) -> (f: Fill)
    requires
        i < 3,
    ensures
        fill_index(f) == i as int,
{
    if i == 0 {
        Fill::Open
    } else if i == 1 {
        Fill::Dashed
    } else {
        Fill::Full
    }
}

/// The full catalog: every combination of the four attribute domains, each of
/// the 81 distinct cards exactly once, in canonical order.
pub fn all_cards() -> (cards: Vec<Card>)
    ensures
        cards@.len() == 81,
        cards@.no_duplicates(),
        forall|c: Card| cards@.contains(c),
        forall|i: int| 0 <= i < 81 ==> card_index(#[trigger] cards@[i]) == i,
{
    let mut cards: Vec<Card> = Vec::new();
    let mut ci: usize = 0;
    while ci < 3
        invariant
            ci <= 3,
            cards@.len() == 27 * ci,
            forall|i: int| 0 <= i < cards@.len() ==> card_index(#[trigger] cards@[i]) == i,
        decreases 3 - ci,
    {
        let mut ki: usize = 0;
        while ki < 3
            invariant
                ci < 3,
                ki <= 3,
                cards@.len() == 27 * ci + 9 * ki,
                forall|i: int| 0 <= i < cards@.len() ==> card_index(#[trigger] cards@[i]) == i,
            decreases 3 - ki,
        {
            let mut si: usize = 0;
            while si < 3
                invariant
                    ci < 3,
                    ki < 3,
                    si <= 3,
                    cards@.len() == 27 * ci + 9 * ki + 3 * si,
                    forall|i: int| 0 <= i < cards@.len() ==> card_index(#[trigger] cards@[i]) == i,
                decreases 3 - si,
            {
                let mut fi: usize = 0;
                while fi < 3
                    invariant
                        ci < 3,
                        ki < 3,
                        si < 3,
                        fi <= 3,
                        cards@.len() == 27 * ci + 9 * ki + 3 * si + fi,
                        forall|i: int|
                            0 <= i < cards@.len() ==> card_index(#[trigger] cards@[i]) == i,
                    decreases 3 - fi,
                {
                    cards.push(
                        Card::new(color_from(ci), count_from(ki), shape_from(si), fill_from(fi)),
                    );
                    fi += 1;
                }
                si += 1;
            }
            ki += 1;
        }
        ci += 1;
    }
    proof {
        assert forall|c: Card| cards@.contains(c) by {
            lemma_card_index_bounds(c);
            let i = card_index(c);
            lemma_card_index_injective(cards@[i], c);
            assert(cards@[i] == c);
        }
        assert forall|i: int, j: int|
            0 <= i < cards@.len() && 0 <= j < cards@.len() && i != j implies cards@[i]
            != cards@[j] by {
            assert(card_index(cards@[i]) == i);
            assert(card_index(cards@[j]) == j);
        }
    }
    cards
}

/// Relies on rand::rngs::ThreadRng, the randomness source behind the deck's
/// one-time shuffle; the type is opaque here and carries no promises.
#[verifier::external_type_specification]
#[verifier::external_body]
pub struct ExThreadRng(rand::rngs::ThreadRng);

/// Relies on rand::thread_rng: it hands back the thread-local random number
/// generator; nothing is promised of the values it will produce.
#[verifier::external_body]
fn fresh_rng() -> rand::rngs::ThreadRng {
    rand::thread_rng()
}

/// Relies on rand's SliceRandom::shuffle: it permutes the slice in place, so
/// whatever order comes out, the cards afterwards are exactly the cards that
/// went in.
#[verifier::external_body]
fn shuffle_cards(cards: &mut Vec<Card>, rng: &mut rand::rngs::ThreadRng)
    ensures
        final(cards)@.to_multiset() == old(cards)@.to_multiset(),
{
    rand::seq::SliceRandom::shuffle(cards.as_mut_slice(), rng)
}

/// An ordered pile of cards, created as a random arrangement of the whole
/// catalog and only ever shrunk from its end, three cards at a time.
pub struct Deck {
    cards: Vec<Card>,
}

impl View for Deck {
    type V = Seq<Card>;

    closed spec fn view(&self) -> Seq<Card> {
        self.cards@
    }
}

impl Deck {
    /// No card appears twice, and the cards left always come in whole deals
    /// of three.
    pub open spec fn inv(self) -> bool {
        self@.no_duplicates() && self@.len() % 3 == 0
    }

    /// A fresh deck: the 81 cards of the catalog, each exactly once, in an
    /// order drawn from the randomness source.
    pub fn new() -> (deck: Deck)
        ensures
            deck.inv(),
            deck@.len() == 81,
            forall|c: Card| deck@.contains(c),
    {
        let mut cards = all_cards();
        let ghost catalog = cards@;
        let mut rng = fresh_rng();
        shuffle_cards(&mut cards, &mut rng);
        proof {
            assert(cards@.to_multiset() == catalog.to_multiset());
            assert(cards@.len() == cards@.to_multiset().len());
            assert(catalog.len() == catalog.to_multiset().len());
            catalog.lemma_multiset_has_no_duplicates();
            assert(forall|x: Card|
                cards@.to_multiset().contains(x) ==> cards@.to_multiset().count(x) == 1);
            cards@.lemma_multiset_has_no_duplicates_conv();
            assert forall|c: Card| cards@.contains(c) by {
                assert(catalog.contains(c));
                assert(catalog.to_multiset().count(c) > 0);
                assert(cards@.to_multiset().count(c) > 0);
            }
        }
        Deck { cards }
    }

    /// Remove and return three cards from the deck's end in one step. When
    /// the deck is exhausted nothing is returned and nothing changes; a deck
    /// never drains partially.
    pub fn deal(&mut self) -> (r: Option<[Card; 3]>)
        requires
            old(self).inv(),
        ensures
            final(self).inv(),
            old(self)@.len() == 0 ==> r is None && *final(self) == *old(self),
            old(self)@.len() > 0 ==> {
                &&& r matches Some(cards)
                &&& cards@ =~= old(self)@.subrange(old(self)@.len() - 3, old(self)@.len() as int).reverse()
                &&& final(self)@ == old(self)@.subrange(0, old(self)@.len() - 3)
                &&& old(self)@.to_multiset() == final(self)@.to_multiset().insert(cards@[2]).insert(
                    cards@[1],
                ).insert(cards@[0])
            },
    {
        if self.empty() {
            None
        } else {
            let c1 = self.cards.pop().unwrap();
            let c2 = self.cards.pop().unwrap();
            let c3 = self.cards.pop().unwrap();
            proof {
                assert(self.cards@ =~= old(self)@.subrange(0, old(self)@.len() - 3));
                assert(self.cards@.no_duplicates());
                assert(old(self)@ =~= self.cards@.push(c3).push(c2).push(c1));
                assert(old(self)@.to_multiset() == self.cards@.to_multiset().insert(c3).insert(
                    c2,
                ).insert(c1));
            }
            Some([c1, c2, c3])
        }
    }

    /// Whether the deck is exhausted.
    pub fn empty(&self) -> (r: bool)
        ensures
            r == (self@.len() == 0),
    {
        self.cards.is_empty()
    }
}

impl Default for Deck {
    /// The same fresh deck that `Deck::new` builds.
    fn default() -> (deck: Deck)
        ensures
            deck.inv(),
            deck@.len() == 81,
            forall|c: Card| deck@.contains(c),
    {
        Deck::new()
    }
}

/// The three cards that the deal numbered `k` (counting from zero) removes
/// from a deck whose cards started in the order `s`.
pub open spec fn deal_block(s: Seq<Card>, k: int) -> Seq<Card> {
    seq![s[s.len() - 3 * k - 1], s[s.len() - 3 * k - 2], s[s.len() - 3 * k - 3]]
}

/// Across the lifetime of one deck, two different deals never share a card.
pub proof fn lemma_deal_blocks_disjoint(s: Seq<Card>, i: int, j: int, c: Card)
    requires
        s.no_duplicates(),
        0 <= i,
        0 <= j,
        3 * i + 3 <= s.len(),
        3 * j + 3 <= s.len(),
        i != j,
        deal_block(s, i).contains(c),
    ensures
        !deal_block(s, j).contains(c),
{
    let t = choose|t: int| 0 <= t < 3 && deal_block(s, i)[t] == c;
    if deal_block(s, j).contains(c) {
        let u = choose|u: int| 0 <= u < 3 && deal_block(s, j)[u] == c;
        assert(s[s.len() - 3 * i - 1 - t] == s[s.len() - 3 * j - 1 - u]);
        assert(false);
    }
}

/// Every card of a deck comes out in some deal: the deals of a fully dealt
/// deck cover the whole of what it held.
pub proof fn lemma_deal_blocks_cover(s: Seq<Card>, c: Card)
    requires
        s.len() % 3 == 0,
        s.contains(c),
    ensures
        exists|k: int| 0 <= k < s.len() / 3 && deal_block(s, k).contains(c),
{
    let m = choose|m: int| 0 <= m < s.len() && s[m] == c;
    let k = (s.len() - 1 - m) / 3;
    let t = (s.len() - 1 - m) % 3;
    assert(s.len() - 3 * k - 1 - t == m);
    assert(deal_block(s, k)[t] == c);
    assert(0 <= k < s.len() / 3 && deal_block(s, k).contains(c));
}

} // verus!
