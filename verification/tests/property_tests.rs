use std::collections::HashSet;

use set_game::card::Card;
use set_game::card::Color;
use set_game::card::Count;
use set_game::card::Fill;
use set_game::card::Shape;
use set_game::check;
use set_game::deck::all_cards;
use set_game::game::Game;
use set_game::solver::find_set_bruteforce;
use set_game::solver::find_set_third_card;
use set_game::solver::next_property;
use set_game::Deck;

fn sample_cards() -> Vec<Card> {
    vec![
        Card::new(Color::Green, Count::One, Shape::Oval, Fill::Open),
        Card::new(Color::Green, Count::One, Shape::Oval, Fill::Open),
        Card::new(Color::Purple, Count::Two, Shape::Diamond, Fill::Dashed),
        Card::new(Color::Red, Count::Three, Shape::Wave, Fill::Full),
        Card::new(Color::Red, Count::One, Shape::Oval, Fill::Open),
        Card::new(Color::Green, Count::Two, Shape::Oval, Fill::Full),
        Card::new(Color::Purple, Count::One, Shape::Wave, Fill::Open),
    ]
}

#[test]
fn catalog_covers_product() {
    let cards = all_cards();
    assert_eq!(cards.len(), 81);
    let unique: HashSet<Card> = cards.iter().copied().collect();
    assert_eq!(unique.len(), 81);
    for color in [Color::Green, Color::Purple, Color::Red] {
        for count in [Count::One, Count::Two, Count::Three] {
            for shape in [Shape::Oval, Shape::Wave, Shape::Diamond] {
                for fill in [Fill::Open, Fill::Dashed, Fill::Full] {
                    assert!(unique.contains(&Card::new(color, count, shape, fill)));
                }
            }
        }
    }
}

#[test]
fn check_permutation_invariant() {
    let cards = sample_cards();
    for a in &cards {
        for b in &cards {
            for c in &cards {
                let verdict = check([*a, *b, *c]);
                assert_eq!(check([*a, *c, *b]), verdict);
                assert_eq!(check([*b, *a, *c]), verdict);
                assert_eq!(check([*b, *c, *a]), verdict);
                assert_eq!(check([*c, *a, *b]), verdict);
                assert_eq!(check([*c, *b, *a]), verdict);
            }
        }
    }
}

#[test]
fn two_distinct_values_invalidate() {
    // Two distinct colors among the three cards, every other kind shared.
    assert!(!check([
        Card::new(Color::Green, Count::One, Shape::Oval, Fill::Open),
        Card::new(Color::Green, Count::One, Shape::Oval, Fill::Open),
        Card::new(Color::Purple, Count::One, Shape::Oval, Fill::Open),
    ]));
    // Two distinct counts, the other kinds all different.
    assert!(!check([
        Card::new(Color::Green, Count::One, Shape::Oval, Fill::Open),
        Card::new(Color::Purple, Count::Two, Shape::Wave, Fill::Dashed),
        Card::new(Color::Red, Count::Two, Shape::Diamond, Fill::Full),
    ]));
    // Two distinct shapes alone spoil an otherwise valid triple.
    assert!(!check([
        Card::new(Color::Green, Count::One, Shape::Oval, Fill::Open),
        Card::new(Color::Purple, Count::Two, Shape::Oval, Fill::Dashed),
        Card::new(Color::Red, Count::Three, Shape::Wave, Fill::Full),
    ]));
    // Two distinct fills alone spoil an otherwise valid triple.
    assert!(!check([
        Card::new(Color::Green, Count::One, Shape::Oval, Fill::Open),
        Card::new(Color::Purple, Count::Two, Shape::Wave, Fill::Open),
        Card::new(Color::Red, Count::Three, Shape::Diamond, Fill::Full),
    ]));
}

#[test]
fn count_pair_invalidates() {
    // Two cards agree on count, the third differs: distinct-count two.
    assert!(!check([
        Card::new(Color::Green, Count::One, Shape::Oval, Fill::Open),
        Card::new(Color::Green, Count::One, Shape::Oval, Fill::Open),
        Card::new(Color::Green, Count::Two, Shape::Oval, Fill::Open),
    ]));
}

fn derive_third(a: Card, b: Card) -> Card {
    Card::new(
        next_property(a.color, b.color),
        next_property(a.count, b.count),
        next_property(a.shape, b.shape),
        next_property(a.fill, b.fill),
    )
}

#[test]
fn third_card_always_completes() {
    // Over every pair of distinct catalog cards, the derived third card
    // completes a valid set with the pair.
    let cards = all_cards();
    for a in &cards {
        for b in &cards {
            if a != b {
                let third = derive_third(*a, *b);
                assert!(check([*a, *b, third]));
                // Deriving again gives the same card.
                assert_eq!(derive_third(*a, *b), third);
            }
        }
    }
}

#[test]
fn next_property_exact_values() {
    assert_eq!(next_property(Color::Green, Color::Purple), Color::Red);
    assert_eq!(next_property(Color::Red, Color::Green), Color::Purple);
    assert_eq!(next_property(Color::Purple, Color::Purple), Color::Purple);
    assert_eq!(next_property(Count::One, Count::Three), Count::Two);
    assert_eq!(next_property(Shape::Wave, Shape::Diamond), Shape::Oval);
    assert_eq!(next_property(Fill::Open, Fill::Open), Fill::Open);
}

#[test]
fn solvers_agree_on_existence() {
    // Random tables of every size a game can produce by dealing.
    for _ in 0..5 {
        let mut deck = Deck::new();
        let mut table: Vec<Card> = Vec::new();
        loop {
            assert_eq!(
                find_set_bruteforce(&table).is_some(),
                find_set_third_card(&table).is_some()
            );
            match deck.deal() {
                Some(cards) => table.extend(cards),
                None => break,
            }
        }
        assert_eq!(table.len(), 81);
        assert_eq!(
            find_set_bruteforce(&table).is_some(),
            find_set_third_card(&table).is_some()
        );
    }
}

#[test]
fn deck_deals_partition_catalog() {
    let mut deck = Deck::new();
    let mut seen = HashSet::<Card>::new();
    let mut deals: usize = 0;
    while let Some(cards) = deck.deal() {
        deals += 1;
        for card in cards {
            // Disjoint from every earlier deal.
            assert!(seen.insert(card));
        }
    }
    assert_eq!(deals, 27);
    // The union of all deals is the whole catalog.
    assert_eq!(seen.len(), 81);
    for card in all_cards() {
        assert!(seen.contains(&card));
    }
}

#[test]
fn deck_empty_reports_exhaustion() {
    let mut deck = Deck::new();
    assert!(!deck.empty());
    for _ in 0..27 {
        assert!(deck.deal().is_some());
    }
    assert!(deck.empty());
    assert!(deck.deal().is_none());
    // Exhaustion is stable.
    assert!(deck.deal().is_none());
    assert!(deck.empty());
}

#[test]
fn three_card_table_scenario() {
    let a = Card::new(Color::Green, Count::One, Shape::Oval, Fill::Open);
    let b = Card::new(Color::Purple, Count::Two, Shape::Diamond, Fill::Dashed);
    let c = Card::new(Color::Red, Count::Three, Shape::Wave, Fill::Full);
    let table = vec![a, b, c];
    let expected: HashSet<Card> = table.iter().copied().collect();

    let found = find_set_bruteforce(&table).expect("the triple is a valid set");
    assert_eq!(found.iter().copied().collect::<HashSet<Card>>(), expected);
    let found = find_set_third_card(&table).expect("the triple is a valid set");
    assert_eq!(found.iter().copied().collect::<HashSet<Card>>(), expected);

    // With the set removed the table is empty and neither solver finds one.
    let emptied: Vec<Card> = Vec::new();
    assert!(find_set_bruteforce(&emptied).is_none());
    assert!(find_set_third_card(&emptied).is_none());
}

#[test]
fn solver_reports_no_set() {
    // Pairwise, each of these differs in exactly two attributes, so every
    // triple has a distinct-count of two somewhere.
    let table = vec![
        Card::new(Color::Green, Count::One, Shape::Oval, Fill::Open),
        Card::new(Color::Green, Count::One, Shape::Oval, Fill::Dashed),
        Card::new(Color::Green, Count::One, Shape::Wave, Fill::Open),
        Card::new(Color::Green, Count::Two, Shape::Oval, Fill::Open),
    ];
    assert!(find_set_bruteforce(&table).is_none());
    assert!(find_set_third_card(&table).is_none());
}

#[test]
fn game_starts_with_twelve_cards() {
    let game = Game::new();
    assert_eq!(game.table.len(), 12);
    assert_eq!(game.deck.empty(), false);
    assert!(game.sets.is_empty());
}

#[test]
fn game_add_cards_deals_three() {
    let mut game = Game::new();
    assert!(game.add_cards());
    assert_eq!(game.table.len(), 15);
    assert!(game.sets.is_empty());
}

#[test]
fn game_upkeep_only_below_minimum() {
    let mut game = Game::new();
    game.upkeep();
    // Already at the minimum: nothing dealt.
    assert_eq!(game.table.len(), 12);
    if game.find_set() {
        assert_eq!(game.table.len(), 9);
        game.upkeep();
        assert_eq!(game.table.len(), 12);
    }
}

#[test]
fn game_plays_to_end_conserving_cards() {
    let mut game = Game::new();
    loop {
        game.upkeep();
        if !game.find_set() {
            if !game.add_cards() {
                break;
            }
        }
    }
    // The deck is exhausted and every one of the 81 cards is either on the
    // table or in exactly one found set.
    assert!(game.deck.empty());
    let mut seen = HashSet::<Card>::new();
    for card in &game.table {
        assert!(seen.insert(*card));
    }
    for set in &game.sets {
        assert!(check(*set));
        for card in set {
            assert!(seen.insert(*card));
        }
    }
    assert_eq!(seen.len(), 81);
    // Nothing more is on the table to find.
    assert!(find_set_bruteforce(&game.table).is_none());
}
