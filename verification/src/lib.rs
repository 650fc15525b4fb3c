//! The rules of the matching card game: an 81-card catalog over four
//! three-valued attribute kinds, a self-shuffling deck, the validity predicate
//! for a set of three cards, and two solvers that search a table for one.

pub mod card;
pub mod deck;
pub mod game;
pub mod rules;
pub mod solver;

pub use deck::Deck;
pub use rules::check;
