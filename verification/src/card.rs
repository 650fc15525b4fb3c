//! The card model: four independent attribute kinds, each with exactly three
//! values, and the immutable card value built from one value of each kind.

use vstd::prelude::*;

verus! {

#[derive(Copy, Clone, PartialEq, Eq, Structural, Hash, Debug)]
pub enum Color {
    Green,
    Purple,
    Red,
}

#[derive(Copy, Clone, PartialEq, Eq, Structural, Hash, Debug)]
pub enum Count {
    One,
    Two,
    Three,
}

#[derive(Copy, Clone, PartialEq, Eq, Structural, Hash, Debug)]
pub enum Shape {
    Oval,
    Wave,
    Diamond,
}

#[derive(Copy, Clone, PartialEq, Eq, Structural, Hash, Debug)]
pub enum Fill {
    Open,
    Dashed,
    Full,
}

#[derive(Copy, Clone, PartialEq, Eq, Structural, Hash, Debug)]
pub struct Card {
    pub color: Color,
    pub count: Count,
    pub shape: Shape,
    pub fill: Fill,
}

impl Card {
    pub fn new(color: Color, count: Count, shape: Shape, fill: Fill) -> (card: Card)
        ensures
            card.color == color,
            card.count == count,
            card.shape == shape,
            card.fill == fill,
    {
        Card { color, count, shape, fill }
    }
}

/// A value of one of the four three-valued attribute kinds. For any two values
/// of a kind there is exactly one value a third card must carry so that the
/// three values are all equal or pairwise distinct: `third_val` names it.
pub trait Attribute: Sized + Copy {
    /// The attribute value that completes a pair: the shared value when the
    /// pair agrees, the one remaining value of the domain when it disagrees.
    spec fn third_val(self, other: Self) -> Self;

    proof fn third_val_spec(self, other: Self)
        ensures
            self == other ==> self.third_val(other) == self,
            self != other ==> self.third_val(other) != self && self.third_val(other) != other,
    ;

    fn same_as(self, other: Self) -> (r: bool)
        ensures
            r == (self == other),
    ;

    /// The one value of the domain that neither input is.
    fn remaining(self, other: Self) -> (r: Self)
        requires
            self != other,
        ensures
            r == self.third_val(other),
    ;
}

impl Attribute for Color {
    open spec fn third_val(self, other: Self) -> Self {
        match (self, other) {
            (Color::Green, Color::Purple) | (Color::Purple, Color::Green) => Color::Red,
            (Color::Green, Color::Red) | (Color::Red, Color::Green) => Color::Purple,
            (Color::Purple, Color::Red) | (Color::Red, Color::Purple) => Color::Green,
            _ => self,
        }
    }

    proof fn third_val_spec(self, other: Self) {
    }

    fn same_as(self, other: Self) -> (r: bool) {
        self == other
    }

    fn remaining(self, other: Self) -> (r: Self) {
        match (self, other) {
            (Color::Green, Color::Purple) | (Color::Purple, Color::Green) => Color::Red,
            (Color::Green, Color::Red) | (Color::Red, Color::Green) => Color::Purple,
            _ => Color::Green,
        }
    }
}

impl Attribute for Count {
    open spec fn third_val(self, other: Self) -> Self {
        match (self, other) {
            (Count::One, Count::Two) | (Count::Two, Count::One) => Count::Three,
            (Count::One, Count::Three) | (Count::Three, Count::One) => Count::Two,
            (Count::Two, Count::Three) | (Count::Three, Count::Two) => Count::One,
            _ => self,
        }
    }

    proof fn third_val_spec(self, other: Self) {
    }

    fn same_as(self, other: Self) -> (r: bool) {
        self == other
    }

    fn remaining(self, other: Self) -> (r: Self) {
        match (self, other) {
            (Count::One, Count::Two) | (Count::Two, Count::One) => Count::Three,
            (Count::One, Count::Three) | (Count::Three, Count::One) => Count::Two,
            _ => Count::One,
        }
    }
}

impl Attribute for Shape {
    open spec fn third_val(self, other: Self) -> Self {
        match (self, other) {
            (Shape::Oval, Shape::Wave) | (Shape::Wave, Shape::Oval) => Shape::Diamond,
            (Shape::Oval, Shape::Diamond) | (Shape::Diamond, Shape::Oval) => Shape::Wave,
            (Shape::Wave, Shape::Diamond) | (Shape::Diamond, Shape::Wave) => Shape::Oval,
            _ => self,
        }
    }

    proof fn third_val_spec(self, other: Self) {
    }

    fn same_as(self, other: Self) -> (r: bool) {
        self == other
    }

    fn remaining(self, other: Self) -> (r: Self) {
        match (self, other) {
            (Shape::Oval, Shape::Wave) | (Shape::Wave, Shape::Oval) => Shape::Diamond,
            (Shape::Oval, Shape::Diamond) | (Shape::Diamond, Shape::Oval) => Shape::Wave,
            _ => Shape::Oval,
        }
    }
}

impl Attribute for Fill {
    open spec fn third_val(self, other: Self) -> Self {
        match (self, other) {
            (Fill::Open, Fill::Dashed) | (Fill::Dashed, Fill::Open) => Fill::Full,
            (Fill::Open, Fill::Full) | (Fill::Full, Fill::Open) => Fill::Dashed,
            (Fill::Dashed, Fill::Full) | (Fill::Full, Fill::Dashed) => Fill::Open,
            _ => self,
        }
    }

    proof fn third_val_spec(self, other: Self) {
    }

    fn same_as(self, other: Self) -> (r: bool) {
        self == other
    }

    fn remaining(self, other: Self) -> (r: Self) {
        match (self, other) {
            (Fill::Open, Fill::Dashed) | (Fill::Dashed, Fill::Open) => Fill::Full,
            (Fill::Open, Fill::Full) | (Fill::Full, Fill::Open) => Fill::Dashed,
            _ => Fill::Open,
        }
    }
}

/// Position of a color in the canonical order of its domain.
pub open spec fn color_index(c: Color) -> int {
    match c {
        Color::Green => 0,
        Color::Purple => 1,
        Color::Red => 2,
    }
}

/// Position of a count in the canonical order of its domain.
pub open spec fn count_index(c: Count) -> int {
    match c {
        Count::One => 0,
        Count::Two => 1,
        Count::Three => 2,
    }
}

/// Position of a shape in the canonical order of its domain.
pub open spec fn shape_index(s: Shape) -> int {
    match s {
        Shape::Oval => 0,
        Shape::Wave => 1,
        Shape::Diamond => 2,
    }
}

/// Position of a fill in the canonical order of its domain.
pub open spec fn fill_index(f: Fill) -> int {
    match f {
        Fill::Open => 0,
        Fill::Dashed => 1,
        Fill::Full => 2,
    }
}

/// Position of a card in the canonical enumeration of the 81-card catalog:
/// the four attribute positions read as digits of a base-three number.
pub open spec fn card_index(card: Card) -> int {
    27 * color_index(card.color) + 9 * count_index(card.count) + 3 * shape_index(card.shape)
        + fill_index(card.fill)
}

/// The catalog position determines the card: no two distinct cards share it.
pub proof fn lemma_card_index_injective(a: Card, b: Card)
    requires
        card_index(a) == card_index(b),
    ensures
        a == b,
{
}

pub proof fn lemma_card_index_bounds(card: Card)
    ensures
        0 <= card_index(card) < 81,
{
}

} // verus!
