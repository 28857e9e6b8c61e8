use super::{all_colors, color_at, letter_color, letter_value, value_family, Color, Value};
use crate::error::Error;
use vstd::prelude::*;

verus! {

/// The color of the card with this id.
pub open spec fn color_of(id: u8) -> Color {
    color_at((id / 12) as int)
}

/// The value of the card with this id.
pub open spec fn value_of(id: u8) -> Value {
    value_family()[(id % 12) as int]
}

/// The card `c` may follow the card `t` in an expedition.
pub open spec fn stacks_on(c: u8, t: u8) -> bool {
    color_of(c) == color_of(t) && value_of(c).rank() >= value_of(t).rank()
}

/// The id of the first card of the given color and value.
pub open spec fn card_id(color: Color, value: Value) -> int {
    12 * color.index() + value.prototype()
}

/// The two-character text of the card with this id.
pub open spec fn card_text(id: u8) -> Seq<char> {
    seq![color_of(id).letter(), value_of(id).letter()]
}

/// One of the sixty cards, named by its id.
#[derive(Clone, Copy, Debug, PartialEq, Eq, Structural, Hash)]
pub struct Card {
    id: u8,
}

impl View for Card {
    type V = u8;

    closed spec fn view(&self) -> u8 {
        self.id
    }
}

impl Card {
    pub const DECK_SIZE: usize = 60;

    pub const MAX_ID: u8 = 60;

    #[verifier::type_invariant]
    spec fn inv(self) -> bool {
        self.id < 60
    }

    /// Every card's id is below sixty.
    pub(crate) fn idBound(&self)
        ensures
            self@ < 60,
    {
        proof {
            use_type_invariant(self);
        }
    }

    /// Two cards with the same id are the same card.
    pub broadcast proof fn lemma_view_injective(a: Card, b: Card)
        ensures
            #[trigger] a@ == #[trigger] b@ <==> a == b,
    {
    }

    /// The card with id `id`.
    pub closed spec fn with_id(id: u8) -> Card {
        Card { id }
    }

    pub broadcast proof fn lemma_with_id(id: u8)
        ensures
            #[trigger] Card::with_id(id)@ == id,
    {
    }

    pub broadcast proof fn lemma_with_own_id(c: Card)
        ensures
            #[trigger] Card::with_id(c@) == c,
    {
    }

    pub fn fromId(id: u8) -> (r: Card)
        requires
            id < 60,
        ensures
            r@ == id,
    {
        Card { id }
    }

    pub fn color(&self) -> (r: Color)
        ensures
            r == color_of(self@),
    {
        proof {
            use_type_invariant(self);
        }
        Color::fromId(self.id / 12).unwrap()
    }

    pub fn value(&self) -> (r: Value)
        ensures
            r == value_of(self@),
    {
        Value::fromId(self.id)
    }

    /// The sixty cards, by increasing id.
    pub fn set() -> (r: Vec<Card>)
        ensures
            r@.len() == 60,
            forall|i: int| 0 <= i < 60 ==> (#[trigger] r@[i])@ == i,
    {
        let mut r: Vec<Card> = Vec::new();
        let mut id: u8 = 0;
        while id < Self::MAX_ID
            invariant
                id <= 60,
                r@.len() == id,
                forall|i: int| 0 <= i < id ==> (#[trigger] r@[i])@ == i,
            decreases 60 - id,
        {
            r.push(Card { id });
            id = id + 1;
        }
        r
    }

    pub fn canBeStackedOn(&self, other: Card) -> (r: bool)
        ensures
            r == stacks_on(self@, other@),
    {
        if other.color() == self.color() {
            self.value().canBeStackedOn(other.value())
        } else {
            false
        }
    }

    pub fn toId(self) -> (r: u8)
        ensures
            r == self@,
            r < 60,
    {
        proof {
            use_type_invariant(&self);
        }
        self.id
    }

    /// The first card of the given color and value; of the three bets of a color, the
    /// one with the lowest id.
    pub fn new(color: Color, value: Value) -> (r: Card)
        ensures
            r@ == card_id(color, value),
            color_of(r@) == color,
            value_of(r@) == value,
    {
        let size = Value::familySize();
        let c = color.toId();
        let p = value.prototypeId();
        proof {
            color.lemma_index();
        }
        let colorComponent: u8 = size * c;
        let id = colorComponent + p;
        proof {
            let ci = color.index();
            let pi = value.prototype();
            assert(id / 12 == ci && id % 12 == pi) by (nonlinear_arith)
                requires
                    id == 12 * ci + pi,
                    0 <= pi < 12,
                    0 <= ci < 5,
            ;
        }
        Card::fromId(id)
    }

    /// The two-character text of the card: its color letter, then its value letter.
    pub fn toText(&self) -> (r: String)
        ensures
            r@ == card_text(self@),
    {
        let mut r = self.color().toText();
        let v = self.value().toText();
        r.append(v.as_str());
        assert(r@ =~= card_text(self@));
        r
    }

    /// Reads a card from its two-character text, in either case.
    pub fn fromStr(s: &str) -> (r: Result<Card, Error>)
        ensures
            s@.len() < 2 ==> r == Err::<Card, Error>(
                Error::CannotParseCard { cause: Box::new(Error::InputTooShort) },
            ),
            s@.len() >= 2 && letter_color(s@[0]) is None ==> r == Err::<Card, Error>(
                Error::CannotParseCard {
                    cause: Box::new(
                        Error::CannotParseColor {
                            cause: Box::new(Error::UnexpectedCharacter { c: s@[0] }),
                        },
                    ),
                },
            ),
            s@.len() >= 2 && letter_color(s@[0]) is Some && letter_value(s@[1]) is None ==> r
                == Err::<Card, Error>(
                Error::CannotParseCard {
                    cause: Box::new(
                        Error::CannotParseValue {
                            cause: Box::new(Error::UnexpectedCharacter { c: s@[1] }),
                        },
                    ),
                },
            ),
            s@.len() >= 2 && letter_color(s@[0]) is Some && letter_value(s@[1]) is Some ==> (
            r matches Ok(c) && c@ == card_id(
                letter_color(s@[0]).unwrap(),
                letter_value(s@[1]).unwrap(),
            )),
    {
        if s.unicode_len() < 2 {
            return Err(Error::CannotParseCard { cause: Box::new(Error::InputTooShort) });
        }
        let first = s.substring_char(0, 1);
        let second = s.substring_char(1, 2);
        let color = match Color::fromStr(first) {
            Ok(c) => c,
            Err(e) => return Err(Error::CannotParseCard { cause: Box::new(e) }),
        };
        let value = match Value::fromStr(second) {
            Ok(v) => v,
            Err(e) => return Err(Error::CannotParseCard { cause: Box::new(e) }),
        };
        Ok(Card::new(color, value))
    }
}

impl std::str::FromStr for Card {
    type Err = Error;

    fn from_str(s: &str) -> (r: Result<Card, Error>)
        ensures
            s@.len() < 2 ==> r == Err::<Card, Error>(
                Error::CannotParseCard { cause: Box::new(Error::InputTooShort) },
            ),
            s@.len() >= 2 && letter_color(s@[0]) is None ==> r == Err::<Card, Error>(
                Error::CannotParseCard {
                    cause: Box::new(
                        Error::CannotParseColor {
                            cause: Box::new(Error::UnexpectedCharacter { c: s@[0] }),
                        },
                    ),
                },
            ),
            s@.len() >= 2 && letter_color(s@[0]) is Some && letter_value(s@[1]) is None ==> r
                == Err::<Card, Error>(
                Error::CannotParseCard {
                    cause: Box::new(
                        Error::CannotParseValue {
                            cause: Box::new(Error::UnexpectedCharacter { c: s@[1] }),
                        },
                    ),
                },
            ),
            s@.len() >= 2 && letter_color(s@[0]) is Some && letter_value(s@[1]) is Some ==> (
            r matches Ok(c) && c@ == card_id(
                letter_color(s@[0]).unwrap(),
                letter_value(s@[1]).unwrap(),
            )),
    {
        Card::fromStr(s)
    }
}

} // verus!
