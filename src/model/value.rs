use crate::error::Error;
use vstd::prelude::*;

verus! {

/// Card values, from the bet (lowest) to ten.
#[derive(Clone, Copy, Debug, PartialEq, Eq, Structural, Hash, PartialOrd)]
pub enum Value {
    Bet,
    N2,
    N3,
    N4,
    N5,
    N6,
    N7,
    N8,
    N9,
    N10,
}

/// The values of the twelve cards of one color, by position within the color.
pub open spec fn value_family() -> Seq<Value> {
    seq![
        Value::Bet,
        Value::Bet,
        Value::Bet,
        Value::N2,
        Value::N3,
        Value::N4,
        Value::N5,
        Value::N6,
        Value::N7,
        Value::N8,
        Value::N9,
        Value::N10,
    ]
}

/// The value that a character names; `0` stands for ten.
pub open spec fn letter_value(c: char) -> Option<Value> {
    if c == 'B' || c == 'b' {
        Some(Value::Bet)
    } else if c == '2' {
        Some(Value::N2)
    } else if c == '3' {
        Some(Value::N3)
    } else if c == '4' {
        Some(Value::N4)
    } else if c == '5' {
        Some(Value::N5)
    } else if c == '6' {
        Some(Value::N6)
    } else if c == '7' {
        Some(Value::N7)
    } else if c == '8' {
        Some(Value::N8)
    } else if c == '9' {
        Some(Value::N9)
    } else if c == '0' {
        Some(Value::N10)
    } else {
        None
    }
}

impl Value {
    /// Position in the order of values: the bet is 0, ten is 9.
    pub open spec fn rank(self) -> int {
        match self {
            Value::Bet => 0,
            Value::N2 => 1,
            Value::N3 => 2,
            Value::N4 => 3,
            Value::N5 => 4,
            Value::N6 => 5,
            Value::N7 => 6,
            Value::N8 => 7,
            Value::N9 => 8,
            Value::N10 => 9,
        }
    }

    /// The first position of this value within a color.
    pub open spec fn prototype(self) -> int {
        if self is Bet {
            0
        } else {
            self.rank() + 2
        }
    }

    /// The character that names the value.
    pub open spec fn letter(self) -> char {
        match self {
            Value::Bet => 'B',
            Value::N2 => '2',
            Value::N3 => '3',
            Value::N4 => '4',
            Value::N5 => '5',
            Value::N6 => '6',
            Value::N7 => '7',
            Value::N8 => '8',
            Value::N9 => '9',
            Value::N10 => '0',
        }
    }

    fn rankOf(&self) -> (r: u8)
        ensures
            r as int == self.rank(),
    {
        match self {
            Value::Bet => 0,
            Value::N2 => 1,
            Value::N3 => 2,
            Value::N4 => 3,
            Value::N5 => 4,
            Value::N6 => 5,
            Value::N7 => 6,
            Value::N8 => 7,
            Value::N9 => 8,
            Value::N10 => 9,
        }
    }

    /// A card of this value may follow a card of value `other` in an expedition.
    pub fn canBeStackedOn(&self, other: Value) -> (r: bool)
        ensures
            r == (self.rank() >= other.rank()),
    {
        self.rankOf() >= other.rankOf()
    }

    pub fn family() -> (r: Vec<Value>)
        ensures
            r@ == value_family(),
    {
        let r = vec![
            Value::Bet,
            Value::Bet,
            Value::Bet,
            Value::N2,
            Value::N3,
            Value::N4,
            Value::N5,
            Value::N6,
            Value::N7,
            Value::N8,
            Value::N9,
            Value::N10,
        ];
        assert(r@ =~= value_family());
        r
    }

    pub fn familySize() -> (r: u8)
        ensures
            r == 12,
            r as int == value_family().len(),
    {
        12
    }

    /// The value of the card with this id.
    pub fn fromId(id: u8) -> (r: Value)
        ensures
            r == value_family()[(id % 12) as int],
    {
        let family = Value::family();
        let size = Value::familySize();
        family[(id % size) as usize]
    }

    /// The first position of this value within a color's family.
    pub fn prototypeId(self) -> (r: u8)
        ensures
            r as int == self.prototype(),
            r < 12,
            value_family()[r as int] == self,
            forall|j: int| 0 <= j < r ==> value_family()[j] != self,
    {
        let family = Value::family();
        let mut i: usize = 0;
        while i < family.len()
            invariant
                family@ == value_family(),
                0 <= i <= 12,
                forall|j: int| 0 <= j < i ==> value_family()[j] != self,
            decreases family.len() - i,
        {
            if family[i] == self {
                return i as u8;
            }
            i = i + 1;
        }
        assert(value_family()[self.prototype()] == self);
        0
    }

    /// The one-character text of the value.
    pub fn toText(&self) -> (r: String)
        ensures
            r@ == seq![self.letter()],
    {
        let s = match self {
            Value::Bet => "B",
            Value::N2 => "2",
            Value::N3 => "3",
            Value::N4 => "4",
            Value::N5 => "5",
            Value::N6 => "6",
            Value::N7 => "7",
            Value::N8 => "8",
            Value::N9 => "9",
            Value::N10 => "0",
        };
        proof {
            reveal_strlit("B");
            reveal_strlit("2");
            reveal_strlit("3");
            reveal_strlit("4");
            reveal_strlit("5");
            reveal_strlit("6");
            reveal_strlit("7");
            reveal_strlit("8");
            reveal_strlit("9");
            reveal_strlit("0");
        }
        let r = String::from_str(s);
        assert(r@ =~= seq![self.letter()]);
        r
    }

    /// Reads a value from the first character of `s`.
    pub fn fromStr(s: &str) -> (r: Result<Value, Error>)
        ensures
            s@.len() == 0 ==> r == Err::<Value, Error>(
                Error::CannotParseValue { cause: Box::new(Error::InputTooShort) },
            ),
            s@.len() > 0 && letter_value(s@[0]) is Some ==> r == Ok::<Value, Error>(
                letter_value(s@[0]).unwrap(),
            ),
            s@.len() > 0 && letter_value(s@[0]) is None ==> r == Err::<Value, Error>(
                Error::CannotParseValue {
                    cause: Box::new(Error::UnexpectedCharacter { c: s@[0] }),
                },
            ),
    {
        if s.unicode_len() == 0 {
            return Err(Error::CannotParseValue { cause: Box::new(Error::InputTooShort) });
        }
        let character = s.get_char(0);
        match character {
            'B' | 'b' => Ok(Value::Bet),
            '2' => Ok(Value::N2),
            '3' => Ok(Value::N3),
            '4' => Ok(Value::N4),
            '5' => Ok(Value::N5),
            '6' => Ok(Value::N6),
            '7' => Ok(Value::N7),
            '8' => Ok(Value::N8),
            '9' => Ok(Value::N9),
            '0' => Ok(Value::N10),
            _ => Err(
                Error::CannotParseValue {
                    cause: Box::new(Error::UnexpectedCharacter { c: character }),
                },
            ),
        }
    }
}

impl std::str::FromStr for Value {
    type Err = Error;

    fn from_str(s: &str) -> (r: Result<Value, Error>)
        ensures
            s@.len() == 0 ==> r == Err::<Value, Error>(
                Error::CannotParseValue { cause: Box::new(Error::InputTooShort) },
            ),
            s@.len() > 0 && letter_value(s@[0]) is Some ==> r == Ok::<Value, Error>(
                letter_value(s@[0]).unwrap(),
            ),
            s@.len() > 0 && letter_value(s@[0]) is None ==> r == Err::<Value, Error>(
                Error::CannotParseValue {
                    cause: Box::new(Error::UnexpectedCharacter { c: s@[0] }),
                },
            ),
    {
        Value::fromStr(s)
    }
}

} // verus!
