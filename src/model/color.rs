use crate::error::Error;
use vstd::prelude::*;

verus! {

/// The five expedition colors, in their canonical order.
#[derive(Clone, Copy, Debug, PartialEq, Eq, Structural, Hash, PartialOrd, Ord)]
pub enum Color {
    Yellow,
    Blue,
    White,
    Green,
    Red,
}

/// The color at position `i` of the canonical order (the last one past the end).
pub open spec fn color_at(i: int) -> Color {
    if i <= 0 {
        Color::Yellow
    } else if i == 1 {
        Color::Blue
    } else if i == 2 {
        Color::White
    } else if i == 3 {
        Color::Green
    } else {
        Color::Red
    }
}

/// The colors in their canonical order.
pub open spec fn all_colors() -> Seq<Color> {
    seq![Color::Yellow, Color::Blue, Color::White, Color::Green, Color::Red]
}

/// The color that a letter names, in either case.
pub open spec fn letter_color(c: char) -> Option<Color> {
    if c == 'Y' || c == 'y' {
        Some(Color::Yellow)
    } else if c == 'B' || c == 'b' {
        Some(Color::Blue)
    } else if c == 'W' || c == 'w' {
        Some(Color::White)
    } else if c == 'G' || c == 'g' {
        Some(Color::Green)
    } else if c == 'R' || c == 'r' {
        Some(Color::Red)
    } else {
        None
    }
}

impl Color {
    /// Position in the canonical order.
    pub open spec fn index(self) -> int {
        match self {
            Color::Yellow => 0,
            Color::Blue => 1,
            Color::White => 2,
            Color::Green => 3,
            Color::Red => 4,
        }
    }

    /// The upper-case letter that names the color.
    pub open spec fn letter(self) -> char {
        match self {
            Color::Yellow => 'Y',
            Color::Blue => 'B',
            Color::White => 'W',
            Color::Green => 'G',
            Color::Red => 'R',
        }
    }

    pub proof fn lemma_index(self)
        ensures
            0 <= self.index() < 5,
            color_at(self.index()) == self,
            all_colors()[self.index()] == self,
    {
    }

    pub fn fromId(id: u8) -> (r: Option<Color>)
        ensures
            id < 5 ==> r == Some(color_at(id as int)),
            id >= 5 ==> r is None,
    {
        match id {
            0 => Some(Color::Yellow),
            1 => Some(Color::Blue),
            2 => Some(Color::White),
            3 => Some(Color::Green),
            4 => Some(Color::Red),
            _ => None,
        }
    }

    /// Position in the canonical order.
    pub fn toId(self) -> (r: u8)
        ensures
            r as int == self.index(),
    {
        match self {
            Color::Yellow => 0,
            Color::Blue => 1,
            Color::White => 2,
            Color::Green => 3,
            Color::Red => 4,
        }
    }

    pub fn all() -> (r: Vec<Color>)
        ensures
            r@ == all_colors(),
    {
        let r = vec![Color::Yellow, Color::Blue, Color::White, Color::Green, Color::Red];
        assert(r@ =~= all_colors());
        r
    }

    /// The one-letter text of the color.
    pub fn toText(&self) -> (r: String)
        ensures
            r@ == seq![self.letter()],
    {
        let s = match self {
            Color::Yellow => "Y",
            Color::Blue => "B",
            Color::White => "W",
            Color::Green => "G",
            Color::Red => "R",
        };
        proof {
            reveal_strlit("Y");
            reveal_strlit("B");
            reveal_strlit("W");
            reveal_strlit("G");
            reveal_strlit("R");
        }
        let r = String::from_str(s);
        assert(r@ =~= seq![self.letter()]);
        r
    }

    /// Reads a color from the first character of `s`.
    pub fn fromStr(s: &str) -> (r: Result<Color, Error>)
        ensures
            s@.len() == 0 ==> r == Err::<Color, Error>(
                Error::CannotParseColor { cause: Box::new(Error::InputTooShort) },
            ),
            s@.len() > 0 && letter_color(s@[0]) is Some ==> r == Ok::<Color, Error>(
                letter_color(s@[0]).unwrap(),
            ),
            s@.len() > 0 && letter_color(s@[0]) is None ==> r == Err::<Color, Error>(
                Error::CannotParseColor {
                    cause: Box::new(Error::UnexpectedCharacter { c: s@[0] }),
                },
            ),
    {
        if s.unicode_len() == 0 {
            return Err(Error::CannotParseColor { cause: Box::new(Error::InputTooShort) });
        }
        let character = s.get_char(0);
        match character {
            'Y' | 'y' => Ok(Color::Yellow),
            'B' | 'b' => Ok(Color::Blue),
            'W' | 'w' => Ok(Color::White),
            'G' | 'g' => Ok(Color::Green),
            'R' | 'r' => Ok(Color::Red),
            _ => Err(
                Error::CannotParseColor {
                    cause: Box::new(Error::UnexpectedCharacter { c: character }),
                },
            ),
        }
    }
}

impl std::str::FromStr for Color {
    type Err = Error;

    fn from_str(s: &str) -> (r: Result<Color, Error>)
        ensures
            s@.len() == 0 ==> r == Err::<Color, Error>(
                Error::CannotParseColor { cause: Box::new(Error::InputTooShort) },
            ),
            s@.len() > 0 && letter_color(s@[0]) is Some ==> r == Ok::<Color, Error>(
                letter_color(s@[0]).unwrap(),
            ),
            s@.len() > 0 && letter_color(s@[0]) is None ==> r == Err::<Color, Error>(
                Error::CannotParseColor {
                    cause: Box::new(Error::UnexpectedCharacter { c: s@[0] }),
                },
            ),
    {
        Color::fromStr(s)
    }
}

} // verus!
