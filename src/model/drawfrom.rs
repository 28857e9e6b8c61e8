use super::{letter_color, Color};
use crate::error::Error;
use vstd::prelude::*;

verus! {

/// Where the card drawn at the end of a turn comes from.
#[derive(Clone, Copy, Debug, PartialEq, Eq, Structural)]
pub enum DrawFrom {
    Deck,
    Discard { color: Color },
}

/// Where the card played during a turn goes.
#[derive(Clone, Copy, Debug, PartialEq, Eq, Structural)]
pub enum PlayTo {
    Discard,
    Expedition,
}

impl DrawFrom {
    /// Reads a draw source from one character: `d` (either case) for the deck, or a color
    /// letter for that color's discard pile.
    pub fn fromLetter(c: char) -> (r: Result<DrawFrom, Error>)
        ensures
            (c == 'd' || c == 'D') ==> r == Ok::<DrawFrom, Error>(DrawFrom::Deck),
            !(c == 'd' || c == 'D') && letter_color(c) is Some ==> r == Ok::<DrawFrom, Error>(
                DrawFrom::Discard { color: letter_color(c).unwrap() },
            ),
            !(c == 'd' || c == 'D') && letter_color(c) is None ==> r == Err::<DrawFrom, Error>(
                Error::UnexpectedCharacter { c },
            ),
    {
        match c {
            'd' | 'D' => Ok(DrawFrom::Deck),
            'Y' | 'y' => Ok(DrawFrom::Discard { color: Color::Yellow }),
            'B' | 'b' => Ok(DrawFrom::Discard { color: Color::Blue }),
            'W' | 'w' => Ok(DrawFrom::Discard { color: Color::White }),
            'G' | 'g' => Ok(DrawFrom::Discard { color: Color::Green }),
            'R' | 'r' => Ok(DrawFrom::Discard { color: Color::Red }),
            _ => Err(Error::UnexpectedCharacter { c }),
        }
    }
}

impl PlayTo {
    /// Reads a destination from one character: `e` (either case) for an expedition, `d`
    /// for the discard pile.
    pub fn fromLetter(c: char) -> (r: Result<PlayTo, Error>)
        ensures
            (c == 'e' || c == 'E') ==> r == Ok::<PlayTo, Error>(PlayTo::Expedition),
            (c == 'd' || c == 'D') ==> r == Ok::<PlayTo, Error>(PlayTo::Discard),
            !(c == 'e' || c == 'E' || c == 'd' || c == 'D') ==> r == Err::<PlayTo, Error>(
                Error::UnexpectedCharacter { c },
            ),
    {
        match c {
            'e' | 'E' => Ok(PlayTo::Expedition),
            'd' | 'D' => Ok(PlayTo::Discard),
            _ => Err(Error::UnexpectedCharacter { c }),
        }
    }
}

} // verus!
