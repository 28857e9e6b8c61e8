use super::{color_of, column_accepts, discard_text, halfboard_text, Card, DiscardPile, Halfboard, PlayTo, Side};
use crate::error::{viewed, Error};
use crate::shared::share;
use std::rc::Rc;
use vstd::prelude::*;

verus! {

/// What a board holds: the columns of each side and the discard piles, by color.
pub struct BoardView {
    pub up: Seq<Seq<u8>>,
    pub down: Seq<Seq<u8>>,
    pub discard: Seq<Seq<u8>>,
}

impl BoardView {
    /// The columns of side `side`.
    pub open spec fn half(self, side: Side) -> Seq<Seq<u8>> {
        match side {
            Side::Up => self.up,
            Side::Down => self.down,
        }
    }

    /// This board with the columns of side `side` replaced.
    pub open spec fn with_half(self, side: Side, cols: Seq<Seq<u8>>) -> BoardView {
        match side {
            Side::Up => BoardView { up: cols, ..self },
            Side::Down => BoardView { down: cols, ..self },
        }
    }
}

/// The board of a fresh game: every column and every pile empty.
pub open spec fn empty_board() -> BoardView {
    BoardView {
        up: Seq::new(5, |i: int| Seq::<u8>::empty()),
        down: Seq::new(5, |i: int| Seq::<u8>::empty()),
        discard: Seq::new(5, |i: int| Seq::<u8>::empty()),
    }
}

/// `card` played by `side` on the expedition of its color, if it is accepted there.
pub open spec fn score_spec(b: BoardView, side: Side, card: Card) -> Result<BoardView, Error> {
    let ci = color_of(card@).index();
    let col = b.half(side)[ci];
    if column_accepts(col, color_of(card@), card@) {
        Ok(b.with_half(side, b.half(side).update(ci, col.push(card@))))
    } else {
        Err(Error::CannotAccept { card })
    }
}

/// `card` put on the discard pile of its color.
pub open spec fn discard_spec(b: BoardView, card: u8) -> BoardView {
    let ci = color_of(card).index();
    BoardView { discard: b.discard.update(ci, b.discard[ci].push(card)), ..b }
}

/// The top card of the discard pile of `card`'s color taken off, if that pile has one.
pub open spec fn take_spec(b: BoardView, card: Card) -> Result<BoardView, Error> {
    let ci = color_of(card@).index();
    if b.discard[ci].len() > 0 {
        Ok(BoardView { discard: b.discard.update(ci, b.discard[ci].drop_last()), ..b })
    } else {
        Err(Error::CardNotFound { card })
    }
}

/// `card` played by `side` to `playTo`.
pub open spec fn play_spec(b: BoardView, side: Side, card: Card, playTo: PlayTo) -> Result<
    BoardView,
    Error,
> {
    match playTo {
        PlayTo::Discard => Ok(discard_spec(b, card@)),
        PlayTo::Expedition => score_spec(b, side, card),
    }
}

/// The text of a board: the side facing up, the discard piles, then the side facing down.
pub open spec fn board_text(b: BoardView) -> Seq<char> {
    seq!['U', 'p', ':', '\n'] + halfboard_text(b.up, Side::Up) + seq![
        '\n',
        'D',
        'i',
        's',
        'c',
        'a',
        'r',
        'd',
        ':',
        '\n',
    ] + discard_text(b.discard) + seq!['\n', 'D', 'o', 'w', 'n', ':', '\n'] + halfboard_text(
        b.down,
        Side::Down,
    )
}

/// The expeditions of both sides and the discard piles.
#[derive(Debug, PartialEq)]
pub struct Board {
    discard: Rc<DiscardPile>,
    up: Halfboard,
    down: Halfboard,
}

impl View for Board {
    type V = BoardView;

    closed spec fn view(&self) -> BoardView {
        BoardView { up: self.up@, down: self.down@, discard: self.discard@ }
    }
}

impl Clone for Board {
    fn clone(&self) -> (r: Self)
        ensures
            r == *self,
    {
        Board { discard: share(&self.discard), up: self.up.clone(), down: self.down.clone() }
    }
}

impl Board {
    /// Five columns on each side and five discard piles, all well formed.
    pub open spec fn wf(&self) -> bool {
        &&& self@.up.len() == 5
        &&& self@.down.len() == 5
        &&& self@.discard.len() == 5
        &&& self.parts_wf()
    }

    /// Each side's expeditions and the discard piles are well formed.
    pub closed spec fn parts_wf(&self) -> bool {
        &&& self.up.wf()
        &&& self.down.wf()
        &&& self.up.spec_side() == Side::Up
        &&& self.down.spec_side() == Side::Down
        &&& self.discard.wf()
    }

    pub fn new() -> (r: Board)
        ensures
            r.wf(),
            r@ == empty_board(),
    {
        Board { discard: Rc::new(DiscardPile::empty()), up: Halfboard::new(Side::Up), down: Halfboard::new(Side::Down) }
    }

    /// `card` played by `side` to `playTo`: discarded, or scored on `side`'s expedition of
    /// its color.
    pub fn play(self, side: Side, card: Card, playTo: PlayTo) -> (r: Result<Board, Error>)
        requires
            self.wf(),
        ensures
            viewed(r) == play_spec(self@, side, card, playTo),
            r matches Ok(b) ==> b.wf(),
    {
        match playTo {
            PlayTo::Discard => Ok(self.discardCard(card)),
            PlayTo::Expedition => self.scoreCard(side, card),
        }
    }

    /// `card` played by `side` on its expedition of the card's color.
    pub fn scoreCard(self, side: Side, card: Card) -> (r: Result<Board, Error>)
        requires
            self.wf(),
        ensures
            viewed(r) == score_spec(self@, side, card),
            r matches Ok(b) ==> b.wf(),
    {
        let newHalf = match self.half(side).with(card) {
            Ok(h) => h,
            Err(e) => return Err(e),
        };
        let r = match side {
            Side::Up => Board { discard: self.discard, up: newHalf, down: self.down },
            Side::Down => Board { discard: self.discard, up: self.up, down: newHalf },
        };
        assert(r@ == score_spec(self@, side, card).unwrap());
        Ok(r)
    }

    /// `card` put on the discard pile of its color.
    pub fn discardCard(self, card: Card) -> (r: Board)
        requires
            self.wf(),
        ensures
            r@ == discard_spec(self@, card@),
            r.wf(),
    {
        let newDiscardPile = self.discard.with(card);
        Board { discard: Rc::new(newDiscardPile), up: self.up, down: self.down }
    }

    /// The top card of the discard pile of `card`'s color taken back.
    pub fn take(self, card: Card) -> (r: Result<Board, Error>)
        requires
            self.wf(),
        ensures
            viewed(r) == take_spec(self@, card),
            r matches Ok(b) ==> b.wf(),
    {
        let newDiscard = match self.discard.take(card) {
            Ok(d) => d,
            Err(e) => return Err(e),
        };
        Ok(Board { discard: Rc::new(newDiscard), up: self.up, down: self.down })
    }

    pub fn discardPile(&self) -> (r: &DiscardPile)
        requires
            self.wf(),
        ensures
            r@ == self@.discard,
            r.wf(),
    {
        &self.discard
    }

    /// The expeditions of side `side`.
    pub fn half(&self, side: Side) -> (r: &Halfboard)
        requires
            self.wf(),
        ensures
            r@ == self@.half(side),
            r.wf(),
            r.spec_side() == side,
    {
        match side {
            Side::Up => &self.up,
            Side::Down => &self.down,
        }
    }

    /// The text of the board: the side facing up, the discard piles, then the side
    /// facing down, each under its heading.
    pub fn toText(&self) -> (r: String)
        requires
            self.wf(),
        ensures
            r@ == board_text(self@),
    {
        let mut r = String::from_str("Up:\n");
        let up = self.up.toText();
        r.append(up.as_str());
        r.append("\nDiscard:\n");
        let discard = self.discard.toText();
        r.append(discard.as_str());
        r.append("\nDown:\n");
        let down = self.down.toText();
        r.append(down.as_str());
        proof {
            reveal_strlit("Up:\n");
            reveal_strlit("\nDiscard:\n");
            reveal_strlit("\nDown:\n");
            assert(r@ =~= board_text(self@));
        }
        r
    }
}

} // verus!
