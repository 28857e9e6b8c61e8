use super::{
    discard_spec, empty_board, hand_take, hand_with, id_set, play_spec, Board, BoardView, Card,
    Color, Deck, DrawFrom, Hand, PlayTo, Side,
};
use super::{in_circulation, lemma_deal_in_circulation};
use crate::error::{viewed, Error};
use vstd::prelude::*;

verus! {

broadcast use {Card::lemma_with_id, Card::lemma_with_own_id};

/// What a game holds: the board, the deck from the top down, each side's hand and whose
/// turn it is.
pub struct GameView {
    pub board: BoardView,
    pub deck: Seq<u8>,
    pub up: Set<nat>,
    pub down: Set<nat>,
    pub turn: Side,
}

impl GameView {
    /// The hand of side `side`.
    pub open spec fn hand(self, side: Side) -> Set<nat> {
        match side {
            Side::Up => self.up,
            Side::Down => self.down,
        }
    }

    /// This game with the hand of side `side` replaced.
    pub open spec fn with_hand(self, side: Side, h: Set<nat>) -> GameView {
        match side {
            Side::Up => GameView { up: h, ..self },
            Side::Down => GameView { down: h, ..self },
        }
    }
}

/// The current side plays `card` from its hand to `playTo`.
pub open spec fn after_play(g: GameView, card: Card, playTo: PlayTo) -> Result<GameView, Error> {
    match hand_take(g.hand(g.turn), card) {
        Err(e) => Err(e),
        Ok(h) => match play_spec(g.board, g.turn, card, playTo) {
            Err(e) => Err(e),
            Ok(b) => Ok(GameView { board: b, ..g.with_hand(g.turn, h) }),
        },
    }
}

/// The current side draws a card from `drawFrom` into its hand.
pub open spec fn after_draw(g: GameView, drawFrom: DrawFrom) -> Result<GameView, Error> {
    match drawFrom {
        DrawFrom::Discard { color } => {
            let ci = color.index();
            let pile = g.board.discard[ci];
            if pile.len() == 0 {
                Err(Error::DiscardPileEmpty)
            } else {
                let top = Card::with_id(pile.last());
                let b = BoardView {
                    discard: g.board.discard.update(ci, pile.drop_last()),
                    ..g.board
                };
                match hand_with(g.hand(g.turn), top) {
                    Err(e) => Err(e),
                    Ok(h) => Ok(GameView { board: b, ..g.with_hand(g.turn, h) }),
                }
            }
        },
        DrawFrom::Deck => {
            if g.deck.len() == 0 {
                Err(Error::GameOver)
            } else {
                match hand_with(g.hand(g.turn), Card::with_id(g.deck[0])) {
                    Err(e) => Err(e),
                    Ok(h) => Ok(GameView { deck: g.deck.drop_first(), ..g.with_hand(g.turn, h) }),
                }
            }
        },
    }
}

/// One whole turn: once the deck is empty the game is over; otherwise the current side
/// plays `card` to `playTo`, then draws from `drawFrom`. The turn does not pass.
pub open spec fn play_turn(g: GameView, card: Card, playTo: PlayTo, drawFrom: DrawFrom) -> Result<
    GameView,
    Error,
> {
    if g.deck.len() == 0 {
        Err(Error::GameOver)
    } else {
        match after_play(g, card, playTo) {
            Err(e) => Err(e),
            Ok(g1) => after_draw(g1, drawFrom),
        }
    }
}

/// `order` lists each of the sixty cards once.
pub open spec fn is_shuffle(order: Seq<u8>) -> bool {
    &&& order.len() == 60
    &&& order.no_duplicates()
    &&& forall|id: u8| id < 60 ==> order.contains(id)
    &&& forall|i: int| 0 <= i < order.len() ==> #[trigger] order[i] < 60
}

/// A board, a deck, two hands and the side whose turn it is.
#[derive(Debug, PartialEq)]
pub struct Game {
    board: Board,
    deck: Deck,
    up: Hand,
    down: Hand,
    turn: Side,
}

impl View for Game {
    type V = GameView;

    closed spec fn view(&self) -> GameView {
        GameView { board: self.board@, deck: self.deck@, up: self.up@, down: self.down@, turn: self.turn }
    }
}

impl Game {
    /// The board, the deck and both hands are well formed, each hand on its own side.
    pub closed spec fn wf(&self) -> bool {
        &&& self.board.wf()
        &&& self.deck.wf()
        &&& self.up.wf()
        &&& self.down.wf()
        &&& self.up.spec_side() == Side::Up
        &&& self.down.spec_side() == Side::Down
    }

    /// A new game: an empty board and the sixty cards in an order that `rng` picks, eight
    /// dealt to the side facing up, then eight to the other; the side facing up plays first.
    pub fn new<R: rand::Rng + ?Sized>(rng: &mut R) -> (r: Game)
        ensures
            r.wf(),
            r@.board == empty_board(),
            r@.turn == Side::Up,
            in_circulation(r@),
            exists|order: Seq<u8>|
                #[trigger] is_shuffle(order) && r@.up == id_set(order.subrange(0, 8)) && r@.down
                    == id_set(order.subrange(8, 16)) && r@.deck == order.subrange(16, 60),
    {
        let full = Deck::new(rng);
        let ghost order = full@;
        let (up, deck0) = Hand::new(Side::Up, &full).unwrap();
        let (down, deck1) = Hand::new(Side::Down, &deck0).unwrap();
        let g = Game { board: Board::new(), deck: deck1, up, down, turn: Side::Up };
        proof {
            assert(deck0@.subrange(0, 8) =~= order.subrange(8, 16));
            assert(deck1@ =~= order.subrange(16, 60));
            assert(is_shuffle(order));
            lemma_deal_in_circulation(order, Side::Up);
        }
        g
    }

    /// A game made of the given parts.
    pub fn fromParts(board: Board, deck: Deck, up: Hand, down: Hand, turn: Side) -> (r: Game)
        requires
            board.wf(),
            deck.wf(),
            up.wf(),
            down.wf(),
            up.spec_side() == Side::Up,
            down.spec_side() == Side::Down,
        ensures
            r.wf(),
            r@ == (GameView { board: board@, deck: deck@, up: up@, down: down@, turn }),
    {
        Game { board, deck, up, down, turn }
    }

    /// The hand of side `side`.
    pub fn hand(&self, side: Side) -> (r: Hand)
        requires
            self.wf(),
        ensures
            r@ == self@.hand(side),
            r.spec_side() == side,
            r.wf(),
    {
        match side {
            Side::Up => self.up.clone(),
            Side::Down => self.down.clone(),
        }
    }

    pub fn board(&self) -> (r: Board)
        requires
            self.wf(),
        ensures
            r@ == self@.board,
            r.wf(),
    {
        self.board.clone()
    }

    pub fn deck(&self) -> (r: Deck)
        requires
            self.wf(),
        ensures
            r@ == self@.deck,
            r.wf(),
    {
        self.deck.clone()
    }

    pub fn turn(&self) -> (r: Side)
        ensures
            r == self@.turn,
    {
        self.turn
    }

    /// The game is over once the deck is empty.
    pub fn isOver(&self) -> (r: bool)
        ensures
            r == (self@.deck.len() == 0),
    {
        self.deck.isEmpty()
    }

    /// Executes the whole turn of the current side: a card is played from its hand to an
    /// expedition or a discard pile, then a card is drawn from the deck or a discard pile.
    /// Either both steps succeed or the game is left as it was.
    pub fn play(&self, card: Card, playTo: PlayTo, drawFrom: DrawFrom) -> (r: Result<Game, Error>)
        requires
            self.wf(),
        ensures
            viewed(r) == play_turn(self@, card, playTo, drawFrom),
            r matches Ok(g) ==> g.wf(),
    {
        if self.isOver() {
            return Err(Error::GameOver);
        }
        let afterPlay = match self.playFromHand(card, playTo) {
            Ok(g) => g,
            Err(e) => return Err(e),
        };
        match drawFrom {
            DrawFrom::Discard { color } => afterPlay.drawFromDiscard(color),
            DrawFrom::Deck => afterPlay.drawFromDeck(),
        }
    }

    /// This game with `hand` as the hand of its side.
    fn withHand(self, hand: Hand) -> (r: Game)
        requires
            self.wf(),
            hand.wf(),
        ensures
            r.wf(),
            r@ == self@.with_hand(hand.spec_side(), hand@),
    {
        match hand.side() {
            Side::Up => Game { up: hand, ..self },
            Side::Down => Game { down: hand, ..self },
        }
    }

    fn playFromHand(&self, card: Card, playTo: PlayTo) -> (r: Result<Game, Error>)
        requires
            self.wf(),
        ensures
            viewed(r) == after_play(self@, card, playTo),
            r matches Ok(g) ==> g.wf(),
    {
        let handAfterPlay = match self.hand(self.turn).take(card) {
            Ok(h) => h,
            Err(e) => return Err(e),
        };
        let boardAfterPlay = match self.board().play(self.turn, card, playTo) {
            Ok(b) => b,
            Err(e) => return Err(e),
        };
        let g = Game {
            board: boardAfterPlay,
            deck: self.deck.clone(),
            up: self.up.clone(),
            down: self.down.clone(),
            turn: self.turn,
        };
        Ok(g.withHand(handAfterPlay))
    }

    fn drawFromDiscard(&self, color: Color) -> (r: Result<Game, Error>)
        requires
            self.wf(),
        ensures
            viewed(r) == after_draw(self@, DrawFrom::Discard { color }),
            r matches Ok(g) ==> g.wf(),
    {
        let board = self.board();
        let top = match board.discardPile().top(color) {
            Ok(c) => c,
            Err(e) => return Err(e),
        };
        proof {
            color.lemma_index();
            let pile = board@.discard[color.index()];
            assert(pile[pile.len() - 1] == top@);
        }
        let newBoard = match board.take(top) {
            Ok(b) => b,
            Err(e) => return Err(e),
        };
        let newHand = match self.hand(self.turn).with(top) {
            Ok(h) => h,
            Err(e) => return Err(e),
        };
        let g = Game {
            board: newBoard,
            deck: self.deck.clone(),
            up: self.up.clone(),
            down: self.down.clone(),
            turn: self.turn,
        };
        Ok(g.withHand(newHand))
    }

    fn drawFromDeck(&self) -> (r: Result<Game, Error>)
        requires
            self.wf(),
        ensures
            viewed(r) == after_draw(self@, DrawFrom::Deck),
            r matches Ok(g) ==> g.wf(),
    {
        let (card, newDeck) = match self.deck.take() {
            Some((c, d)) => (c, d),
            None => return Err(Error::GameOver),
        };
        let newHand = match self.hand(self.turn).with(card) {
            Ok(h) => h,
            Err(e) => return Err(e),
        };
        let g = Game {
            board: self.board.clone(),
            deck: newDeck,
            up: self.up.clone(),
            down: self.down.clone(),
            turn: self.turn,
        };
        Ok(g.withHand(newHand))
    }
}

} // verus!
