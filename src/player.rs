use crate::error::{viewed, Error};
use crate::model::{play_turn, Card, DrawFrom, Game, PlayTo};
use vstd::prelude::*;

verus! {

/// What a player decides for a turn: the card to play, where it goes and where the card
/// drawn afterwards comes from.
pub struct PlayDecision {
    pub card: Card,
    pub playTo: PlayTo,
    pub drawFrom: DrawFrom,
}

impl PlayDecision {
    /// The game after the turn that this decision describes.
    pub fn applyTo(&self, game: Game) -> (r: Result<Game, Error>)
        requires
            game.wf(),
        ensures
            viewed(r) == play_turn(game@, self.card, self.playTo, self.drawFrom),
            r matches Ok(g) ==> g.wf(),
    {
        game.play(self.card, self.playTo, self.drawFrom)
    }
}

/// Something that decides the turns of one side.
pub trait Player {
    fn makeDecision(&mut self, game: &Game) -> Result<PlayDecision, Error>;
}

} // verus!
