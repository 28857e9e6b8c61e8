use super::{card_text, color_at, color_of, Card, Color};
use crate::error::Error;
use crate::shared::share;
use crate::text::{join, joinTexts, texts};
use std::rc::Rc;
use vstd::prelude::*;

verus! {

/// The text of one pile: its cards from the bottom up, separated by commas.
pub open spec fn pile_text(pile: Seq<u8>) -> Seq<char> {
    join(pile.map_values(|id: u8| card_text(id)), seq![','])
}

/// The text of the five piles, separated by bars.
pub open spec fn discard_text(piles: Seq<Seq<u8>>) -> Seq<char> {
    join(Seq::new(5, |i: int| pile_text(piles[i])), seq![' ', '|', ' '])
}

/// The ids of the cards of a pile.
pub open spec fn pile_ids(pile: Seq<Card>) -> Seq<u8> {
    pile.map_values(|c: Card| c@)
}

/// One pile of discarded cards per color.
#[derive(Debug, PartialEq)]
pub struct DiscardPile {
    piles: Vec<Rc<Vec<Card>>>,
}

impl View for DiscardPile {
    type V = Seq<Seq<u8>>;

    /// The ids of the cards of each pile, by color, from the bottom up.
    closed spec fn view(&self) -> Seq<Seq<u8>> {
        self.piles@.map_values(|p: Rc<Vec<Card>>| pile_ids(p@))
    }
}

impl DiscardPile {
    /// Five piles, each holding only cards of its own color.
    pub open spec fn wf(&self) -> bool {
        &&& self@.len() == 5
        &&& forall|i: int, j: int|
            0 <= i < 5 && 0 <= j < self@[i].len() ==> #[trigger] self@[i][j] < 60
                && color_of(self@[i][j]) == color_at(i)
    }

    pub fn empty() -> (r: DiscardPile)
        ensures
            r.wf(),
            r@ == Seq::new(5, |i: int| Seq::<u8>::empty()),
    {
        let mut piles: Vec<Rc<Vec<Card>>> = Vec::new();
        let mut i: usize = 0;
        while i < 5
            invariant
                0 <= i <= 5,
                piles@.len() == i,
                forall|j: int| 0 <= j < i ==> (#[trigger] piles@[j])@.len() == 0,
            decreases 5 - i,
        {
            piles.push(Rc::new(Vec::new()));
            i = i + 1;
        }
        let r = DiscardPile { piles };
        assert forall|j: int| 0 <= j < 5 implies #[trigger] r@[j] =~= Seq::<u8>::empty() by {
            assert(r@[j] == pile_ids(r.piles@[j]@));
        }
        assert(r@ =~= Seq::new(5, |i: int| Seq::<u8>::empty()));
        r
    }

    /// These piles with `card` put on the pile of its color.
    pub fn with(&self, card: Card) -> (r: DiscardPile)
        requires
            self.wf(),
        ensures
            r.wf(),
            r@ == self@.update(color_of(card@).index(), self@[color_of(card@).index()].push(card@)),
    {
        let color = card.color();
        let ci = color.toId() as usize;
        card.idBound();
        let mut newPile: Vec<Card> = (*self.piles[ci]).clone();
        proof {
            assert(newPile@ =~= self.piles@[ci as int]@) by {
                assert forall|j: int| 0 <= j < newPile@.len() implies newPile@[j]
                    == self.piles@[ci as int]@[j] by {
                    assert(cloned(self.piles@[ci as int]@[j], newPile@[j]));
                }
            }
        }
        newPile.push(card);
        assert(pile_ids(newPile@) =~= self@[ci as int].push(card@));
        self.replaced(ci, Rc::new(newPile))
    }

    /// These piles with pile `ci` replaced by `pile`, the others shared.
    fn replaced(&self, ci: usize, pile: Rc<Vec<Card>>) -> (r: DiscardPile)
        requires
            self@.len() == 5,
            ci < 5,
        ensures
            r@ == self@.update(ci as int, pile_ids(pile@)),
    {
        let mut piles: Vec<Rc<Vec<Card>>> = Vec::new();
        let mut i: usize = 0;
        while i < 5
            invariant
                self@.len() == 5,
                ci < 5,
                0 <= i <= 5,
                piles@.len() == i,
                forall|j: int|
                    0 <= j < i ==> #[trigger] piles@[j] == (if j == ci {
                        pile
                    } else {
                        self.piles@[j]
                    }),
            decreases 5 - i,
        {
            if i == ci {
                piles.push(share(&pile));
            } else {
                piles.push(share(&self.piles[i]));
            }
            i = i + 1;
        }
        let r = DiscardPile { piles };
        assert(r@ =~= self@.update(ci as int, pile_ids(pile@)));
        r
    }

    /// The card on top of the pile of color `color`.
    pub fn top(&self, color: Color) -> (r: Result<Card, Error>)
        requires
            self.wf(),
        ensures
            self@[color.index()].len() > 0 ==> (r matches Ok(c) && c@
                == self@[color.index()].last()),
            self@[color.index()].len() == 0 ==> r == Err::<Card, Error>(Error::DiscardPileEmpty),
    {
        let pile = self.colorPile(color);
        let n = pile.len();
        if n == 0 {
            Err(Error::DiscardPileEmpty)
        } else {
            Ok(pile[n - 1])
        }
    }

    /// These piles with the top card of the pile of `card`'s color taken off. The card
    /// taken off is the one on top, whether or not it is `card`.
    pub fn take(&self, card: Card) -> (r: Result<DiscardPile, Error>)
        requires
            self.wf(),
        ensures
            self@[color_of(card@).index()].len() > 0 ==> (r matches Ok(p) && p.wf() && p@
                == self@.update(
                color_of(card@).index(),
                self@[color_of(card@).index()].drop_last(),
            )),
            self@[color_of(card@).index()].len() == 0 ==> r == Err::<DiscardPile, Error>(
                Error::CardNotFound { card },
            ),
    {
        let color = card.color();
        let ci = color.toId() as usize;
        let pile = self.colorPile(color);
        if pile.len() == 0 {
            return Err(Error::CardNotFound { card });
        }
        let mut newPile: Vec<Card> = (*pile).clone();
        proof {
            assert(newPile@ =~= pile@) by {
                assert forall|j: int| 0 <= j < newPile@.len() implies newPile@[j] == pile@[j] by {
                    assert(cloned(pile@[j], newPile@[j]));
                }
            }
        }
        newPile.pop();
        assert(pile_ids(newPile@) =~= self@[ci as int].drop_last());
        let r = self.replaced(ci, Rc::new(newPile));
        assert forall|i: int, j: int|
            0 <= i < 5 && 0 <= j < r@[i].len() implies #[trigger] r@[i][j] < 60 && color_of(
            r@[i][j],
        ) == color_at(i) by {
            assert(r@[i][j] == self@[i][j]);
        }
        Ok(r)
    }

    fn colorPile(&self, color: Color) -> (r: Rc<Vec<Card>>)
        requires
            self.wf(),
        ensures
            pile_ids(r@) == self@[color.index()],
    {
        proof {
            color.lemma_index();
        }
        share(&self.piles[color.toId() as usize])
    }

    /// The text of the piles: each pile's cards separated by commas, the piles by bars.
    pub fn toText(&self) -> (r: String)
        requires
            self.wf(),
        ensures
            r@ == discard_text(self@),
    {
        let mut parts: Vec<String> = Vec::new();
        let mut i: usize = 0;
        while i < 5
            invariant
                self.wf(),
                0 <= i <= 5,
                parts@.len() == i,
                forall|j: int| 0 <= j < i ==> (#[trigger] parts@[j])@ == pile_text(self@[j]),
            decreases 5 - i,
        {
            let pile: &Vec<Card> = &self.piles[i];
            let mut cards: Vec<String> = Vec::new();
            let mut k: usize = 0;
            while k < pile.len()
                invariant
                    pile_ids(pile@) == self@[i as int],
                    0 <= k <= pile@.len(),
                    cards@.len() == k,
                    forall|j: int|
                        0 <= j < k ==> (#[trigger] cards@[j])@ == card_text(self@[i as int][j]),
                decreases pile.len() - k,
            {
                cards.push(pile[k].toText());
                k = k + 1;
            }
            proof {
                reveal_strlit(",");
                assert(texts(cards@) =~= self@[i as int].map_values(|id: u8| card_text(id)));
                assert(","@ =~= seq![',']);
            }
            parts.push(joinTexts(&cards, ","));
            i = i + 1;
        }
        proof {
            reveal_strlit(" | ");
            assert(texts(parts@) =~= Seq::new(5, |j: int| pile_text(self@[j])));
            assert(" | "@ =~= seq![' ', '|', ' ']);
        }
        joinTexts(&parts, " | ")
    }
}

} // verus!
