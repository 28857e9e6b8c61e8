use super::{color_of, stacks_on, Card, Color};
use crate::shared::share;
use std::rc::Rc;
use vstd::prelude::*;

verus! {

/// An expedition of color `color` holding the cards `cards` (by id, from the base) accepts
/// the card `card`.
pub open spec fn column_accepts(cards: Seq<u8>, color: Color, card: u8) -> bool {
    color_of(card) == color && (cards.len() == 0 || stacks_on(card, cards.last()))
}

/// The cards of one color that one side has played, from the base up.
#[derive(Debug, PartialEq)]
pub struct Expedition {
    color: Color,
    cards: Rc<Vec<Card>>,
}

impl View for Expedition {
    type V = Seq<u8>;

    /// The ids of the cards, from the base up.
    closed spec fn view(&self) -> Seq<u8> {
        self.cards@.map_values(|c: Card| c@)
    }
}

impl Clone for Expedition {
    fn clone(&self) -> (r: Self)
        ensures
            r == *self,
    {
        Expedition { color: self.color, cards: share(&self.cards) }
    }
}

impl Expedition {
    pub closed spec fn spec_color(&self) -> Color {
        self.color
    }

    /// Every card has the expedition's color and none is lower than the one below it.
    pub open spec fn wf(&self) -> bool {
        &&& forall|i: int| 0 <= i < self@.len() ==> #[trigger] self@[i] < 60
        &&& forall|i: int| 0 <= i < self@.len() ==> color_of(#[trigger] self@[i]) == self.spec_color()
        &&& forall|i: int| 0 < i < self@.len() ==> stacks_on(#[trigger] self@[i], self@[i - 1])
    }

    /// This expedition accepts `card`.
    pub open spec fn accepts(&self, card: u8) -> bool {
        column_accepts(self@, self.spec_color(), card)
    }

    pub fn new(color: Color) -> (r: Expedition)
        ensures
            r@ == Seq::<u8>::empty(),
            r.spec_color() == color,
            r.wf(),
    {
        let r = Expedition { color, cards: Rc::new(Vec::new()) };
        assert(r@ =~= Seq::<u8>::empty());
        r
    }

    /// This expedition with `card` on top, if it accepts the card.
    pub fn with(&self, card: Card) -> (r: Option<Expedition>)
        ensures
            r is Some <==> self.accepts(card@),
            r matches Some(e) ==> e@ == self@.push(card@) && e.spec_color() == self.spec_color()
                && (self.wf() ==> e.wf()),
    {
        if !self.canAccept(card) {
            None
        } else {
            let mut v: Vec<Card> = (*self.cards).clone();
            proof {
                assert(v@ =~= self.cards@) by {
                    assert forall|i: int| 0 <= i < v@.len() implies v@[i] == self.cards@[i] by {
                        assert(cloned(self.cards@[i], v@[i]));
                    }
                }
            }
            v.push(card);
            card.idBound();
            let e = Expedition { color: self.color, cards: Rc::new(v) };
            assert(e@ =~= self@.push(card@));
            Some(e)
        }
    }

    pub fn canAccept(&self, card: Card) -> (r: bool)
        ensures
            r == self.accepts(card@),
    {
        if card.color() == self.color {
            match self.top() {
                Some(t) => card.canBeStackedOn(t),
                None => true,
            }
        } else {
            false
        }
    }

    pub fn has(&self, card: Card) -> (r: bool)
        ensures
            r == self@.contains(card@),
    {
        let id = card.toId();
        let mut i: usize = 0;
        while i < self.cards.len()
            invariant
                0 <= i <= self@.len(),
                self@.len() == self.cards@.len(),
                id == card@,
                forall|j: int| 0 <= j < i ==> self@[j] != id,
            decreases self.cards.len() - i,
        {
            if self.cards[i].toId() == id {
                assert(self@[i as int] == card@);
                return true;
            }
            i = i + 1;
        }
        false
    }

    /// The `n`-th card from the base.
    pub fn nth(&self, n: usize) -> (r: Option<Card>)
        ensures
            n < self@.len() ==> (r matches Some(c) && c@ == self@[n as int]),
            n >= self@.len() ==> r is None,
    {
        if n < self.cards.len() {
            Some(self.cards[n])
        } else {
            None
        }
    }

    /// The card on top.
    pub fn top(&self) -> (r: Option<Card>)
        ensures
            self@.len() > 0 ==> (r matches Some(c) && c@ == self@.last()),
            self@.len() == 0 ==> r is None,
    {
        let n = self.cards.len();
        if n == 0 {
            None
        } else {
            Some(self.cards[n - 1])
        }
    }

    pub fn nbCards(&self) -> (r: usize)
        ensures
            r == self@.len(),
    {
        self.cards.len()
    }

    pub fn color(&self) -> (r: Color)
        ensures
            r == self.spec_color(),
    {
        self.color
    }
}

} // verus!
