use super::Card;
use rand::seq::SliceRandom;
use vstd::prelude::*;

verus! {

/// Card ids in a persistent stack, sharing storage between versions.
#[verifier::external_body]
#[derive(Debug, PartialEq)]
pub struct IdStack {
    items: rpds::Stack<u8>,
}

/// The ids that a stack holds, from the top down.
pub uninterp spec fn stack_ids(s: IdStack) -> Seq<u8>;

/// Relies on rpds's `FromIterator` for `Stack`: the first id of the vector ends on top.
#[verifier::external_body]
fn stackFromIds(ids: Vec<u8>) -> (r: IdStack)
    ensures
        stack_ids(r) == ids@,
{
    IdStack { items: ids.into_iter().collect() }
}

/// Relies on rpds's `Stack::peek`: the top id, if there is one.
#[verifier::external_body]
fn stackPeek(s: &IdStack) -> (r: Option<u8>)
    ensures
        stack_ids(*s).len() == 0 ==> r is None,
        stack_ids(*s).len() > 0 ==> r == Some(stack_ids(*s)[0]),
{
    s.items.peek().copied()
}

/// Relies on rpds's `Stack::pop`: the stack without its top id, if it has one.
#[verifier::external_body]
fn stackPop(s: &IdStack) -> (r: Option<IdStack>)
    ensures
        stack_ids(*s).len() == 0 ==> r is None,
        stack_ids(*s).len() > 0 ==> r is Some,
        r matches Some(t) ==> stack_ids(t) == stack_ids(*s).drop_first(),
{
    s.items.pop().map(|items| IdStack { items })
}

/// Relies on rpds's `Stack::size`: the number of ids.
#[verifier::external_body]
fn stackSize(s: &IdStack) -> (r: usize)
    ensures
        r == stack_ids(*s).len(),
{
    s.items.size()
}

/// Relies on rpds's `Stack::is_empty`.
#[verifier::external_body]
fn stackIsEmpty(s: &IdStack) -> (r: bool)
    ensures
        r == (stack_ids(*s).len() == 0),
{
    s.items.is_empty()
}

/// Relies on rpds's `Clone` for `Stack`: the copy holds the same ids.
#[verifier::external_body]
fn stackClone(s: &IdStack) -> (r: IdStack)
    ensures
        stack_ids(r) == stack_ids(*s),
{
    IdStack { items: s.items.clone() }
}

/// Relies on rand's `SliceRandom::shuffle`: the same ids, in an order that the random
/// source picks.
#[verifier::external_body]
fn shuffleIds<R: rand::Rng + ?Sized>(ids: &mut Vec<u8>, rng: &mut R)
    ensures
        final(ids)@.to_multiset() == old(ids)@.to_multiset(),
{
    ids.shuffle(rng)
}

/// The cards left to draw, drawn from the top.
#[derive(Debug, PartialEq)]
pub struct Deck {
    cards: IdStack,
}

impl View for Deck {
    type V = Seq<u8>;

    /// The ids of the cards, from the top down.
    closed spec fn view(&self) -> Seq<u8> {
        stack_ids(self.cards)
    }
}

impl Clone for Deck {
    fn clone(&self) -> (r: Self)
        ensures
            r@ == self@,
    {
        Deck { cards: stackClone(&self.cards) }
    }
}

impl Deck {
    /// Every id names a card.
    pub open spec fn wf(&self) -> bool {
        forall|i: int| 0 <= i < self@.len() ==> #[trigger] self@[i] < 60
    }

    /// The top card and the deck under it, unless the deck is empty.
    pub fn take(&self) -> (r: Option<(Card, Deck)>)
        requires
            self.wf(),
        ensures
            self@.len() == 0 ==> r is None,
            self@.len() > 0 ==> (r matches Some((c, d)) && c@ == self@[0] && d@
                == self@.drop_first() && d.wf()),
    {
        let id = match stackPeek(&self.cards) {
            Some(id) => id,
            None => return None,
        };
        let rest = match stackPop(&self.cards) {
            Some(rest) => rest,
            None => return None,
        };
        let d = Deck { cards: rest };
        assert(d.wf()) by {
            assert forall|i: int| 0 <= i < d@.len() implies #[trigger] d@[i] < 60 by {
                assert(d@[i] == self@[i + 1]);
            }
        }
        assert(self@[0] < 60);
        Some((Card::fromId(id), d))
    }

    /// The sixty cards in an order that `rng` picks.
    pub fn new<R: rand::Rng + ?Sized>(rng: &mut R) -> (r: Deck)
        ensures
            r.wf(),
            r@.len() == 60,
            r@.no_duplicates(),
            forall|id: u8| id < 60 ==> r@.contains(id),
    {
        let cards = Card::set();
        let mut ids: Vec<u8> = Vec::new();
        let mut i: usize = 0;
        while i < cards.len()
            invariant
                cards@.len() == 60,
                forall|k: int| 0 <= k < 60 ==> (#[trigger] cards@[k])@ == k,
                0 <= i <= 60,
                ids@.len() == i,
                forall|k: int| 0 <= k < i ==> #[trigger] ids@[k] == k,
            decreases cards.len() - i,
        {
            ids.push(cards[i].toId());
            i = i + 1;
        }
        let ghost sorted = ids@;
        assert(sorted.no_duplicates());
        shuffleIds(&mut ids, rng);
        proof {
            sorted.to_multiset_ensures();
            ids@.to_multiset_ensures();
            assert forall|id: u8| id < 60 implies ids@.contains(id) by {
                assert(sorted[id as int] == id);
                assert(sorted.contains(id));
                assert(sorted.to_multiset().count(id) > 0);
            }
            assert forall|k: int| 0 <= k < ids@.len() implies #[trigger] ids@[k] < 60 by {
                assert(ids@.contains(ids@[k]));
                assert(ids@.to_multiset().count(ids@[k]) > 0);
                assert(sorted.contains(ids@[k]));
            }
            sorted.lemma_multiset_has_no_duplicates();
            ids@.lemma_multiset_has_no_duplicates_conv();
        }
        Deck { cards: stackFromIds(ids) }
    }

    pub fn remainingCards(&self) -> (r: usize)
        ensures
            r == self@.len(),
    {
        stackSize(&self.cards)
    }

    pub fn isEmpty(&self) -> (r: bool)
        ensures
            r == (self@.len() == 0),
    {
        stackIsEmpty(&self.cards)
    }

    /// The deck holding the cards with these ids, the first on top.
    pub fn literal(ids: &[u8]) -> (r: Deck)
        requires
            forall|i: int| 0 <= i < ids@.len() ==> #[trigger] ids@[i] < 60,
        ensures
            r@ == ids@,
            r.wf(),
    {
        let mut v: Vec<u8> = Vec::new();
        let mut i: usize = 0;
        while i < ids.len()
            invariant
                0 <= i <= ids@.len(),
                v@ == ids@.subrange(0, i as int),
            decreases ids.len() - i,
        {
            v.push(ids[i]);
            i = i + 1;
        }
        assert(v@ =~= ids@);
        Deck { cards: stackFromIds(v) }
    }
}

} // verus!
