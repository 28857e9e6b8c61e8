use super::{card_text, Card, Deck, Side};
use crate::error::{viewed, Error};
use crate::text::{join, joinTexts, texts};
use itertools::Itertools;
use std::collections::HashSet;
use vstd::prelude::*;
use vstd::std_specs::hash::obeys_key_model;

verus! {

/// Card ids in a set of bits.
#[verifier::external_body]
#[derive(Debug, PartialEq)]
pub struct IdSet {
    bits: bit_set::BitSet,
}

/// The ids that a set of bits holds.
pub uninterp spec fn set_ids(s: IdSet) -> Set<nat>;

/// Relies on bit-set's `BitSet::with_capacity`: an empty set.
#[verifier::external_body]
fn setWithCapacity(nbits: usize) -> (r: IdSet)
    ensures
        set_ids(r) == Set::<nat>::empty(),
{
    IdSet { bits: bit_set::BitSet::with_capacity(nbits) }
}

/// Relies on bit-set's `BitSet::insert`: adds `v`, and tells whether it was absent.
#[verifier::external_body]
fn setInsert(s: &mut IdSet, v: usize) -> (r: bool)
    ensures
        r == !set_ids(*old(s)).contains(v as nat),
        set_ids(*final(s)) == set_ids(*old(s)).insert(v as nat),
{
    s.bits.insert(v)
}

/// Relies on bit-set's `BitSet::remove`: removes `v`, and tells whether it was present.
#[verifier::external_body]
fn setRemove(s: &mut IdSet, v: usize) -> (r: bool)
    ensures
        r == set_ids(*old(s)).contains(v as nat),
        set_ids(*final(s)) == set_ids(*old(s)).remove(v as nat),
{
    s.bits.remove(v)
}

/// Relies on bit-set's `BitSet::count`: the number of ids.
#[verifier::external_body]
fn setCount(s: &IdSet) -> (r: usize)
    ensures
        r == set_ids(*s).len(),
{
    s.bits.count()
}

/// Relies on bit-set's `BitSet::iter`: each id once, in an order that the crate does not
/// promise.
#[verifier::external_body]
fn setItems(s: &IdSet) -> (r: Vec<usize>)
    ensures
        r@.no_duplicates(),
        forall|v: usize| r@.contains(v) <==> set_ids(*s).contains(v as nat),
{
    s.bits.iter().collect()
}

/// Relies on bit-set's `Clone` for `BitSet`: the copy holds the same ids.
#[verifier::external_body]
fn setClone(s: &IdSet) -> (r: IdSet)
    ensures
        set_ids(r) == set_ids(*s),
{
    IdSet { bits: s.bits.clone() }
}

/// Relies on `Itertools::sorted`: the same numbers, in increasing order.
#[verifier::external_body]
fn sortedIds(v: Vec<usize>) -> (r: Vec<usize>)
    ensures
        r@.to_multiset() == v@.to_multiset(),
        forall|i: int, j: int| 0 <= i <= j < r@.len() ==> r@[i] <= r@[j],
{
    v.into_iter().sorted().collect()
}

/// The ids of a sequence of cards, as a set.
pub open spec fn id_set(ids: Seq<u8>) -> Set<nat> {
    Set::new(|x: nat| exists|i: int| 0 <= i < ids.len() && (#[trigger] ids[i]) as nat == x)
}

/// `ids` lists the members of `s` by increasing id.
pub open spec fn in_order(ids: Seq<u8>, s: Set<nat>) -> bool {
    &&& forall|i: int, j: int| 0 <= i < j < ids.len() ==> ids[i] < ids[j]
    &&& forall|x: nat| s.contains(x) <==> exists|i: int| 0 <= i < ids.len() && (#[trigger] ids[i]) as nat == x
}

/// The ids of a sequence of cards.
pub open spec fn ids_of(cards: Seq<Card>) -> Seq<u8> {
    cards.map_values(|c: Card| c@)
}

/// The text of the cards with these ids, separated by commas.
pub open spec fn hand_text(ids: Seq<u8>) -> Seq<char> {
    join(ids.map_values(|id: u8| card_text(id)), seq![',', ' '])
}

/// A hand holding the cards `h` without `card`, which it must hold.
pub open spec fn hand_take(h: Set<nat>, card: Card) -> Result<Set<nat>, Error> {
    if h.contains(card@ as nat) {
        Ok(h.remove(card@ as nat))
    } else {
        Err(Error::CardNotFound { card })
    }
}

/// A hand holding the cards `h` with `card` added, unless it is full or holds the card.
pub open spec fn hand_with(h: Set<nat>, card: Card) -> Result<Set<nat>, Error> {
    if h.len() >= 8 {
        Err(Error::HandFull)
    } else if h.contains(card@ as nat) {
        Err(Error::DuplicateCard { card })
    } else {
        Ok(h.insert(card@ as nat))
    }
}

/// The cards that one side holds.
#[derive(Debug, PartialEq)]
pub struct Hand {
    side: Side,
    cards: IdSet,
}

impl View for Hand {
    type V = Set<nat>;

    /// The ids of the cards held.
    closed spec fn view(&self) -> Set<nat> {
        set_ids(self.cards)
    }
}

impl Clone for Hand {
    fn clone(&self) -> (r: Self)
        ensures
            r@ == self@,
            r.spec_side() == self.spec_side(),
    {
        Hand { side: self.side, cards: setClone(&self.cards) }
    }
}

impl Hand {
    pub const SIZE: usize = 8;

    pub closed spec fn spec_side(&self) -> Side {
        self.side
    }

    /// At most eight cards, each naming one of the sixty.
    pub open spec fn wf(&self) -> bool {
        &&& self@.finite()
        &&& self@.len() <= 8
        &&& forall|x: nat| #[trigger] self@.contains(x) ==> x < 60
    }

    /// A hand of the eight cards on top of `deck`, and the deck under them.
    pub fn new(side: Side, deck: &Deck) -> (r: Option<(Hand, Deck)>)
        requires
            deck.wf(),
        ensures
            deck@.len() < 8 ==> r is None,
            deck@.len() >= 8 ==> r is Some,
            r matches Some((h, d)) ==> {
                &&& h@ == id_set(deck@.subrange(0, 8))
                &&& h.spec_side() == side
                &&& h.wf()
                &&& d@ == deck@.subrange(8, deck@.len() as int)
                &&& d.wf()
            },
    {
        let mut cards = setWithCapacity(Card::DECK_SIZE);
        let mut newDeck = deck.clone();
        let mut i: usize = 0;
        while i < Self::SIZE
            invariant
                0 <= i <= 8,
                deck.wf(),
                i <= deck@.len(),
                newDeck@ == deck@.subrange(i as int, deck@.len() as int),
                newDeck.wf(),
                set_ids(cards) == id_set(deck@.subrange(0, i as int)),
                set_ids(cards).finite(),
                set_ids(cards).len() <= i,
            decreases 8 - i,
        {
            let (card, nextDeck) = match newDeck.take() {
                Some(p) => p,
                None => return None,
            };
            newDeck = nextDeck;
            let id = card.toId();
            setInsert(&mut cards, id as usize);
            proof {
                assert(deck@[i as int] == id);
                assert(set_ids(cards) =~= id_set(deck@.subrange(0, i + 1))) by {
                    assert forall|x: nat| set_ids(cards).contains(x) implies id_set(
                        deck@.subrange(0, i + 1),
                    ).contains(x) by {
                        if x == id as nat {
                            assert(deck@.subrange(0, i + 1)[i as int] == id);
                        } else {
                            let k = choose|k: int|
                                0 <= k < i && (#[trigger] deck@.subrange(0, i as int)[k]) as nat == x;
                            assert(deck@.subrange(0, i + 1)[k] as nat == x);
                        }
                    }
                    assert forall|x: nat| id_set(deck@.subrange(0, i + 1)).contains(x) implies set_ids(
                        cards,
                    ).contains(x) by {
                        let k = choose|k: int|
                            0 <= k < i + 1 && (#[trigger] deck@.subrange(0, i + 1)[k]) as nat == x;
                        if k < i {
                            assert(deck@.subrange(0, i as int)[k] as nat == x);
                        }
                    }
                }
                assert(newDeck@ =~= deck@.subrange(i + 1, deck@.len() as int));
            }
            i = i + 1;
        }
        let h = Hand { side, cards };
        assert forall|x: nat| #[trigger] h@.contains(x) implies x < 60 by {
            let k = choose|k: int| 0 <= k < 8 && (#[trigger] deck@.subrange(0, 8)[k]) as nat == x;
            assert(deck@[k] < 60);
        }
        Some((h, newDeck))
    }

    /// A hand of the cards with these ids; more than eight are refused.
    pub fn literal(side: Side, ids: &[u8]) -> (r: Result<Hand, Error>)
        requires
            forall|i: int| 0 <= i < ids@.len() ==> #[trigger] ids@[i] < 60,
        ensures
            ids@.len() > 8 ==> r == Err::<Hand, Error>(Error::HandFull),
            ids@.len() <= 8 ==> (r matches Ok(h) && h@ == id_set(ids@) && h.spec_side() == side
                && h.wf()),
    {
        if ids.len() > Self::SIZE {
            return Err(Error::HandFull);
        }
        let mut cards = setWithCapacity(Card::DECK_SIZE);
        let mut i: usize = 0;
        while i < ids.len()
            invariant
                0 <= i <= ids@.len() <= 8,
                forall|k: int| 0 <= k < ids@.len() ==> #[trigger] ids@[k] < 60,
                set_ids(cards) == id_set(ids@.subrange(0, i as int)),
                set_ids(cards).finite(),
                set_ids(cards).len() <= i,
            decreases ids.len() - i,
        {
            let id = ids[i];
            setInsert(&mut cards, id as usize);
            proof {
                assert(set_ids(cards) =~= id_set(ids@.subrange(0, i + 1))) by {
                    assert forall|x: nat| set_ids(cards).contains(x) implies id_set(
                        ids@.subrange(0, i + 1),
                    ).contains(x) by {
                        if x == id as nat {
                            assert(ids@.subrange(0, i + 1)[i as int] == id);
                        } else {
                            let k = choose|k: int|
                                0 <= k < i && (#[trigger] ids@.subrange(0, i as int)[k]) as nat == x;
                            assert(ids@.subrange(0, i + 1)[k] as nat == x);
                        }
                    }
                    assert forall|x: nat| id_set(ids@.subrange(0, i + 1)).contains(x) implies set_ids(
                        cards,
                    ).contains(x) by {
                        let k = choose|k: int|
                            0 <= k < i + 1 && (#[trigger] ids@.subrange(0, i + 1)[k]) as nat == x;
                        if k < i {
                            assert(ids@.subrange(0, i as int)[k] as nat == x);
                        }
                    }
                }
            }
            i = i + 1;
        }
        let h = Hand { side, cards };
        assert(ids@.subrange(0, ids@.len() as int) =~= ids@);
        assert forall|x: nat| #[trigger] h@.contains(x) implies x < 60 by {
            let k = choose|k: int| 0 <= k < ids@.len() && (#[trigger] ids@[k]) as nat == x;
        }
        Ok(h)
    }

    /// The cards held, by increasing id.
    pub fn toVec(&self) -> (r: Vec<Card>)
        requires
            self.wf(),
        ensures
            in_order(ids_of(r@), self@),
    {
        let unsorted = setItems(&self.cards);
        let ghost before = unsorted@;
        let items = sortedIds(unsorted);
        proof {
            before.to_multiset_ensures();
            items@.to_multiset_ensures();
            before.lemma_multiset_has_no_duplicates();
            items@.lemma_multiset_has_no_duplicates_conv();
            assert forall|v: usize| items@.contains(v) <==> self@.contains(v as nat) by {
                if items@.contains(v) {
                    assert(items@.to_multiset().count(v) > 0);
                }
                if before.contains(v) {
                    assert(before.to_multiset().count(v) > 0);
                }
            }
        }
                let mut r: Vec<Card> = Vec::new();
        let mut i: usize = 0;
        while i < items.len()
            invariant
                self.wf(),
                0 <= i <= items@.len(),
                items@.no_duplicates(),
                forall|v: usize| items@.contains(v) <==> self@.contains(v as nat),
                forall|a: int, b: int| 0 <= a <= b < items@.len() ==> items@[a] <= items@[b],
                r@.len() == i,
                forall|k: int| 0 <= k < i ==> (#[trigger] r@[k])@ as usize == items@[k],
            decreases items.len() - i,
        {
            let v = items[i];
            assert(items@.contains(v));
            r.push(Card::fromId(v as u8));
            i = i + 1;
        }
        let ghost ids = ids_of(r@);
        assert forall|a: int, b: int| 0 <= a < b < ids.len() implies ids[a] < ids[b] by {
            assert(items@[a] != items@[b]);
        }
        assert forall|x: nat| self@.contains(x) implies exists|k: int|
            0 <= k < ids.len() && (#[trigger] ids[k]) as nat == x by {
            assert(x < 60);
            assert(items@.contains(x as usize));
            let k = choose|k: int| 0 <= k < items@.len() && items@[k] == x as usize;
            assert(ids[k] as nat == x);
        }
        assert forall|x: nat| (exists|k: int| 0 <= k < ids.len() && (#[trigger] ids[k]) as nat == x) implies self@.contains(
            x,
        ) by {
            let k = choose|k: int| 0 <= k < ids.len() && (#[trigger] ids[k]) as nat == x;
            assert(items@.contains(items@[k]));
        }
        r
    }

    /// The cards held, as a set; it is exact where cards hash as the standard library
    /// expects of keys.
    pub fn toSet(&self) -> (r: HashSet<Card>)
        requires
            self.wf(),
        ensures
            obeys_key_model::<Card>() ==> forall|c: Card| r@.contains(c) <==> self@.contains(c@ as nat),
    {
        let cards = self.toVec();
        let mut r: HashSet<Card> = HashSet::new();
        let mut i: usize = 0;
        while i < cards.len()
            invariant
                0 <= i <= cards@.len(),
                obeys_key_model::<Card>() ==> forall|c: Card|
                    r@.contains(c) <==> exists|k: int| 0 <= k < i && cards@[k] == c,
            decreases cards.len() - i,
        {
            r.insert(cards[i]);
            i = i + 1;
        }
        assert forall|c: Card| obeys_key_model::<Card>() && r@.contains(c) implies self@.contains(c@ as nat) by {
            let k = choose|k: int| 0 <= k < cards@.len() && cards@[k] == c;
            assert(ids_of(cards@)[k] == c@);
        }
        assert forall|c: Card| obeys_key_model::<Card>() && self@.contains(c@ as nat) implies r@.contains(c) by {
            let k = choose|k: int| 0 <= k < cards@.len() && (#[trigger] ids_of(cards@)[k]) as nat == c@ as nat;
            Card::lemma_view_injective(cards@[k], c);
        }
        r
    }

    /// This hand without `card`, which it must hold.
    pub fn take(&self, card: Card) -> (r: Result<Hand, Error>)
        requires
            self.wf(),
        ensures
            viewed(r) == hand_take(self@, card),
            r matches Ok(h) ==> h.spec_side() == self.spec_side() && h.wf(),
    {
        let mut newCards = setClone(&self.cards);
        let wasPresent = setRemove(&mut newCards, card.toId() as usize);
        if wasPresent {
            let h = Hand { side: self.side, cards: newCards };
            Ok(h)
        } else {
            Err(Error::CardNotFound { card })
        }
    }

    /// This hand with `card` added, unless it is full or already holds the card.
    pub fn with(&self, card: Card) -> (r: Result<Hand, Error>)
        requires
            self.wf(),
        ensures
            viewed(r) == hand_with(self@, card),
            r matches Ok(h) ==> h.spec_side() == self.spec_side() && h.wf(),
    {
        if setCount(&self.cards) >= Self::SIZE {
            return Err(Error::HandFull);
        }
        let mut newCards = setClone(&self.cards);
        let id = card.toId();
        let ok = setInsert(&mut newCards, id as usize);
        if ok {
            Ok(Hand { side: self.side, cards: newCards })
        } else {
            Err(Error::DuplicateCard { card })
        }
    }

    pub fn side(&self) -> (r: Side)
        ensures
            r == self.spec_side(),
    {
        self.side
    }

    /// The text of the hand: its cards by increasing id, separated by commas.
    pub fn toText(&self) -> (r: String)
        requires
            self.wf(),
        ensures
            exists|ids: Seq<u8>| #[trigger] in_order(ids, self@) && r@ == hand_text(ids),
    {
        let cards = self.toVec();
        let mut parts: Vec<String> = Vec::new();
        let mut i: usize = 0;
        while i < cards.len()
            invariant
                0 <= i <= cards@.len(),
                parts@.len() == i,
                forall|k: int| 0 <= k < i ==> (#[trigger] parts@[k])@ == card_text(cards@[k]@),
            decreases cards.len() - i,
        {
            parts.push(cards[i].toText());
            i = i + 1;
        }
        proof {
            reveal_strlit(", ");
            assert(texts(parts@) =~= ids_of(cards@).map_values(|id: u8| card_text(id)));
            assert(", "@ =~= seq![',', ' ']);
        }
        joinTexts(&parts, ", ")
    }
}

} // verus!
