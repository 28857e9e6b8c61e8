use super::{
    after_draw, after_play, empty_board, color_at, color_of, column_accepts, discard_spec, hand_take,
    hand_with, play_turn, take_spec, value_family, value_of, BoardView, Card, Color, DrawFrom,
    Deck, GameView, PlayTo, Side, Value,
};
use crate::error::Error;
use vstd::prelude::*;

verus! {

broadcast use {Card::lemma_with_id, Card::lemma_with_own_id};

/// The ids of the cards of color `color` and value `value`.
pub open spec fn ids_with(color: Color, value: Value) -> Set<u8> {
    Set::new(|id: u8| id < 60 && color_of(id) == color && value_of(id) == value)
}

/// A card's color is its id divided by twelve, its value the family entry at its id
/// modulo twelve; each color has three bets and one card of each other value.
pub proof fn lemma_card_identity(color: Color, value: Value)
    ensures
        forall|id: u8| id < 60 ==> (#[trigger] color_of(id)).index() == id / 12,
        forall|id: u8| id < 60 ==> #[trigger] value_of(id) == value_family()[(id % 12) as int],
        ids_with(color, value).len() == if value is Bet {
            3nat
        } else {
            1nat
        },
{
    let c = 12 * color.index();
    assert(0 <= c <= 48);
    let base = c as u8;
    if value is Bet {
        assert(ids_with(color, value) =~= set![base, (base + 1) as u8, (base + 2) as u8]) by {
            assert forall|id: u8| ids_with(color, value).contains(id) implies id == base || id
                == base + 1 || id == base + 2 by {
                assert(id / 12 == color.index());
                assert(id % 12 < 3);
            }
        }
        assert(set![base, (base + 1) as u8, (base + 2) as u8].len() == 3) by {
            assert(set![base].len() == 1);
            assert(!set![base].contains((base + 1) as u8));
            assert(!set![base, (base + 1) as u8].contains((base + 2) as u8));
        }
    } else {
        let id0 = (base + value.prototype()) as u8;
        assert(ids_with(color, value) =~= set![id0]) by {
            assert forall|id: u8| ids_with(color, value).contains(id) implies id == id0 by {
                assert(id / 12 == color.index());
                assert(id % 12 == value.prototype());
            }
            assert(id0 / 12 == color.index());
            assert(id0 % 12 == value.prototype());
        }
    }
}

/// An expedition refuses a card of another color, or one lower than its top card; an
/// empty expedition takes any card of its color.
pub proof fn lemma_expedition_accepts(cards: Seq<u8>, color: Color, card: u8)
    ensures
        color_of(card) != color ==> !column_accepts(cards, color, card),
        cards.len() > 0 && value_of(card).rank() < value_of(cards.last()).rank()
            ==> !column_accepts(cards, color, card),
        cards.len() == 0 && color_of(card) == color ==> column_accepts(cards, color, card),
{
}

/// Adds the cards one by one to a hand, stopping at the first refusal.
pub open spec fn with_all(h: Set<nat>, cards: Seq<Card>) -> Result<Set<nat>, Error>
    decreases cards.len(),
{
    if cards.len() == 0 {
        Ok(h)
    } else {
        match with_all(h, cards.drop_last()) {
            Err(e) => Err(e),
            Ok(h1) => hand_with(h1, cards.last()),
        }
    }
}

/// Each card added to a hand makes it one larger, so after eight cards added to an empty
/// hand a ninth is refused as the hand is full.
pub proof fn lemma_hand_fills(h: Set<nat>, cards: Seq<Card>, extra: Card)
    requires
        h.finite(),
    ensures
        with_all(h, cards) matches Ok(h2) ==> h2.finite() && h2.len() == h.len() + cards.len(),
        h.len() == 0 && cards.len() == 8 && with_all(h, cards) is Ok ==> hand_with(
            with_all(h, cards).unwrap(),
            extra,
        ) == Err::<Set<nat>, Error>(Error::HandFull),
    decreases cards.len(),
{
    if cards.len() > 0 {
        lemma_hand_fills(h, cards.drop_last(), extra);
    }
}

/// Adding a card that a hand holds fails as a duplicate, unless the hand is full; taking
/// a card that it does not hold fails and leaves it as it was.
pub proof fn lemma_hand_refusals(h: Set<nat>, card: Card)
    ensures
        h.len() < 8 && h.contains(card@ as nat) ==> hand_with(h, card) == Err::<Set<nat>, Error>(
            Error::DuplicateCard { card },
        ),
        !h.contains(card@ as nat) ==> hand_take(h, card) == Err::<Set<nat>, Error>(
            Error::CardNotFound { card },
        ),
{
}

/// What is left of a deck holding `cards` after `k` draws, each of which takes the top
/// card off as `Deck::take` does.
pub open spec fn after_draws(cards: Seq<u8>, k: nat) -> Seq<u8>
    decreases k,
{
    if k == 0 {
        cards
    } else {
        after_draws(cards, (k - 1) as nat).drop_first()
    }
}

/// Drawing from a full deck: after `k` draws the deck holds `60 - k` cards, so each of the
/// first sixty draws finds a card, one fewer each time, and the one after them finds none.
pub proof fn lemma_deck_draws(deck: Deck, k: nat)
    requires
        deck@.len() == 60,
        k <= 60,
    ensures
        after_draws(deck@, k) == deck@.subrange(k as int, 60),
        after_draws(deck@, k).len() == 60 - k,
        k < 60 ==> after_draws(deck@, k).len() > 0,
        k == 60 ==> after_draws(deck@, k).len() == 0,
    decreases k,
{
    if k > 0 {
        lemma_deck_draws(deck, (k - 1) as nat);
        assert(deck@.subrange(k - 1, 60).drop_first() =~= deck@.subrange(k as int, 60));
    } else {
        assert(deck@.subrange(0, 60) =~= deck@);
    }
}

/// Every pile of an empty discard pile is empty, and a card put on a pile is then its top.
pub proof fn lemma_discard_top(piles: Seq<Seq<u8>>, card: u8)
    requires
        piles.len() == 5,
    ensures
        forall|color: Color|
            empty_board().discard[#[trigger] color.index()].len() == 0,
        ({
            let ci = color_of(card).index();
            piles.update(ci, piles[ci].push(card))[ci].last() == card
        }),
{
    assert forall|color: Color|
        empty_board().discard[#[trigger] color.index()].len() == 0 by {
        color.lemma_index();
    }
    color_of(card).lemma_index();
}

/// Discarding a card and then taking back the top card of its color gives back the board
/// as it was.
pub proof fn lemma_discard_then_take(b: BoardView, card: Card)
    requires
        b.discard.len() == 5,
    ensures
        take_spec(discard_spec(b, card@), card) == Ok::<BoardView, Error>(b),
{
    let ci = color_of(card@).index();
    color_of(card@).lemma_index();
    let d = discard_spec(b, card@);
    assert(d.discard[ci].drop_last() =~= b.discard[ci]);
    assert(d.discard.update(ci, d.discard[ci].drop_last()) =~= b.discard);
}

/// Playing a card from the hand to the discard pile and drawing it straight back from
/// the pile of its color leaves the game as it was.
pub proof fn lemma_discard_and_draw_back(g: GameView, card: Card)
    requires
        g.deck.len() > 0,
        g.hand(g.turn).contains(card@ as nat),
        g.hand(g.turn).finite(),
        g.hand(g.turn).len() <= 8,
        g.board.discard.len() == 5,
    ensures
        play_turn(g, card, PlayTo::Discard, DrawFrom::Discard { color: color_of(card@) }) == Ok::<
            GameView,
            Error,
        >(g),
{
    let h = g.hand(g.turn);
    let ci = color_of(card@).index();
    color_of(card@).lemma_index();
    let g1 = after_play(g, card, PlayTo::Discard).unwrap();
    assert(g1.hand(g.turn) == h.remove(card@ as nat));
    assert(g1.board == discard_spec(g.board, card@));
    assert(g1.board.discard[ci].last() == card@);
    assert(h.remove(card@ as nat).len() == h.len() - 1);
    assert(h.remove(card@ as nat).insert(card@ as nat) =~= h);
    assert(g1.board.discard[ci].drop_last() =~= g.board.discard[ci]);
    assert(g1.board.discard.update(ci, g1.board.discard[ci].drop_last()) =~= g.board.discard);
    let g2 = after_draw(g1, DrawFrom::Discard { color: color_of(card@) }).unwrap();
    assert(g2.board == g.board);
    assert(g2 == g) by {
        match g.turn {
            Side::Up => {},
            Side::Down => {},
        }
    }
}

} // verus!
