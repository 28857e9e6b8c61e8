use super::{
    after_draw, after_play, color_of, empty_board, id_set, is_shuffle, play_turn, BoardView,
    Card, DrawFrom, GameView, PlayTo, Side,
};
use crate::error::Error;
use vstd::prelude::*;

verus! {

broadcast use {Card::lemma_with_id, Card::lemma_with_own_id};

/// How many times `id` occurs in `s`.
pub open spec fn occurrences(s: Seq<u8>, id: u8) -> nat {
    s.to_multiset().count(id)
}

/// How many times `id` occurs in five columns or piles.
pub open spec fn occurrences_in(cols: Seq<Seq<u8>>, id: u8) -> nat {
    occurrences(cols[0], id) + occurrences(cols[1], id) + occurrences(cols[2], id) + occurrences(
        cols[3],
        id,
    ) + occurrences(cols[4], id)
}

/// Whether a hand holds `id`, as a count.
pub open spec fn held(h: Set<nat>, id: u8) -> nat {
    if h.contains(id as nat) {
        1
    } else {
        0
    }
}

/// How many times the card `id` is found in the game: in the deck, in a hand, in an
/// expedition or on a discard pile.
pub open spec fn copies(g: GameView, id: u8) -> nat {
    occurrences(g.deck, id) + held(g.up, id) + held(g.down, id) + occurrences_in(g.board.up, id)
        + occurrences_in(g.board.down, id) + occurrences_in(g.board.discard, id)
}

/// Each of the sixty cards is found exactly once in the game, nothing else is found in
/// it, and each hand holds at most eight cards.
pub open spec fn in_circulation(g: GameView) -> bool {
    &&& forall|id: u8| #[trigger] copies(g, id) == if id < 60 {
        1nat
    } else {
        0nat
    }
    &&& forall|x: nat| #[trigger] g.up.contains(x) ==> x < 60
    &&& forall|x: nat| #[trigger] g.down.contains(x) ==> x < 60
    &&& g.up.finite() && g.up.len() <= 8
    &&& g.down.finite() && g.down.len() <= 8
    &&& g.board.up.len() == 5 && g.board.down.len() == 5 && g.board.discard.len() == 5
}

proof fn lemma_occurrences_push(s: Seq<u8>, x: u8, id: u8)
    ensures
        occurrences(s.push(x), id) == occurrences(s, id) + if x == id {
            1nat
        } else {
            0nat
        },
{
    s.to_multiset_ensures();
}

proof fn lemma_occurrences_last(s: Seq<u8>, id: u8)
    requires
        s.len() > 0,
    ensures
        occurrences(s, id) == occurrences(s.drop_last(), id) + if s.last() == id {
            1nat
        } else {
            0nat
        },
{
    assert(s.drop_last().push(s.last()) =~= s);
    lemma_occurrences_push(s.drop_last(), s.last(), id);
}

proof fn lemma_occurrences_first(s: Seq<u8>, id: u8)
    requires
        s.len() > 0,
    ensures
        occurrences(s, id) == occurrences(s.drop_first(), id) + if s[0] == id {
            1nat
        } else {
            0nat
        },
{
    s.to_multiset_ensures();
    assert(s.remove(0) =~= s.drop_first());
}

proof fn lemma_occurrences_update(cols: Seq<Seq<u8>>, ci: int, new: Seq<u8>, id: u8)
    requires
        cols.len() == 5,
        0 <= ci < 5,
    ensures
        occurrences_in(cols.update(ci, new), id) + occurrences(cols[ci], id) == occurrences_in(
            cols,
            id,
        ) + occurrences(new, id),
{
    let u = cols.update(ci, new);
    assert(u[0] == if ci == 0 { new } else { cols[0] });
    assert(u[1] == if ci == 1 { new } else { cols[1] });
    assert(u[2] == if ci == 2 { new } else { cols[2] });
    assert(u[3] == if ci == 3 { new } else { cols[3] });
    assert(u[4] == if ci == 4 { new } else { cols[4] });
}

/// A card put on column `ci` is found there once more, and nothing else changes.
proof fn lemma_occurrences_put(cols: Seq<Seq<u8>>, ci: int, x: u8, id: u8)
    requires
        cols.len() == 5,
        0 <= ci < 5,
    ensures
        occurrences_in(cols.update(ci, cols[ci].push(x)), id) == occurrences_in(cols, id) + if x
            == id {
            1nat
        } else {
            0nat
        },
{
    lemma_occurrences_update(cols, ci, cols[ci].push(x), id);
    lemma_occurrences_push(cols[ci], x, id);
}

/// The top card of column `ci` taken off is found there once less.
proof fn lemma_occurrences_pop(cols: Seq<Seq<u8>>, ci: int, id: u8)
    requires
        cols.len() == 5,
        0 <= ci < 5,
        cols[ci].len() > 0,
    ensures
        occurrences_in(cols.update(ci, cols[ci].drop_last()), id) + (if cols[ci].last() == id {
            1nat
        } else {
            0nat
        }) == occurrences_in(cols, id),
{
    lemma_occurrences_update(cols, ci, cols[ci].drop_last(), id);
    lemma_occurrences_last(cols[ci], id);
}

proof fn lemma_occurrences_empty(id: u8)
    ensures
        occurrences(Seq::<u8>::empty(), id) == 0,
        occurrences_in(Seq::new(5, |i: int| Seq::<u8>::empty()), id) == 0,
{
    let e = Seq::<u8>::empty();
    e.to_multiset_ensures();
    assert(!e.contains(id));
    let cols = Seq::new(5, |i: int| Seq::<u8>::empty());
    assert(cols[0] == e && cols[1] == e && cols[2] == e && cols[3] == e && cols[4] == e);
}

/// Playing a card moves it from the hand to the board: every card is found as often
/// as before, and the hand has room for the card drawn next.
proof fn lemma_play_keeps_cards(g: GameView, card: Card, playTo: PlayTo)
    requires
        in_circulation(g),
        after_play(g, card, playTo) is Ok,
    ensures
        in_circulation(after_play(g, card, playTo).unwrap()),
        after_play(g, card, playTo).unwrap().hand(g.turn).len() < 8,
        after_play(g, card, playTo).unwrap().deck == g.deck,
        after_play(g, card, playTo).unwrap().turn == g.turn,
{
    let g1 = after_play(g, card, playTo).unwrap();
    let ci = color_of(card@).index();
    color_of(card@).lemma_index();
    assert forall|id: u8| #[trigger] copies(g1, id) == copies(g, id) by {
        match playTo {
            PlayTo::Discard => lemma_occurrences_put(g.board.discard, ci, card@, id),
            PlayTo::Expedition => match g.turn {
                Side::Up => lemma_occurrences_put(g.board.up, ci, card@, id),
                Side::Down => lemma_occurrences_put(g.board.down, ci, card@, id),
            },
        }
    }
    assert(g.hand(g.turn).len() <= 8);
}

/// Drawing moves a card from a discard pile to the hand: it was in no hand, and every
/// card is found as often as before.
proof fn lemma_draw_discard_keeps_cards(g: GameView, color: super::Color)
    requires
        in_circulation(g),
        g.hand(g.turn).len() < 8,
    ensures
        after_draw(g, DrawFrom::Discard { color }) != Err::<GameView, Error>(Error::HandFull),
        !(after_draw(g, DrawFrom::Discard { color }) matches Err(Error::DuplicateCard { .. })),
        after_draw(g, DrawFrom::Discard { color }) matches Ok(g2) ==> in_circulation(g2),
{
    color.lemma_index();
    let ci = color.index();
    let pile = g.board.discard[ci];
    if pile.len() > 0 {
        let top = pile.last();
        lemma_occurrences_pop(g.board.discard, ci, top);
        assert(copies(g, top) >= 1);
        assert(top < 60);
        assert(!g.hand(g.turn).contains(top as nat));
        let g2 = after_draw(g, DrawFrom::Discard { color }).unwrap();
        assert forall|id: u8| #[trigger] copies(g2, id) == copies(g, id) by {
            lemma_occurrences_pop(g.board.discard, ci, id);
        }
    }
}

/// Drawing moves the top card of the deck to the hand: it was in no hand, and every card
/// is found as often as before.
proof fn lemma_draw_deck_keeps_cards(g: GameView)
    requires
        in_circulation(g),
        g.hand(g.turn).len() < 8,
    ensures
        after_draw(g, DrawFrom::Deck) != Err::<GameView, Error>(Error::HandFull),
        !(after_draw(g, DrawFrom::Deck) matches Err(Error::DuplicateCard { .. })),
        after_draw(g, DrawFrom::Deck) matches Ok(g2) ==> in_circulation(g2),
{
    if g.deck.len() > 0 {
        let top = g.deck[0];
        lemma_occurrences_first(g.deck, top);
        assert(copies(g, top) >= 1);
        assert(top < 60);
        assert(!g.hand(g.turn).contains(top as nat));
        let g2 = after_draw(g, DrawFrom::Deck).unwrap();
        assert forall|id: u8| #[trigger] copies(g2, id) == copies(g, id) by {
            lemma_occurrences_first(g.deck, id);
        }
    }
}

/// While each card is found once in the game, a turn never fails because the hand is
/// full or already holds the card drawn, and after the turn each card is still found once.
pub proof fn lemma_turn_keeps_cards(g: GameView, card: Card, playTo: PlayTo, drawFrom: DrawFrom)
    requires
        in_circulation(g),
    ensures
        play_turn(g, card, playTo, drawFrom) != Err::<GameView, Error>(Error::HandFull),
        !(play_turn(g, card, playTo, drawFrom) matches Err(Error::DuplicateCard { .. })),
        play_turn(g, card, playTo, drawFrom) matches Ok(g2) ==> in_circulation(g2),
{
    if g.deck.len() > 0 && after_play(g, card, playTo) is Ok {
        lemma_play_keeps_cards(g, card, playTo);
        let g1 = after_play(g, card, playTo).unwrap();
        match drawFrom {
            DrawFrom::Discard { color } => lemma_draw_discard_keeps_cards(g1, color),
            DrawFrom::Deck => lemma_draw_deck_keeps_cards(g1),
        }
    }
}

proof fn lemma_id_set_size(ids: Seq<u8>)
    ensures
        id_set(ids).finite(),
        id_set(ids).len() <= ids.len(),
{
    broadcast use vstd::seq_lib::seq_to_set_is_finite;

    let nats = ids.map_values(|v: u8| v as nat);
    assert(id_set(ids) =~= nats.to_set()) by {
        assert forall|x: nat| id_set(ids).contains(x) implies nats.to_set().contains(x) by {
            let k = choose|k: int| 0 <= k < ids.len() && (#[trigger] ids[k]) as nat == x;
            assert(nats[k] == x);
        }
        assert forall|x: nat| nats.to_set().contains(x) implies id_set(ids).contains(x) by {
            let k = choose|k: int| 0 <= k < nats.len() && nats[k] == x;
            assert(ids[k] as nat == x);
        }
    }
    nats.lemma_cardinality_of_set();
}

/// A game dealt from a shuffled deck has each card exactly once.
pub proof fn lemma_deal_in_circulation(order: Seq<u8>, turn: Side)
    requires
        is_shuffle(order),
    ensures
        in_circulation(
            GameView {
                board: empty_board(),
                deck: order.subrange(16, 60),
                up: id_set(order.subrange(0, 8)),
                down: id_set(order.subrange(8, 16)),
                turn,
            },
        ),
{
    let g = GameView {
        board: empty_board(),
        deck: order.subrange(16, 60),
        up: id_set(order.subrange(0, 8)),
        down: id_set(order.subrange(8, 16)),
        turn,
    };
    let deck = order.subrange(16, 60);
    deck.to_multiset_ensures();
    assert(deck.no_duplicates());
    deck.lemma_multiset_has_no_duplicates();
    assert forall|id: u8| #[trigger] copies(g, id) == if id < 60 {
        1nat
    } else {
        0nat
    } by {
        lemma_occurrences_empty(id);
        if id < 60 {
            assert(order.contains(id));
            let k = choose|k: int| 0 <= k < 60 && order[k] == id;
            if k < 8 {
                assert(order.subrange(0, 8)[k] == id);
                assert(!g.down.contains(id as nat));
                assert(!deck.contains(id));
            } else if k < 16 {
                assert(order.subrange(8, 16)[k - 8] == id);
                assert(!g.up.contains(id as nat));
                assert(!deck.contains(id));
            } else {
                assert(deck[k - 16] == id);
                assert(!g.up.contains(id as nat));
                assert(!g.down.contains(id as nat));
            }
        } else {
            assert(!g.up.contains(id as nat));
            assert(!g.down.contains(id as nat));
            assert(!deck.contains(id));
        }
    }
    lemma_id_set_size(order.subrange(0, 8));
    lemma_id_set_size(order.subrange(8, 16));
}

} // verus!
