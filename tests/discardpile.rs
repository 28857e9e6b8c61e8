#![allow(non_snake_case)]

use lostcities::error::Error;
use lostcities::model::{Card, Color, DiscardPile};

#[test]
fn test_displayEmpty() {
    let p = DiscardPile::empty();
    assert_eq!(p.toText(), " |  |  |  | ")
}

#[test]
fn test_displayOneCard() {
    let p = DiscardPile::empty().with(Card::fromId(32));
    assert_eq!(p.toText(), " |  | W7 |  | ")
}

#[test]
fn test_displayTwoCards() {
    let p = DiscardPile::empty()
        .with(Card::fromId(0))
        .with(Card::fromId(1));
    assert_eq!(p.toText(), "YB,YB |  |  |  | ")
}

#[test]
fn test_topEmpty() {
    let p = DiscardPile::empty();
    assert_eq!(p.top(Color::Red), Err(Error::DiscardPileEmpty))
}

#[test]
fn test_takeEmpty() {
    let p = DiscardPile::empty();
    assert_eq!(
        p.take(Card::fromId(39)),
        Err(Error::CardNotFound {
            card: Card::fromId(39)
        })
    )
}

#[test]
fn discardpile_test_takeOk() {
    let p = DiscardPile::empty().with(Card::fromId(0));
    let expected = Ok(DiscardPile::empty());
    assert_eq!(p.take(Card::fromId(0)), expected)
}

#[test]
fn discard_empty_has_no_top_for_any_color() {
    let p = DiscardPile::empty();
    for color in Color::all() {
        assert_eq!(p.top(color), Err(Error::DiscardPileEmpty));
    }
}

#[test]
fn discard_with_then_top_gives_the_card() {
    for id in [0u8, 17, 33, 47, 59] {
        let card = Card::fromId(id);
        let p = DiscardPile::empty().with(card);
        assert_eq!(p.top(card.color()), Ok(card));
    }
}

#[test]
fn discard_top_is_the_last_card_put_on() {
    let p = DiscardPile::empty()
        .with(Card::fromId(50))
        .with(Card::fromId(3))
        .with(Card::fromId(55));
    assert_eq!(p.top(Color::Red), Ok(Card::fromId(55)));
    assert_eq!(p.top(Color::Yellow), Ok(Card::fromId(3)));
    assert_eq!(p.toText(), "Y2 |  |  |  | RB,R6");
}
