#![allow(non_snake_case)]

use lostcities::model::{Board, Card, Color, PlayTo, Side};

#[test]
fn test_boardDisplayEmpty() {
    let b = Board::new();
    assert_eq!(
        b.toText(),
        "Up:\n   |    |    |    |   \nDiscard:\n |  |  |  | \nDown:\n   |    |    |    |   "
    )
}

#[test]
fn test_boardDisplayOneCard() {
    let b = Board::new().scoreCard(Side::Up, Card::fromId(45)).unwrap();
    assert_eq!(
        b.toText(),
        "Up:\n   |    |    | G8 |   \nDiscard:\n |  |  |  | \nDown:\n   |    |    |    |   "
    )
}

#[test]
fn test_boardDisplayTwoCardDown() {
    let b = Board::new()
        .scoreCard(Side::Down, Card::fromId(20))
        .unwrap()
        .scoreCard(Side::Down, Card::fromId(21))
        .unwrap();
    assert_eq!(
        b.toText(),
        "Up:\n   |    |    |    |   \nDiscard:\n |  |  |  | \nDown:\n   | B7 |    |    |   \n   | B8 |    |    |   "
    )
}

#[test]
fn test_boardDisplayTwoCardUp() {
    let b = Board::new()
        .scoreCard(Side::Up, Card::fromId(56))
        .unwrap()
        .scoreCard(Side::Up, Card::fromId(57))
        .unwrap();
    assert_eq!(
        b.toText(),
        "Up:\n   |    |    |    | R8\n   |    |    |    | R7\nDiscard:\n |  |  |  | \nDown:\n   |    |    |    |   "
    )
}

#[test]
fn test_boardScoreCard() {
    let result = Board::new().scoreCard(Side::Up, Card::fromId(5));
    assert_eq!(
        result.unwrap().half(Side::Up).exp(Color::Yellow).top(),
        Some(Card::fromId(5))
    )
}

#[test]
fn test_discardOk() {
    let b = Board::new().discardCard(Card::fromId(40));
    assert_eq!(
        b.toText(),
        "Up:\n   |    |    |    |   \nDiscard:\n |  |  | G3 | \nDown:\n   |    |    |    |   "
    )
}

#[test]
fn board_discard_then_take_gives_back_the_board() {
    let b = Board::new().scoreCard(Side::Down, Card::fromId(30)).unwrap();
    let expected = Board::new().scoreCard(Side::Down, Card::fromId(30)).unwrap();
    let back = b.discardCard(Card::fromId(17)).take(Card::fromId(17)).unwrap();
    assert_eq!(back, expected);
}

#[test]
fn board_take_pops_whatever_is_on_top_of_the_color() {
    let b = Board::new()
        .discardCard(Card::fromId(12))
        .discardCard(Card::fromId(20));
    let taken = b.take(Card::fromId(13)).unwrap();
    assert_eq!(taken, Board::new().discardCard(Card::fromId(12)));
}

#[test]
fn board_take_from_empty_color_fails() {
    let result = Board::new().take(Card::fromId(39));
    assert_eq!(
        result,
        Err(lostcities::error::Error::CardNotFound {
            card: Card::fromId(39)
        })
    );
}

#[test]
fn board_play_routes_to_discard_or_expedition() {
    let discarded = Board::new()
        .play(Side::Up, Card::fromId(40), PlayTo::Discard)
        .unwrap();
    assert_eq!(discarded, Board::new().discardCard(Card::fromId(40)));
    let scored = Board::new()
        .play(Side::Down, Card::fromId(40), PlayTo::Expedition)
        .unwrap();
    assert_eq!(
        scored,
        Board::new().scoreCard(Side::Down, Card::fromId(40)).unwrap()
    );
}

#[test]
fn board_score_refused_card_fails_cannot_accept() {
    let b = Board::new().scoreCard(Side::Up, Card::fromId(9)).unwrap();
    let result = b.scoreCard(Side::Up, Card::fromId(4));
    assert_eq!(
        result,
        Err(lostcities::error::Error::CannotAccept {
            card: Card::fromId(4)
        })
    );
}

#[test]
fn board_discard_pile_accessor() {
    let b = Board::new().discardCard(Card::fromId(59));
    assert_eq!(b.discardPile().top(Color::Red), Ok(Card::fromId(59)));
}
