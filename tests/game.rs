#![allow(non_snake_case)]

use lostcities::error::{BoxType, Boxable, Error};
use lostcities::model::{Board, Card, Color, Deck, DrawFrom, Game, Hand, PlayTo, Side};
use lostcities::player::PlayDecision;
use rand_xoshiro::rand_core::SeedableRng;
use rand_xoshiro::Xoshiro256StarStar;

fn testRng() -> Xoshiro256StarStar {
    Xoshiro256StarStar::seed_from_u64(41025)
}

#[test]
fn game_test_new() {
    let mut rng = testRng();
    let game = Game::new(&mut rng);
    assert_eq!(game.board(), Board::new());
    let expectedUp = Hand::literal(Side::Up, &[6, 15, 17, 32, 37, 50, 54, 56]).unwrap();
    assert_eq!(game.hand(Side::Up), expectedUp);
    let expectedDown = Hand::literal(Side::Down, &[0, 3, 16, 26, 29, 40, 42, 52]).unwrap();
    assert_eq!(game.hand(Side::Down), expectedDown);
    let expectedDeck = Deck::literal(&[
        44, 34, 2, 4, 45, 47, 1, 10, 14, 57, 9, 36, 27, 21, 20, 33, 19, 8, 43, 51, 35, 18, 31,
        30, 58, 48, 24, 7, 38, 46, 41, 39, 25, 28, 59, 55, 13, 11, 22, 23, 5, 53, 12, 49,
    ]);
    assert_eq!(game.deck(), expectedDeck);
    assert_eq!(game.turn(), Side::Up);
}

#[test]
fn test_playNormal() {
    let mut rng = testRng();
    let game = Game::new(&mut rng)
        .play(Card::fromId(15), PlayTo::Expedition, DrawFrom::Deck)
        .unwrap();
    let expectedBoard = Board::new().scoreCard(Side::Up, Card::fromId(15)).unwrap();
    assert_eq!(game.board(), expectedBoard);
    let expectedUp = Hand::literal(Side::Up, &[6, 17, 32, 37, 44, 50, 54, 56]).unwrap();
    assert_eq!(game.hand(Side::Up), expectedUp);
    let expectedDown = Hand::literal(Side::Down, &[0, 3, 16, 26, 29, 40, 42, 52]).unwrap();
    assert_eq!(game.hand(Side::Down), expectedDown);
    let expectedDeck = Deck::literal(&[
        34, 2, 4, 45, 47, 1, 10, 14, 57, 9, 36, 27, 21, 20, 33, 19, 8, 43, 51, 35, 18, 31, 30,
        58, 48, 24, 7, 38, 46, 41, 39, 25, 28, 59, 55, 13, 11, 22, 23, 5, 53, 12, 49,
    ]);
    assert_eq!(game.deck(), expectedDeck);
    assert_eq!(game.turn(), Side::Up);
}

#[test]
fn test_playToDiscard() {
    let mut rng = testRng();
    let game = Game::new(&mut rng)
        .play(Card::fromId(15), PlayTo::Discard, DrawFrom::Deck)
        .unwrap();
    let expectedBoard = Board::new().discardCard(Card::fromId(15));
    assert_eq!(game.board(), expectedBoard);
    let expectedUp = Hand::literal(Side::Up, &[6, 17, 32, 37, 44, 50, 54, 56]).unwrap();
    assert_eq!(game.hand(Side::Up), expectedUp);
    let expectedDown = Hand::literal(Side::Down, &[0, 3, 16, 26, 29, 40, 42, 52]).unwrap();
    assert_eq!(game.hand(Side::Down), expectedDown);
    let expectedDeck = Deck::literal(&[
        34, 2, 4, 45, 47, 1, 10, 14, 57, 9, 36, 27, 21, 20, 33, 19, 8, 43, 51, 35, 18, 31, 30,
        58, 48, 24, 7, 38, 46, 41, 39, 25, 28, 59, 55, 13, 11, 22, 23, 5, 53, 12, 49,
    ]);
    assert_eq!(game.deck(), expectedDeck);
    assert_eq!(game.turn(), Side::Up);
}

#[test]
fn test_playAndTakeBack() {
    let mut rng = testRng();
    let game = Game::new(&mut rng)
        .play(
            Card::fromId(15),
            PlayTo::Discard,
            DrawFrom::Discard { color: Color::Blue },
        )
        .unwrap();
    let expectedBoard = Board::new();
    assert_eq!(game.board(), expectedBoard);
    let expectedUp = Hand::literal(Side::Up, &[6, 15, 17, 32, 37, 50, 54, 56]).unwrap();
    assert_eq!(game.hand(Side::Up), expectedUp);
    let expectedDown = Hand::literal(Side::Down, &[0, 3, 16, 26, 29, 40, 42, 52]).unwrap();
    assert_eq!(game.hand(Side::Down), expectedDown);
    let expectedDeck = Deck::literal(&[
        44, 34, 2, 4, 45, 47, 1, 10, 14, 57, 9, 36, 27, 21, 20, 33, 19, 8, 43, 51, 35, 18, 31,
        30, 58, 48, 24, 7, 38, 46, 41, 39, 25, 28, 59, 55, 13, 11, 22, 23, 5, 53, 12, 49,
    ]);
    assert_eq!(game.deck(), expectedDeck);
    assert_eq!(game.turn(), Side::Up);
}

#[test]
fn test_playGameOver() {
    let game = Game::fromParts(
        Board::new(),
        Deck::literal(&[]),
        Hand::literal(Side::Up, &[6, 15, 17, 32, 37, 50, 54, 56]).unwrap(),
        Hand::literal(Side::Down, &[0, 3, 16, 26, 29, 40, 42, 52]).unwrap(),
        Side::Down,
    );
    let result = game.play(Card::fromId(29), PlayTo::Expedition, DrawFrom::Deck);
    assert_eq!(result, Err(Error::GameOver))
}

#[test]
fn test_playCannotTakeFromEmptyDiscard() {
    let mut rng = testRng();
    let result = Game::new(&mut rng).play(
        Card::fromId(15),
        PlayTo::Expedition,
        DrawFrom::Discard { color: Color::Red },
    );
    assert_eq!(result, Err(Error::DiscardPileEmpty))
}

#[test]
fn game_play_card_not_in_hand_fails() {
    let mut rng = testRng();
    let game = Game::new(&mut rng);
    let result = game.play(Card::fromId(0), PlayTo::Discard, DrawFrom::Deck);
    assert_eq!(
        result,
        Err(Error::CardNotFound {
            card: Card::fromId(0)
        })
    );
    assert!(!game.isOver());
}

#[test]
fn game_play_refused_by_expedition_fails() {
    let mut rng = testRng();
    let game = Game::new(&mut rng)
        .play(Card::fromId(17), PlayTo::Expedition, DrawFrom::Deck)
        .unwrap();
    let result = game.play(Card::fromId(15), PlayTo::Expedition, DrawFrom::Deck);
    assert_eq!(
        result,
        Err(Error::CannotAccept {
            card: Card::fromId(15)
        })
    );
}

#[test]
fn game_draw_from_exhausted_deck_on_last_card() {
    let game = Game::fromParts(
        Board::new(),
        Deck::literal(&[44]),
        Hand::literal(Side::Up, &[6, 15, 17, 32, 37, 50, 54, 56]).unwrap(),
        Hand::literal(Side::Down, &[0, 3, 16, 26, 29, 40, 42, 52]).unwrap(),
        Side::Up,
    );
    let after = game
        .play(Card::fromId(6), PlayTo::Discard, DrawFrom::Deck)
        .unwrap();
    assert!(after.isOver());
    assert_eq!(
        after.play(Card::fromId(44), PlayTo::Discard, DrawFrom::Deck),
        Err(Error::GameOver)
    );
}

#[test]
fn game_decision_applies_the_turn() {
    let mut rng = testRng();
    let decision = PlayDecision {
        card: Card::fromId(15),
        playTo: PlayTo::Expedition,
        drawFrom: DrawFrom::Deck,
    };
    let mut rng2 = testRng();
    let direct = Game::new(&mut rng2)
        .play(Card::fromId(15), PlayTo::Expedition, DrawFrom::Deck)
        .unwrap();
    let applied = decision.applyTo(Game::new(&mut rng)).unwrap();
    assert_eq!(applied, direct);
}

#[test]
fn game_errors_wrap_as_causes() {
    let e = Error::HandFull.boxed(BoxType::CannotPlay);
    assert_eq!(
        e,
        Error::CannotPlay {
            cause: Box::new(Error::HandFull)
        }
    );
    let r: Result<u8, Error> = Err(Error::InputTooShort);
    assert_eq!(
        r.boxed(BoxType::CannotParseCard),
        Err(Error::CannotParseCard {
            cause: Box::new(Error::InputTooShort)
        })
    );
    let ok: Result<u8, Error> = Ok(3);
    assert_eq!(ok.boxed(BoxType::CannotParseValue), Ok(3));
    assert_eq!(PlayTo::fromLetter('e'), Ok(PlayTo::Expedition));
    assert_eq!(DrawFrom::fromLetter('g'), Ok(DrawFrom::Discard { color: Color::Green }));
    assert_eq!(
        DrawFrom::fromLetter('x'),
        Err(Error::UnexpectedCharacter { c: 'x' })
    );
}
