#![allow(non_snake_case)]

use lostcities::error::Error;
use lostcities::model::{Card, Deck, Hand, Side};
use rand_xoshiro::rand_core::SeedableRng;
use rand_xoshiro::Xoshiro256StarStar;
use std::collections::HashSet;

fn testRng() -> Xoshiro256StarStar {
    Xoshiro256StarStar::seed_from_u64(41025)
}

#[test]
fn hand_test_new() {
    let mut rng = testRng();
    let d = Deck::new(&mut rng);
    let (hand, newDeck) = Hand::new(Side::Up, &d).unwrap();
    let expected = HashSet::from([
        Card::fromId(6),
        Card::fromId(17),
        Card::fromId(15),
        Card::fromId(50),
        Card::fromId(56),
        Card::fromId(37),
        Card::fromId(54),
        Card::fromId(32),
    ]);
    assert_eq!(hand.toSet(), expected);
    assert_eq!(newDeck.remainingCards(), (Card::DECK_SIZE - Hand::SIZE));
    assert_eq!(hand.toText(), "Y5, B2, B4, W7, GB, RB, R5, R7");
}

#[test]
fn test_take() {
    let mut rng = testRng();
    let d = Deck::new(&mut rng);
    let (hand, _) = Hand::new(Side::Up, &d).unwrap();
    let hand2 = hand.take(Card::fromId(50)).unwrap();
    assert_eq!(
        hand2.take(Card::fromId(50)),
        Err(Error::CardNotFound {
            card: Card::fromId(50)
        })
    );
    assert_eq!(
        hand2.take(Card::fromId(20)),
        Err(Error::CardNotFound {
            card: Card::fromId(20)
        })
    );
}

#[test]
fn test_add() {
    let mut rng = testRng();
    let d = Deck::new(&mut rng);
    let (hand, _) = Hand::new(Side::Up, &d).unwrap();
    assert_eq!(hand.with(Card::fromId(0)), Err(Error::HandFull));
    let hand2 = hand.take(Card::fromId(50)).unwrap();
    assert_eq!(
        hand2.with(Card::fromId(15)),
        Err(Error::DuplicateCard {
            card: Card::fromId(15)
        })
    );
    assert_eq!(hand2.with(Card::fromId(50)), Ok(hand));
}

#[test]
fn hand_ninth_card_is_refused() {
    let mut hand = Hand::literal(Side::Down, &[]).unwrap();
    for id in [3u8, 9, 14, 22, 31, 40, 48, 59] {
        hand = hand.with(Card::fromId(id)).unwrap();
    }
    assert_eq!(hand.with(Card::fromId(1)), Err(Error::HandFull));
}

#[test]
fn hand_duplicate_refused_when_not_full() {
    let hand = Hand::literal(Side::Up, &[4, 5]).unwrap();
    assert_eq!(
        hand.with(Card::fromId(4)),
        Err(Error::DuplicateCard {
            card: Card::fromId(4)
        })
    );
}

#[test]
fn hand_take_absent_leaves_hand_unchanged() {
    let hand = Hand::literal(Side::Up, &[4, 5]).unwrap();
    let before = hand.clone();
    assert_eq!(
        hand.take(Card::fromId(6)),
        Err(Error::CardNotFound {
            card: Card::fromId(6)
        })
    );
    assert_eq!(hand, before);
    assert_eq!(hand.toVec(), vec![Card::fromId(4), Card::fromId(5)]);
}

#[test]
fn hand_literal_refuses_more_than_eight() {
    let result = Hand::literal(Side::Up, &[0, 1, 2, 3, 4, 5, 6, 7, 8]);
    assert_eq!(result, Err(Error::HandFull));
}

#[test]
fn hand_new_needs_eight_cards() {
    let d = Deck::literal(&[1, 2, 3, 4, 5, 6, 7]);
    assert!(Hand::new(Side::Up, &d).is_none());
    let d8 = Deck::literal(&[10, 2, 3, 4, 5, 6, 7, 8, 9]);
    let (hand, rest) = Hand::new(Side::Down, &d8).unwrap();
    assert_eq!(rest, Deck::literal(&[9]));
    assert_eq!(hand.side(), Side::Down);
    assert_eq!(hand.toText(), "YB, Y2, Y3, Y4, Y5, Y6, Y7, Y9");
}
