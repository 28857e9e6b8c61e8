#![allow(non_snake_case)]

use lostcities::model::{Card, Deck};
use rand_xoshiro::rand_core::SeedableRng;
use rand_xoshiro::Xoshiro256StarStar;

fn testRng() -> Xoshiro256StarStar {
    Xoshiro256StarStar::seed_from_u64(41025)
}

#[test]
fn deck_test_takeOk() {
    let mut rng = testRng();
    let d = Deck::new(&mut rng);
    let (card, _) = d.take().unwrap();
    assert_eq!(card, Card::fromId(50));
}

#[test]
fn test_takeToEmpty() {
    let mut rng = testRng();
    let mut deck = Deck::new(&mut rng);
    for n in 0..Card::DECK_SIZE {
        assert_eq!(deck.remainingCards(), (Card::DECK_SIZE - n));
        let (_, newDeck) = deck.take().unwrap();
        deck = newDeck;
    }
    let result = deck.take();
    assert_eq!(result, None);
}

#[test]
fn deck_literal_draws_from_the_first_id() {
    let d = Deck::literal(&[7, 3, 9]);
    assert_eq!(d.remainingCards(), 3);
    let (card, rest) = d.take().unwrap();
    assert_eq!(card, Card::fromId(7));
    assert_eq!(rest, Deck::literal(&[3, 9]));
    assert!(!rest.isEmpty());
    assert!(Deck::literal(&[]).isEmpty());
}

#[test]
fn deck_new_holds_each_card_once() {
    let mut rng = testRng();
    let mut deck = Deck::new(&mut rng);
    let mut seen = [false; 60];
    while let Some((card, rest)) = deck.take() {
        assert!(!seen[card.toId() as usize]);
        seen[card.toId() as usize] = true;
        deck = rest;
    }
    assert!(seen.iter().all(|s| *s));
}
