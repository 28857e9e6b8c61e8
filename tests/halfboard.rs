#![allow(non_snake_case)]

use lostcities::error::Error;
use lostcities::model::{Card, Color, Halfboard, Side};

#[test]
fn test_canAccept() {
    let h = Halfboard::new(Side::Up).with(Card::fromId(7)).unwrap();
    assert!(h.canAccept(Card::fromId(8)));
    assert!(!h.canAccept(Card::fromId(0)));
}

#[test]
fn halfboard_with_touches_only_its_color() {
    let h = Halfboard::new(Side::Down).with(Card::fromId(40)).unwrap();
    assert_eq!(h.exp(Color::Green).top(), Some(Card::fromId(40)));
    assert_eq!(h.exp(Color::Red).nbCards(), 0);
    assert_eq!(h.side(), Side::Down);
    assert_eq!(
        h.with(Card::fromId(37)),
        Err(Error::CannotAccept {
            card: Card::fromId(37)
        })
    );
}

#[test]
fn halfboard_text_by_side() {
    let down = Halfboard::new(Side::Down)
        .with(Card::fromId(0))
        .unwrap()
        .with(Card::fromId(5))
        .unwrap();
    assert_eq!(down.toText(), "YB |    |    |    |   \nY4 |    |    |    |   ");
    let up = Halfboard::new(Side::Up)
        .with(Card::fromId(0))
        .unwrap()
        .with(Card::fromId(5))
        .unwrap();
    assert_eq!(up.toText(), "Y4 |    |    |    |   \nYB |    |    |    |   ");
}
