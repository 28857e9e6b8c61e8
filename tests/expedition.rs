#![allow(non_snake_case)]

use lostcities::model::{Card, Color, Expedition};

#[test]
fn test_hasTrue() {
    let p = Expedition::new(Color::Red).with(Card::fromId(54)).unwrap();
    assert!(p.has(Card::fromId(54)))
}

#[test]
fn test_hasFalse() {
    let p = Expedition::new(Color::Red).with(Card::fromId(53)).unwrap();
    assert!(!p.has(Card::fromId(54)))
}

#[test]
fn expedition_refuses_lower_value() {
    let e = Expedition::new(Color::Yellow).with(Card::fromId(8)).unwrap();
    assert!(e.with(Card::fromId(4)).is_none());
    assert!(e.with(Card::fromId(0)).is_none());
    assert!(!e.canAccept(Card::fromId(7)));
    assert!(e.canAccept(Card::fromId(9)));
}

#[test]
fn expedition_refuses_other_color() {
    let e = Expedition::new(Color::Blue);
    assert!(e.with(Card::fromId(0)).is_none());
    assert!(e.with(Card::fromId(59)).is_none());
}

#[test]
fn expedition_empty_takes_any_value_of_its_color() {
    for id in 36..48u8 {
        assert!(Expedition::new(Color::Green).with(Card::fromId(id)).is_some());
    }
}

#[test]
fn expedition_accessors() {
    let e = Expedition::new(Color::White)
        .with(Card::fromId(24))
        .unwrap()
        .with(Card::fromId(26))
        .unwrap()
        .with(Card::fromId(30))
        .unwrap();
    assert_eq!(e.nbCards(), 3);
    assert_eq!(e.top(), Some(Card::fromId(30)));
    assert_eq!(e.nth(0), Some(Card::fromId(24)));
    assert_eq!(e.nth(1), Some(Card::fromId(26)));
    assert_eq!(e.nth(3), None);
    assert_eq!(e.color(), Color::White);
    assert_eq!(Expedition::new(Color::White).top(), None);
}
