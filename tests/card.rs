#![allow(non_snake_case)]

use lostcities::error::Error;
use lostcities::model::{Card, Color, Side, Value};

#[test]
fn card_test_new() {
    let card = Card::new(Color::Blue, Value::Bet);
    assert_eq!(card.color(), Color::Blue);
    assert_eq!(card.value(), Value::Bet);
    assert_eq!(card, Card::fromId(12));
}

#[test]
fn test_fromStr() {
    let r3card: Card = "r3".parse().unwrap();
    assert_eq!(r3card, Card::fromId(52));
    let wbcard: Card = "wb".parse().unwrap();
    assert_eq!(wbcard, Card::fromId(24));
}

#[test]
fn card_color_and_value_follow_the_id() {
    let family = Value::family();
    for id in 0..60u8 {
        let card = Card::fromId(id);
        assert_eq!(Some(card.color()), Color::fromId(id / 12));
        assert_eq!(card.value(), family[(id % 12) as usize]);
        assert_eq!(card.toId(), id);
    }
}

#[test]
fn card_three_bets_and_one_of_each_other_value_per_color() {
    for color in Color::all() {
        for value in Value::family() {
            let count = Card::set()
                .into_iter()
                .filter(|c| c.color() == color && c.value() == value)
                .count();
            let expected = if value == Value::Bet { 3 } else { 1 };
            assert_eq!(count, expected);
        }
    }
}

#[test]
fn card_set_lists_sixty_cards_in_order() {
    let set = Card::set();
    assert_eq!(set.len(), Card::DECK_SIZE);
    assert_eq!(set[0], Card::fromId(0));
    assert_eq!(set[59], Card::fromId(59));
}

#[test]
fn card_stacking_rule() {
    assert!(Card::fromId(8).canBeStackedOn(Card::fromId(7)));
    assert!(Card::fromId(3).canBeStackedOn(Card::fromId(0)));
    assert!(!Card::fromId(0).canBeStackedOn(Card::fromId(3)));
    assert!(!Card::fromId(20).canBeStackedOn(Card::fromId(7)));
    assert!(Card::fromId(1).canBeStackedOn(Card::fromId(2)));
}

#[test]
fn card_text() {
    assert_eq!(Card::fromId(45).toText(), "G8");
    assert_eq!(Card::fromId(11).toText(), "Y0");
    assert_eq!(Card::fromId(24).toText(), "WB");
}

#[test]
fn card_parse_errors() {
    assert_eq!(
        Card::fromStr("r"),
        Err(Error::CannotParseCard {
            cause: Box::new(Error::InputTooShort)
        })
    );
    assert_eq!(
        Card::fromStr("x3"),
        Err(Error::CannotParseCard {
            cause: Box::new(Error::CannotParseColor {
                cause: Box::new(Error::UnexpectedCharacter { c: 'x' })
            })
        })
    );
    assert_eq!(
        Card::fromStr("g1"),
        Err(Error::CannotParseCard {
            cause: Box::new(Error::CannotParseValue {
                cause: Box::new(Error::UnexpectedCharacter { c: '1' })
            })
        })
    );
    assert_eq!(Card::fromStr("G0"), Ok(Card::fromId(47)));
}

#[test]
fn color_and_value_parse() {
    assert_eq!("w".parse::<Color>(), Ok(Color::White));
    assert_eq!(
        Color::fromStr(""),
        Err(Error::CannotParseColor {
            cause: Box::new(Error::InputTooShort)
        })
    );
    assert_eq!("0".parse::<Value>(), Ok(Value::N10));
    assert_eq!(
        Value::fromStr("z"),
        Err(Error::CannotParseValue {
            cause: Box::new(Error::UnexpectedCharacter { c: 'z' })
        })
    );
    assert_eq!(Color::Green.toText(), "G");
    assert_eq!(Value::N10.toText(), "0");
}

#[test]
fn value_tables() {
    assert_eq!(Value::familySize(), 12);
    assert_eq!(Value::fromId(14), Value::Bet);
    assert_eq!(Value::fromId(23), Value::N10);
    assert_eq!(Value::N2.prototypeId(), 3);
    assert_eq!(Value::Bet.prototypeId(), 0);
    assert!(Value::N5.canBeStackedOn(Value::N5));
    assert!(!Value::Bet.canBeStackedOn(Value::N2));
    assert_eq!(Color::fromId(5), None);
    assert_eq!(Side::Up.opposite(), Side::Down);
    assert_eq!(Side::Down.opposite(), Side::Up);
}
