use casino::cards::{deck, Card, Shoe, Suit, Value};
use casino::config::BlackjackConfig;

#[test]
fn a_deck_holds_each_card_exactly_once() {
    let cards = deck();
    assert_eq!(cards.len(), 52);
    let suits = [Suit::Clubs, Suit::Diamonds, Suit::Hearts, Suit::Spades];
    let values = [
        Value::Ace,
        Value::Two,
        Value::Three,
        Value::Four,
        Value::Five,
        Value::Six,
        Value::Seven,
        Value::Eight,
        Value::Nine,
        Value::Ten,
        Value::Jack,
        Value::Queen,
        Value::King,
    ];
    for suit in suits.iter() {
        for value in values.iter() {
            let occurrences = cards
                .iter()
                .filter(|c| c.suit == *suit && c.value == *value)
                .count();
            assert_eq!(occurrences, 1);
        }
    }
}

#[test]
fn a_fresh_shoe_holds_whole_decks() {
    let shoe = Shoe::new(4, 52);
    assert_eq!(shoe.cards.len(), 208);
    let shoe = Shoe::new(1, 10);
    assert_eq!(shoe.cards.len(), 52);
}

#[test]
fn default_rules_reshuffle_at_a_quarter_left() {
    let config = BlackjackConfig::default_rules();
    assert_eq!(config.shoe_count, 4);
    assert_eq!(config.shuffle_shoe_threshold_count(), 52);
}

#[test]
fn shoe_reshuffles_before_falling_below_threshold() {
    // four decks at three-quarters penetration: once fewer than 52 cards
    // remain, the next draw comes from a freshly rebuilt 208-card shoe
    let mut shoe = Shoe::new(4, 52);
    for _ in 0..157 {
        shoe.draw_card();
    }
    assert_eq!(shoe.cards.len(), 51);
    shoe.draw_card();
    assert_eq!(shoe.cards.len(), 207);
}

#[test]
fn a_rigged_shoe_deals_from_the_top() {
    let rigged = vec![
        Card { suit: Suit::Clubs, value: Value::Two },
        Card { suit: Suit::Clubs, value: Value::Five },
        Card { suit: Suit::Clubs, value: Value::King },
    ];
    let mut shoe = Shoe { deck_count: 1, shuffle_threshold: 1, cards: rigged };
    assert_eq!(shoe.draw_card().value, Value::King);
    assert_eq!(shoe.draw_card().value, Value::Five);
    assert_eq!(shoe.draw_card().value, Value::Two);
    // the shoe is empty, so the next draw rebuilds a whole shuffled deck
    assert_eq!(shoe.cards.len(), 0);
    shoe.draw_card();
    assert_eq!(shoe.cards.len(), 51);
}

#[test]
fn shuffle_rebuilds_the_whole_shoe() {
    let mut shoe = Shoe::new(2, 10);
    for _ in 0..30 {
        shoe.draw_card();
    }
    shoe.shuffle();
    assert_eq!(shoe.cards.len(), 104);
}

#[test]
fn card_glyphs_and_values_line_up() {
    let ace_of_spades = Card { suit: Suit::Spades, value: Value::Ace };
    assert_eq!(ace_of_spades.symbol(), '\u{1f0a1}');
    assert_eq!(ace_of_spades.blackjack_value(), 1);
    let queen_of_hearts = Card { suit: Suit::Hearts, value: Value::Queen };
    assert_eq!(queen_of_hearts.symbol(), '\u{1f0bd}');
    assert_eq!(queen_of_hearts.blackjack_value(), 10);
    assert_eq!(Suit::Spades.symbol(), '\u{2660}');
    assert_eq!(Suit::Hearts.symbol(), '\u{2665}');
    assert_eq!(Value::Ten.label(), "10");
    assert_eq!(Value::Ace.label(), "A");
}
