use casino::blackjack::Hand;
use casino::cards::{Card, Suit, Value};

fn card(value: Value) -> Card {
    Card { suit: Suit::Spades, value }
}

fn hand_of(values: Vec<Value>) -> Hand {
    let mut hand = Hand::new();
    for v in values {
        hand.push(card(v));
    }
    hand
}

#[test]
fn sum_counts_at_most_one_ace_as_eleven() {
    // two Aces and a nine: 21, never 31
    assert_eq!(hand_of(vec![Value::Ace, Value::Ace, Value::Nine]).blackjack_sum(), 21);
    assert_eq!(hand_of(vec![Value::Ace, Value::Ace]).blackjack_sum(), 12);
    assert_eq!(
        hand_of(vec![Value::Ace, Value::Ace, Value::Ace, Value::Eight]).blackjack_sum(),
        21
    );
}

#[test]
fn sum_adjusts_softly_only_while_it_fits() {
    assert_eq!(hand_of(vec![Value::Ace, Value::Six]).blackjack_sum(), 17);
    assert_eq!(hand_of(vec![Value::Ace, Value::Six, Value::Ten]).blackjack_sum(), 17);
    assert_eq!(hand_of(vec![Value::Ten, Value::Nine]).blackjack_sum(), 19);
    assert_eq!(hand_of(vec![]).blackjack_sum(), 0);
    assert_eq!(hand_of(vec![Value::King, Value::Queen, Value::Jack]).blackjack_sum(), 30);
}

#[test]
fn natural_blackjack_is_exactly_a_two_card_twenty_one() {
    assert!(hand_of(vec![Value::Ace, Value::King]).is_natural_blackjack());
    assert!(hand_of(vec![Value::Ace, Value::Ten]).is_natural_blackjack());
    // three sevens total twenty-one but are no natural
    assert!(!hand_of(vec![Value::Seven, Value::Seven, Value::Seven]).is_natural_blackjack());
    assert!(!hand_of(vec![Value::Ten, Value::Nine]).is_natural_blackjack());
    assert!(!hand_of(vec![Value::Ace]).is_natural_blackjack());
}

#[test]
fn bust_is_a_sum_over_twenty_one() {
    assert!(hand_of(vec![Value::Ten, Value::Nine, Value::Five]).is_bust());
    assert!(!hand_of(vec![Value::Ten, Value::Nine, Value::Two]).is_bust());
    assert!(!hand_of(vec![Value::Ace, Value::King]).is_bust());
}

#[test]
fn double_down_needs_two_cards_totalling_ten_or_eleven() {
    assert!(hand_of(vec![Value::Five, Value::Five]).can_double_down());
    assert!(hand_of(vec![Value::Six, Value::Five]).can_double_down());
    assert!(!hand_of(vec![Value::Ten, Value::Nine]).can_double_down());
    assert!(!hand_of(vec![Value::Five, Value::Three, Value::Two]).can_double_down());
    let mut doubled = hand_of(vec![Value::Five, Value::Five]);
    doubled.doubling_down = true;
    assert!(!doubled.can_double_down());
}

#[test]
fn split_needs_a_pair_and_moves_the_second_card() {
    assert!(hand_of(vec![Value::Eight, Value::Eight]).can_split());
    assert!(!hand_of(vec![Value::Eight, Value::Nine]).can_split());
    assert!(!hand_of(vec![Value::Eight]).can_split());

    let mut hand = Hand::new();
    hand.push(Card { suit: Suit::Spades, value: Value::Eight });
    hand.push(Card { suit: Suit::Hearts, value: Value::Eight });
    let other = hand.split();
    assert_eq!(hand.cards.len(), 1);
    assert_eq!(other.cards.len(), 1);
    assert_eq!(hand.cards[0].suit, Suit::Spades);
    assert_eq!(other.cards[0].suit, Suit::Hearts);
}

#[test]
fn finished_means_standing_or_bust() {
    let mut standing = hand_of(vec![Value::Ten, Value::Five]);
    assert!(!standing.is_finished());
    standing.standing = true;
    assert!(standing.is_finished());
    assert!(hand_of(vec![Value::Ten, Value::Nine, Value::Five]).is_finished());
}

#[test]
fn hand_text_hides_the_hole_card() {
    let mut dealer = Hand::new_hidden(1);
    dealer.push(card(Value::King));
    dealer.push(card(Value::Seven));
    let text = dealer.to_display_string();
    assert!(text.contains('\u{1f0a0}'));
    assert!(text.ends_with(" = ?)"));

    let mut shown = dealer.clone();
    shown.hidden_count = 0;
    let text = shown.to_display_string();
    assert!(text.contains("10 + 7"));
    assert!(text.ends_with(" = 17)"));
}
