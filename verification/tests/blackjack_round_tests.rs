use casino::blackjack::{
    ActionError, BetError, Casino, HandOutcome, PlayerAction,
};
use casino::statistics::Statistics;
use casino::cards::{Card, Shoe, Suit, Value};
use casino::config::Config;
use casino::money::Money;

fn card(value: Value) -> Card {
    Card { suit: Suit::Clubs, value }
}

/// A session with the given bankroll in dollars, whose shoe will deal the
/// listed ranks in order.
fn rigged_casino(bankroll: i64, deals: Vec<Value>) -> Casino {
    let mut casino = Casino::new(Config::default());
    casino.bankroll = Money::from_major(bankroll);
    let mut cards: Vec<Card> = deals.into_iter().map(card).collect();
    cards.reverse();
    casino
        .blackjack
        .set_shoe(Shoe { deck_count: 1, shuffle_threshold: 1, cards });
    casino
}

#[test]
fn bets_are_validated_and_staked_at_once() {
    let mut casino = rigged_casino(100, vec![]);
    assert_eq!(casino.place_bet(Money::zero()), Err(BetError::NotPositive));
    assert_eq!(
        casino.place_bet(Money::from_major(-5)),
        Err(BetError::NotPositive)
    );
    assert_eq!(
        casino.place_bet(Money::from_major(101)),
        Err(BetError::InsufficientFunds)
    );
    assert_eq!(casino.bankroll, Money::from_major(100));
    assert!(casino.place_bet(Money::from_major(10)).is_ok());
    assert_eq!(casino.bankroll, Money::from_major(90));
}

#[test]
fn dealer_bust_pays_even_money() {
    // bankroll $100, bet $10: the dealer draws to 24 and busts, so the
    // player receives $20 and ends at $110
    let mut casino = rigged_casino(
        100,
        vec![
            Value::Ten,   // dealer hole card
            Value::Ten,   // player
            Value::Six,   // dealer face card
            Value::Eight, // player: 18
            Value::Eight, // dealer draws to 24
        ],
    );
    casino.place_bet(Money::from_major(10)).unwrap();
    casino.blackjack.initial_deal();
    casino.apply_action(PlayerAction::Stand).unwrap();
    casino.dealer_play();
    assert_eq!(casino.blackjack.dealer_hand.blackjack_sum(), 24);
    let settlement = casino.settle_round().unwrap();
    assert_eq!(settlement.hands.len(), 1);
    assert_eq!(settlement.hands[0].outcome, HandOutcome::DealerBusted);
    assert_eq!(settlement.hands[0].amount, Money::from_major(20));
    assert_eq!(casino.bankroll, Money::from_major(110));
}

#[test]
fn natural_blackjack_pays_three_to_two() {
    // bet $10 on a dealt Ace and King: payout $10 + $15 = $25
    let mut casino = rigged_casino(
        100,
        vec![
            Value::Ten,  // dealer hole card
            Value::Ace,  // player
            Value::Nine, // dealer face card: dealer stands at 19
            Value::King, // player: natural blackjack
        ],
    );
    casino.place_bet(Money::from_major(10)).unwrap();
    casino.blackjack.initial_deal();
    assert!(casino.blackjack.current_player_hand().is_natural_blackjack());
    casino.apply_action(PlayerAction::Stand).unwrap();
    casino.dealer_play();
    let settlement = casino.settle_round().unwrap();
    assert_eq!(settlement.hands[0].outcome, HandOutcome::NaturalBlackjack);
    assert_eq!(settlement.hands[0].amount, Money::from_major(25));
    assert_eq!(casino.bankroll, Money::from_major(115));
}

#[test]
fn equal_standing_totals_push_and_return_the_stake() {
    // bet $20, both sides stand at 18: the bankroll ends where it began
    let mut casino = rigged_casino(
        100,
        vec![
            Value::Ten,   // dealer hole card
            Value::Ten,   // player
            Value::Eight, // dealer face card: 18
            Value::Eight, // player: 18
        ],
    );
    casino.place_bet(Money::from_major(20)).unwrap();
    casino.blackjack.initial_deal();
    casino.apply_action(PlayerAction::Stand).unwrap();
    casino.dealer_play();
    let settlement = casino.settle_round().unwrap();
    assert_eq!(settlement.hands[0].outcome, HandOutcome::Push);
    assert_eq!(settlement.hands[0].amount, Money::from_major(20));
    assert_eq!(casino.bankroll, Money::from_major(100));
}

#[test]
fn split_hands_resolve_independently() {
    // a pair of eights split at $10 a hand: hand one busts, hand two wins,
    // so the round nets +$10 against the staked baseline
    let mut casino = rigged_casino(
        100,
        vec![
            Value::Ten,   // dealer hole card
            Value::Eight, // player
            Value::Seven, // dealer face card: dealer stands at 17
            Value::Eight, // player: the pair
            Value::Ten,   // dealt to the new split hand: 18
            Value::Five,  // dealt to the first hand: 13
            Value::Ten,   // hit on the first hand: 23, bust
        ],
    );
    casino.place_bet(Money::from_major(10)).unwrap();
    casino.blackjack.initial_deal();
    assert!(casino.blackjack.can_split());
    casino.apply_action(PlayerAction::Split).unwrap();
    assert_eq!(casino.bankroll, Money::from_major(80));
    assert_eq!(casino.blackjack.player_hands.len(), 2);
    // first hand: 8 + 5, hit into a bust
    casino.apply_action(PlayerAction::Hit).unwrap();
    assert_eq!(casino.blackjack.current_hand_index(), 1);
    // second hand stands at 18
    casino.apply_action(PlayerAction::Stand).unwrap();
    casino.dealer_play();
    let settlement = casino.settle_round().unwrap();
    assert_eq!(settlement.hands.len(), 2);
    assert_eq!(settlement.hands[0].outcome, HandOutcome::Busted);
    assert_eq!(settlement.hands[0].amount, Money::zero());
    assert_eq!(settlement.hands[1].outcome, HandOutcome::PlayerWins);
    assert_eq!(settlement.hands[1].amount, Money::from_major(20));
    assert_eq!(casino.bankroll, Money::from_major(100));
    // no second split is offered in one round
    assert!(casino.blackjack.splitting);
}

#[test]
fn double_down_draws_one_card_and_stands() {
    let mut casino = rigged_casino(
        100,
        vec![
            Value::Ten,  // dealer hole card
            Value::Six,  // player
            Value::Nine, // dealer face card: 19
            Value::Five, // player: 11
            Value::Ten,  // doubled draw: 21
        ],
    );
    casino.place_bet(Money::from_major(10)).unwrap();
    casino.blackjack.initial_deal();
    assert!(casino.blackjack.can_double_down());
    casino.apply_action(PlayerAction::Double).unwrap();
    assert_eq!(casino.bankroll, Money::from_major(80));
    let hand = &casino.blackjack.player_hands[0];
    assert_eq!(hand.cards.len(), 3);
    assert!(hand.standing);
    assert!(hand.doubling_down);
    casino.dealer_play();
    let settlement = casino.settle_round().unwrap();
    // 21 on three cards beats the dealer's 19 at even money on the doubled stake
    assert_eq!(settlement.hands[0].outcome, HandOutcome::PlayerWins);
    assert_eq!(settlement.hands[0].amount, Money::from_major(40));
    assert_eq!(casino.bankroll, Money::from_major(120));
}

#[test]
fn unavailable_actions_are_rejected_and_change_nothing() {
    let mut casino = rigged_casino(
        15,
        vec![
            Value::Ten,   // dealer hole card
            Value::Ten,   // player
            Value::Nine,  // dealer face card
            Value::Eight, // player: 18
        ],
    );
    casino.place_bet(Money::from_major(10)).unwrap();
    casino.blackjack.initial_deal();
    // 18 on unequal cards: no double, no split
    assert_eq!(
        casino.apply_action(PlayerAction::Double),
        Err(ActionError::Unavailable)
    );
    assert_eq!(
        casino.apply_action(PlayerAction::Split),
        Err(ActionError::Unavailable)
    );
    assert_eq!(casino.bankroll, Money::from_major(5));
    assert_eq!(casino.blackjack.player_hands[0].cards.len(), 2);
}

#[test]
fn doubling_without_funds_is_rejected() {
    let mut casino = rigged_casino(
        15,
        vec![
            Value::Ten,  // dealer hole card
            Value::Six,  // player
            Value::Nine, // dealer face card
            Value::Five, // player: 11
        ],
    );
    casino.place_bet(Money::from_major(10)).unwrap();
    casino.blackjack.initial_deal();
    // the hand qualifies, but only $5 remains against a $10 stake
    assert_eq!(
        casino.apply_action(PlayerAction::Double),
        Err(ActionError::InsufficientFunds)
    );
    assert_eq!(casino.bankroll, Money::from_major(5));
}

#[test]
fn insurance_pays_out_on_a_dealer_blackjack() {
    let mut casino = rigged_casino(
        100,
        vec![
            Value::King, // dealer hole card
            Value::Ten,  // player
            Value::Ace,  // dealer face card: an Ace shows
            Value::Nine, // player: 19
        ],
    );
    casino.place_bet(Money::from_major(10)).unwrap();
    casino.blackjack.initial_deal();
    assert!(casino.blackjack.can_place_insurance_bet());
    assert!(casino.can_place_insurance());
    casino.place_insurance();
    // half the bet is staked on the side
    assert_eq!(casino.bankroll, Money::from_major(85));
    casino.apply_action(PlayerAction::Stand).unwrap();
    casino.dealer_play();
    let settlement = casino.settle_round().unwrap();
    // the hand loses to the dealer's natural, the side bet pays two to one
    assert_eq!(settlement.hands[0].outcome, HandOutcome::DealerWins);
    assert_eq!(settlement.insurance_paid, Some(Money::from_major(10)));
    assert_eq!(casino.bankroll, Money::from_major(95));
}

#[test]
fn insurance_is_only_offered_on_a_visible_ace() {
    let mut casino = rigged_casino(
        100,
        vec![
            Value::Ace,  // dealer hole card: hidden, so no insurance
            Value::Ten,  // player
            Value::Nine, // dealer face card
            Value::Nine, // player
        ],
    );
    casino.place_bet(Money::from_major(10)).unwrap();
    casino.blackjack.initial_deal();
    assert!(!casino.blackjack.can_place_insurance_bet());
}

#[test]
fn going_broke_grants_the_gift_exactly_once() {
    // the whole bankroll is staked and the hand busts: the bankroll hits
    // exactly zero and the starting gift arrives
    let mut casino = rigged_casino(
        10,
        vec![
            Value::Ten,  // dealer hole card
            Value::Ten,  // player
            Value::Seven, // dealer face card
            Value::Nine, // player: 19
            Value::Five, // hit: 24, bust
        ],
    );
    casino.place_bet(Money::from_major(10)).unwrap();
    assert!(casino.bankroll.is_zero());
    casino.blackjack.initial_deal();
    casino.apply_action(PlayerAction::Hit).unwrap();
    casino.dealer_play();
    // every hand busted: the hole card stays down and the dealer drew nothing
    assert_eq!(casino.blackjack.dealer_hand.hidden_count, 1);
    assert_eq!(casino.blackjack.dealer_hand.cards.len(), 2);
    let settlement = casino.settle_round().unwrap();
    assert!(settlement.gift_granted);
    assert_eq!(casino.bankroll, Money::from_major(1_000));
}

#[test]
fn a_positive_bankroll_is_never_topped_up() {
    let mut casino = rigged_casino(
        20,
        vec![
            Value::Ten,   // dealer hole card
            Value::Ten,   // player
            Value::Nine,  // dealer face card: 19
            Value::Eight, // player: 18
        ],
    );
    casino.place_bet(Money::from_major(10)).unwrap();
    casino.blackjack.initial_deal();
    casino.apply_action(PlayerAction::Stand).unwrap();
    casino.dealer_play();
    let settlement = casino.settle_round().unwrap();
    assert_eq!(settlement.hands[0].outcome, HandOutcome::DealerWins);
    assert!(!settlement.gift_granted);
    assert_eq!(casino.bankroll, Money::from_major(10));
}

#[test]
fn rounds_reset_cleanly_between_plays() {
    let mut casino = rigged_casino(
        100,
        vec![
            Value::Ten,
            Value::Ten,
            Value::Nine,
            Value::Eight,
        ],
    );
    casino.place_bet(Money::from_major(10)).unwrap();
    casino.blackjack.initial_deal();
    casino.apply_action(PlayerAction::Stand).unwrap();
    casino.dealer_play();
    casino.settle_round().unwrap();
    casino.reset_round();
    assert_eq!(casino.blackjack.player_hands.len(), 1);
    assert!(casino.blackjack.player_hands[0].cards.is_empty());
    assert!(casino.blackjack.dealer_hand.cards.is_empty());
    assert_eq!(casino.blackjack.dealer_hand.hidden_count, 1);
    assert!(casino.blackjack.bet.is_zero());
    assert!(!casino.blackjack.insurance);
    assert!(!casino.blackjack.splitting);
    assert_eq!(casino.blackjack.current_hand_index(), 0);
}

#[test]
fn snapshots_carry_the_bankroll_and_the_shoe() {
    let casino = rigged_casino(75, vec![Value::Two, Value::Three]);
    let snapshot = casino.snapshot();
    assert_eq!(snapshot.bankroll, Money::from_major(75));
    assert_eq!(snapshot.shoe.cards.len(), 2);
    let restored = Casino::from_snapshot(Config::default(), snapshot, Statistics::default());
    assert_eq!(restored.bankroll, Money::from_major(75));
    assert_eq!(restored.blackjack.shoe.cards.len(), 2);
    assert!(restored.blackjack.dealer_hand.cards.is_empty());
}

#[test]
fn bankroll_bookkeeping_guards_the_floor() {
    let mut casino = rigged_casino(50, vec![]);
    casino.add_bankroll(Money::from_major(25));
    assert_eq!(casino.bankroll, Money::from_major(75));
    assert!(casino.subtract_bankroll(Money::from_major(75)).is_ok());
    assert!(casino.subtract_bankroll(Money::from_major(1)).is_err());
    assert!(casino.bankroll.is_zero());
}

#[test]
fn a_fresh_session_starts_with_the_gift_and_a_clean_round() {
    let casino = Casino::new(Config::default());
    assert_eq!(casino.bankroll, Money::from_major(1_000));
    assert_eq!(casino.blackjack.player_hands.len(), 1);
    assert!(casino.blackjack.player_hands[0].cards.is_empty());
    assert!(casino.blackjack.dealer_hand.cards.is_empty());
    assert_eq!(casino.blackjack.dealer_hand.hidden_count, 1);
    assert!(casino.blackjack.bet.is_zero());
    assert!(!casino.blackjack.insurance);
    assert!(!casino.blackjack.splitting);
    assert_eq!(casino.blackjack.current_hand_index(), 0);
    assert_eq!(casino.stats.times_bankrupted, 0);
}

#[test]
fn the_opening_deal_alternates_dealer_and_player() {
    let mut casino = rigged_casino(
        100,
        vec![Value::Two, Value::Three, Value::Four, Value::Five],
    );
    casino.place_bet(Money::from_major(10)).unwrap();
    casino.blackjack.initial_deal();
    let dealer = &casino.blackjack.dealer_hand;
    let player = &casino.blackjack.player_hands[0];
    assert_eq!(dealer.cards[0].value, Value::Two);
    assert_eq!(dealer.cards[1].value, Value::Four);
    assert_eq!(player.cards[0].value, Value::Three);
    assert_eq!(player.cards[1].value, Value::Five);
    assert!(casino.blackjack.shoe.cards.is_empty());
}

#[test]
fn payout_formulas_follow_the_configured_ratios() {
    let mut casino = rigged_casino(100, vec![]);
    casino.place_bet(Money::from_major(10)).unwrap();
    // three-to-two blackjack ratio: $10 + $15
    assert_eq!(
        casino.blackjack.natural_blackjack_payout(),
        Money::from_major(25)
    );
    // two-to-one insurance on the half-bet stake: $5 becomes $10
    assert_eq!(casino.blackjack.insurance_payout(), Money::from_major(10));
}

#[test]
fn odd_bets_round_their_payouts_half_up() {
    let mut casino = rigged_casino(100, vec![]);
    // a $10.01 bet: blackjack winnings are 1501.5 cents, rounded up
    casino.place_bet(Money::from_minor_units(1001)).unwrap();
    assert_eq!(
        casino.blackjack.natural_blackjack_payout(),
        Money::from_minor_units(1001 + 1502)
    );
    // the insurance stake is 500.5 cents rounded up to $5.01
    assert_eq!(
        casino.blackjack.insurance_payout(),
        Money::from_minor_units(1002)
    );
}
