use casino::craps::{split_bets, Bet, BetDuration, BetKind, Die};
use casino::money::Money;
use casino::roulette::{
    column_values, single_zero_wheel, Color, Dozen, HighLow, Parity, Pocket, RouletteBet,
    RouletteBetType,
};
use casino::slots::{PriceTier, SlotMachine};
use casino::statistics::{BlackjackStatistics, Statistics};

#[test]
fn pass_line_bets_win_and_lose_on_the_book_rolls() {
    let pass = Bet::new(BetKind::PassLine, Money::from_major(5));
    assert!(pass.is_win(7) && pass.is_win(11));
    assert!(pass.is_lose(2) && pass.is_lose(3) && pass.is_lose(12));
    assert!(!pass.is_win(4) && !pass.is_lose(4));
    assert_eq!(pass.duration(), BetDuration::MultiRoll);

    let dont = Bet::new(BetKind::DontPass, Money::from_major(5));
    assert!(dont.is_win(2) && dont.is_win(3) && dont.is_win(12));
    assert!(dont.is_lose(7) && dont.is_lose(11));
}

#[test]
fn field_bets_last_one_roll_and_pay_double_on_the_ends() {
    let field = Bet::new(BetKind::Field, Money::from_major(5));
    assert!(field.is_win(2) && field.is_win(9) && field.is_win(12));
    assert!(field.is_lose(5) && field.is_lose(7));
    assert_eq!(field.duration(), BetDuration::SingleRoll);
    assert_eq!(field.payout(2), Money::from_major(10));
    assert_eq!(field.payout(12), Money::from_major(10));
    assert_eq!(field.payout(4), Money::from_major(5));
    let pass = Bet::new(BetKind::PassLine, Money::from_major(5));
    assert_eq!(pass.payout(7), Money::from_major(5));
}

#[test]
fn a_roll_sorts_every_bet_into_one_group() {
    let bets = vec![
        Bet::new(BetKind::Come, Money::from_major(1)),
        Bet::new(BetKind::DontCome, Money::from_major(2)),
        Bet::new(BetKind::Field, Money::from_major(3)),
        Bet::new(BetKind::Come, Money::from_major(4)),
    ];
    // a seven wins Come bets, loses Don't Come bets, loses Field bets
    let split = split_bets(bets, 7);
    assert_eq!(split.wins.len(), 2);
    assert_eq!(split.wins[0].amount, Money::from_major(1));
    assert_eq!(split.wins[1].amount, Money::from_major(4));
    assert_eq!(split.losses.len(), 2);
    assert!(split.expired.is_empty());
    assert!(split.rest.is_empty());

    let bets = vec![
        Bet::new(BetKind::Come, Money::from_major(1)),
        Bet::new(BetKind::Field, Money::from_major(3)),
    ];
    // a six resolves nothing for Come, loses Field
    let split = split_bets(bets, 6);
    assert!(split.wins.is_empty());
    assert_eq!(split.losses.len(), 1);
    assert!(split.expired.is_empty());
    assert_eq!(split.rest.len(), 1);

    let bets = vec![Bet::new(BetKind::Field, Money::from_major(3))];
    // a ten wins Field outright, so nothing expires
    let split = split_bets(bets, 10);
    assert_eq!(split.wins.len(), 1);
}

#[test]
fn dice_show_one_through_six() {
    assert!(Die::new(0).is_err());
    assert!(Die::new(7).is_err());
    assert_eq!(Die::new(3).unwrap().as_u8(), 3);
    for _ in 0..100 {
        let d = Die::roll();
        assert!(1 <= d.as_u8() && d.as_u8() <= 6);
    }
    assert_eq!(Die::new(1).unwrap().symbol(), '\u{2680}');
}

#[test]
fn pockets_carry_the_wheel_colours() {
    assert_eq!(Pocket::new(0).unwrap().color, Color::Green);
    assert_eq!(Pocket::new(2).unwrap().color, Color::Black);
    assert_eq!(Pocket::new(3).unwrap().color, Color::Red);
    assert_eq!(Pocket::new(12).unwrap().color, Color::Red);
    assert_eq!(Pocket::new(13).unwrap().color, Color::Black);
    assert_eq!(Pocket::new(20).unwrap().color, Color::Black);
    assert_eq!(Pocket::new(29).unwrap().color, Color::Black);
    assert!(Pocket::new(37).is_err());
}

#[test]
fn the_wheel_has_thirty_seven_pockets() {
    let wheel = single_zero_wheel();
    assert_eq!(wheel.len(), 37);
    assert_eq!(wheel[0].value, 0);
    assert_eq!(wheel[1].value, 32);
    assert_eq!(wheel[36].value, 26);
    for pocket in wheel.iter() {
        assert!(pocket.value <= 36);
    }
}

#[test]
fn roulette_bets_match_their_pockets() {
    let p17 = Pocket::new(17).unwrap();
    assert!(RouletteBet::Straight(17).is_match(&p17));
    assert!(!RouletteBet::Straight(18).is_match(&p17));
    assert!(RouletteBet::Split(14, 17).is_match(&p17));
    assert!(RouletteBet::Street(16).is_match(&p17));
    assert!(RouletteBet::Square(13).is_match(&p17));
    assert!(RouletteBet::SixLine(13).is_match(&p17));
    assert!(RouletteBet::Color(Color::Black).is_match(&p17));
    assert!(RouletteBet::Dozens(Dozen::Second).is_match(&p17));
    assert!(RouletteBet::HighsLows(HighLow::Low).is_match(&p17));
    assert!(RouletteBet::OddsEvens(Parity::Odd).is_match(&p17));
    assert!(RouletteBet::Column(column_values(2)).is_match(&p17));
    assert!(!RouletteBet::Column(column_values(1)).is_match(&p17));
}

#[test]
fn roulette_odds_follow_the_table() {
    assert_eq!(RouletteBet::Straight(5).payout(), (35, 1));
    assert_eq!(RouletteBet::Split(5, 8).payout(), (17, 1));
    assert_eq!(RouletteBet::Street(4).payout(), (11, 1));
    assert_eq!(RouletteBet::Square(4).payout(), (8, 1));
    assert_eq!(RouletteBet::SixLine(4).payout(), (5, 1));
    assert_eq!(RouletteBet::Color(Color::Red).payout(), (1, 1));
    assert_eq!(RouletteBet::Dozens(Dozen::First).payout(), (2, 1));
    assert_eq!(RouletteBet::Column(column_values(1)).payout(), (2, 1));
}

#[test]
fn bet_catalogues_cover_the_layout() {
    let straights = RouletteBetType::Straight.bets();
    assert_eq!(straights.len(), 37);
    let splits = RouletteBetType::Split.bets();
    assert_eq!(splits.len(), 33);
    assert_eq!(RouletteBetType::Street.bets().len(), 12);
    assert_eq!(RouletteBetType::Color.bets().len(), 2);
    assert_eq!(RouletteBetType::Dozens.bets().len(), 3);
    assert_eq!(RouletteBetType::Column.bets().len(), 3);
}

#[test]
fn slot_payouts_price_runs_of_three_or_more() {
    let machine = SlotMachine::new_with_default_symbols(1);
    // five lemons: base 120 / 30 = 4 dollars, times three past the pair
    let rows = machine.payout(&vec!['\u{1f34b}'; 5]);
    assert_eq!(rows.len(), 1);
    assert_eq!(rows[0].symbol, '\u{1f34b}');
    assert_eq!(rows[0].count, 5);
    assert_eq!(rows[0].payout, Money::from_major(12));
    // three diamonds at weight one: 120 dollars
    let mixed = vec!['\u{1f48e}', '\u{1f48e}', '\u{1f48e}', '\u{1f34b}', '\u{1f352}'];
    let rows = machine.payout(&mixed);
    assert_eq!(rows.len(), 1);
    assert_eq!(rows[0].payout, Money::from_major(120));
    // two of a kind pay nothing
    let rows = machine.payout(&vec!['\u{1f34b}', '\u{1f34b}', '\u{1f352}', '\u{1f34a}', '\u{1f349}']);
    assert!(rows.is_empty());
}

#[test]
fn slot_pulls_draw_five_machine_symbols() {
    let machine = SlotMachine::new_with_default_symbols(10);
    for _ in 0..50 {
        let symbols = machine.pull();
        assert_eq!(symbols.len(), 5);
        for s in symbols.iter() {
            assert!(machine.weights.iter().any(|(sym, _)| sym == s));
        }
    }
}

#[test]
fn price_tiers_scale_with_their_cost() {
    let tier = PriceTier::new(Money::from_major(100));
    assert_eq!(tier.cost, Money::from_major(100));
    assert_eq!(tier.multiplier, 100);
}

#[test]
fn statistics_track_wins_losses_and_the_bankroll() {
    let mut stats = Statistics::default();
    stats.update_bankroll(Money::from_major(100));
    assert_eq!(stats.biggest_bankroll, Money::from_major(100));
    stats.update_bankroll(Money::from_major(40));
    assert_eq!(stats.biggest_bankroll, Money::from_major(100));
    assert_eq!(stats.times_bankrupted, 0);
    stats.update_bankroll(Money::zero());
    assert_eq!(stats.times_bankrupted, 1);

    let mut bj = BlackjackStatistics::default();
    bj.record_win(Money::from_major(20));
    bj.record_win(Money::from_major(5));
    bj.record_loss(Money::from_major(10));
    bj.record_push();
    assert_eq!(bj.hands_won, 2);
    assert_eq!(bj.hands_lost, 1);
    assert_eq!(bj.hands_push, 1);
    assert_eq!(bj.money_won, Money::from_major(25));
    assert_eq!(bj.money_lost, Money::from_major(10));
    assert_eq!(bj.biggest_win, Money::from_major(20));
    assert_eq!(bj.biggest_loss, Money::from_major(10));
}
