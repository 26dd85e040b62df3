use ace::client::bot::{easy_pick, Bot, BotLevel};
use ace::client::card::create_deck;
use ace::client::engine::GameEngine;
use ace::client::types::{Card, GamePhase, Rank, Suit};

fn c(s: Suit, r: Rank) -> Card {
    Card::new(s, r)
}

fn same(a: &Card, b: &Card) -> bool {
    a.suit == b.suit && a.rank == b.rank && a.joker == b.joker
}

fn same_hand(a: &[Card], b: &[Card]) -> bool {
    a.len() == b.len() && a.iter().zip(b.iter()).all(|(x, y)| same(x, y))
}

fn seated_engine() -> GameEngine {
    let mut engine = GameEngine::new();
    engine.init_game(vec!["a".to_string(), "b".to_string(), "c".to_string(), "d".to_string()]);
    engine
}

#[test]
fn init_game_seats_four_players() {
    let engine = seated_engine();
    let s = engine.get_state();
    assert_eq!(s.players.len(), 4);
    assert_eq!(s.players[2].id, 2);
    assert_eq!(s.players[2].name, "c");
    assert_eq!(s.phase, GamePhase::Dealing);
    assert!(s.players.iter().all(|p| p.cards.is_empty() && !p.is_host && p.score == 0));
}

#[test]
fn deal_from_unshuffled_deck() {
    let mut engine = seated_engine();
    engine.deal_from_deck(create_deck());
    let s = engine.get_state();
    assert_eq!(s.phase, GamePhase::Bidding);
    // seat 0: spades three to ace, weakest first
    let expect0: Vec<Card> = (0..12u8).map(|i| c(Suit::Spades, Rank::from_index(i))).collect();
    assert!(same_hand(&s.players[0].cards, &expect0));
    // seat 1: spade two and hearts three to king; hearts are weaker than spades
    let mut expect1: Vec<Card> = (0..11u8).map(|i| c(Suit::Hearts, Rank::from_index(i))).collect();
    expect1.push(c(Suit::Spades, Rank::Two));
    assert!(same_hand(&s.players[1].cards, &expect1));
    let bottom = vec![
        c(Suit::Diamonds, Rank::Queen),
        c(Suit::Diamonds, Rank::King),
        c(Suit::Diamonds, Rank::Ace),
        c(Suit::Diamonds, Rank::Two),
        Card::small_joker(),
        Card::large_joker(),
    ];
    assert!(same_hand(&s.bottom_cards, &bottom));
}

#[test]
fn shuffled_deal_hands_out_every_card() {
    let mut engine = seated_engine();
    engine.deal_cards();
    let s = engine.get_state();
    let mut all: Vec<Card> = Vec::new();
    for p in &s.players {
        assert_eq!(p.cards.len(), 12);
        all.extend(p.cards.iter().copied());
    }
    all.extend(s.bottom_cards.iter().copied());
    let deck = create_deck();
    assert_eq!(all.len(), 54);
    for d in &deck {
        assert_eq!(all.iter().filter(|x| same(x, d)).count(), 1);
    }
}

#[test]
fn shuffled_deal_differs_from_the_fresh_deck() {
    let mut plain = seated_engine();
    plain.deal_from_deck(create_deck());
    let mut shuffled = seated_engine();
    shuffled.deal_cards();
    let a = plain.get_state();
    let b = shuffled.get_state();
    let all_same = (0..4).all(|i| same_hand(&a.players[i].cards, &b.players[i].cards))
        && same_hand(&a.bottom_cards, &b.bottom_cards);
    assert!(!all_same);
}

#[test]
fn bids_must_rise_and_reach_75() {
    let mut engine = seated_engine();
    assert!(!engine.bid(0, 80)); // not bidding yet
    engine.deal_from_deck(create_deck());
    assert!(!engine.bid(1, 70));
    assert!(engine.bid(1, 80));
    assert!(!engine.bid(2, 80));
    assert!(engine.bid(2, 85));
    assert_eq!(engine.get_state().current_bid, 85);
    assert_eq!(engine.get_state().bidder, Some(2));
}

fn engine_in_play() -> GameEngine {
    let mut engine = seated_engine();
    engine.deal_from_deck(create_deck());
    assert!(engine.bid(2, 90));
    engine.confirm_bidder();
    engine
}

#[test]
fn confirm_bidder_gives_bottom_and_keeps_weakest_twelve() {
    let engine = engine_in_play();
    let s = engine.get_state();
    assert!(s.players[2].is_host);
    assert_eq!(s.trump_suit, Some(Suit::Spades));
    assert_eq!(s.phase, GamePhase::Playing);
    assert_eq!(s.current_player, 2);
    assert_eq!(s.round_number, 1);
    let mut expect = vec![
        c(Suit::Diamonds, Rank::Queen),
        c(Suit::Diamonds, Rank::King),
        c(Suit::Diamonds, Rank::Ace),
        c(Suit::Diamonds, Rank::Two),
    ];
    for i in 0..8u8 {
        expect.push(c(Suit::Clubs, Rank::from_index(i)));
    }
    assert!(same_hand(&s.players[2].cards, &expect));
}

#[test]
fn confirm_without_bidder_changes_nothing() {
    let mut engine = seated_engine();
    engine.deal_from_deck(create_deck());
    engine.confirm_bidder();
    assert_eq!(engine.get_state().phase, GamePhase::Bidding);
    assert_eq!(engine.get_state().trump_suit, None);
}

#[test]
fn play_card_refusals() {
    let mut engine = seated_engine();
    assert_eq!(engine.play_card(0, 0).unwrap_err(), "游戏不在出牌阶段");
    let mut engine = engine_in_play();
    assert_eq!(engine.play_card(0, 0).unwrap_err(), "不是你的回合");
    assert_eq!(engine.play_card(2, 12).unwrap_err(), "无效的牌索引");
    assert_eq!(engine.get_state().players[2].cards.len(), 12);
}

#[test]
fn a_full_trick_goes_to_the_trump() {
    let mut engine = engine_in_play();
    let played = engine.play_card(2, 2).unwrap();
    assert!(same(&played, &c(Suit::Diamonds, Rank::Ace)));
    assert_eq!(engine.get_state().players[2].cards.len(), 11);
    assert!(same(&engine.get_state().round_cards[2].unwrap(), &played));
    // seat 3 holds diamonds three to jack first
    let p3 = engine.play_card(3, 2).unwrap();
    assert!(same(&p3, &c(Suit::Diamonds, Rank::Five)));
    // seat 0 holds spades three up: index 7 is the ten
    let p0 = engine.play_card(0, 7).unwrap();
    assert!(same(&p0, &c(Suit::Spades, Rank::Ten)));
    let p1 = engine.play_card(1, 2).unwrap();
    assert!(same(&p1, &c(Suit::Hearts, Rank::Five)));
    let s = engine.get_state();
    assert_eq!(s.round_winner, Some(0));
    assert_eq!(s.scores, [30, 0]);
    assert_eq!(s.round_number, 2);
    assert_eq!(s.current_player, 2);
    assert!(s.round_cards.iter().all(|x| x.is_none()));
    assert!(!engine.is_game_over());
    assert_eq!(engine.get_result(), None);
}

#[test]
fn trick_points_go_to_the_bidders_side_first() {
    let mut engine = seated_engine();
    engine.deal_from_deck(create_deck());
    assert!(engine.bid(1, 90));
    engine.confirm_bidder();
    assert_eq!(engine.get_state().current_player, 1);
    let mut points = 0;
    for seat in [1usize, 2, 3, 0] {
        let card = engine.play_card(seat, 0).unwrap();
        points += card.score();
    }
    let s = engine.get_state();
    let winner = s.round_winner.unwrap();
    // seats 1 and 3 are the bidder's side, booked first
    if winner % 2 == 1 {
        assert_eq!(s.scores, [points, 0]);
    } else {
        assert_eq!(s.scores, [0, points]);
    }
    let mut turns = 0;
    while !engine.is_game_over() && turns < 100 {
        let p = engine.get_state().current_player;
        engine.play_card(p, 0).unwrap();
        turns += 1;
    }
    let (ok, score) = engine.get_result().unwrap();
    assert_eq!(score, engine.get_state().scores[0]);
    assert_eq!(ok, score >= 90);
}

#[test]
fn result_once_every_hand_is_empty() {
    let mut engine = engine_in_play();
    let mut turns = 0;
    while !engine.is_game_over() && turns < 100 {
        let p = engine.get_state().current_player;
        if engine.get_state().players[p].cards.is_empty() {
            break;
        }
        engine.play_card(p, 0).unwrap();
        turns += 1;
    }
    assert!(engine.is_game_over());
    let s = engine.get_state();
    let total = s.scores[0] + s.scores[1];
    assert!(total <= 100 + 30);
    let (ok, score) = engine.get_result().unwrap();
    assert_eq!(score, s.scores[0]);
    assert_eq!(ok, score >= 90);
}

#[test]
fn normal_bot_follows_the_lead_without_scoring() {
    let bot = Bot::new(BotLevel::Normal);
    let hand = vec![c(Suit::Hearts, Rank::Five), c(Suit::Hearts, Rank::Six), c(Suit::Spades, Rank::Jack)];
    assert_eq!(bot.choose_card(&hand, &Some(Suit::Hearts), &Some(Suit::Spades), &[]), Some(1));
    let hand = vec![Card::small_joker(), c(Suit::Hearts, Rank::Six)];
    assert_eq!(bot.choose_card(&hand, &Some(Suit::Hearts), &None, &[]), Some(0));
}

#[test]
fn normal_bot_throws_the_cheapest_card() {
    let bot = Bot::new(BotLevel::Hard);
    let hand = vec![c(Suit::Hearts, Rank::Ace), c(Suit::Spades, Rank::Nine), c(Suit::Hearts, Rank::Seven)];
    assert_eq!(bot.choose_card(&hand, &None, &Some(Suit::Spades), &[]), Some(1));
    let hand = vec![c(Suit::Hearts, Rank::Ace), c(Suit::Clubs, Rank::Nine), c(Suit::Hearts, Rank::Seven)];
    assert_eq!(bot.choose_card(&hand, &Some(Suit::Diamonds), &Some(Suit::Spades), &[]), Some(2));
    assert_eq!(bot.choose_card(&[], &None, &None, &[]), None);
}

#[test]
fn normal_bot_plays_the_smallest_when_every_card_scores() {
    let bot = Bot::new(BotLevel::Normal);
    let hand = vec![c(Suit::Clubs, Rank::Ace), c(Suit::Clubs, Rank::Five)];
    assert_eq!(bot.choose_card(&hand, &None, &None, &[]), Some(1));
    let hand = vec![c(Suit::Hearts, Rank::Ace), c(Suit::Hearts, Rank::Ten)];
    assert_eq!(bot.choose_card(&hand, &None, &None, &[]), Some(1));
    // a trump counts below every other suit
    let hand = vec![c(Suit::Hearts, Rank::Five), c(Suit::Spades, Rank::Ace)];
    assert_eq!(bot.choose_card(&hand, &None, &Some(Suit::Spades), &[]), Some(1));
    // ties go to the first
    let hand = vec![c(Suit::Hearts, Rank::Ten), c(Suit::Diamonds, Rank::Ten)];
    assert_eq!(Bot::new(BotLevel::Hard).choose_card(&hand, &Some(Suit::Clubs), &None, &[]), Some(0));
}

#[test]
fn easy_bot_picks_a_card_in_the_hand() {
    let bot = Bot::new(BotLevel::Easy);
    let hand = vec![c(Suit::Hearts, Rank::Ace), c(Suit::Hearts, Rank::Ten), Card::large_joker()];
    let i = bot.choose_card(&hand, &None, &None, &[]).unwrap();
    assert!(i < 3);
    assert_eq!(easy_pick(10, 3), 1);
    assert_eq!(easy_pick(u128::from(u64::MAX) + 5, 7), (4usize) % 7);
}

#[test]
fn bids_from_hand_estimates() {
    let hand = vec![c(Suit::Spades, Rank::Ace), c(Suit::Hearts, Rank::King)];
    assert_eq!(Bot::new(BotLevel::Easy).decide_bid(&hand, &Some(Suit::Spades)), 75);
    assert_eq!(Bot::new(BotLevel::Normal).decide_bid(&hand, &Some(Suit::Spades)), 75);
    let jokers = vec![Card::large_joker(); 30];
    assert_eq!(Bot::new(BotLevel::Normal).decide_bid(&jokers, &None), 90);
    assert_eq!(Bot::new(BotLevel::Hard).decide_bid(&jokers, &None), 112);
    let many = vec![Card::large_joker(); 80];
    assert_eq!(Bot::new(BotLevel::Normal).decide_bid(&many, &None), 150);
    assert_eq!(Bot::new(BotLevel::Hard).decide_bid(&many, &None), 200);
}
