use ace::client::bot::{Bot, BotLevel};
use ace::client::card::{card_cmp, create_deck};
use ace::client::engine::GameEngine;
use ace::client::types::{Card, Rank, Suit};

#[test]
fn test_card_creation() {
    let card = Card::new(Suit::Spades, Rank::Ace);
    assert!(!card.is_joker());
    assert!(card.is_score());
    assert_eq!(card.score(), 10);
}

#[test]
fn test_joker() {
    let small = Card::small_joker();
    let large = Card::large_joker();
    assert!(small.is_joker());
    assert!(large.is_joker());
    assert_eq!(card_cmp(&large, &small, &None), 1);
}

#[test]
fn test_deck_size() {
    let deck = create_deck();
    assert_eq!(deck.len(), 54);
}

#[test]
fn test_bot_creation() {
    let bot = Bot::new(BotLevel::Normal);
    assert!(matches!(bot.level(), BotLevel::Normal));
}

#[test]
fn test_bot_decide_bid() {
    let bot = Bot::new(BotLevel::Normal);
    let hand = vec![
        Card::new(Suit::Spades, Rank::Ace),
        Card::new(Suit::Hearts, Rank::King),
    ];
    let bid = bot.decide_bid(&hand, &Some(Suit::Spades));
    assert!(bid >= 75);
}

#[test]
fn test_game_init() {
    let mut engine = GameEngine::new();
    engine.init_game(vec![
        "玩家1".to_string(),
        "玩家2".to_string(),
        "玩家3".to_string(),
        "玩家4".to_string(),
    ]);
    engine.deal_cards();

    assert_eq!(engine.get_state().players[0].cards.len(), 12);
    assert_eq!(engine.get_state().bottom_cards.len(), 6);
}

fn c(s: Suit, r: Rank) -> Card {
    Card::new(s, r)
}

fn same(a: &Card, b: &Card) -> bool {
    a.suit == b.suit && a.rank == b.rank && a.joker == b.joker
}

#[test]
fn card_cmp_orders_suits_trumps_and_ranks() {
    assert_eq!(card_cmp(&c(Suit::Spades, Rank::Ace), &c(Suit::Hearts, Rank::Two), &None), 1);
    assert_eq!(card_cmp(&c(Suit::Spades, Rank::Ace), &c(Suit::Hearts, Rank::Two), &Some(Suit::Hearts)), -1);
    assert_eq!(card_cmp(&c(Suit::Clubs, Rank::Two), &c(Suit::Clubs, Rank::Ace), &None), 1);
    assert_eq!(card_cmp(&c(Suit::Clubs, Rank::Five), &c(Suit::Clubs, Rank::Five), &None), 0);
    assert_eq!(card_cmp(&Card::small_joker(), &c(Suit::Spades, Rank::Two), &Some(Suit::Spades)), 1);
    assert_eq!(card_cmp(&Card::small_joker(), &Card::large_joker(), &None), -1);
    assert_eq!(card_cmp(&Card::small_joker(), &Card::small_joker(), &None), 0);
    assert_eq!(card_cmp(&c(Suit::Diamonds, Rank::Three), &c(Suit::Spades, Rank::Two), &Some(Suit::Diamonds)), 1);
}

#[test]
fn deck_order_and_points() {
    let deck = create_deck();
    assert!(same(&deck[0], &c(Suit::Spades, Rank::Three)));
    assert!(same(&deck[12], &c(Suit::Spades, Rank::Two)));
    assert!(same(&deck[13], &c(Suit::Hearts, Rank::Three)));
    assert!(same(&deck[51], &c(Suit::Diamonds, Rank::Two)));
    assert!(same(&deck[52], &Card::small_joker()));
    assert!(same(&deck[53], &Card::large_joker()));
    let total: i32 = deck.iter().map(|x| x.score()).sum();
    assert_eq!(total, 100);
    let scoring = deck.iter().filter(|x| x.is_score()).count();
    assert_eq!(scoring, 12);
}

#[test]
fn suit_and_rank_positions() {
    assert_eq!(Suit::from_index(2), Suit::Clubs);
    assert_eq!(Suit::Diamonds.to_index(), 3);
    assert_eq!(Suit::Spades.compare(&Suit::Hearts), Some(std::cmp::Ordering::Greater));
    assert_eq!(Suit::Clubs.compare(&Suit::Hearts), Some(std::cmp::Ordering::Less));
    assert_eq!(Suit::Clubs.compare(&Suit::Clubs), Some(std::cmp::Ordering::Equal));
    assert_eq!(Rank::from_index(0), Rank::Three);
    assert_eq!(Rank::from_index(12), Rank::Two);
    assert_eq!(Rank::Ace.to_index(), 11);
    assert_eq!(Rank::Two.value(), 15);
    assert_eq!(Rank::Three.value(), 3);
}

#[test]
fn card_scores() {
    assert_eq!(c(Suit::Hearts, Rank::Ten).score(), 10);
    assert_eq!(c(Suit::Hearts, Rank::Five).score(), 5);
    assert_eq!(c(Suit::Hearts, Rank::King).score(), 0);
    assert!(!c(Suit::Hearts, Rank::King).is_score());
    assert!(!Card::large_joker().is_score());
    assert_eq!(Card::large_joker().score(), 0);
}
