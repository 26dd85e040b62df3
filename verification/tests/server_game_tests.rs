use ace::server::cards::{card_cmp, card_greater, create_deck, shuffle, shuffle_by, sort_cards, Card, Rank, Suit};
use ace::server::game::{GamePhase, GamePlayer, GameRoom};
use std::cmp::Ordering;

fn c(s: Suit, r: Rank) -> Card {
    Card::new(s, r)
}

fn seat(name: &str) -> GamePlayer {
    GamePlayer {
        user_id: name.to_string(),
        username: name.to_string(),
        cards: Vec::new(),
        is_robot: false,
        is_ready: false,
    }
}

fn room() -> GameRoom {
    GameRoom::new("r1".to_string(), vec![seat("a"), seat("b"), seat("c"), seat("d")])
}

#[test]
fn server_card_order_puts_high_ranks_first_within_a_suit() {
    assert_eq!(c(Suit::Spades, Rank::Three).cmp(&c(Suit::Spades, Rank::Two)), Ordering::Less);
    assert_eq!(c(Suit::Spades, Rank::Ace).cmp(&c(Suit::Spades, Rank::Three)), Ordering::Greater);
    assert_eq!(c(Suit::Spades, Rank::Three).cmp(&c(Suit::Hearts, Rank::Three)), Ordering::Greater);
    assert_eq!(c(Suit::Clubs, Rank::Ace).cmp(&c(Suit::Hearts, Rank::Three)), Ordering::Less);
    assert_eq!(Card::small_joker().cmp(&c(Suit::Spades, Rank::Three)), Ordering::Greater);
    assert_eq!(Card::small_joker().cmp(&Card::large_joker()), Ordering::Less);
    assert_eq!(c(Suit::Clubs, Rank::Ace).cmp(&c(Suit::Clubs, Rank::Ace)), Ordering::Equal);
    assert_eq!(
        c(Suit::Clubs, Rank::Ace).partial_cmp(&c(Suit::Diamonds, Rank::Ace)),
        Some(Ordering::Greater)
    );
}

#[test]
fn server_trick_order_with_trump() {
    assert_eq!(card_cmp(&c(Suit::Hearts, Rank::Three), &c(Suit::Spades, Rank::Three), &Some(Suit::Hearts)), 1);
    assert_eq!(card_cmp(&c(Suit::Hearts, Rank::Three), &c(Suit::Spades, Rank::Three), &None), -1);
    assert_eq!(card_cmp(&c(Suit::Hearts, Rank::Two), &c(Suit::Hearts, Rank::Four), &None), 1);
    assert_eq!(card_cmp(&c(Suit::Hearts, Rank::Ace), &c(Suit::Hearts, Rank::Three), &Some(Suit::Spades)), 1);
    assert_eq!(card_cmp(&Card::large_joker(), &c(Suit::Hearts, Rank::Four), &Some(Suit::Hearts)), 1);
    assert!(card_greater(&c(Suit::Diamonds, Rank::Three), &c(Suit::Spades, Rank::Two), &Some(Suit::Diamonds)));
    assert!(!card_greater(&c(Suit::Diamonds, Rank::Three), &c(Suit::Diamonds, Rank::Three), &None));
}

#[test]
fn server_sort_strongest_first() {
    let mut cards = vec![
        c(Suit::Spades, Rank::Two),
        c(Suit::Spades, Rank::Three),
        c(Suit::Hearts, Rank::Three),
        Card::large_joker(),
    ];
    sort_cards(&mut cards, &Some(Suit::Hearts));
    assert_eq!(
        cards,
        vec![Card::large_joker(), c(Suit::Spades, Rank::Two), c(Suit::Spades, Rank::Three), c(Suit::Hearts, Rank::Three)]
    );
}

#[test]
fn server_shuffle_keeps_the_cards() {
    let mut deck = create_deck();
    shuffle(&mut deck);
    assert_eq!(deck.len(), 54);
    let mut a = deck.clone();
    let mut b = create_deck();
    sort_cards(&mut a, &None);
    sort_cards(&mut b, &None);
    assert_eq!(a, b);
    let mut nums: Vec<u32> = (0..100).collect();
    shuffle(&mut nums);
    nums.sort();
    assert_eq!(nums, (0..100).collect::<Vec<u32>>());
}

#[test]
fn server_deck_and_indices() {
    let deck = create_deck();
    assert_eq!(deck.len(), 54);
    assert_eq!(deck[0], c(Suit::Spades, Rank::Three));
    assert_eq!(deck[53], Card::large_joker());
    assert_eq!(Suit::from_index(9), Suit::Spades);
    assert_eq!(Rank::from_index(40), Rank::Three);
    assert_eq!(Rank::from_index(11), Rank::Ace);
    assert_eq!(deck.iter().map(|x| x.score()).sum::<i32>(), 100);
}

fn dealt_room() -> GameRoom {
    let mut r = room();
    r.deal_from_deck(create_deck());
    r
}

#[test]
fn server_deal_from_unshuffled_deck() {
    let r = dealt_room();
    assert_eq!(r.phase, GamePhase::Bidding);
    assert_eq!(r.current_player, 0);
    let expect0: Vec<Card> = (0..12u8).rev().map(|i| c(Suit::Spades, Rank::from_index(i))).collect();
    assert_eq!(r.players[0].cards, expect0);
    assert_eq!(r.players[1].cards[0], c(Suit::Spades, Rank::Two));
    assert_eq!(r.players[1].cards[1], c(Suit::Hearts, Rank::King));
    assert_eq!(r.bottom_cards.len(), 6);
    let mut random = room();
    random.deal_cards();
    assert!(random.players.iter().all(|p| p.cards.len() == 12));
}

#[test]
fn server_bidding_rounds() {
    let mut r = dealt_room();
    assert!(!r.bid(1, 80)); // out of turn
    assert!(!r.bid(0, 70));
    assert!(r.bid(0, 80));
    // the turn passes on after a bid
    assert_eq!(r.current_player, 1);
    assert_eq!(r.bids[0], Some(80));
    assert_eq!(r.bidder, Some(0));
    assert!(!r.pass_bid(0));
    assert!(!r.bid(1, 80)); // must top the current bid
    assert!(r.pass_bid(1));
    assert_eq!(r.bids[1], Some(0));
    assert_eq!(r.current_player, 2);
    assert!(r.pass_bid(2));
    assert_eq!(r.phase, GamePhase::Bidding);
    assert!(r.pass_bid(3));
    assert_eq!(r.phase, GamePhase::Playing);
    assert_eq!(r.trump_suit, Some(Suit::Spades));
    assert_eq!(r.current_player, 0);
    assert_eq!(r.round_number, 1);
    assert!(r.players[0].is_ready);
    let mut expect = vec![Card::large_joker(), Card::small_joker()];
    for i in (2..12u8).rev() {
        expect.push(c(Suit::Spades, Rank::from_index(i)));
    }
    assert_eq!(r.players[0].cards, expect);
}

#[test]
fn server_bids_pass_the_turn_in_order() {
    let mut r = dealt_room();
    assert!(r.bid(0, 80));
    assert!(r.bid(1, 90));
    assert!(r.bid(2, 100));
    assert_eq!(r.current_player, 3);
    assert_eq!(r.bidder, Some(2));
    assert_eq!(r.current_bid, 100);
}

fn playing_room() -> GameRoom {
    let mut r = dealt_room();
    assert!(r.bid(0, 80));
    for p in 1..4 {
        assert!(r.pass_bid(p));
    }
    r
}

#[test]
fn server_play_rules_and_tricks() {
    let mut r = playing_room();
    assert!(r.can_play_card(1, &c(Suit::Hearts, Rank::Three)));
    assert_eq!(r.play_card(1, 0), None);
    assert_eq!(r.play_card(0, 12), None);
    let first = r.play_card(0, 2).unwrap();
    assert_eq!(first, c(Suit::Spades, Rank::Ace));
    assert_eq!(r.lead_suit, Some(Suit::Spades));
    assert_eq!(r.current_player, 1);
    // seat 1 holds the spade two, so hearts may not be thrown on a spade lead
    assert!(!r.can_play_card(1, &c(Suit::Hearts, Rank::Three)));
    assert!(r.can_play_card(1, &c(Suit::Spades, Rank::Two)));
    assert!(r.can_play_card(1, &Card::small_joker()));
    // and such a play is refused, leaving the room as it was
    assert_eq!(r.players[1].cards[1], c(Suit::Hearts, Rank::King));
    assert_eq!(r.play_card(1, 1), None);
    assert_eq!(r.players[1].cards.len(), 12);
    assert_eq!(r.current_player, 1);
    assert_eq!(r.round_cards[1], None);
    // seat 2 holds no spade: anything goes
    assert!(r.can_play_card(2, &c(Suit::Clubs, Rank::Five)));
    assert_eq!(r.play_card(1, 0), Some(c(Suit::Spades, Rank::Two)));
    assert_eq!(r.play_card(2, 2), Some(c(Suit::Clubs, Rank::Queen)));
    assert_eq!(r.play_card(3, 0), Some(c(Suit::Clubs, Rank::Two)));
    // the spade two is the strongest card here; the ace's ten points go to seat 1's team
    assert_eq!(r.current_player, 1);
    assert_eq!(r.scores, [0, 10]);
    assert_eq!(r.round_number, 2);
    assert_eq!(r.lead_suit, None);
    assert!(r.round_cards.iter().all(|x| x.is_none()));
    assert!(!r.is_game_over());
    assert_eq!(r.get_result(), None);
}

#[test]
fn server_result_after_all_cards() {
    let mut r = playing_room();
    let mut turns = 0;
    while !r.is_game_over() && turns < 200 {
        let p = r.current_player;
        if r.players[p].cards.is_empty() {
            break;
        }
        let hand = r.players[p].cards.clone();
        let idx = (0..hand.len()).find(|&i| r.can_play_card(p, &hand[i])).unwrap();
        r.play_card(p, idx).unwrap();
        turns += 1;
    }
    assert!(r.is_game_over());
    let (ok, score, bid) = r.get_result().unwrap();
    assert_eq!(bid, 80);
    assert_eq!(score, r.scores[0]);
    assert_eq!(ok, score >= 80);
    // every point is won but the diamond ace's, which the bidder put away
    assert_eq!(r.scores[0] + r.scores[1], 90);
}

#[test]
fn server_play_refused_before_playing() {
    let mut r = dealt_room();
    assert_eq!(r.play_card(0, 0), None);
    assert!(!r.can_play_card(0, &c(Suit::Spades, Rank::Two)));
}

#[test]
fn server_shuffle_by_picks() {
    let mut v = vec![0u32, 1, 2, 3];
    shuffle_by(&mut v, &vec![0, 1, 0, 2]);
    assert_eq!(v, vec![3, 1, 0, 2]);
    let mut w = vec![5u32, 6, 7];
    shuffle_by(&mut w, &vec![9, 9, 9]);
    assert_eq!(w, vec![7, 6, 5]);
    let mut e: Vec<u32> = Vec::new();
    shuffle_by(&mut e, &Vec::new());
    assert!(e.is_empty());
}
