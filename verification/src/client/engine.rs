use vstd::prelude::*;
use crate::client::card::{
    all_wf, beats, card_strength, create_deck, full_deck, sort_hand, weaker_first,
};
use crate::client::types::{
    Card, GamePhase, GameState, Player, PlayerView, StateView, Suit, fresh_state, player_views,
};
use crate::sorting::sort_by;

verus! {

broadcast use vstd::string::group_string_axioms;

// ---------------------------------------------------------------------------
// The model of a table and of each move on it.
// ---------------------------------------------------------------------------

/// What every table reachable through the engine satisfies: four trick slots,
/// either no seats or four, a current seat among the four, four seats while
/// cards are played, and only well-formed cards in hands, bottom and trick.
pub open spec fn table_wf(s: StateView) -> bool {
    &&& s.round_cards.len() == 4
    &&& s.scores.len() == 2
    &&& (s.players.len() == 0 || s.players.len() == 4)
    &&& s.current_player < 4
    &&& s.phase == GamePhase::Playing ==> s.players.len() == 4
    &&& all_wf(s.bottom_cards)
    &&& forall|i: int| 0 <= i < s.players.len() ==> all_wf(#[trigger] s.players[i].cards)
    &&& forall|i: int| 0 <= i < 4 ==> (#[trigger] s.round_cards[i] matches Some(c) ==> c.wf())
}

/// Four seats named after `names`, empty-handed, seat `i` with id `i`; the game moves to dealing.
pub open spec fn seated(s: StateView, names: Seq<Seq<char>>) -> StateView {
    StateView {
        players: Seq::new(
            4,
            |i: int|
                PlayerView {
                    id: i as usize,
                    name: names[i],
                    cards: Seq::empty(),
                    is_host: false,
                    is_robot: false,
                    score: 0,
                },
        ),
        phase: GamePhase::Dealing,
        ..s
    }
}

/// Seat `i` gets cards `12 i .. 12 i + 12` of `deck`, sorted from the weakest up;
/// cards 48 to 53 become the bottom; bidding starts.
pub open spec fn dealt(s: StateView, deck: Seq<Card>) -> StateView {
    StateView {
        players: Seq::new(
            s.players.len(),
            |i: int|
                PlayerView {
                    cards: sort_by(deck.subrange(12 * i, 12 * i + 12), weaker_first(s.trump_suit)),
                    ..s.players[i]
                },
        ),
        bottom_cards: deck.subrange(48, 54),
        phase: GamePhase::Bidding,
        ..s
    }
}

/// A bid is taken while bidding, when it tops the current bid and is at least 75.
pub open spec fn bid_taken(s: StateView, bid: u32) -> bool {
    s.phase == GamePhase::Bidding && bid > s.current_bid && bid >= 75
}

/// The first twelve cards of a hand (all of it when shorter).
pub open spec fn first_twelve(cards: Seq<Card>) -> Seq<Card> {
    if cards.len() > 12 {
        cards.take(12)
    } else {
        cards
    }
}

/// With a bidder: the bidder becomes host, takes the bottom cards into the hand,
/// sorts it and keeps the twelve weakest; spades become trump and the bidder
/// leads the first round. Without a bidder nothing changes.
pub open spec fn bidder_confirmed(s: StateView) -> StateView {
    match s.bidder {
        None => s,
        Some(b) => StateView {
            players: s.players.update(
                b as int,
                PlayerView {
                    is_host: true,
                    cards: first_twelve(
                        sort_by(s.players[b as int].cards + s.bottom_cards, weaker_first(s.trump_suit)),
                    ),
                    ..s.players[b as int]
                },
            ),
            trump_suit: Some(Suit::Spades),
            phase: GamePhase::Playing,
            current_player: b,
            round_number: 1,
            ..s
        },
    }
}

/// Every trick slot holds a card.
pub open spec fn trick_full(rc: Seq<Option<Card>>) -> bool {
    forall|i: int| 0 <= i < rc.len() ==> #[trigger] rc[i] is Some
}

/// Some trick slot holds a card.
pub open spec fn trick_started(rc: Seq<Option<Card>>) -> bool {
    exists|i: int| 0 <= i < rc.len() && #[trigger] rc[i] is Some
}

/// The strength of the card in slot `i`, or -1 for an empty slot.
pub open spec fn slot_strength(rc: Seq<Option<Card>>, i: int, trump: Option<Suit>) -> int {
    match rc[i] {
        Some(c) => card_strength(c, trump),
        None => -1,
    }
}

/// `w` holds the strongest card of the trick, and no earlier slot holds one as strong.
pub open spec fn is_trick_winner(rc: Seq<Option<Card>>, trump: Option<Suit>, w: int) -> bool {
    &&& 0 <= w < rc.len()
    &&& rc[w] is Some
    &&& forall|j: int| 0 <= j < rc.len() ==> slot_strength(rc, j, trump) <= slot_strength(rc, w, trump)
    &&& forall|j: int| 0 <= j < w ==> slot_strength(rc, j, trump) < slot_strength(rc, w, trump)
}

/// The seat that takes the trick.
pub open spec fn trick_winner(rc: Seq<Option<Card>>, trump: Option<Suit>) -> int {
    choose|w: int| is_trick_winner(rc, trump, w)
}

/// The points in a trick: the scores of its cards.
pub open spec fn trick_points(rc: Seq<Option<Card>>) -> int
    decreases rc.len(),
{
    if rc.len() == 0 {
        0
    } else {
        trick_points(rc.drop_last()) + match rc.last() {
            Some(c) => c.score_spec() as int,
            None => 0,
        }
    }
}

/// A play that gets past the checks: cards are being played, it is the seat's
/// turn, and the hand has a card at the index.
pub open spec fn play_allowed(s: StateView, p: usize, idx: usize) -> bool {
    &&& s.phase == GamePhase::Playing
    &&& p == s.current_player
    &&& idx < s.players[p as int].cards.len()
}

/// The trick once seat `p` has put down its card at `idx`.
pub open spec fn trick_after(s: StateView, p: usize, idx: usize) -> Seq<Option<Card>> {
    s.round_cards.update(p as int, Some(s.players[p as int].cards[idx as int]))
}

/// The side a seat plays for, as the scores are indexed: 0 for the bidder's
/// (the banker's) side, the seats of the bidder's parity, and 1 for the other
/// side; before anyone has bid, seat 0's side counts as index 0.
pub open spec fn side_of(seat: int, bidder: Option<usize>) -> int {
    let b: int = match bidder {
        Some(b) => b as int,
        None => 0,
    };
    if seat % 2 == b % 2 {
        0
    } else {
        1
    }
}

/// Finishing the trick with this play keeps the team score and the round
/// counter in range.
pub open spec fn play_fits(s: StateView, p: usize, idx: usize) -> bool {
    let rc = trick_after(s, p, idx);
    let team = side_of(trick_winner(rc, s.trump_suit), s.bidder);
    trick_full(rc) ==> (s.scores[team] + trick_points(rc) <= i32::MAX && s.round_number < u32::MAX)
}

/// The side of the trick's winner (see `side_of`) gains the trick's points
/// and the trick slots empty.
pub open spec fn trick_settled(s: StateView) -> StateView {
    let w = trick_winner(s.round_cards, s.trump_suit);
    let team = side_of(w, s.bidder);
    StateView {
        scores: s.scores.update(team, (s.scores[team] + trick_points(s.round_cards)) as i32),
        round_cards: seq![None::<Card>, None, None, None],
        ..s
    }
}

/// The table after seat `p` plays the card at `idx`: the card leaves the hand
/// and fills the seat's trick slot; a full trick goes to its winner, whose team
/// gains its points, the slots empty and the round counter moves on; the turn
/// passes to the next seat.
pub open spec fn played(s: StateView, p: usize, idx: usize) -> StateView {
    let players = s.players.update(
        p as int,
        PlayerView { cards: s.players[p as int].cards.remove(idx as int), ..s.players[p as int] },
    );
    let rc = trick_after(s, p, idx);
    let next = ((s.current_player + 1) % 4) as usize;
    let put = StateView { players, round_cards: rc, ..s };
    if trick_full(rc) {
        StateView {
            round_winner: Some(trick_winner(rc, s.trump_suit) as usize),
            round_number: (s.round_number + 1) as u32,
            current_player: next,
            ..trick_settled(put)
        }
    } else {
        StateView { current_player: next, ..put }
    }
}

/// Every hand is empty.
pub open spec fn hands_empty(s: StateView) -> bool {
    forall|i: int| 0 <= i < s.players.len() ==> #[trigger] s.players[i].cards.len() == 0
}

/// Once every hand is empty and someone bid: whether the bidder's side made
/// the bid, and that side's score (the first of the two).
pub open spec fn outcome(s: StateView) -> Option<(bool, i32)> {
    if !hands_empty(s) {
        None
    } else {
        match s.bidder {
            None => None,
            Some(b) => {
                let score = s.scores[0];
                Some((score >= s.current_bid as i32, score))
            },
        }
    }
}

// ---------------------------------------------------------------------------
// Facts about tricks.
// ---------------------------------------------------------------------------

/// A full trick has exactly one winner.
pub proof fn lemma_trick_winner_unique(rc: Seq<Option<Card>>, trump: Option<Suit>, w1: int, w2: int)
    requires
        is_trick_winner(rc, trump, w1),
        is_trick_winner(rc, trump, w2),
    ensures
        w1 == w2,
{
    if w1 < w2 {
        assert(slot_strength(rc, w1, trump) < slot_strength(rc, w2, trump));
    } else if w2 < w1 {
        assert(slot_strength(rc, w2, trump) < slot_strength(rc, w1, trump));
    }
}

/// The points of a trick lie between 0 and 10 per slot.
pub proof fn lemma_trick_points_bounds(rc: Seq<Option<Card>>)
    ensures
        0 <= trick_points(rc) <= 10 * rc.len(),
    decreases rc.len(),
{
    if rc.len() > 0 {
        lemma_trick_points_bounds(rc.drop_last());
    }
}

} // verus!

verus! {

/// The game engine of one table.
pub struct GameEngine {
    state: GameState,
}

impl View for GameEngine {
    type V = StateView;

    closed spec fn view(&self) -> StateView {
        self.state@
    }
}

/// Puts `cards` into the hand of seat `i`.
fn set_hand(players: &mut Vec<Player>, i: usize, cards: Vec<Card>)
    requires
        i < old(players)@.len(),
    ensures
        player_views(final(players)@) == player_views(old(players)@).update(
            i as int,
            PlayerView { cards: cards@, ..old(players)@[i as int]@ },
        ),
{
    let mut p = players.remove(i);
    p.cards = cards;
    players.insert(i, p);
    assert(player_views(final(players)@) =~= player_views(old(players)@).update(
        i as int,
        PlayerView { cards: cards@, ..old(players)@[i as int]@ },
    ));
}

/// Shuffles the deck in place with `rand`'s `SliceRandom::shuffle` driven by
/// `rand::thread_rng()`. Claimed: the deck afterwards holds the same cards (the
/// crate's shuffle only swaps elements). Which order comes out rests on chance
/// and is left open.
#[verifier::external_body]
fn shuffle_deck(deck: &mut Vec<Card>)
    ensures
        final(deck)@.to_multiset() == old(deck)@.to_multiset(),
        final(deck)@.len() == old(deck)@.len(),
{
    rand::seq::SliceRandom::shuffle(deck.as_mut_slice(), &mut rand::thread_rng());
}

impl GameEngine {
    /// The engine's table satisfies `table_wf`.
    pub open spec fn wf(&self) -> bool {
        table_wf(self@)
    }

    pub fn new() -> (e: GameEngine)
        ensures
            e@ == fresh_state(),
            e.wf(),
    {
        GameEngine { state: GameState::new() }
    }

    /// Seats four players named after `player_names` and moves on to dealing.
    pub fn init_game(&mut self, player_names: Vec<String>)
        requires
            old(self).wf(),
            player_names@.len() == 4,
        ensures
            final(self).wf(),
            final(self)@ == seated(old(self)@, player_names@.map_values(|n: String| n@)),
    {
        let mut players: Vec<Player> = Vec::with_capacity(4);
        let mut id: usize = 0;
        while id < player_names.len()
            invariant
                id <= player_names@.len() == 4,
                players@.len() == id,
                forall|i: int|
                    0 <= i < id ==> #[trigger] players@[i]@ == (PlayerView {
                        id: i as usize,
                        name: player_names@[i]@,
                        cards: Seq::empty(),
                        is_host: false,
                        is_robot: false,
                        score: 0,
                    }),
            decreases player_names@.len() - id,
        {
            let p = Player::new(id, player_names[id].clone());
            players.push(p);
            id = id + 1;
        }
        self.state.players = players;
        self.state.phase = GamePhase::Dealing;
        assert(self@ =~= seated(old(self)@, player_names@.map_values(|n: String| n@)));
    }

    /// Deals a freshly shuffled deck.
    pub fn deal_cards(&mut self)
        requires
            old(self).wf(),
        ensures
            final(self).wf(),
            exists|deck: Seq<Card>|
                deck.to_multiset() == full_deck().to_multiset() && #[trigger] dealt(old(self)@, deck)
                    == final(self)@,
    {
        let mut deck = create_deck();
        shuffle_deck(&mut deck);
        proof {
            assert forall|i: int| 0 <= i < deck@.len() implies #[trigger] deck@[i].wf() by {
                crate::sorting::lemma_same_elements(deck@, full_deck(), i);
            }
        }
        let ghost d = deck@;
        self.deal_from_deck(deck);
        assert(d.to_multiset() == full_deck().to_multiset() && dealt(old(self)@, d) == self@);
    }

    /// Deals the given 54-card deck: twelve cards to each seat, sorted from the
    /// weakest up, and the last six to the bottom; bidding starts.
    pub fn deal_from_deck(&mut self, deck: Vec<Card>)
        requires
            old(self).wf(),
            deck@.len() == 54,
            all_wf(deck@),
        ensures
            final(self).wf(),
            final(self)@ == dealt(old(self)@, deck@),
    {
        let n = self.state.players.len();
        let ghost trump = self.state.trump_suit;
        let mut i: usize = 0;
        while i < n
            invariant
                n == self@.players.len(),
                n == 0 || n == 4,
                i <= n,
                deck@.len() == 54,
                all_wf(deck@),
                self.state.trump_suit == trump,
                trump == old(self)@.trump_suit,
                self@ == (StateView { players: self@.players, ..old(self)@ }),
                forall|k: int|
                    0 <= k < n ==> #[trigger] self@.players[k] == if k < i {
                        PlayerView {
                            cards: sort_by(deck@.subrange(12 * k, 12 * k + 12), weaker_first(trump)),
                            ..old(self)@.players[k]
                        }
                    } else {
                        old(self)@.players[k]
                    },
                forall|k: int| 0 <= k < n ==> all_wf(#[trigger] self@.players[k].cards),
            decreases n - i,
        {
            let start = i * 12;
            let mut hand: Vec<Card> = Vec::with_capacity(12);
            let mut j: usize = start;
            while j < start + 12
                invariant
                    start == i * 12,
                    i < 4,
                    start <= j <= start + 12,
                    deck@.len() == 54,
                    hand@ == deck@.subrange(start as int, j as int),
                decreases start + 12 - j,
            {
                hand.push(deck[j]);
                j = j + 1;
            }
            assert(all_wf(hand@));
            let ghost src = hand@;
            sort_hand(&mut hand, &self.state.trump_suit);
            proof {
                crate::sorting::lemma_sort_multiset(src, weaker_first(trump));
                assert forall|k: int| 0 <= k < hand@.len() implies #[trigger] hand@[k].wf() by {
                    crate::sorting::lemma_same_elements(hand@, src, k);
                }
            }
            let ghost prev = self@.players;
            let ghost new_hand = hand@;
            set_hand(&mut self.state.players, i, hand);
            proof {
                assert(src =~= deck@.subrange(12 * i, 12 * i + 12));
                assert(self@.players == prev.update(i as int, PlayerView { cards: new_hand, ..prev[i as int] }));
                assert forall|k: int| 0 <= k < n implies #[trigger] self@.players[k] == if k < i + 1 {
                    PlayerView {
                        cards: sort_by(deck@.subrange(12 * k, 12 * k + 12), weaker_first(trump)),
                        ..old(self)@.players[k]
                    }
                } else {
                    old(self)@.players[k]
                } by {
                    if k == i {
                        assert(prev[k] == old(self)@.players[k]);
                    } else {
                        assert(self@.players[k] == prev[k]);
                    }
                }
            }
            i = i + 1;
        }
        let mut bottom: Vec<Card> = Vec::with_capacity(6);
        let mut j: usize = 48;
        while j < 54
            invariant
                48 <= j <= 54,
                deck@.len() == 54,
                bottom@ == deck@.subrange(48, j as int),
            decreases 54 - j,
        {
            bottom.push(deck[j]);
            j = j + 1;
        }
        self.state.bottom_cards = bottom;
        self.state.phase = GamePhase::Bidding;
        assert(self@.players =~= dealt(old(self)@, deck@).players);
        assert(self@ =~= dealt(old(self)@, deck@));
    }
}

} // verus!

verus! {

impl GameEngine {
    /// Takes a bid: accepted while bidding when it tops the current bid and is
    /// at least 75, and then the bidder leads the bidding.
    pub fn bid(&mut self, player_id: usize, bid: u32) -> (r: bool)
        requires
            old(self).wf(),
        ensures
            final(self).wf(),
            r == bid_taken(old(self)@, bid),
            final(self)@ == if r {
                StateView { current_bid: bid, bidder: Some(player_id), ..old(self)@ }
            } else {
                old(self)@
            },
    {
        if self.state.phase != GamePhase::Bidding {
            return false;
        }
        if bid > self.state.current_bid && bid >= 75 {
            self.state.current_bid = bid;
            self.state.bidder = Some(player_id);
            assert(self@ =~= StateView { current_bid: bid, bidder: Some(player_id), ..old(self)@ });
            true
        } else {
            false
        }
    }

    /// Makes the bidder the host: see `bidder_confirmed`.
    pub fn confirm_bidder(&mut self)
        requires
            old(self).wf(),
            old(self)@.bidder matches Some(b) ==> b < old(self)@.players.len(),
        ensures
            final(self).wf(),
            final(self)@ == bidder_confirmed(old(self)@),
    {
        if let Some(bidder_id) = self.state.bidder {
            let ghost prev = self@.players;
            let mut player = self.state.players.remove(bidder_id);
            assert(player@ == prev[bidder_id as int]);
            player.is_host = true;
            let ghost start = player.cards@;
            let mut j: usize = 0;
            while j < self.state.bottom_cards.len()
                invariant
                    j <= self.state.bottom_cards@.len(),
                    player.cards@ == start + self.state.bottom_cards@.take(j as int),
                    bidder_id < prev.len(),
                    player@ == (PlayerView { cards: player.cards@, is_host: true, ..prev[bidder_id as int] }),
                decreases self.state.bottom_cards@.len() - j,
            {
                player.cards.push(self.state.bottom_cards[j]);
                assert(self.state.bottom_cards@.take(j + 1) =~= self.state.bottom_cards@.take(
                    j as int,
                ).push(self.state.bottom_cards@[j as int]));
                j = j + 1;
            }
            assert(self.state.bottom_cards@.take(j as int) =~= self.state.bottom_cards@);
            let ghost joined = player.cards@;
            assert(all_wf(joined)) by {
                assert forall|k: int| 0 <= k < joined.len() implies #[trigger] joined[k].wf() by {
                    if k < start.len() {
                        assert(joined[k] == start[k]);
                    } else {
                        assert(joined[k] == self@.bottom_cards[k - start.len()]);
                    }
                }
            }
            sort_hand(&mut player.cards, &self.state.trump_suit);
            let ghost sorted = player.cards@;
            player.cards.truncate(12);
            proof {
                crate::sorting::lemma_sort_multiset(joined, weaker_first(old(self)@.trump_suit));
                assert forall|k: int| 0 <= k < player.cards@.len() implies #[trigger] player.cards@[k].wf() by {
                    assert(player.cards@[k] == sorted[k]);
                    crate::sorting::lemma_same_elements(sorted, joined, k);
                }
                assert(player.cards@ == first_twelve(sorted));
            }
            self.state.players.insert(bidder_id, player);
            assert(self@.players =~= prev.update(bidder_id as int, player@));
            self.state.trump_suit = Some(Suit::Spades);
            self.state.phase = GamePhase::Playing;
            self.state.current_player = bidder_id;
            self.state.round_number = 1;
            assert(joined == old(self)@.players[bidder_id as int].cards + old(self)@.bottom_cards);
            assert(player@ == (PlayerView {
                is_host: true,
                cards: first_twelve(sort_by(joined, weaker_first(old(self)@.trump_suit))),
                ..old(self)@.players[bidder_id as int]
            }));
            assert(self@.players =~= bidder_confirmed(old(self)@).players);
            assert(self@ =~= bidder_confirmed(old(self)@));
        }
    }

    /// The table as it stands.
    pub fn get_state(&self) -> (s: &GameState)
        ensures
            s@ == self@,
    {
        &self.state
    }

    /// The game is over once every hand is empty.
    pub fn is_game_over(&self) -> (r: bool)
        ensures
            r == hands_empty(self@),
    {
        let n = self.state.players.len();
        let mut i: usize = 0;
        while i < n
            invariant
                n == self@.players.len(),
                i <= n,
                forall|k: int| 0 <= k < i ==> #[trigger] self@.players[k].cards.len() == 0,
            decreases n - i,
        {
            if !self.state.players[i].cards.is_empty() {
                assert(self@.players[i as int].cards.len() != 0);
                return false;
            }
            i = i + 1;
        }
        true
    }

    /// The result once the game is over: whether the bidder's side, whose score
    /// comes first, reached the bid, and that score.
    pub fn get_result(&self) -> (r: Option<(bool, i32)>)
        ensures
            r == outcome(self@),
    {
        if !self.is_game_over() {
            return None;
        }
        let bidder = match self.state.bidder {
            Some(b) => b,
            None => return None,
        };
        let bidder_score = self.state.scores[0];
        let success = bidder_score >= self.state.current_bid as i32;
        Some((success, bidder_score))
    }
}

} // verus!

verus! {

impl GameEngine {
    /// Seat `player_id` plays the card at `card_index` of its hand: see `played`.
    /// Refused, with the table unchanged, outside the playing phase, out of
    /// turn, or for an index past the hand.
    pub fn play_card(&mut self, player_id: usize, card_index: usize) -> (r: Result<Card, String>)
        requires
            old(self).wf(),
            play_allowed(old(self)@, player_id, card_index) ==> play_fits(
                old(self)@,
                player_id,
                card_index,
            ),
        ensures
            final(self).wf(),
            play_allowed(old(self)@, player_id, card_index) ==> (r matches Ok(c) && c
                == old(self)@.players[player_id as int].cards[card_index as int] && final(self)@
                == played(old(self)@, player_id, card_index)),
            !play_allowed(old(self)@, player_id, card_index) ==> r is Err && final(self)@ == old(
                self,
            )@,
            old(self)@.phase != GamePhase::Playing ==> (r matches Err(e) && e@ == "游戏不在出牌阶段"@),
            old(self)@.phase == GamePhase::Playing && player_id != old(self)@.current_player
                ==> (r matches Err(e) && e@ == "不是你的回合"@),
            old(self)@.phase == GamePhase::Playing && player_id == old(self)@.current_player
                && card_index >= old(self)@.players[player_id as int].cards.len() ==> (r matches Err(
                e,
            ) && e@ == "无效的牌索引"@),
    {
        if self.state.phase != GamePhase::Playing {
            return Err("游戏不在出牌阶段".to_string());
        }
        if player_id != self.state.current_player {
            return Err("不是你的回合".to_string());
        }
        if card_index >= self.state.players[player_id].cards.len() {
            return Err("无效的牌索引".to_string());
        }
        let ghost prev = self@.players;
        let mut player = self.state.players.remove(player_id);
        assert(player@ == prev[player_id as int]);
        let card = player.cards.remove(card_index);
        proof {
            assert forall|k: int| 0 <= k < player.cards@.len() implies #[trigger] player.cards@[k].wf() by {
                if k < card_index {
                    assert(player.cards@[k] == prev[player_id as int].cards[k]);
                } else {
                    assert(player.cards@[k] == prev[player_id as int].cards[k + 1]);
                }
            }
            assert(card.wf());
        }
        self.state.players.insert(player_id, player);
        assert(self@.players =~= prev.update(player_id as int, player@));
        self.state.round_cards.set(player_id, Some(card));
        let ghost put = self@;
        assert(put == (StateView {
            players: prev.update(
                player_id as int,
                PlayerView { cards: prev[player_id as int].cards.remove(card_index as int), ..prev[player_id as int] },
            ),
            round_cards: trick_after(old(self)@, player_id, card_index),
            ..old(self)@
        }));
        if all_played(&self.state.round_cards) {
            assert(self@.round_cards[0] is Some);
            let w = self.determine_round_winner();
            self.state.round_winner = Some(w);
            self.state.round_number = self.state.round_number + 1;
        }
        self.state.current_player = (self.state.current_player + 1) % 4;
        assert(self@ =~= played(old(self)@, player_id, card_index));
        Ok(card)
    }

    /// Settles a trick with at least one card in it: see `trick_settled`;
    /// returns the winning seat.
    fn determine_round_winner(&mut self) -> (w: usize)
        requires
            table_wf(old(self)@),
            trick_started(old(self)@.round_cards),
            old(self)@.scores[side_of(trick_winner(old(self)@.round_cards, old(self)@.trump_suit), old(self)@.bidder)]
                + trick_points(old(self)@.round_cards) <= i32::MAX,
        ensures
            table_wf(final(self)@),
            w == trick_winner(old(self)@.round_cards, old(self)@.trump_suit),
            w < 4,
            final(self)@ == trick_settled(old(self)@),
    {
        let ghost rc = self@.round_cards;
        let ghost trump = self@.trump_suit;
        let mut winner: usize = 0;
        let mut max_card: Option<Card> = None;
        let mut i: usize = 0;
        while i < self.state.round_cards.len()
            invariant
                rc == self.state.round_cards@,
                trump == self.state.trump_suit,
                rc.len() == 4,
                i <= 4,
                forall|j: int| 0 <= j < 4 ==> (#[trigger] rc[j] matches Some(c) ==> c.wf()),
                max_card is None <==> (forall|j: int| 0 <= j < i ==> #[trigger] rc[j] is None),
                max_card matches Some(m) ==> {
                    &&& winner < i
                    &&& rc[winner as int] == Some(m)
                    &&& m.wf()
                    &&& forall|j: int| 0 <= j < i ==> slot_strength(rc, j, trump) <= card_strength(m, trump)
                    &&& forall|j: int| 0 <= j < winner ==> slot_strength(rc, j, trump) < card_strength(m, trump)
                },
            decreases 4 - i,
        {
            if let Some(card) = self.state.round_cards[i] {
                match max_card {
                    Some(max) => {
                        if beats(&card, &max, &self.state.trump_suit) {
                            winner = i;
                            max_card = Some(card);
                        }
                    },
                    None => {
                        winner = i;
                        max_card = Some(card);
                    },
                }
            }
            i = i + 1;
        }
        proof {
            let some = choose|j: int| 0 <= j < rc.len() && #[trigger] rc[j] is Some;
            assert(rc[some] is Some);
            assert(max_card is Some);
            assert(is_trick_winner(rc, trump, winner as int));
            let c = trick_winner(rc, trump);
            lemma_trick_winner_unique(rc, trump, c, winner as int);
        }
        let mut round_score: i32 = 0;
        let mut k: usize = 0;
        while k < self.state.round_cards.len()
            invariant
                rc == self.state.round_cards@,
                rc.len() == 4,
                k <= 4,
                round_score == trick_points(rc.take(k as int)),
                0 <= round_score <= 10 * k,
            decreases 4 - k,
        {
            assert(rc.take(k + 1).drop_last() =~= rc.take(k as int));
            if let Some(card) = self.state.round_cards[k] {
                round_score = round_score + card.score();
            }
            k = k + 1;
        }
        assert(rc.take(4) =~= rc);
        let winner_team: usize = match self.state.bidder {
            Some(b) => if winner % 2 == b % 2 { 0 } else { 1 },
            None => winner % 2,
        };
        self.state.scores[winner_team] = self.state.scores[winner_team] + round_score;
        let mut fresh: Vec<Option<Card>> = Vec::with_capacity(4);
        fresh.push(None);
        fresh.push(None);
        fresh.push(None);
        fresh.push(None);
        self.state.round_cards = fresh;
        assert(self@ =~= trick_settled(old(self)@));
        winner
    }
}

/// Whether every trick slot holds a card.
fn all_played(round_cards: &Vec<Option<Card>>) -> (r: bool)
    ensures
        r == trick_full(round_cards@),
{
    let mut i: usize = 0;
    while i < round_cards.len()
        invariant
            i <= round_cards@.len(),
            forall|j: int| 0 <= j < i ==> #[trigger] round_cards@[j] is Some,
        decreases round_cards@.len() - i,
    {
        if round_cards[i].is_none() {
            return false;
        }
        i = i + 1;
    }
    true
}

} // verus!

verus! {

proof fn best_in_prefix(rc: Seq<Option<Card>>, trump: Option<Suit>, n: int) -> (w: int)
    requires
        1 <= n <= rc.len(),
        trick_full(rc),
    ensures
        0 <= w < n,
        forall|j: int| 0 <= j < n ==> slot_strength(rc, j, trump) <= slot_strength(rc, w, trump),
        forall|j: int| 0 <= j < w ==> slot_strength(rc, j, trump) < slot_strength(rc, w, trump),
    decreases n,
{
    if n == 1 {
        0
    } else {
        let v = best_in_prefix(rc, trump, n - 1);
        if slot_strength(rc, n - 1, trump) > slot_strength(rc, v, trump) {
            n - 1
        } else {
            v
        }
    }
}

/// A full trick goes to exactly one seat: the first one holding the strongest card.
pub proof fn law_trick_winner(rc: Seq<Option<Card>>, trump: Option<Suit>)
    requires
        rc.len() > 0,
        trick_full(rc),
    ensures
        is_trick_winner(rc, trump, trick_winner(rc, trump)),
        forall|w: int| is_trick_winner(rc, trump, w) ==> w == trick_winner(rc, trump),
{
    let w = best_in_prefix(rc, trump, rc.len() as int);
    assert(rc[w] is Some);
    assert(is_trick_winner(rc, trump, w));
    assert forall|v: int| is_trick_winner(rc, trump, v) implies v == trick_winner(rc, trump) by {
        lemma_trick_winner_unique(rc, trump, v, trick_winner(rc, trump));
    }
}

/// Dealing to four seats hands out the whole deck: twelve cards to each seat,
/// sorted from the weakest up, and six to the bottom, every card exactly once.
pub proof fn law_deal_hands_out_deck(s: StateView, deck: Seq<Card>)
    requires
        s.players.len() == 4,
        deck.len() == 54,
    ensures
        ({
            let d = dealt(s, deck);
            &&& forall|i: int| 0 <= i < 4 ==> (#[trigger] d.players[i]).cards.len() == 12
            &&& d.bottom_cards.len() == 6
            &&& d.players[0].cards.to_multiset().add(d.players[1].cards.to_multiset()).add(
                d.players[2].cards.to_multiset(),
            ).add(d.players[3].cards.to_multiset()).add(d.bottom_cards.to_multiset())
                == deck.to_multiset()
        }),
{
    let d = dealt(s, deck);
    let before = weaker_first(s.trump_suit);
    assert forall|i: int| 0 <= i < 4 implies (#[trigger] d.players[i]).cards.to_multiset()
        == deck.subrange(12 * i, 12 * i + 12).to_multiset() && d.players[i].cards.len() == 12 by {
        crate::sorting::lemma_sort_multiset(deck.subrange(12 * i, 12 * i + 12), before);
    }
    let p0 = deck.subrange(0, 12);
    let p1 = deck.subrange(12, 24);
    let p2 = deck.subrange(24, 36);
    let p3 = deck.subrange(36, 48);
    let p4 = deck.subrange(48, 54);
    assert(deck =~= p0 + p1 + p2 + p3 + p4);
    vstd::seq_lib::lemma_multiset_commutative(p0, p1);
    vstd::seq_lib::lemma_multiset_commutative(p0 + p1, p2);
    vstd::seq_lib::lemma_multiset_commutative(p0 + p1 + p2, p3);
    vstd::seq_lib::lemma_multiset_commutative(p0 + p1 + p2 + p3, p4);
    assert(d.players[0].cards.to_multiset() == p0.to_multiset());
    assert(d.players[1].cards.to_multiset() == p1.to_multiset());
    assert(d.players[2].cards.to_multiset() == p2.to_multiset());
    assert(d.players[3].cards.to_multiset() == p3.to_multiset());
}

/// Playing a card takes exactly that card out of the player's hand and leaves
/// every other hand as it was; while the trick is not full, the card lies in
/// the player's slot.
pub proof fn law_play_moves_card(s: StateView, p: usize, idx: usize)
    requires
        table_wf(s),
        play_allowed(s, p, idx),
    ensures
        ({
            let t = played(s, p, idx);
            let card = s.players[p as int].cards[idx as int];
            &&& t.players[p as int].cards.to_multiset().insert(card) == s.players[p as int].cards.to_multiset()
            &&& forall|q: int| 0 <= q < 4 && q != p ==> #[trigger] t.players[q] == s.players[q]
            &&& !trick_full(trick_after(s, p, idx)) ==> t.round_cards[p as int] == Some(card)
            &&& t.current_player == (s.current_player + 1) % 4
        }),
{
    let hand = s.players[p as int].cards;
    hand.to_multiset_ensures();
    assert(hand.remove(idx as int).to_multiset() =~= hand.to_multiset().remove(hand[idx as int]));
    assert(hand.to_multiset().count(hand[idx as int]) > 0) by {
        assert(hand.contains(hand[idx as int]));
    }
}

} // verus!

verus! {

/// Team scores never go down, and a trick's points go to the side that won
/// it: the play that fills a trick adds the trick's points, which are never
/// negative, to the side of the trick's winner (the bidder's side first, see
/// `side_of`) and leaves the other side's score as it was; any other play
/// leaves both scores alone.
pub proof fn law_scores_never_drop(s: StateView, p: usize, idx: usize)
    requires
        table_wf(s),
        play_allowed(s, p, idx),
        play_fits(s, p, idx),
    ensures
        forall|k: int| 0 <= k < 2 ==> #[trigger] played(s, p, idx).scores[k] >= s.scores[k],
        ({
            let rc = trick_after(s, p, idx);
            let team = side_of(trick_winner(rc, s.trump_suit), s.bidder);
            let t = played(s, p, idx);
            trick_full(rc) ==> t.scores[team] == s.scores[team] + trick_points(rc) && t.scores[1 - team]
                == s.scores[1 - team]
        }),
        !trick_full(trick_after(s, p, idx)) ==> played(s, p, idx).scores == s.scores,
{
    let rc = trick_after(s, p, idx);
    lemma_trick_points_bounds(rc);
}

} // verus!

verus! {

/// Which bids are taken: while bidding, exactly those that top the current
/// bid and reach 75; none outside the bidding phase. A taken bid makes its
/// seat the bidder at that amount.
pub proof fn law_bids_taken(s: StateView, bid: u32)
    ensures
        s.phase != GamePhase::Bidding ==> !bid_taken(s, bid),
        s.phase == GamePhase::Bidding ==> (bid_taken(s, bid) <==> (bid > s.current_bid && bid >= 75)),
        bid < 75 ==> !bid_taken(s, bid),
{
}

} // verus!

verus! {

/// The result speaks for the bidder's side, whose score comes first: once
/// every hand is empty and seat `b` holds the bid, the reported score is
/// `scores[0]` and success is that score reaching the bid. A trick won by the
/// bidder or the partner (the seat across, of the same parity) is booked
/// there, one won by an opponent on `scores[1]`.
pub proof fn law_result_is_bidders_side(s: StateView, b: usize, w: int)
    requires
        s.bidder == Some(b),
    ensures
        hands_empty(s) ==> outcome(s) == Some((s.scores[0] >= s.current_bid as i32, s.scores[0])),
        w % 2 == b % 2 ==> side_of(w, s.bidder) == 0,
        w % 2 != b % 2 ==> side_of(w, s.bidder) == 1,
{
}

/// A trick won by a seat of the bidder's side counts for the bidder: when the
/// last trick goes to such a seat, the score that the result reports is the
/// side's score before it plus the trick's points.
pub proof fn law_bidders_tricks_count_for_result(s: StateView, b: usize)
    requires
        s.bidder == Some(b),
        s.scores.len() == 2,
        hands_empty(s),
        trick_winner(s.round_cards, s.trump_suit) % 2 == b % 2,
        s.scores[0] + trick_points(s.round_cards) <= i32::MAX,
    ensures
        outcome(trick_settled(s)) matches Some((_, score)) && score == s.scores[0] + trick_points(s.round_cards),
{
    lemma_trick_points_bounds(s.round_cards);
    let t = trick_settled(s);
    assert(t.players == s.players);
    assert(hands_empty(t));
}

} // verus!
