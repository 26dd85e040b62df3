use vstd::prelude::*;
pub use crate::server::cards::{Card, Joker, Rank, Suit};
use crate::server::cards::{
    card_greater, create_deck, full_deck, shuffle, sort_cards, stronger_first,
    trick_strength,
};
use crate::sorting::sort_by;

verus! {

/// The phases of a room's game.
#[derive(Debug, Clone, Copy, PartialEq, Eq, Structural)]
pub enum GamePhase {
    Waiting,
    Bidding,
    Playing,
    Scoring,
}

/// A seat in a game room.
#[derive(Debug, Clone)]
pub struct GamePlayer {
    pub user_id: String,
    pub username: String,
    pub cards: Vec<Card>,
    pub is_robot: bool,
    pub is_ready: bool,
}

/// A game in progress in one room.
#[derive(Debug, Clone)]
pub struct GameRoom {
    pub id: String,
    pub players: Vec<GamePlayer>,
    pub phase: GamePhase,
    pub current_player: usize,
    pub current_bid: u32,
    pub bidder: Option<usize>,
    pub bids: Vec<Option<u32>>,
    pub trump_suit: Option<Suit>,
    pub bottom_cards: Vec<Card>,
    pub round_cards: Vec<Option<Card>>,
    pub scores: [i32; 2],
    pub round_number: u32,
    pub lead_suit: Option<Suit>,
}

/// What a seat holds, as plain values.
#[verifier::ext_equal]
pub struct GamePlayerView {
    pub user_id: Seq<char>,
    pub username: Seq<char>,
    pub cards: Seq<Card>,
    pub is_robot: bool,
    pub is_ready: bool,
}

impl View for GamePlayer {
    type V = GamePlayerView;

    open spec fn view(&self) -> GamePlayerView {
        GamePlayerView {
            user_id: self.user_id@,
            username: self.username@,
            cards: self.cards@,
            is_robot: self.is_robot,
            is_ready: self.is_ready,
        }
    }
}

/// The views of a row of seats.
pub open spec fn seat_views(ps: Seq<GamePlayer>) -> Seq<GamePlayerView> {
    ps.map_values(|p: GamePlayer| p@)
}

/// What a room holds, as plain values.
#[verifier::ext_equal]
pub struct RoomView {
    pub id: Seq<char>,
    pub players: Seq<GamePlayerView>,
    pub phase: GamePhase,
    pub current_player: usize,
    pub current_bid: u32,
    pub bidder: Option<usize>,
    pub bids: Seq<Option<u32>>,
    pub trump_suit: Option<Suit>,
    pub bottom_cards: Seq<Card>,
    pub round_cards: Seq<Option<Card>>,
    pub scores: Seq<i32>,
    pub round_number: u32,
    pub lead_suit: Option<Suit>,
}

impl View for GameRoom {
    type V = RoomView;

    open spec fn view(&self) -> RoomView {
        RoomView {
            id: self.id@,
            players: seat_views(self.players@),
            phase: self.phase,
            current_player: self.current_player,
            current_bid: self.current_bid,
            bidder: self.bidder,
            bids: self.bids@,
            trump_suit: self.trump_suit,
            bottom_cards: self.bottom_cards@,
            round_cards: self.round_cards@,
            scores: self.scores@,
            round_number: self.round_number,
            lead_suit: self.lead_suit,
        }
    }
}

// ---------------------------------------------------------------------------
// The model of a room and of each move in it.
// ---------------------------------------------------------------------------

/// Four empty trick slots.
pub open spec fn empty_trick() -> Seq<Option<Card>> {
    seq![None::<Card>, None, None, None]
}

/// A room that has just been opened with the given seats.
pub open spec fn opened(id: Seq<char>, players: Seq<GamePlayerView>) -> RoomView {
    RoomView {
        id,
        players,
        phase: GamePhase::Waiting,
        current_player: 0,
        current_bid: 0,
        bidder: None,
        bids: seq![None::<u32>, None, None, None],
        trump_suit: None,
        bottom_cards: Seq::empty(),
        round_cards: empty_trick(),
        scores: seq![0i32, 0i32],
        round_number: 0,
        lead_suit: None,
    }
}

/// Seat `i` gets cards `12 i .. 12 i + 12` of `deck`, strongest first; cards
/// 48 to 53 become the bottom; bidding starts with seat 0.
pub open spec fn room_dealt(r: RoomView, deck: Seq<Card>) -> RoomView {
    RoomView {
        players: Seq::new(
            r.players.len(),
            |i: int|
                GamePlayerView {
                    cards: sort_by(deck.subrange(12 * i, 12 * i + 12), stronger_first()),
                    ..r.players[i]
                },
        ),
        bottom_cards: deck.subrange(48, 54),
        phase: GamePhase::Bidding,
        current_player: 0,
        ..r
    }
}

/// A bid is taken while bidding, from the seat whose turn it is, when it tops
/// the current bid and is at least 75.
pub open spec fn bid_taken(r: RoomView, p: usize, bid: u32) -> bool {
    r.phase == GamePhase::Bidding && p == r.current_player && bid > r.current_bid && bid >= 75
}

/// A pass is taken while bidding, from the seat whose turn it is.
pub open spec fn pass_taken(r: RoomView, p: usize) -> bool {
    r.phase == GamePhase::Bidding && p == r.current_player
}

/// Every seat has bid or passed.
pub open spec fn all_bid(bids: Seq<Option<u32>>) -> bool {
    forall|i: int| 0 <= i < bids.len() ==> #[trigger] bids[i] is Some
}

/// Closing the bidding can run: the bidder sits at the table and, with the
/// bottom cards, holds at least six cards.
pub open spec fn bidding_can_close(r: RoomView) -> bool {
    r.bidder matches Some(b) ==> (b < r.players.len() && r.players[b as int].cards.len()
        + r.bottom_cards.len() >= 6)
}

/// With a bidder: the bidder is marked ready, takes the bottom cards into the
/// hand, sorts it strongest first and gives back six cards from the weak end;
/// spades become trump, the trick empties and the bidder leads round 1.
/// Without a bidder nothing changes.
pub open spec fn bidding_closed(r: RoomView) -> RoomView {
    match r.bidder {
        None => r,
        Some(b) => {
            let joined = r.players[b as int].cards + r.bottom_cards;
            RoomView {
                players: r.players.update(
                    b as int,
                    GamePlayerView {
                        is_ready: true,
                        cards: sort_by(joined, stronger_first()).take(joined.len() - 6),
                        ..r.players[b as int]
                    },
                ),
                trump_suit: Some(Suit::Spades),
                phase: GamePhase::Playing,
                current_player: b,
                round_number: 1,
                round_cards: empty_trick(),
                ..r
            }
        },
    }
}

/// The seat's pass is recorded; when everyone has spoken the bidding closes,
/// else the turn moves to the next seat.
pub open spec fn passed(r: RoomView, p: usize) -> RoomView {
    let r1 = RoomView { bids: r.bids.update(p as int, Some(0u32)), ..r };
    if all_bid(r1.bids) {
        bidding_closed(r1)
    } else {
        RoomView { current_player: ((r.current_player + 1) % 4) as usize, ..r1 }
    }
}

/// A pass can run: the seat has a bid slot and the rest of the step stays in range.
pub open spec fn pass_fits(r: RoomView, p: usize) -> bool {
    let r1 = RoomView { bids: r.bids.update(p as int, Some(0u32)), ..r };
    &&& p < r.bids.len()
    &&& all_bid(r1.bids) ==> bidding_can_close(r1)
    &&& !all_bid(r1.bids) ==> r.current_player < usize::MAX
}

/// Every trick slot is empty.
pub open spec fn trick_empty(rc: Seq<Option<Card>>) -> bool {
    forall|i: int| 0 <= i < rc.len() ==> #[trigger] rc[i] is None
}

/// Every trick slot holds a card.
pub open spec fn trick_full(rc: Seq<Option<Card>>) -> bool {
    forall|i: int| 0 <= i < rc.len() ==> #[trigger] rc[i] is Some
}

/// The hand holds an ordinary card of the suit.
pub open spec fn holds_suit(cards: Seq<Card>, s: Suit) -> bool {
    exists|i: int| 0 <= i < cards.len() && (#[trigger] cards[i]).suit == Some(s) && !cards[i].is_joker_spec()
}

/// The trump suit a play is checked against: the trump, or spades before one is set.
pub open spec fn trump_or_spades(t: Option<Suit>) -> Suit {
    match t {
        Some(s) => s,
        None => Suit::Spades,
    }
}

/// Whether seat `p` may play `card`: only while playing; any card opens a
/// trick; on a lead, jokers, trumps and the lead suit always do, and any other
/// card only when the hand holds no ordinary card of the lead suit.
pub open spec fn may_play(r: RoomView, p: usize, card: Card) -> bool {
    if r.phase != GamePhase::Playing {
        false
    } else if trick_empty(r.round_cards) {
        true
    } else {
        match r.lead_suit {
            Some(l) => if card.is_joker_spec() || card.suit == Some(trump_or_spades(r.trump_suit)) {
                true
            } else if card.suit == Some(l) {
                true
            } else {
                !holds_suit(r.players[p as int].cards, l)
            },
            None => true,
        }
    }
}

/// The check of a play reads the seat's hand.
pub open spec fn check_reads_hand(r: RoomView, card: Card) -> bool {
    &&& r.phase == GamePhase::Playing
    &&& !trick_empty(r.round_cards)
    &&& r.lead_suit is Some
    &&& !(card.is_joker_spec() || card.suit == Some(trump_or_spades(r.trump_suit)))
    &&& card.suit != r.lead_suit
}

/// The strength of the card in slot `i`, or -1 for an empty slot.
pub open spec fn slot_strength(rc: Seq<Option<Card>>, i: int, trump: Option<Suit>) -> int {
    match rc[i] {
        Some(c) => trick_strength(c, trump),
        None => -1,
    }
}

/// `w` holds the strongest card of the trick, and no earlier slot holds one as strong.
pub open spec fn is_round_winner(rc: Seq<Option<Card>>, trump: Option<Suit>, w: int) -> bool {
    &&& 0 <= w < rc.len()
    &&& rc[w] is Some
    &&& forall|j: int| 0 <= j < rc.len() ==> slot_strength(rc, j, trump) <= slot_strength(rc, w, trump)
    &&& forall|j: int| 0 <= j < w ==> slot_strength(rc, j, trump) < slot_strength(rc, w, trump)
}

/// The seat that takes the trick.
pub open spec fn round_winner(rc: Seq<Option<Card>>, trump: Option<Suit>) -> int {
    choose|w: int| is_round_winner(rc, trump, w)
}

/// The points in a trick: the scores of its cards.
pub open spec fn round_points(rc: Seq<Option<Card>>) -> int
    decreases rc.len(),
{
    if rc.len() == 0 {
        0
    } else {
        round_points(rc.drop_last()) + match rc.last() {
            Some(c) => c.score_spec() as int,
            None => 0,
        }
    }
}

/// The trick goes to its winner: the winner's team gains its points, the slots
/// empty, the lead suit clears, the winner leads and the round counter moves on.
pub open spec fn round_closed(r: RoomView) -> RoomView {
    let w = round_winner(r.round_cards, r.trump_suit);
    let team = w % 2;
    RoomView {
        scores: r.scores.update(team, (r.scores[team] + round_points(r.round_cards)) as i32),
        round_cards: empty_trick(),
        lead_suit: None,
        current_player: w as usize,
        round_number: (r.round_number + 1) as u32,
        ..r
    }
}

/// A play gets past the checks: cards are being played, it is the seat's
/// turn, the hand has a card at the index and the rules allow that card
/// (`may_play`).
pub open spec fn play_taken(r: RoomView, p: usize, idx: usize) -> bool {
    &&& r.phase == GamePhase::Playing
    &&& p == r.current_player
    &&& idx < r.players[p as int].cards.len()
    &&& may_play(r, p, r.players[p as int].cards[idx as int])
}

/// The trick once seat `p` has put down its card at `idx`.
pub open spec fn trick_after(r: RoomView, p: usize, idx: usize) -> Seq<Option<Card>> {
    r.round_cards.update(p as int, Some(r.players[p as int].cards[idx as int]))
}

/// A play can run: the seat has a trick slot, and the turn counter and, when
/// the play fills the trick, the team score and the round counter stay in range.
pub open spec fn play_fits(r: RoomView, p: usize, idx: usize) -> bool {
    let rc = trick_after(r, p, idx);
    let team = round_winner(rc, r.trump_suit) % 2;
    &&& p < r.round_cards.len()
    &&& r.current_player < usize::MAX
    &&& trick_full(rc) ==> (round_points(rc) <= i32::MAX && r.scores[team] + round_points(rc) <= i32::MAX
        && r.round_number < u32::MAX)
}

/// The room after seat `p` plays the card at `idx`: the card leaves the hand
/// and fills the seat's slot; the first card of a trick sets the lead suit; the
/// turn passes on; a full trick is closed (`round_closed`).
pub open spec fn room_played(r: RoomView, p: usize, idx: usize) -> RoomView {
    let card = r.players[p as int].cards[idx as int];
    let put = RoomView {
        players: r.players.update(
            p as int,
            GamePlayerView { cards: r.players[p as int].cards.remove(idx as int), ..r.players[p as int] },
        ),
        round_cards: trick_after(r, p, idx),
        lead_suit: if r.lead_suit is None { card.suit } else { r.lead_suit },
        current_player: ((r.current_player + 1) % 4) as usize,
        ..r
    };
    if trick_full(put.round_cards) {
        round_closed(put)
    } else {
        put
    }
}

/// Every hand is empty.
pub open spec fn hands_empty(r: RoomView) -> bool {
    forall|i: int| 0 <= i < r.players.len() ==> #[trigger] r.players[i].cards.len() == 0
}

/// Once every hand is empty and someone bid: whether the bidder's team made the
/// bid, that team's score, and the bid.
pub open spec fn room_outcome(r: RoomView) -> Option<(bool, i32, u32)> {
    if !hands_empty(r) {
        None
    } else {
        match r.bidder {
            None => None,
            Some(b) => {
                let score = r.scores[(b % 2) as int];
                Some((score >= r.current_bid as i32, score, r.current_bid))
            },
        }
    }
}

/// A trick has at most one winner.
pub proof fn lemma_round_winner_unique(rc: Seq<Option<Card>>, trump: Option<Suit>, w1: int, w2: int)
    requires
        is_round_winner(rc, trump, w1),
        is_round_winner(rc, trump, w2),
    ensures
        w1 == w2,
{
    if w1 < w2 {
        assert(slot_strength(rc, w1, trump) < slot_strength(rc, w2, trump));
    } else if w2 < w1 {
        assert(slot_strength(rc, w2, trump) < slot_strength(rc, w1, trump));
    }
}

} // verus!

verus! {

/// Puts a seat back in its place.
fn put_seat(players: &mut Vec<GamePlayer>, i: usize, p: GamePlayer)
    requires
        i <= old(players)@.len(),
    ensures
        final(players)@ == old(players)@.insert(i as int, p),
        seat_views(final(players)@) == seat_views(old(players)@).insert(i as int, p@),
{
    players.insert(i, p);
    assert(seat_views(final(players)@) =~= seat_views(old(players)@).insert(i as int, p@));
}

/// Four empty trick slots.
fn new_trick() -> (v: Vec<Option<Card>>)
    ensures
        v@ == empty_trick(),
{
    let mut v: Vec<Option<Card>> = Vec::with_capacity(4);
    v.push(None);
    v.push(None);
    v.push(None);
    v.push(None);
    v
}

impl GameRoom {
    /// Opens a room with the given seats: waiting, four open bid slots, an
    /// empty trick, no trump and no scores.
    pub fn new(room_id: String, players: Vec<GamePlayer>) -> (r: GameRoom)
        ensures
            r@ == opened(room_id@, seat_views(players@)),
    {
        let mut bids: Vec<Option<u32>> = Vec::with_capacity(4);
        bids.push(None);
        bids.push(None);
        bids.push(None);
        bids.push(None);
        let r = GameRoom {
            id: room_id,
            players,
            phase: GamePhase::Waiting,
            current_player: 0,
            current_bid: 0,
            bidder: None,
            bids,
            trump_suit: None,
            bottom_cards: Vec::new(),
            round_cards: new_trick(),
            scores: [0, 0],
            round_number: 0,
            lead_suit: None,
        };
        assert(r@ =~= opened(room_id@, seat_views(players@)));
        r
    }

    /// Deals a freshly shuffled deck to at most four seats.
    pub fn deal_cards(&mut self)
        requires
            old(self)@.players.len() <= 4,
        ensures
            exists|deck: Seq<Card>|
                deck.to_multiset() == full_deck().to_multiset() && #[trigger] room_dealt(old(self)@, deck)
                    == final(self)@,
    {
        let mut deck = create_deck();
        shuffle(&mut deck);
        let ghost d = deck@;
        self.deal_from_deck(deck);
        assert(d.to_multiset() == full_deck().to_multiset() && room_dealt(old(self)@, d) == self@);
    }

    /// Deals the given 54-card deck: twelve cards to each of at most four
    /// seats, strongest first, and the last six to the bottom; bidding starts
    /// with seat 0.
    pub fn deal_from_deck(&mut self, deck: Vec<Card>)
        requires
            old(self)@.players.len() <= 4,
            deck@.len() == 54,
        ensures
            final(self)@ == room_dealt(old(self)@, deck@),
    {
        let n = self.players.len();
        let mut i: usize = 0;
        while i < n
            invariant
                n == self@.players.len(),
                n <= 4,
                i <= n,
                deck@.len() == 54,
                self@ == (RoomView { players: self@.players, ..old(self)@ }),
                forall|k: int|
                    0 <= k < n ==> #[trigger] self@.players[k] == if k < i {
                        GamePlayerView {
                            cards: sort_by(deck@.subrange(12 * k, 12 * k + 12), stronger_first()),
                            ..old(self)@.players[k]
                        }
                    } else {
                        old(self)@.players[k]
                    },
            decreases n - i,
        {
            let start = i * 12;
            let mut hand: Vec<Card> = Vec::with_capacity(12);
            let mut j: usize = start;
            while j < start + 12
                invariant
                    start == i * 12,
                    i < 4,
                    start <= j <= start + 12,
                    deck@.len() == 54,
                    hand@ == deck@.subrange(start as int, j as int),
                decreases start + 12 - j,
            {
                hand.push(deck[j]);
                j = j + 1;
            }
            let ghost src = hand@;
            sort_cards(&mut hand, &None);
            let ghost prev = self@.players;
            let mut seat = self.players.remove(i);
            assert(seat@ == prev[i as int]);
            seat.cards = hand;
            put_seat(&mut self.players, i, seat);
            proof {
                assert(src =~= deck@.subrange(12 * i, 12 * i + 12));
                assert(self@.players =~= prev.update(i as int, seat@));
                assert forall|k: int| 0 <= k < n implies #[trigger] self@.players[k] == if k < i + 1 {
                    GamePlayerView {
                        cards: sort_by(deck@.subrange(12 * k, 12 * k + 12), stronger_first()),
                        ..old(self)@.players[k]
                    }
                } else {
                    old(self)@.players[k]
                } by {
                    if k == i {
                        assert(prev[k] == old(self)@.players[k]);
                    } else {
                        assert(self@.players[k] == prev[k]);
                    }
                }
            }
            i = i + 1;
        }
        let mut bottom: Vec<Card> = Vec::with_capacity(6);
        let mut j: usize = 48;
        while j < 54
            invariant
                48 <= j <= 54,
                deck@.len() == 54,
                bottom@ == deck@.subrange(48, j as int),
            decreases 54 - j,
        {
            bottom.push(deck[j]);
            j = j + 1;
        }
        self.bottom_cards = bottom;
        self.phase = GamePhase::Bidding;
        self.current_player = 0;
        assert(self@.players =~= room_dealt(old(self)@, deck@).players);
        assert(self@ =~= room_dealt(old(self)@, deck@));
    }

    /// Takes a bid (see `bid_taken`) and passes the turn to the next seat.
    pub fn bid(&mut self, player_id: usize, bid: u32) -> (r: bool)
        requires
            bid_taken(old(self)@, player_id, bid) ==> player_id < old(self)@.bids.len(),
        ensures
            r == bid_taken(old(self)@, player_id, bid),
            final(self)@ == if r {
                RoomView {
                    current_bid: bid,
                    bids: old(self)@.bids.update(player_id as int, Some(bid)),
                    bidder: Some(player_id),
                    current_player: ((player_id + 1) % 4) as usize,
                    ..old(self)@
                }
            } else {
                old(self)@
            },
    {
        if self.phase != GamePhase::Bidding {
            return false;
        }
        if player_id != self.current_player {
            return false;
        }
        if bid > self.current_bid && bid >= 75 {
            self.current_bid = bid;
            self.bids.set(player_id, Some(bid));
            self.bidder = Some(player_id);
            self.current_player = (player_id % 4 + 1) % 4;
            assert((player_id % 4 + 1) % 4 == (player_id + 1) % 4);
            assert(self@ =~= RoomView {
                current_bid: bid,
                bids: old(self)@.bids.update(player_id as int, Some(bid)),
                bidder: Some(player_id),
                current_player: ((player_id + 1) % 4) as usize,
                ..old(self)@
            });
            return true;
        }
        false
    }

    /// Records a pass (see `passed`).
    pub fn pass_bid(&mut self, player_id: usize) -> (r: bool)
        requires
            pass_taken(old(self)@, player_id) ==> pass_fits(old(self)@, player_id),
        ensures
            r == pass_taken(old(self)@, player_id),
            final(self)@ == if r { passed(old(self)@, player_id) } else { old(self)@ },
    {
        if self.phase != GamePhase::Bidding {
            return false;
        }
        if player_id != self.current_player {
            return false;
        }
        self.bids.set(player_id, Some(0));
        let ghost r1 = self@;
        assert(r1 =~= RoomView { bids: old(self)@.bids.update(player_id as int, Some(0u32)), ..old(self)@ });
        if every_bid_in(&self.bids) {
            self.finish_bidding();
        } else {
            self.current_player = (self.current_player + 1) % 4;
            assert(self@ =~= passed(old(self)@, player_id));
        }
        true
    }

    /// Closes the bidding: see `bidding_closed`.
    fn finish_bidding(&mut self)
        requires
            bidding_can_close(old(self)@),
        ensures
            final(self)@ == bidding_closed(old(self)@),
    {
        if let Some(bidder_idx) = self.bidder {
            let ghost prev = self@.players;
            let mut player = self.players.remove(bidder_idx);
            assert(player@ == prev[bidder_idx as int]);
            player.is_ready = true;
            let ghost start = player.cards@;
            let mut j: usize = 0;
            while j < self.bottom_cards.len()
                invariant
                    j <= self.bottom_cards@.len(),
                    player.cards@ == start + self.bottom_cards@.take(j as int),
                    bidder_idx < prev.len(),
                    player@ == (GamePlayerView { cards: player.cards@, is_ready: true, ..prev[bidder_idx as int] }),
                decreases self.bottom_cards@.len() - j,
            {
                player.cards.push(self.bottom_cards[j]);
                assert(self.bottom_cards@.take(j + 1) =~= self.bottom_cards@.take(j as int).push(
                    self.bottom_cards@[j as int],
                ));
                j = j + 1;
            }
            assert(self.bottom_cards@.take(j as int) =~= self.bottom_cards@);
            let ghost joined = player.cards@;
            sort_cards(&mut player.cards, &self.trump_suit);
            proof {
                crate::sorting::lemma_sort_multiset(joined, stronger_first());
            }
            let keep = player.cards.len() - 6;
            player.cards.truncate(keep);
            put_seat(&mut self.players, bidder_idx, player);
            assert(self@.players =~= prev.update(bidder_idx as int, player@));
            self.trump_suit = Some(Suit::Spades);
            self.phase = GamePhase::Playing;
            self.current_player = bidder_idx;
            self.round_number = 1;
            self.round_cards = new_trick();
            assert(joined == old(self)@.players[bidder_idx as int].cards + old(self)@.bottom_cards);
            assert(self@ =~= bidding_closed(old(self)@));
        }
    }

    /// Whether seat `player_id` may play `card`: see `may_play`.
    pub fn can_play_card(&self, player_id: usize, card: &Card) -> (r: bool)
        requires
            check_reads_hand(self@, *card) ==> player_id < self@.players.len(),
        ensures
            r == may_play(self@, player_id, *card),
    {
        if self.phase != GamePhase::Playing {
            return false;
        }
        if no_card_played(&self.round_cards) {
            return true;
        }
        if let Some(lead) = self.lead_suit {
            let trump = match self.trump_suit { Some(t) => t, None => Suit::Spades };
            if card.is_joker() || same_suit(&card.suit, &Some(trump)) {
                return true;
            }
            if same_suit(&card.suit, &Some(lead)) {
                return true;
            }
            let has_lead_suit = holds_ordinary_of(&self.players[player_id].cards, lead);
            assert(self.players@[player_id as int].cards@ == self@.players[player_id as int].cards);
            return !has_lead_suit;
        }
        true
    }

    /// The game is over once every hand is empty.
    pub fn is_game_over(&self) -> (r: bool)
        ensures
            r == hands_empty(self@),
    {
        let n = self.players.len();
        let mut i: usize = 0;
        while i < n
            invariant
                n == self@.players.len(),
                i <= n,
                forall|k: int| 0 <= k < i ==> #[trigger] self@.players[k].cards.len() == 0,
            decreases n - i,
        {
            if !self.players[i].cards.is_empty() {
                assert(self@.players[i as int].cards.len() != 0);
                return false;
            }
            i = i + 1;
        }
        true
    }

    /// The result once the game is over: whether the bidder's team reached the
    /// bid, its score, and the bid.
    pub fn get_result(&self) -> (r: Option<(bool, i32, u32)>)
        ensures
            r == room_outcome(self@),
    {
        if !self.is_game_over() {
            return None;
        }
        let bidder_idx = match self.bidder {
            Some(b) => b,
            None => return None,
        };
        let bidder_team = bidder_idx % 2;
        let bidder_score = self.scores[bidder_team];
        let success = bidder_score >= self.current_bid as i32;
        Some((success, bidder_score, self.current_bid))
    }
}

/// Whether every seat has bid or passed.
fn every_bid_in(bids: &Vec<Option<u32>>) -> (r: bool)
    ensures
        r == all_bid(bids@),
{
    let mut i: usize = 0;
    while i < bids.len()
        invariant
            i <= bids@.len(),
            forall|j: int| 0 <= j < i ==> #[trigger] bids@[j] is Some,
        decreases bids@.len() - i,
    {
        if bids[i].is_none() {
            return false;
        }
        i = i + 1;
    }
    true
}

/// Whether no card lies in the trick.
fn no_card_played(round_cards: &Vec<Option<Card>>) -> (r: bool)
    ensures
        r == trick_empty(round_cards@),
{
    let mut i: usize = 0;
    while i < round_cards.len()
        invariant
            i <= round_cards@.len(),
            forall|j: int| 0 <= j < i ==> #[trigger] round_cards@[j] is None,
        decreases round_cards@.len() - i,
    {
        if round_cards[i].is_some() {
            return false;
        }
        i = i + 1;
    }
    true
}

/// Whether every trick slot holds a card.
fn every_card_played(round_cards: &Vec<Option<Card>>) -> (r: bool)
    ensures
        r == trick_full(round_cards@),
{
    let mut i: usize = 0;
    while i < round_cards.len()
        invariant
            i <= round_cards@.len(),
            forall|j: int| 0 <= j < i ==> #[trigger] round_cards@[j] is Some,
        decreases round_cards@.len() - i,
    {
        if round_cards[i].is_none() {
            return false;
        }
        i = i + 1;
    }
    true
}

/// Whether the hand holds an ordinary card of the suit.
fn holds_ordinary_of(cards: &Vec<Card>, s: Suit) -> (r: bool)
    ensures
        r == holds_suit(cards@, s),
{
    let mut i: usize = 0;
    while i < cards.len()
        invariant
            i <= cards@.len(),
            forall|j: int| 0 <= j < i ==> !((#[trigger] cards@[j]).suit == Some(s) && !cards@[j].is_joker_spec()),
        decreases cards@.len() - i,
    {
        if same_suit(&cards[i].suit, &Some(s)) && !cards[i].is_joker() {
            return true;
        }
        i = i + 1;
    }
    false
}

/// Whether two optional suits are the same.
fn same_suit(a: &Option<Suit>, b: &Option<Suit>) -> (r: bool)
    ensures
        r == (*a == *b),
{
    match (a, b) {
        (Some(x), Some(y)) => *x == *y,
        (None, None) => true,
        _ => false,
    }
}

} // verus!

verus! {

impl GameRoom {
    /// Seat `player_id` plays the card at `card_idx` (see `room_played`) and
    /// gets it back; `None`, with the room unchanged, outside the playing
    /// phase, out of turn, for an index past the hand, or for a card the rules
    /// do not allow (`may_play`).
    pub fn play_card(&mut self, player_id: usize, card_idx: usize) -> (r: Option<Card>)
        requires
            old(self)@.phase == GamePhase::Playing && player_id == old(self)@.current_player
                ==> player_id < old(self)@.players.len(),
            play_taken(old(self)@, player_id, card_idx) ==> play_fits(old(self)@, player_id, card_idx),
        ensures
            play_taken(old(self)@, player_id, card_idx) ==> r == Some(
                old(self)@.players[player_id as int].cards[card_idx as int],
            ) && final(self)@ == room_played(old(self)@, player_id, card_idx),
            !play_taken(old(self)@, player_id, card_idx) ==> r is None && final(self)@ == old(self)@,
            card_idx < old(self)@.players[player_id as int].cards.len() && !may_play(
                old(self)@,
                player_id,
                old(self)@.players[player_id as int].cards[card_idx as int],
            ) ==> r is None && final(self)@ == old(self)@,
    {
        if self.phase != GamePhase::Playing {
            return None;
        }
        if player_id != self.current_player {
            return None;
        }
        if card_idx >= self.players[player_id].cards.len() {
            assert(self.players@[player_id as int].cards@ == self@.players[player_id as int].cards);
            return None;
        }
        assert(self.players@[player_id as int].cards@ == self@.players[player_id as int].cards);
        let chosen = self.players[player_id].cards[card_idx];
        if !self.can_play_card(player_id, &chosen) {
            return None;
        }
        let ghost prev = self@.players;
        let mut player = self.players.remove(player_id);
        assert(player@ == prev[player_id as int]);
        let card = player.cards.remove(card_idx);
        put_seat(&mut self.players, player_id, player);
        assert(self@.players =~= prev.update(player_id as int, player@));
        self.round_cards.set(player_id, Some(card));
        if self.lead_suit.is_none() {
            self.lead_suit = card.suit;
        }
        self.current_player = (self.current_player + 1) % 4;
        let ghost put = self@;
        assert(put == (RoomView {
            players: old(self)@.players.update(
                player_id as int,
                GamePlayerView {
                    cards: old(self)@.players[player_id as int].cards.remove(card_idx as int),
                    ..old(self)@.players[player_id as int]
                },
            ),
            round_cards: trick_after(old(self)@, player_id, card_idx),
            lead_suit: if old(self)@.lead_suit is None { card.suit } else { old(self)@.lead_suit },
            current_player: ((old(self)@.current_player + 1) % 4) as usize,
            ..old(self)@
        }));
        if every_card_played(&self.round_cards) {
            self.finish_round();
        }
        assert(self@ =~= room_played(old(self)@, player_id, card_idx));
        Some(card)
    }

    /// Closes a full trick: see `round_closed`.
    fn finish_round(&mut self)
        requires
            old(self)@.round_cards.len() > 0,
            trick_full(old(self)@.round_cards),
            old(self)@.scores[round_winner(old(self)@.round_cards, old(self)@.trump_suit) % 2]
                + round_points(old(self)@.round_cards) <= i32::MAX,
            old(self)@.round_number < u32::MAX,
            round_points(old(self)@.round_cards) <= i32::MAX,
        ensures
            final(self)@ == round_closed(old(self)@),
    {
        let ghost rc = self@.round_cards;
        let ghost trump = self@.trump_suit;
        let n = self.round_cards.len();
        let mut winner: usize = 0;
        let mut max_card: Option<Card> = None;
        let mut i: usize = 0;
        while i < n
            invariant
                n == rc.len(),
                rc == self.round_cards@,
                trump == self.trump_suit,
                i <= n,
                max_card is None <==> (forall|j: int| 0 <= j < i ==> #[trigger] rc[j] is None),
                max_card matches Some(m) ==> {
                    &&& winner < i
                    &&& rc[winner as int] == Some(m)
                    &&& forall|j: int| 0 <= j < i ==> slot_strength(rc, j, trump) <= trick_strength(m, trump)
                    &&& forall|j: int| 0 <= j < winner ==> slot_strength(rc, j, trump) < trick_strength(m, trump)
                },
            decreases n - i,
        {
            if let Some(card) = self.round_cards[i] {
                match max_card {
                    Some(max) => {
                        if card_greater(&card, &max, &self.trump_suit) {
                            winner = i;
                            max_card = Some(card);
                        }
                    },
                    None => {
                        winner = i;
                        max_card = Some(card);
                    },
                }
            }
            i = i + 1;
        }
        proof {
            assert(rc[0] is Some);
            assert(is_round_winner(rc, trump, winner as int));
            let c = round_winner(rc, trump);
            lemma_round_winner_unique(rc, trump, c, winner as int);
        }
        let mut round_score: i32 = 0;
        let mut k: usize = 0;
        while k < n
            invariant
                n == rc.len(),
                rc == self.round_cards@,
                k <= n,
                round_score == round_points(rc.take(k as int)),
                0 <= round_score <= 10 * k,
                round_points(rc) <= i32::MAX,
            decreases n - k,
        {
            assert(rc.take(k + 1).drop_last() =~= rc.take(k as int));
            proof {
                lemma_round_points_prefix(rc, k as int + 1);
            }
            if let Some(card) = self.round_cards[k] {
                round_score = round_score + card.score();
            }
            k = k + 1;
        }
        assert(rc.take(n as int) =~= rc);
        let winner_team = winner % 2;
        self.scores[winner_team] = self.scores[winner_team] + round_score;
        self.round_cards = new_trick();
        self.lead_suit = None;
        self.current_player = winner;
        self.round_number = self.round_number + 1;
        assert(self@ =~= round_closed(old(self)@));
    }
}

/// The points of a trick are never negative, and a prefix of a trick holds no
/// more points than the trick.
pub proof fn lemma_round_points_prefix(rc: Seq<Option<Card>>, k: int)
    requires
        0 <= k <= rc.len(),
    ensures
        0 <= round_points(rc.take(k)) <= round_points(rc),
    decreases rc.len(),
{
    if k == rc.len() {
        assert(rc.take(k) =~= rc);
        lemma_round_points_nonneg(rc);
    } else {
        lemma_round_points_prefix(rc.drop_last(), k);
        assert(rc.drop_last().take(k) =~= rc.take(k));
    }
}

pub proof fn lemma_round_points_nonneg(rc: Seq<Option<Card>>)
    ensures
        0 <= round_points(rc),
    decreases rc.len(),
{
    if rc.len() > 0 {
        lemma_round_points_nonneg(rc.drop_last());
    }
}

} // verus!

verus! {

proof fn best_slot(rc: Seq<Option<Card>>, trump: Option<Suit>, n: int) -> (w: int)
    requires
        1 <= n <= rc.len(),
        trick_full(rc),
    ensures
        0 <= w < n,
        forall|j: int| 0 <= j < n ==> slot_strength(rc, j, trump) <= slot_strength(rc, w, trump),
        forall|j: int| 0 <= j < w ==> slot_strength(rc, j, trump) < slot_strength(rc, w, trump),
    decreases n,
{
    if n == 1 {
        0
    } else {
        let v = best_slot(rc, trump, n - 1);
        if slot_strength(rc, n - 1, trump) > slot_strength(rc, v, trump) {
            n - 1
        } else {
            v
        }
    }
}

/// A full trick goes to exactly one seat: the first one holding the strongest card.
pub proof fn law_round_winner(rc: Seq<Option<Card>>, trump: Option<Suit>)
    requires
        rc.len() > 0,
        trick_full(rc),
    ensures
        is_round_winner(rc, trump, round_winner(rc, trump)),
        forall|w: int| is_round_winner(rc, trump, w) ==> w == round_winner(rc, trump),
{
    let w = best_slot(rc, trump, rc.len() as int);
    assert(rc[w] is Some);
    assert(is_round_winner(rc, trump, w));
    assert forall|v: int| is_round_winner(rc, trump, v) implies v == round_winner(rc, trump) by {
        lemma_round_winner_unique(rc, trump, v, round_winner(rc, trump));
    }
}

/// Dealing to four seats hands out the whole deck: twelve cards to each seat,
/// strongest first, and six to the bottom, every card exactly once.
pub proof fn law_room_deal_hands_out_deck(r: RoomView, deck: Seq<Card>)
    requires
        r.players.len() == 4,
        deck.len() == 54,
    ensures
        ({
            let d = room_dealt(r, deck);
            &&& forall|i: int| 0 <= i < 4 ==> (#[trigger] d.players[i]).cards.len() == 12
            &&& d.bottom_cards.len() == 6
            &&& d.players[0].cards.to_multiset().add(d.players[1].cards.to_multiset()).add(
                d.players[2].cards.to_multiset(),
            ).add(d.players[3].cards.to_multiset()).add(d.bottom_cards.to_multiset())
                == deck.to_multiset()
        }),
{
    let d = room_dealt(r, deck);
    assert forall|i: int| 0 <= i < 4 implies (#[trigger] d.players[i]).cards.to_multiset()
        == deck.subrange(12 * i, 12 * i + 12).to_multiset() && d.players[i].cards.len() == 12 by {
        crate::sorting::lemma_sort_multiset(deck.subrange(12 * i, 12 * i + 12), stronger_first());
    }
    let p0 = deck.subrange(0, 12);
    let p1 = deck.subrange(12, 24);
    let p2 = deck.subrange(24, 36);
    let p3 = deck.subrange(36, 48);
    let p4 = deck.subrange(48, 54);
    assert(deck =~= p0 + p1 + p2 + p3 + p4);
    vstd::seq_lib::lemma_multiset_commutative(p0, p1);
    vstd::seq_lib::lemma_multiset_commutative(p0 + p1, p2);
    vstd::seq_lib::lemma_multiset_commutative(p0 + p1 + p2, p3);
    vstd::seq_lib::lemma_multiset_commutative(p0 + p1 + p2 + p3, p4);
    assert(d.players[0].cards.to_multiset() == p0.to_multiset());
    assert(d.players[1].cards.to_multiset() == p1.to_multiset());
    assert(d.players[2].cards.to_multiset() == p2.to_multiset());
    assert(d.players[3].cards.to_multiset() == p3.to_multiset());
}

/// Playing a card takes exactly that card out of the player's hand and leaves
/// every other hand as it was; the first card of a trick sets the lead suit.
pub proof fn law_room_play_moves_card(r: RoomView, p: usize, idx: usize)
    requires
        play_taken(r, p, idx),
        p < r.players.len(),
        p < r.round_cards.len(),
    ensures
        ({
            let t = room_played(r, p, idx);
            let card = r.players[p as int].cards[idx as int];
            &&& t.players[p as int].cards.to_multiset().insert(card) == r.players[p as int].cards.to_multiset()
            &&& forall|q: int| 0 <= q < r.players.len() && q != p ==> #[trigger] t.players[q] == r.players[q]
            &&& !trick_full(trick_after(r, p, idx)) ==> t.round_cards[p as int] == Some(card)
            &&& !trick_full(trick_after(r, p, idx)) && r.lead_suit is None ==> t.lead_suit == card.suit
        }),
{
    let hand = r.players[p as int].cards;
    hand.to_multiset_ensures();
    assert(hand.remove(idx as int).to_multiset() =~= hand.to_multiset().remove(hand[idx as int]));
    assert(hand.to_multiset().count(hand[idx as int]) > 0) by {
        assert(hand.contains(hand[idx as int]));
    }
}

/// A pass never lowers the bid nor changes the bidder; a taken bid raises the
/// bid to at least 75.
pub proof fn law_bidding_monotone(r: RoomView, p: usize, bid: u32)
    requires
        pass_taken(r, p),
        pass_fits(r, p),
    ensures
        passed(r, p).current_bid == r.current_bid,
        passed(r, p).bidder == r.bidder,
        bid_taken(r, p, bid) ==> bid > r.current_bid && bid >= 75,
{
}

} // verus!

verus! {

/// Team scores never go down, and a trick's points go to the side that won
/// it: the play that fills a trick adds the trick's points, which are never
/// negative, to the team of the trick's winner and leaves the other team's
/// score as it was; any other play leaves both scores alone.
pub proof fn law_room_scores_never_drop(r: RoomView, p: usize, idx: usize)
    requires
        r.scores.len() == 2,
        play_taken(r, p, idx),
        p < r.players.len(),
        play_fits(r, p, idx),
    ensures
        forall|k: int| 0 <= k < 2 ==> #[trigger] room_played(r, p, idx).scores[k] >= r.scores[k],
        ({
            let rc = trick_after(r, p, idx);
            let team = round_winner(rc, r.trump_suit) % 2;
            let t = room_played(r, p, idx);
            trick_full(rc) ==> t.scores[team] == r.scores[team] + round_points(rc) && t.scores[1 - team]
                == r.scores[1 - team]
        }),
        !trick_full(trick_after(r, p, idx)) ==> room_played(r, p, idx).scores == r.scores,
{
    let rc = trick_after(r, p, idx);
    lemma_round_points_nonneg(rc);
}

} // verus!

verus! {

/// Plays follow the rules: a play that goes through is one the rules allow;
/// in particular, on a lead a seat that holds an ordinary card of the lead
/// suit may not throw an ordinary card of another suit that is not trump.
/// `play_card` refuses every other play and leaves the room as it was.
pub proof fn law_plays_follow_rules(r: RoomView, p: usize, idx: usize, card: Card, lead: Suit)
    ensures
        play_taken(r, p, idx) ==> may_play(r, p, r.players[p as int].cards[idx as int]),
        r.phase == GamePhase::Playing && !trick_empty(r.round_cards) && r.lead_suit == Some(lead)
            && holds_suit(r.players[p as int].cards, lead) && !card.is_joker_spec() && card.suit != Some(lead)
            && card.suit != Some(trump_or_spades(r.trump_suit)) ==> !may_play(r, p, card),
{
}

} // verus!

verus! {

/// What may always be played: any card opens a trick; once a trick has
/// started with a lead suit, a joker, an ordinary card of the trump suit
/// (spades before a trump is set) and a card of the lead suit may be played
/// whatever else the hand holds.
pub proof fn law_trump_and_lead_always_playable(r: RoomView, p: usize, card: Card, lead: Suit)
    requires
        r.phase == GamePhase::Playing,
    ensures
        trick_empty(r.round_cards) ==> may_play(r, p, card),
        r.lead_suit == Some(lead) && card.is_joker_spec() ==> may_play(r, p, card),
        r.lead_suit == Some(lead) && card.suit == Some(
            match r.trump_suit {
                Some(t) => t,
                None => Suit::Spades,
            },
        ) ==> may_play(r, p, card),
        r.lead_suit == Some(lead) && card.suit == Some(lead) ==> may_play(r, p, card),
{
}

/// The result speaks for the bidder's team, the seats of the bidder's parity:
/// once every hand is empty and seat `b` holds the bid, the reported score is
/// `scores[b % 2]`, success is that score reaching the bid, and the bid is
/// reported with them.
pub proof fn law_result_is_bidders_team(r: RoomView, b: usize)
    requires
        hands_empty(r),
        r.bidder == Some(b),
    ensures
        room_outcome(r) == Some(
            (r.scores[(b % 2) as int] >= r.current_bid as i32, r.scores[(b % 2) as int], r.current_bid),
        ),
{
}

/// A trick won by a seat of the bidder's team counts for the bidder: when the
/// last trick goes to such a seat, the score that the result reports is the
/// team's score before it plus the trick's points.
pub proof fn law_bidders_tricks_count_for_result(r: RoomView, b: usize)
    requires
        r.bidder == Some(b),
        r.scores.len() == 2,
        r.round_cards.len() > 0,
        trick_full(r.round_cards),
        hands_empty(r),
        round_winner(r.round_cards, r.trump_suit) % 2 == b % 2,
        r.scores[(b % 2) as int] + round_points(r.round_cards) <= i32::MAX,
    ensures
        room_outcome(round_closed(r)) matches Some((_, s, _)) && s == r.scores[(b % 2) as int] + round_points(
            r.round_cards,
        ),
{
    lemma_round_points_nonneg(r.round_cards);
    let t = round_closed(r);
    assert(t.players == r.players);
    assert(hands_empty(t));
}

} // verus!

verus! {

/// Which bids are taken: while bidding, from the seat whose turn it is,
/// exactly those that top the current bid and reach 75; none from another
/// seat, below 75, or outside the bidding phase. Passes are taken from the
/// seat whose turn it is, and only while bidding.
pub proof fn law_room_bids_taken(r: RoomView, p: usize, bid: u32)
    ensures
        r.phase == GamePhase::Bidding && p == r.current_player ==> (bid_taken(r, p, bid) <==> (bid
            > r.current_bid && bid >= 75)),
        p != r.current_player ==> !bid_taken(r, p, bid) && !pass_taken(r, p),
        bid < 75 ==> !bid_taken(r, p, bid),
        r.phase != GamePhase::Bidding ==> !bid_taken(r, p, bid) && !pass_taken(r, p),
        r.phase == GamePhase::Bidding && p == r.current_player ==> pass_taken(r, p),
{
}

} // verus!
