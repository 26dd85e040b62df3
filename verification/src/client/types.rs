use vstd::prelude::*;

verus! {

/// A suit. Spades rank highest, then hearts, clubs and diamonds.
#[derive(Debug, Clone, Copy, PartialEq, Eq, Structural)]
pub enum Suit {
    Spades,
    Hearts,
    Clubs,
    Diamonds,
}

impl Suit {
    /// The position of the suit: spades 0, hearts 1, clubs 2, diamonds 3.
    pub open spec fn index_of(self) -> u8 {
        match self {
            Suit::Spades => 0,
            Suit::Hearts => 1,
            Suit::Clubs => 2,
            Suit::Diamonds => 3,
        }
    }

    /// The suit at a position; positions above 3 are refused.
    pub fn from_index(index: u8) -> (s: Suit)
        requires
            index < 4,
        ensures
            s.index_of() == index,
    {
        match index {
            0 => Suit::Spades,
            1 => Suit::Hearts,
            2 => Suit::Clubs,
            _ => Suit::Diamonds,
        }
    }

    pub fn to_index(&self) -> (i: u8)
        ensures
            i == self.index_of(),
    {
        match self {
            Suit::Spades => 0,
            Suit::Hearts => 1,
            Suit::Clubs => 2,
            Suit::Diamonds => 3,
        }
    }

    /// Suit order: a smaller position is a larger suit.
    pub fn compare(&self, other: &Suit) -> (r: Option<std::cmp::Ordering>)
        ensures
            self.index_of() == other.index_of() ==> r == Some(std::cmp::Ordering::Equal),
            self.index_of() < other.index_of() ==> r == Some(std::cmp::Ordering::Greater),
            self.index_of() > other.index_of() ==> r == Some(std::cmp::Ordering::Less),
    {
        let self_idx = self.to_index();
        let other_idx = other.to_index();
        if self_idx == other_idx {
            Some(std::cmp::Ordering::Equal)
        } else if self_idx < other_idx {
            Some(std::cmp::Ordering::Greater)
        } else {
            Some(std::cmp::Ordering::Less)
        }
    }
}

} // verus!

verus! {

/// A card rank, from three up to two.
#[derive(Debug, Clone, Copy, PartialEq, Eq, Structural)]
pub enum Rank {
    Three,
    Four,
    Five,
    Six,
    Seven,
    Eight,
    Nine,
    Ten,
    Jack,
    Queen,
    King,
    Ace,
    Two,
}

impl Rank {
    /// The position of the rank: three is 0, two is 12.
    pub open spec fn index_of(self) -> u8 {
        match self {
            Rank::Three => 0,
            Rank::Four => 1,
            Rank::Five => 2,
            Rank::Six => 3,
            Rank::Seven => 4,
            Rank::Eight => 5,
            Rank::Nine => 6,
            Rank::Ten => 7,
            Rank::Jack => 8,
            Rank::Queen => 9,
            Rank::King => 10,
            Rank::Ace => 11,
            Rank::Two => 12,
        }
    }

    /// The strength of the rank: 2 > A > K > Q > J > 10 > ... > 3, from 15 down to 3.
    pub open spec fn value_of(self) -> u8 {
        (self.index_of() + 3) as u8
    }

    /// The rank at a position; positions above 12 are refused.
    pub fn from_index(index: u8) -> (r: Rank)
        requires
            index < 13,
        ensures
            r.index_of() == index,
    {
        match index {
            0 => Rank::Three,
            1 => Rank::Four,
            2 => Rank::Five,
            3 => Rank::Six,
            4 => Rank::Seven,
            5 => Rank::Eight,
            6 => Rank::Nine,
            7 => Rank::Ten,
            8 => Rank::Jack,
            9 => Rank::Queen,
            10 => Rank::King,
            11 => Rank::Ace,
            _ => Rank::Two,
        }
    }

    pub fn to_index(&self) -> (i: u8)
        ensures
            i == self.index_of(),
    {
        match self {
            Rank::Three => 0,
            Rank::Four => 1,
            Rank::Five => 2,
            Rank::Six => 3,
            Rank::Seven => 4,
            Rank::Eight => 5,
            Rank::Nine => 6,
            Rank::Ten => 7,
            Rank::Jack => 8,
            Rank::Queen => 9,
            Rank::King => 10,
            Rank::Ace => 11,
            Rank::Two => 12,
        }
    }

    pub fn value(&self) -> (v: u8)
        ensures
            v == self.value_of(),
            3 <= v <= 15,
    {
        match self {
            Rank::Three => 3,
            Rank::Four => 4,
            Rank::Five => 5,
            Rank::Six => 6,
            Rank::Seven => 7,
            Rank::Eight => 8,
            Rank::Nine => 9,
            Rank::Ten => 10,
            Rank::Jack => 11,
            Rank::Queen => 12,
            Rank::King => 13,
            Rank::Ace => 14,
            Rank::Two => 15,
        }
    }
}

/// The two jokers.
#[derive(Debug, Clone, Copy, PartialEq, Eq, Structural)]
pub enum Joker {
    Small,
    Large,
}

/// A playing card. A joker has no suit and no rank.
#[derive(Debug, Clone, Copy)]
pub struct Card {
    pub suit: Option<Suit>,
    pub rank: Option<Rank>,
    pub joker: Option<Joker>,
}

impl Card {
    /// A card is well formed when it is a joker, or has both a suit and a rank.
    pub open spec fn wf(self) -> bool {
        self.joker is Some || (self.suit is Some && self.rank is Some)
    }

    pub open spec fn is_joker_spec(self) -> bool {
        self.joker is Some
    }

    /// Aces, tens and fives are the scoring cards.
    pub open spec fn is_score_spec(self) -> bool {
        !self.is_joker_spec() && (self.rank == Some(Rank::Ace) || self.rank == Some(Rank::Ten)
            || self.rank == Some(Rank::Five))
    }

    /// Aces and tens count 10, fives count 5, every other card 0.
    pub open spec fn score_spec(self) -> i32 {
        if self.is_joker_spec() {
            0
        } else if self.rank == Some(Rank::Ace) || self.rank == Some(Rank::Ten) {
            10
        } else if self.rank == Some(Rank::Five) {
            5
        } else {
            0
        }
    }

    pub fn new(suit: Suit, rank: Rank) -> (c: Card)
        ensures
            c == (Card { suit: Some(suit), rank: Some(rank), joker: None }),
    {
        Card { suit: Some(suit), rank: Some(rank), joker: None }
    }

    pub fn small_joker() -> (c: Card)
        ensures
            c == (Card { suit: None, rank: None, joker: Some(Joker::Small) }),
    {
        Card { suit: None, rank: None, joker: Some(Joker::Small) }
    }

    pub fn large_joker() -> (c: Card)
        ensures
            c == (Card { suit: None, rank: None, joker: Some(Joker::Large) }),
    {
        Card { suit: None, rank: None, joker: Some(Joker::Large) }
    }

    pub fn is_joker(&self) -> (b: bool)
        ensures
            b == self.is_joker_spec(),
    {
        self.joker.is_some()
    }

    pub fn is_score(&self) -> (b: bool)
        ensures
            b == self.is_score_spec(),
    {
        if self.is_joker() {
            return false;
        }
        match self.rank {
            Some(Rank::Ace) | Some(Rank::Ten) | Some(Rank::Five) => true,
            _ => false,
        }
    }

    pub fn score(&self) -> (s: i32)
        ensures
            s == self.score_spec(),
            0 <= s <= 10,
            s != 0 <==> self.is_score_spec(),
    {
        if self.is_joker() {
            return 0;
        }
        match self.rank {
            Some(Rank::Ace) | Some(Rank::Ten) => 10,
            Some(Rank::Five) => 5,
            _ => 0,
        }
    }
}

/// The phases of a game.
#[derive(Debug, Clone, Copy, PartialEq, Eq, Structural)]
pub enum GamePhase {
    Waiting,
    Dealing,
    Bidding,
    Playing,
    Scoring,
}

/// A seat at the table.
#[derive(Debug, Clone)]
pub struct Player {
    pub id: usize,
    pub name: String,
    pub cards: Vec<Card>,
    pub is_host: bool,
    pub is_robot: bool,
    pub score: i32,
}

impl Player {
    pub fn new(id: usize, name: String) -> (p: Player)
        ensures
            p.id == id,
            p.name@ == name@,
            p.cards@.len() == 0,
            !p.is_host,
            !p.is_robot,
            p.score == 0,
    {
        Player { id, name, cards: Vec::new(), is_host: false, is_robot: false, score: 0 }
    }
}

/// Everything the table shows: seats, bottom cards, bid, trump suit, team
/// scores (the bidder's side, the banker, first; the other side second) and
/// the cards of the current trick.
#[derive(Debug, Clone)]
pub struct GameState {
    pub players: Vec<Player>,
    pub current_player: usize,
    pub bottom_cards: Vec<Card>,
    pub current_bid: u32,
    pub bidder: Option<usize>,
    pub trump_suit: Option<Suit>,
    pub scores: [i32; 2],
    pub round_cards: Vec<Option<Card>>,
    pub round_winner: Option<usize>,
    pub phase: GamePhase,
    pub round_number: u32,
}

impl GameState {
    pub fn new() -> (s: GameState)
        ensures
            s@ == fresh_state(),
    {
        let mut round_cards: Vec<Option<Card>> = Vec::new();
        round_cards.push(None);
        round_cards.push(None);
        round_cards.push(None);
        round_cards.push(None);
        GameState {
            players: Vec::new(),
            current_player: 0,
            bottom_cards: Vec::with_capacity(6),
            current_bid: 0,
            bidder: None,
            trump_suit: None,
            scores: [0, 0],
            round_cards,
            round_winner: None,
            phase: GamePhase::Waiting,
            round_number: 0,
        }
    }
}

} // verus!

verus! {

/// What a seat holds, as plain values.
#[verifier::ext_equal]
pub struct PlayerView {
    pub id: usize,
    pub name: Seq<char>,
    pub cards: Seq<Card>,
    pub is_host: bool,
    pub is_robot: bool,
    pub score: i32,
}

impl View for Player {
    type V = PlayerView;

    open spec fn view(&self) -> PlayerView {
        PlayerView {
            id: self.id,
            name: self.name@,
            cards: self.cards@,
            is_host: self.is_host,
            is_robot: self.is_robot,
            score: self.score,
        }
    }
}

/// The views of a row of seats.
pub open spec fn player_views(ps: Seq<Player>) -> Seq<PlayerView> {
    ps.map_values(|p: Player| p@)
}

/// What the table holds, as plain values.
#[verifier::ext_equal]
pub struct StateView {
    pub players: Seq<PlayerView>,
    pub current_player: usize,
    pub bottom_cards: Seq<Card>,
    pub current_bid: u32,
    pub bidder: Option<usize>,
    pub trump_suit: Option<Suit>,
    pub scores: Seq<i32>,
    pub round_cards: Seq<Option<Card>>,
    pub round_winner: Option<usize>,
    pub phase: GamePhase,
    pub round_number: u32,
}

impl View for GameState {
    type V = StateView;

    open spec fn view(&self) -> StateView {
        StateView {
            players: player_views(self.players@),
            current_player: self.current_player,
            bottom_cards: self.bottom_cards@,
            current_bid: self.current_bid,
            bidder: self.bidder,
            trump_suit: self.trump_suit,
            scores: self.scores@,
            round_cards: self.round_cards@,
            round_winner: self.round_winner,
            phase: self.phase,
            round_number: self.round_number,
        }
    }
}

/// The state of a table where nobody has sat down yet.
pub open spec fn fresh_state() -> StateView {
    StateView {
        players: Seq::empty(),
        current_player: 0,
        bottom_cards: Seq::empty(),
        current_bid: 0,
        bidder: None,
        trump_suit: None,
        scores: seq![0i32, 0i32],
        round_cards: seq![None::<Card>, None, None, None],
        round_winner: None,
        phase: GamePhase::Waiting,
        round_number: 0,
    }
}

} // verus!
