use vstd::prelude::*;
use crate::sorting::{lemma_insert_at, lemma_sort_take_step, sort_by, strict_order};
use vstd::std_specs::cmp::PartialOrdSpecImpl;

verus! {

/// A suit.
#[derive(Debug, Clone, Copy, PartialEq, Eq, Structural, Hash)]
pub enum Suit {
    Spades,
    Hearts,
    Clubs,
    Diamonds,
}

impl Suit {
    /// The position of the suit: spades 0, hearts 1, clubs 2, diamonds 3.
    pub open spec fn index_of(self) -> int {
        match self {
            Suit::Spades => 0,
            Suit::Hearts => 1,
            Suit::Clubs => 2,
            Suit::Diamonds => 3,
        }
    }

    /// The suit at a position; positions above 3 give spades.
    pub fn from_index(index: u8) -> (s: Suit)
        ensures
            index < 4 ==> s.index_of() == index,
            index >= 4 ==> s == Suit::Spades,
    {
        match index {
            0 => Suit::Spades,
            1 => Suit::Hearts,
            2 => Suit::Clubs,
            3 => Suit::Diamonds,
            _ => Suit::Spades,
        }
    }
}

/// A card rank, from three up to two.
#[derive(Debug, Clone, Copy, PartialEq, Eq, Structural, Hash)]
pub enum Rank {
    Three,
    Four,
    Five,
    Six,
    Seven,
    Eight,
    Nine,
    Ten,
    Jack,
    Queen,
    King,
    Ace,
    Two,
}

impl Rank {
    /// The position of the rank: three is 0, two is 12.
    pub open spec fn index_of(self) -> int {
        match self {
            Rank::Three => 0,
            Rank::Four => 1,
            Rank::Five => 2,
            Rank::Six => 3,
            Rank::Seven => 4,
            Rank::Eight => 5,
            Rank::Nine => 6,
            Rank::Ten => 7,
            Rank::Jack => 8,
            Rank::Queen => 9,
            Rank::King => 10,
            Rank::Ace => 11,
            Rank::Two => 12,
        }
    }

    /// The rank value: three is 3, two is 15.
    pub open spec fn value_of(self) -> int {
        self.index_of() + 3
    }

    /// The rank at a position; positions above 12 give three.
    pub fn from_index(index: u8) -> (r: Rank)
        ensures
            index < 13 ==> r.index_of() == index,
            index >= 13 ==> r == Rank::Three,
    {
        match index {
            0 => Rank::Three,
            1 => Rank::Four,
            2 => Rank::Five,
            3 => Rank::Six,
            4 => Rank::Seven,
            5 => Rank::Eight,
            6 => Rank::Nine,
            7 => Rank::Ten,
            8 => Rank::Jack,
            9 => Rank::Queen,
            10 => Rank::King,
            11 => Rank::Ace,
            12 => Rank::Two,
            _ => Rank::Three,
        }
    }

    pub fn value(&self) -> (v: u8)
        ensures
            v == self.value_of(),
    {
        match self {
            Rank::Three => 3,
            Rank::Four => 4,
            Rank::Five => 5,
            Rank::Six => 6,
            Rank::Seven => 7,
            Rank::Eight => 8,
            Rank::Nine => 9,
            Rank::Ten => 10,
            Rank::Jack => 11,
            Rank::Queen => 12,
            Rank::King => 13,
            Rank::Ace => 14,
            Rank::Two => 15,
        }
    }
}

/// The two jokers.
#[derive(Debug, Clone, Copy, PartialEq, Eq, Structural)]
pub enum Joker {
    Small,
    Large,
}

/// A playing card. A joker has no suit and no rank.
#[derive(Debug, Clone, Copy, PartialEq, Eq, Structural)]
pub struct Card {
    pub suit: Option<Suit>,
    pub rank: Option<Rank>,
    pub joker: Option<Joker>,
}

impl Card {
    pub open spec fn is_joker_spec(self) -> bool {
        self.joker is Some
    }

    /// Aces, tens and fives are the scoring cards.
    pub open spec fn is_score_spec(self) -> bool {
        !self.is_joker_spec() && (self.rank == Some(Rank::Ace) || self.rank == Some(Rank::Ten)
            || self.rank == Some(Rank::Five))
    }

    /// Aces and tens count 10, fives count 5, every other card 0.
    pub open spec fn score_spec(self) -> i32 {
        if self.is_joker_spec() {
            0
        } else if self.rank == Some(Rank::Ace) || self.rank == Some(Rank::Ten) {
            10
        } else if self.rank == Some(Rank::Five) {
            5
        } else {
            0
        }
    }

    /// The suit a comparison reads: the card's suit, spades when it has none.
    pub open spec fn suit_or_spades(self) -> Suit {
        match self.suit {
            Some(s) => s,
            None => Suit::Spades,
        }
    }

    /// The rank a comparison reads: the card's rank, three when it has none.
    pub open spec fn rank_or_three(self) -> Rank {
        match self.rank {
            Some(r) => r,
            None => Rank::Three,
        }
    }

    pub fn new(suit: Suit, rank: Rank) -> (c: Card)
        ensures
            c == (Card { suit: Some(suit), rank: Some(rank), joker: None }),
    {
        Card { suit: Some(suit), rank: Some(rank), joker: None }
    }

    pub fn small_joker() -> (c: Card)
        ensures
            c == (Card { suit: None, rank: None, joker: Some(Joker::Small) }),
    {
        Card { suit: None, rank: None, joker: Some(Joker::Small) }
    }

    pub fn large_joker() -> (c: Card)
        ensures
            c == (Card { suit: None, rank: None, joker: Some(Joker::Large) }),
    {
        Card { suit: None, rank: None, joker: Some(Joker::Large) }
    }

    pub fn is_joker(&self) -> (b: bool)
        ensures
            b == self.is_joker_spec(),
    {
        self.joker.is_some()
    }

    pub fn is_score(&self) -> (b: bool)
        ensures
            b == self.is_score_spec(),
    {
        if self.is_joker() {
            return false;
        }
        match self.rank {
            Some(Rank::Ace) | Some(Rank::Ten) | Some(Rank::Five) => true,
            _ => false,
        }
    }

    pub fn score(&self) -> (s: i32)
        ensures
            s == self.score_spec(),
            0 <= s <= 10,
    {
        if self.is_joker() {
            return 0;
        }
        match self.rank {
            Some(Rank::Ace) | Some(Rank::Ten) => 10,
            Some(Rank::Five) => 5,
            _ => 0,
        }
    }
}

/// The strength of a joker: 1002 for the large one, 1001 for the small one.
pub open spec fn joker_strength(j: Joker) -> int {
    match j {
        Joker::Large => 1002,
        Joker::Small => 1001,
    }
}

/// The strength by which cards are ordered (and hands sorted): jokers first,
/// the large one above the small one; then ordinary cards by suit, spades >
/// hearts > clubs > diamonds; within a suit the higher rank value is the
/// stronger card (2 > A > K > ... > 3). A missing suit reads as spades, a
/// missing rank as three.
pub open spec fn strength(c: Card) -> int {
    match c.joker {
        Some(j) => joker_strength(j),
        None => 100 * (3 - c.suit_or_spades().index_of()) + c.rank_or_three().value_of(),
    }
}

/// The strength by which tricks are decided under a trump suit: as `strength`,
/// with every card of the trump suit above every other ordinary card.
pub open spec fn trick_strength(c: Card, trump: Option<Suit>) -> int {
    match c.joker {
        Some(j) => joker_strength(j),
        None => strength(c) + if trump == Some(c.suit_or_spades()) { 400int } else { 0int },
    }
}

/// -1, 0 or 1 as `x` is negative, zero or positive.
pub open spec fn sign(x: int) -> i32 {
    if x > 0 {
        1
    } else if x < 0 {
        -1i32
    } else {
        0
    }
}

} // verus!

verus! {

/// The outcome of comparing strengths `x` and `y`.
pub open spec fn ordering_of(x: int, y: int) -> std::cmp::Ordering {
    if x > y {
        std::cmp::Ordering::Greater
    } else if x < y {
        std::cmp::Ordering::Less
    } else {
        std::cmp::Ordering::Equal
    }
}

/// Position of a suit as a comparison reads it.
fn suit_position(s: Suit) -> (v: u8)
    ensures
        v == s.index_of(),
{
    match s {
        Suit::Spades => 0,
        Suit::Hearts => 1,
        Suit::Clubs => 2,
        Suit::Diamonds => 3,
    }
}

impl Card {
    /// Orders cards by `strength`: jokers first, then suits spades > hearts >
    /// clubs > diamonds, then within a suit the higher rank value first.
    pub fn cmp(&self, other: &Card) -> (r: std::cmp::Ordering)
        ensures
            r == ordering_of(strength(*self), strength(*other)),
    {
        if self.is_joker() && !other.is_joker() {
            return std::cmp::Ordering::Greater;
        }
        if !self.is_joker() && other.is_joker() {
            return std::cmp::Ordering::Less;
        }
        if self.is_joker() && other.is_joker() {
            return match (self.joker, other.joker) {
                (Some(Joker::Large), Some(Joker::Small)) => std::cmp::Ordering::Greater,
                (Some(Joker::Small), Some(Joker::Large)) => std::cmp::Ordering::Less,
                _ => std::cmp::Ordering::Equal,
            };
        }
        let self_suit = match self.suit { Some(s) => s, None => Suit::Spades };
        let other_suit = match other.suit { Some(s) => s, None => Suit::Spades };
        let self_rank = match self.rank { Some(r) => r, None => Rank::Three };
        let other_rank = match other.rank { Some(r) => r, None => Rank::Three };
        let self_suit_val = suit_position(self_suit);
        let other_suit_val = suit_position(other_suit);
        if self_suit_val != other_suit_val {
            return if other_suit_val > self_suit_val {
                std::cmp::Ordering::Greater
            } else {
                std::cmp::Ordering::Less
            };
        }
        let self_value = self_rank.value();
        let other_value = other_rank.value();
        if self_value > other_value {
            std::cmp::Ordering::Greater
        } else if self_value < other_value {
            std::cmp::Ordering::Less
        } else {
            std::cmp::Ordering::Equal
        }
    }
}

impl PartialOrd for Card {
    fn partial_cmp(&self, other: &Card) -> (r: Option<std::cmp::Ordering>) {
        Some(self.cmp(other))
    }
}

impl PartialOrdSpecImpl for Card {
    open spec fn obeys_partial_cmp_spec() -> bool {
        true
    }

    open spec fn partial_cmp_spec(&self, other: &Card) -> Option<std::cmp::Ordering> {
        Some(ordering_of(strength(*self), strength(*other)))
    }
}

/// Compares two cards under a trump suit by `trick_strength`: 1 when `a` is
/// stronger, -1 when `b` is, 0 when they tie.
pub fn card_cmp(a: &Card, b: &Card, trump_suit: &Option<Suit>) -> (r: i32)
    ensures
        r == sign(trick_strength(*a, *trump_suit) - trick_strength(*b, *trump_suit)),
{
    if a.is_joker() && !b.is_joker() {
        return 1;
    }
    if !a.is_joker() && b.is_joker() {
        return -1;
    }
    if a.is_joker() && b.is_joker() {
        return match (a.joker, b.joker) {
            (Some(Joker::Large), Some(Joker::Small)) => 1,
            (Some(Joker::Small), Some(Joker::Large)) => -1,
            _ => 0,
        };
    }
    let a_suit = match a.suit { Some(s) => s, None => Suit::Spades };
    let b_suit = match b.suit { Some(s) => s, None => Suit::Spades };
    let a_rank = match a.rank { Some(r) => r, None => Rank::Three };
    let b_rank = match b.rank { Some(r) => r, None => Rank::Three };
    if let Some(trump) = trump_suit {
        if a_suit == *trump && b_suit != *trump {
            return 1;
        }
        if b_suit == *trump && a_suit != *trump {
            return -1;
        }
    }
    let a_suit_val = suit_position(a_suit);
    let b_suit_val = suit_position(b_suit);
    if a_suit_val != b_suit_val {
        return if b_suit_val > a_suit_val { 1 } else { -1 };
    }
    let a_value = a_rank.value();
    let b_value = b_rank.value();
    if a_value > b_value {
        1
    } else if a_value < b_value {
        -1
    } else {
        0
    }
}

/// Whether `a` beats `b` under the trump suit.
pub fn card_greater(a: &Card, b: &Card, trump_suit: &Option<Suit>) -> (r: bool)
    ensures
        r == (trick_strength(*a, *trump_suit) > trick_strength(*b, *trump_suit)),
{
    card_cmp(a, b, trump_suit) > 0
}

} // verus!

verus! {

pub open spec fn suit_at(i: int) -> Suit {
    if i == 0 {
        Suit::Spades
    } else if i == 1 {
        Suit::Hearts
    } else if i == 2 {
        Suit::Clubs
    } else {
        Suit::Diamonds
    }
}

pub open spec fn rank_at(i: int) -> Rank {
    if i == 0 { Rank::Three }
    else if i == 1 { Rank::Four }
    else if i == 2 { Rank::Five }
    else if i == 3 { Rank::Six }
    else if i == 4 { Rank::Seven }
    else if i == 5 { Rank::Eight }
    else if i == 6 { Rank::Nine }
    else if i == 7 { Rank::Ten }
    else if i == 8 { Rank::Jack }
    else if i == 9 { Rank::Queen }
    else if i == 10 { Rank::King }
    else if i == 11 { Rank::Ace }
    else { Rank::Two }
}

/// The card at position `i` of a fresh deck: the 13 ranks of spades, hearts,
/// clubs and diamonds in turn, then the small and the large joker.
pub open spec fn deck_card(i: int) -> Card {
    if i < 52 {
        Card { suit: Some(suit_at(i / 13)), rank: Some(rank_at(i % 13)), joker: None }
    } else if i == 52 {
        Card { suit: None, rank: None, joker: Some(Joker::Small) }
    } else {
        Card { suit: None, rank: None, joker: Some(Joker::Large) }
    }
}

/// A fresh deck of 54 cards.
pub open spec fn full_deck() -> Seq<Card> {
    Seq::new(54, |i: int| deck_card(i))
}

/// Builds a fresh deck: every suit-and-rank pair in order, then the two jokers.
pub fn create_deck() -> (deck: Vec<Card>)
    ensures
        deck@ == full_deck(),
{
    let mut deck: Vec<Card> = Vec::with_capacity(54);
    let mut suit_idx: u8 = 0;
    while suit_idx < 4
        invariant
            suit_idx <= 4,
            deck@ == full_deck().take(suit_idx * 13),
        decreases 4 - suit_idx,
    {
        let suit = Suit::from_index(suit_idx);
        let mut rank_idx: u8 = 0;
        while rank_idx < 13
            invariant
                suit_idx < 4,
                rank_idx <= 13,
                suit.index_of() == suit_idx,
                deck@ == full_deck().take(suit_idx * 13 + rank_idx),
            decreases 13 - rank_idx,
        {
            let rank = Rank::from_index(rank_idx);
            deck.push(Card::new(suit, rank));
            proof {
                let k = suit_idx * 13 + rank_idx;
                assert(k / 13 == suit_idx as int);
                assert(k % 13 == rank_idx as int);
                assert(suit_at(suit_idx as int) == suit);
                assert(rank_at(rank_idx as int) == rank);
                assert(full_deck().take(k + 1) =~= full_deck().take(k).push(deck_card(k)));
            }
            rank_idx = rank_idx + 1;
        }
        suit_idx = suit_idx + 1;
    }
    deck.push(Card::small_joker());
    assert(full_deck().take(53) =~= full_deck().take(52).push(deck_card(52)));
    deck.push(Card::large_joker());
    assert(full_deck().take(54) =~= full_deck().take(53).push(deck_card(53)));
    assert(full_deck().take(54) =~= full_deck());
    deck
}

/// In a sorted hand stronger cards go before weaker ones.
pub open spec fn stronger_first() -> spec_fn(Card, Card) -> bool {
    |a: Card, b: Card| strength(a) > strength(b)
}

/// Ordering by strength, strongest first, is a strict order.
pub proof fn lemma_stronger_first_strict()
    ensures
        strict_order(stronger_first()),
{
}

/// Whether `a` is stronger than `b`.
fn stronger(a: &Card, b: &Card) -> (r: bool)
    ensures
        r == stronger_first()(*a, *b),
{
    match a.cmp(b) {
        std::cmp::Ordering::Greater => true,
        _ => false,
    }
}

/// Sorts a hand from the strongest card down, stably; the trump suit plays no part.
pub fn sort_cards(cards: &mut Vec<Card>, _trump_suit: &Option<Suit>)
    ensures
        final(cards)@ == sort_by(old(cards)@, stronger_first()),
{
    let ghost before = stronger_first();
    let n = cards.len();
    let mut sorted: Vec<Card> = Vec::with_capacity(n);
    let mut i: usize = 0;
    while i < n
        invariant
            n == cards.len(),
            i <= n,
            before == stronger_first(),
            sorted@ == sort_by(cards@.take(i as int), before),
        decreases n - i,
    {
        let x = cards[i];
        let mut p: usize = 0;
        while p < sorted.len() && !stronger(&x, &sorted[p])
            invariant
                p <= sorted.len(),
                forall|k: int| 0 <= k < p ==> !before(x, #[trigger] sorted@[k]),
                before == stronger_first(),
            decreases sorted.len() - p,
        {
            p = p + 1;
        }
        proof {
            lemma_insert_at(x, sorted@, before, p as int);
            lemma_sort_take_step(cards@, i as int, before);
        }
        sorted.insert(p, x);
        assert(sorted@ =~= sort_by(cards@.take(i + 1), before));
        i = i + 1;
    }
    assert(cards@.take(n as int) =~= cards@);
    *cards = sorted;
}

} // verus!

verus! {

/// A new `std::collections::hash_map::RandomState` (`RandomState::new`), seeded
/// at random. Nothing is claimed of it.
#[verifier::external_body]
fn new_random_state() -> std::collections::hash_map::RandomState {
    std::collections::hash_map::RandomState::new()
}

/// A hasher built from the random state (`BuildHasher::build_hasher`). Nothing
/// is claimed of it: its keys come from the state's random seed.
#[verifier::external_body]
fn fresh_hasher(state: &std::collections::hash_map::RandomState) -> std::collections::hash_map::DefaultHasher {
    std::hash::BuildHasher::build_hasher(state)
}

/// Feeds an index to the hasher (`Hasher::write_usize`). Nothing is claimed of
/// the hasher's state afterwards.
#[verifier::external_body]
fn hash_write_index(hasher: &mut std::collections::hash_map::DefaultHasher, i: usize) {
    std::hash::Hasher::write_usize(hasher, i)
}

/// Exchanges the items at `i` and `j`.
fn swap_items<T>(v: &mut Vec<T>, i: usize, j: usize)
    requires
        j <= i < old(v)@.len(),
    ensures
        final(v)@ == old(v)@.update(i as int, old(v)@[j as int]).update(j as int, old(v)@[i as int]),
        final(v)@.to_multiset() == old(v)@.to_multiset(),
{
    if i != j {
        let ghost s = v@;
        let a = v.remove(i);
        let b = v.remove(j);
        v.insert(j, a);
        v.insert(i, b);
        proof {
            broadcast use vstd::seq_lib::to_multiset_remove, vstd::seq_lib::to_multiset_insert;
            broadcast use vstd::multiset::group_multiset_axioms;
            let s1 = s.remove(i as int);
            let s2 = s1.remove(j as int);
            let s3 = s2.insert(j as int, a);
            assert(v@ =~= s.update(i as int, s[j as int]).update(j as int, s[i as int]));
            assert(s.to_multiset().count(s[i as int]) > 0) by {
                s.to_multiset_ensures();
                assert(s.contains(s[i as int]));
            }
            assert(s1.to_multiset().count(s[j as int]) > 0) by {
                s1.to_multiset_ensures();
                assert(s1[j as int] == s[j as int]);
                assert(s1.contains(s1[j as int]));
            }
            assert(v@.to_multiset() =~= s.to_multiset());
        }
    }
}

/// The position that position `i` is exchanged with when the pick drawn for
/// it is `pick`: the pick, as a machine word, modulo `i + 1`.
pub open spec fn pick_position(pick: u64, i: int) -> int {
    ((pick as usize) as int) % (i + 1)
}

/// The items after the exchanges for the positions from the last one down to
/// `i`: each position `k` is exchanged with `pick_position(picks[k], k)`.
pub open spec fn shuffled_down_to<T>(s: Seq<T>, picks: Seq<u64>, i: int) -> Seq<T>
    decreases s.len() - i,
{
    if i >= s.len() {
        s
    } else {
        let before = shuffled_down_to(s, picks, i + 1);
        let j = pick_position(picks[i], i);
        before.update(i, before[j]).update(j, before[i])
    }
}

/// The items shuffled by the picks: exchanges for every position from the last
/// one down to the second.
pub open spec fn shuffled<T>(s: Seq<T>, picks: Seq<u64>) -> Seq<T> {
    shuffled_down_to(s, picks, 1)
}

/// Shuffles the items in place with the given picks, one per position: from
/// the last position down to the second, the item at position `i` is exchanged
/// with the one at `picks[i] % (i + 1)` (see `shuffled`).
pub fn shuffle_by<T>(deck: &mut Vec<T>, picks: &Vec<u64>)
    requires
        picks@.len() == old(deck)@.len(),
    ensures
        final(deck)@ == shuffled(old(deck)@, picks@),
        final(deck)@.to_multiset() == old(deck)@.to_multiset(),
        final(deck)@.len() == old(deck)@.len(),
{
    let n = deck.len();
    let mut i: usize = n;
    while i > 1
        invariant
            n == old(deck)@.len(),
            picks@.len() == n,
            i <= n,
            n >= 1 ==> i >= 1,
            deck@ == shuffled_down_to(old(deck)@, picks@, i as int),
            deck@.to_multiset() == old(deck)@.to_multiset(),
            deck@.len() == n,
        decreases i,
    {
        let idx = i - 1;
        let j = (picks[idx] as usize) % (idx + 1);
        assert(j == pick_position(picks@[idx as int], idx as int));
        swap_items(deck, idx, j);
        i = idx;
    }
    if n == 0 {
        assert(shuffled_down_to(old(deck)@, picks@, 0) == old(deck)@);
        assert(shuffled_down_to(old(deck)@, picks@, 1) == old(deck)@);
    }
}

/// Shuffles the items in place: for each position a pick is drawn by hashing
/// the position with a hasher of one randomly seeded state, and the items are
/// exchanged by those picks (see `shuffle_by`). The items stay the same; which
/// picks are drawn rests on chance.
pub fn shuffle<T>(deck: &mut Vec<T>)
    ensures
        exists|picks: Seq<u64>| picks.len() == old(deck)@.len() && final(deck)@ == shuffled(old(deck)@, picks),
        final(deck)@.to_multiset() == old(deck)@.to_multiset(),
        final(deck)@.len() == old(deck)@.len(),
{
    let rng = new_random_state();
    let n = deck.len();
    let mut picks: Vec<u64> = Vec::with_capacity(n);
    let mut k: usize = 0;
    while k < n
        invariant
            k <= n,
            picks@.len() == k,
        decreases n - k,
    {
        let mut hasher = fresh_hasher(&rng);
        hash_write_index(&mut hasher, k);
        picks.push(std::hash::Hasher::finish(&hasher));
        k = k + 1;
    }
    shuffle_by(deck, &picks);
}

} // verus!

verus! {

/// Comparing two cards the other way round gives the opposite outcome, and the
/// order is transitive; the same holds of `card_cmp` under any trump suit.
pub proof fn law_card_orders_consistent(a: Card, b: Card, c: Card, trump: Option<Suit>)
    ensures
        (ordering_of(strength(a), strength(b)) == std::cmp::Ordering::Greater) == (ordering_of(
            strength(b),
            strength(a),
        ) == std::cmp::Ordering::Less),
        ordering_of(strength(a), strength(a)) == std::cmp::Ordering::Equal,
        strength(a) > strength(b) && strength(b) > strength(c) ==> strength(a) > strength(c),
        sign(trick_strength(a, trump) - trick_strength(b, trump)) == -sign(
            trick_strength(b, trump) - trick_strength(a, trump),
        ),
        trick_strength(a, trump) > trick_strength(b, trump) && trick_strength(b, trump)
            > trick_strength(c, trump) ==> trick_strength(a, trump) > trick_strength(c, trump),
{
}

/// In a trick, jokers beat every ordinary card and the large joker beats the
/// small one; an ordinary card of the trump suit beats every ordinary card of
/// another suit; among ordinary cards of one suit the higher rank value wins.
pub proof fn law_trick_order(a: Card, b: Card, trump: Option<Suit>)
    ensures
        a.is_joker_spec() && !b.is_joker_spec() ==> trick_strength(a, trump) > trick_strength(b, trump),
        a.joker == Some(Joker::Large) && b.joker == Some(Joker::Small) ==> trick_strength(a, trump)
            > trick_strength(b, trump),
        !a.is_joker_spec() && !b.is_joker_spec() && trump == Some(a.suit_or_spades()) && trump != Some(
            b.suit_or_spades(),
        ) ==> trick_strength(a, trump) > trick_strength(b, trump),
        !a.is_joker_spec() && !b.is_joker_spec() && a.suit_or_spades() == b.suit_or_spades() ==> (
        trick_strength(a, trump) > trick_strength(b, trump) <==> a.rank_or_three().value_of()
            > b.rank_or_three().value_of()),
{
}

/// A sorted hand keeps every card of the hand and goes from the strongest card down.
pub proof fn law_sorted_cards(cards: Seq<Card>)
    ensures
        sort_by(cards, stronger_first()).to_multiset() == cards.to_multiset(),
        forall|i: int, j: int|
            0 <= i < j < cards.len() ==> strength(#[trigger] sort_by(cards, stronger_first())[i])
                >= strength(#[trigger] sort_by(cards, stronger_first())[j]),
{
    crate::sorting::lemma_sort_multiset(cards, stronger_first());
    lemma_stronger_first_strict();
    crate::sorting::lemma_sort_sorted(cards, stronger_first());
    let s = sort_by(cards, stronger_first());
    assert forall|i: int, j: int| 0 <= i < j < cards.len() implies strength(#[trigger] s[i]) >= strength(
        #[trigger] s[j],
    ) by {
        assert(!stronger_first()(s[j], s[i]));
    }
}

/// A fresh deck has 54 cards, no two alike; the first 52 are ordinary and the
/// last two are the jokers.
pub proof fn law_full_deck()
    ensures
        full_deck().len() == 54,
        full_deck().no_duplicates(),
        forall|i: int| 0 <= i < 52 ==> !(#[trigger] full_deck()[i]).is_joker_spec(),
        full_deck()[52].joker == Some(Joker::Small),
        full_deck()[53].joker == Some(Joker::Large),
{
    assert forall|i: int, j: int| 0 <= i < 54 && 0 <= j < 54 && i != j implies full_deck()[i]
        != full_deck()[j] by {
        if i < 52 && j < 52 {
            assert(i == 13 * (i / 13) + i % 13);
            assert(j == 13 * (j / 13) + j % 13);
            if i / 13 != j / 13 {
                assert(suit_at(i / 13) != suit_at(j / 13));
            } else {
                assert(rank_at(i % 13) != rank_at(j % 13));
            }
        }
    }
}

} // verus!

verus! {

/// Between two ordinary cards of different suits, neither of them trump, the
/// suit decides a trick whatever the ranks: spades beat hearts, hearts beat
/// clubs, clubs beat diamonds. So `card_cmp` gives 1 for the card of the
/// higher suit and -1 the other way round, and hands sort it first.
pub proof fn law_plain_suits_decide(a: Card, b: Card, trump: Option<Suit>)
    requires
        a.joker is None,
        b.joker is None,
        a.suit is Some,
        b.suit is Some,
        trump != a.suit,
        trump != b.suit,
        a.suit.unwrap().index_of() < b.suit.unwrap().index_of(),
    ensures
        trick_strength(a, trump) > trick_strength(b, trump),
        sign(trick_strength(a, trump) - trick_strength(b, trump)) == 1,
        sign(trick_strength(b, trump) - trick_strength(a, trump)) == -1,
        strength(a) > strength(b),
{
}

} // verus!

verus! {

/// Within a suit the ranks go 2 > A > K > Q > J > 10 > 9 > 8 > 7 > 6 > 5 > 4
/// > 3, in a trick under any trump suit and in the order hands are sorted by.
pub proof fn law_rank_order(s: Suit, trump: Option<Suit>)
    ensures
        ({
            let c = |r: Rank| Card { suit: Some(s), rank: Some(r), joker: None };
            let above = |x: Rank, y: Rank| trick_strength(c(x), trump) > trick_strength(c(y), trump) && strength(
                c(x),
            ) > strength(c(y));
            &&& above(Rank::Two, Rank::Ace)
            &&& above(Rank::Ace, Rank::King)
            &&& above(Rank::King, Rank::Queen)
            &&& above(Rank::Queen, Rank::Jack)
            &&& above(Rank::Jack, Rank::Ten)
            &&& above(Rank::Ten, Rank::Nine)
            &&& above(Rank::Nine, Rank::Eight)
            &&& above(Rank::Eight, Rank::Seven)
            &&& above(Rank::Seven, Rank::Six)
            &&& above(Rank::Six, Rank::Five)
            &&& above(Rank::Five, Rank::Four)
            &&& above(Rank::Four, Rank::Three)
        }),
{
}

} // verus!

verus! {

/// The points of a card: aces and tens 10, fives 5, every other card and the
/// jokers nothing; the scoring cards are exactly those with points.
pub proof fn law_card_points(s: Suit, r: Rank, j: Joker)
    ensures
        ({
            let c = Card { suit: Some(s), rank: Some(r), joker: None };
            let jk = Card { suit: None, rank: None, joker: Some(j) };
            &&& (r == Rank::Ace || r == Rank::Ten) ==> c.score_spec() == 10
            &&& r == Rank::Five ==> c.score_spec() == 5
            &&& (r != Rank::Ace && r != Rank::Ten && r != Rank::Five) ==> c.score_spec() == 0
            &&& jk.score_spec() == 0
            &&& c.is_score_spec() <==> c.score_spec() > 0
            &&& !jk.is_score_spec()
        }),
{
}

} // verus!
