use vstd::prelude::*;
use crate::client::types::{Card, Joker, Rank, Suit};
use crate::sorting::{lemma_insert_at, lemma_sort_take_step, sort_by, strict_order};

verus! {

/// -1, 0 or 1 as `x` is negative, zero or positive.
pub open spec fn sign(x: int) -> i32 {
    if x > 0 {
        1
    } else if x < 0 {
        -1i32
    } else {
        0
    }
}

/// Strength of a suit: the trump suit above every other suit, and among the
/// rest spades > hearts > clubs > diamonds.
pub open spec fn suit_strength(s: Suit, trump: Option<Suit>) -> int {
    (if trump == Some(s) { 4int } else { 0int }) + (3 - s.index_of())
}

/// Strength of a card: jokers above every other card (the large joker above the
/// small one); other cards by suit strength first and rank value second.
pub open spec fn card_strength(c: Card, trump: Option<Suit>) -> int {
    match c.joker {
        Some(Joker::Large) => 1002,
        Some(Joker::Small) => 1001,
        None => 100 * suit_strength(c.suit.unwrap(), trump) + c.rank.unwrap().value_of(),
    }
}

/// The outcome of comparing `a` with `b` under the given trump suit.
pub open spec fn card_order(a: Card, b: Card, trump: Option<Suit>) -> i32 {
    sign(card_strength(a, trump) - card_strength(b, trump))
}

/// The inputs on which a comparison reads a suit and a rank: two ordinary cards
/// must carry both.
pub open spec fn comparable(a: Card, b: Card) -> bool {
    (!a.is_joker_spec() && !b.is_joker_spec()) ==> (a.wf() && b.wf())
}

/// Compares two cards: 1 when `a` is stronger, -1 when `b` is, 0 when they tie.
pub fn card_cmp(a: &Card, b: &Card, trump_suit: &Option<Suit>) -> (r: i32)
    requires
        comparable(*a, *b),
    ensures
        r == card_order(*a, *b, *trump_suit),
{
    let a_is_joker = a.is_joker();
    let b_is_joker = b.is_joker();

    if a_is_joker && !b_is_joker {
        return 1;
    }
    if !a_is_joker && b_is_joker {
        return -1;
    }
    if a_is_joker && b_is_joker {
        return match (a.joker, b.joker) {
            (Some(Joker::Large), Some(Joker::Small)) => 1,
            (Some(Joker::Small), Some(Joker::Large)) => -1,
            _ => 0,
        };
    }
    let a_suit = a.suit.unwrap();
    let b_suit = b.suit.unwrap();
    let a_rank = a.rank.unwrap();
    let b_rank = b.rank.unwrap();

    let suit_cmp_result = suit_cmp(&a_suit, &b_suit, trump_suit);
    if suit_cmp_result != 0 {
        return suit_cmp_result;
    }
    if a_rank.value() > b_rank.value() {
        1
    } else if a_rank.value() < b_rank.value() {
        -1
    } else {
        0
    }
}

/// Compares two suits: 1 when `a` is stronger, -1 when `b` is, 0 when equal.
fn suit_cmp(a: &Suit, b: &Suit, trump_suit: &Option<Suit>) -> (r: i32)
    ensures
        r == sign(suit_strength(*a, *trump_suit) - suit_strength(*b, *trump_suit)),
{
    if let Some(trump) = trump_suit {
        if *a == *trump && *b != *trump {
            return 1;
        }
        if *b == *trump && *a != *trump {
            return -1;
        }
    }
    let a_index: u8 = match a {
        Suit::Spades => 0,
        Suit::Hearts => 1,
        Suit::Clubs => 2,
        Suit::Diamonds => 3,
    };
    let b_index: u8 = match b {
        Suit::Spades => 0,
        Suit::Hearts => 1,
        Suit::Clubs => 2,
        Suit::Diamonds => 3,
    };
    if a_index < b_index {
        1
    } else if a_index > b_index {
        -1
    } else {
        0
    }
}

/// The card at position `i` of a fresh deck: the 13 ranks of spades, hearts,
/// clubs and diamonds in turn, then the small and the large joker.
pub open spec fn deck_card(i: int) -> Card {
    if i < 52 {
        Card {
            suit: Some(suit_at(i / 13)),
            rank: Some(rank_at(i % 13)),
            joker: None,
        }
    } else if i == 52 {
        Card { suit: None, rank: None, joker: Some(Joker::Small) }
    } else {
        Card { suit: None, rank: None, joker: Some(Joker::Large) }
    }
}

pub open spec fn suit_at(i: int) -> Suit {
    if i == 0 {
        Suit::Spades
    } else if i == 1 {
        Suit::Hearts
    } else if i == 2 {
        Suit::Clubs
    } else {
        Suit::Diamonds
    }
}

pub open spec fn rank_at(i: int) -> Rank {
    if i == 0 { Rank::Three }
    else if i == 1 { Rank::Four }
    else if i == 2 { Rank::Five }
    else if i == 3 { Rank::Six }
    else if i == 4 { Rank::Seven }
    else if i == 5 { Rank::Eight }
    else if i == 6 { Rank::Nine }
    else if i == 7 { Rank::Ten }
    else if i == 8 { Rank::Jack }
    else if i == 9 { Rank::Queen }
    else if i == 10 { Rank::King }
    else if i == 11 { Rank::Ace }
    else { Rank::Two }
}

/// A fresh deck of 54 cards.
pub open spec fn full_deck() -> Seq<Card> {
    Seq::new(54, |i: int| deck_card(i))
}

/// Builds a fresh deck: every suit-and-rank pair in order, then the two jokers.
pub fn create_deck() -> (deck: Vec<Card>)
    ensures
        deck@ == full_deck(),
{
    let mut deck: Vec<Card> = Vec::with_capacity(54);
    let mut suit_idx: u8 = 0;
    while suit_idx < 4
        invariant
            suit_idx <= 4,
            deck@ == full_deck().take(suit_idx * 13),
        decreases 4 - suit_idx,
    {
        let suit = Suit::from_index(suit_idx);
        let mut rank_idx: u8 = 0;
        while rank_idx < 13
            invariant
                suit_idx < 4,
                rank_idx <= 13,
                suit.index_of() == suit_idx,
                deck@ == full_deck().take(suit_idx * 13 + rank_idx),
            decreases 13 - rank_idx,
        {
            let rank = Rank::from_index(rank_idx);
            deck.push(Card::new(suit, rank));
            proof {
                let k = suit_idx * 13 + rank_idx;
                assert(k / 13 == suit_idx as int);
                assert(k % 13 == rank_idx as int);
                assert(suit_at(suit_idx as int) == suit);
                assert(rank_at(rank_idx as int) == rank);
                assert(full_deck().take(k + 1) =~= full_deck().take(k).push(deck_card(k)));
            }
            rank_idx = rank_idx + 1;
        }
        suit_idx = suit_idx + 1;
    }
    deck.push(Card::small_joker());
    assert(full_deck().take(53) =~= full_deck().take(52).push(deck_card(52)));
    deck.push(Card::large_joker());
    assert(full_deck().take(54) =~= full_deck().take(53).push(deck_card(53)));
    assert(full_deck().take(54) =~= full_deck());
    deck
}

} // verus!

verus! {

/// In a hand sorted under `trump`, weaker cards go before stronger ones.
pub open spec fn weaker_first(trump: Option<Suit>) -> spec_fn(Card, Card) -> bool {
    |a: Card, b: Card| card_order(a, b, trump) < 0
}

/// Every card of `cards` is well formed.
pub open spec fn all_wf(cards: Seq<Card>) -> bool {
    forall|i: int| 0 <= i < cards.len() ==> #[trigger] cards[i].wf()
}

/// Ordering by strength is a strict order.
pub proof fn lemma_weaker_first_strict(trump: Option<Suit>)
    ensures
        strict_order(weaker_first(trump)),
{
}

/// Whether `a` is stronger than `b`.
pub(crate) fn beats(a: &Card, b: &Card, trump: &Option<Suit>) -> (r: bool)
    requires
        a.wf(),
        b.wf(),
    ensures
        r == (card_strength(*a, *trump) > card_strength(*b, *trump)),
{
    card_cmp(a, b, trump) > 0
}

/// Whether `a` is weaker than `b`.
fn goes_before(a: &Card, b: &Card, trump: &Option<Suit>) -> (r: bool)
    requires
        a.wf(),
        b.wf(),
    ensures
        r == weaker_first(*trump)(*a, *b),
{
    card_cmp(a, b, trump) < 0
}

/// Sorts a hand from the weakest card up, stably.
pub fn sort_hand(cards: &mut Vec<Card>, trump: &Option<Suit>)
    requires
        all_wf(old(cards)@),
    ensures
        final(cards)@ == sort_by(old(cards)@, weaker_first(*trump)),
{
    let ghost before = weaker_first(*trump);
    let n = cards.len();
    let mut sorted: Vec<Card> = Vec::with_capacity(n);
    let mut i: usize = 0;
    while i < n
        invariant
            n == cards.len(),
            i <= n,
            all_wf(cards@),
            all_wf(sorted@),
            before == weaker_first(*trump),
            sorted@ == sort_by(cards@.take(i as int), before),
        decreases n - i,
    {
        let x = cards[i];
        let mut p: usize = 0;
        while p < sorted.len() && !goes_before(&x, &sorted[p], trump)
            invariant
                p <= sorted.len(),
                x.wf(),
                all_wf(sorted@),
                forall|k: int| 0 <= k < p ==> !before(x, #[trigger] sorted@[k]),
                before == weaker_first(*trump),
            decreases sorted.len() - p,
        {
            p = p + 1;
        }
        proof {
            lemma_insert_at(x, sorted@, before, p as int);
            lemma_sort_take_step(cards@, i as int, before);
        }
        sorted.insert(p, x);
        assert(sorted@ =~= sort_by(cards@.take(i + 1), before));
        i = i + 1;
    }
    assert(cards@.take(n as int) =~= cards@);
    *cards = sorted;
}

} // verus!

verus! {

/// Comparing two cards the other way round gives the opposite outcome.
pub proof fn law_card_order_antisymmetric(a: Card, b: Card, trump: Option<Suit>)
    ensures
        card_order(a, b, trump) == -card_order(b, a, trump),
        card_order(a, a, trump) == 0,
{
}

/// The card order is transitive: stronger than a stronger card is stronger,
/// and at least as strong as one at least as strong is at least as strong.
pub proof fn law_card_order_transitive(a: Card, b: Card, c: Card, trump: Option<Suit>)
    ensures
        card_order(a, b, trump) > 0 && card_order(b, c, trump) > 0 ==> card_order(a, c, trump) > 0,
        card_order(a, b, trump) >= 0 && card_order(b, c, trump) >= 0 ==> card_order(a, c, trump) >= 0,
{
}

/// Jokers beat every well-formed ordinary card, the large joker beats the
/// small one, and among ordinary cards a trump beats every non-trump.
pub proof fn law_card_order_ranks(a: Card, b: Card, trump: Option<Suit>)
    requires
        a.wf(),
        b.wf(),
    ensures
        a.is_joker_spec() && !b.is_joker_spec() ==> card_order(a, b, trump) == 1,
        a.joker == Some(Joker::Large) && b.joker == Some(Joker::Small) ==> card_order(a, b, trump) == 1,
        !a.is_joker_spec() && !b.is_joker_spec() && trump is Some && a.suit == trump && b.suit != trump
            ==> card_order(a, b, trump) == 1,
        !a.is_joker_spec() && !b.is_joker_spec() && a.suit == b.suit ==> card_order(a, b, trump) == sign(
            a.rank.unwrap().value_of() - b.rank.unwrap().value_of(),
        ),
{
}

/// A fresh deck has 54 well-formed cards, no two alike; the first 52 are
/// ordinary and the last two are the jokers.
pub proof fn law_full_deck()
    ensures
        full_deck().len() == 54,
        all_wf(full_deck()),
        full_deck().no_duplicates(),
        forall|i: int| 0 <= i < 52 ==> !(#[trigger] full_deck()[i]).is_joker_spec(),
        full_deck()[52].joker == Some(Joker::Small),
        full_deck()[53].joker == Some(Joker::Large),
{
    assert forall|i: int, j: int| 0 <= i < 54 && 0 <= j < 54 && i != j implies full_deck()[i]
        != full_deck()[j] by {
        if i < 52 && j < 52 {
            assert(i == 13 * (i / 13) + i % 13);
            assert(j == 13 * (j / 13) + j % 13);
            if i / 13 != j / 13 {
                assert(suit_at(i / 13) != suit_at(j / 13));
            } else {
                assert(rank_at(i % 13) != rank_at(j % 13));
            }
        }
    }
}

/// A sorted hand keeps every card of the hand and goes from the weakest card up.
pub proof fn law_sorted_hand(cards: Seq<Card>, trump: Option<Suit>)
    ensures
        sort_by(cards, weaker_first(trump)).to_multiset() == cards.to_multiset(),
        forall|i: int, j: int|
            0 <= i < j < cards.len() ==> card_order(
                #[trigger] sort_by(cards, weaker_first(trump))[i],
                #[trigger] sort_by(cards, weaker_first(trump))[j],
                trump,
            ) <= 0,
{
    crate::sorting::lemma_sort_multiset(cards, weaker_first(trump));
    lemma_weaker_first_strict(trump);
    crate::sorting::lemma_sort_sorted(cards, weaker_first(trump));
    let s = sort_by(cards, weaker_first(trump));
    assert forall|i: int, j: int| 0 <= i < j < cards.len() implies card_order(
        #[trigger] s[i],
        #[trigger] s[j],
        trump,
    ) <= 0 by {
        assert(!weaker_first(trump)(s[j], s[i]));
    }
}

} // verus!

verus! {

/// The points held by a row of cards.
pub open spec fn cards_points(s: Seq<Card>) -> int
    decreases s.len(),
{
    if s.len() == 0 {
        0
    } else {
        cards_points(s.drop_last()) + s.last().score_spec()
    }
}

/// Points add up over concatenation.
pub proof fn lemma_points_concat(a: Seq<Card>, b: Seq<Card>)
    ensures
        cards_points(a + b) == cards_points(a) + cards_points(b),
    decreases b.len(),
{
    if b.len() > 0 {
        lemma_points_concat(a, b.drop_last());
        assert((a + b).drop_last() =~= a + b.drop_last());
    }
}

/// The thirteen ordinary cards of one suit, from three up to two.
pub open spec fn suit_row(s: Suit) -> Seq<Card> {
    Seq::new(13, |r: int| Card { suit: Some(s), rank: Some(rank_at(r)), joker: None })
}

/// Points in the first `k` cards of a suit row: the five counts from the third
/// card on, the ten from the eighth, the ace from the twelfth.
spec fn row_prefix_points(k: int) -> int {
    if k <= 2 {
        0
    } else if k <= 7 {
        5
    } else if k <= 11 {
        15
    } else {
        25
    }
}

proof fn lemma_row_prefix(s: Suit, k: int)
    requires
        0 <= k <= 13,
    ensures
        cards_points(suit_row(s).take(k)) == row_prefix_points(k),
    decreases k,
{
    if k > 0 {
        lemma_row_prefix(s, k - 1);
        assert(suit_row(s).take(k).drop_last() =~= suit_row(s).take(k - 1));
    }
}

proof fn lemma_suit_row_points(s: Suit)
    ensures
        cards_points(suit_row(s)) == 25,
{
    lemma_row_prefix(s, 13);
    assert(suit_row(s).take(13) =~= suit_row(s));
}

/// A fresh deck holds 100 points: 25 in each suit (the ace and the ten worth
/// 10 each, the five 5), none in the jokers.
pub proof fn law_deck_points()
    ensures
        cards_points(full_deck()) == 100,
{
    let d = full_deck();
    let jokers = seq![
        Card { suit: None, rank: None, joker: Some(Joker::Small) },
        Card { suit: None, rank: None, joker: Some(Joker::Large) },
    ];
    assert(d =~= suit_row(Suit::Spades) + suit_row(Suit::Hearts) + suit_row(Suit::Clubs) + suit_row(
        Suit::Diamonds,
    ) + jokers) by {
        assert forall|i: int| 0 <= i < 54 implies d[i] == (suit_row(Suit::Spades) + suit_row(
            Suit::Hearts,
        ) + suit_row(Suit::Clubs) + suit_row(Suit::Diamonds) + jokers)[i] by {
            if i < 52 {
                assert(i == 13 * (i / 13) + i % 13);
            }
        }
    }
    lemma_suit_row_points(Suit::Spades);
    lemma_suit_row_points(Suit::Hearts);
    lemma_suit_row_points(Suit::Clubs);
    lemma_suit_row_points(Suit::Diamonds);
    let a = suit_row(Suit::Spades);
    let b = suit_row(Suit::Hearts);
    let c = suit_row(Suit::Clubs);
    let e = suit_row(Suit::Diamonds);
    lemma_points_concat(a, b);
    lemma_points_concat(a + b, c);
    lemma_points_concat(a + b + c, e);
    lemma_points_concat(a + b + c + e, jokers);
    assert(jokers.drop_last() =~= seq![Card { suit: None, rank: None, joker: Some(Joker::Small) }]);
    assert(jokers.drop_last().drop_last() =~= Seq::<Card>::empty());
    assert(cards_points(jokers.drop_last().drop_last()) == 0);
    assert(cards_points(jokers.drop_last()) == 0);
    assert(cards_points(jokers) == 0);
    assert(cards_points(a + b + c + e + jokers) == 100);
}

} // verus!

verus! {

/// Between two ordinary cards of different suits, neither of them trump, the
/// suit decides whatever the ranks: spades beat hearts, hearts beat clubs,
/// clubs beat diamonds.
pub proof fn law_plain_suits_decide(a: Card, b: Card, trump: Option<Suit>)
    requires
        a.wf(),
        b.wf(),
        !a.is_joker_spec(),
        !b.is_joker_spec(),
        trump != a.suit,
        trump != b.suit,
        a.suit.unwrap().index_of() < b.suit.unwrap().index_of(),
    ensures
        card_order(a, b, trump) == 1,
        card_order(b, a, trump) == -1,
{
}

/// Within a suit the ranks go 2 > A > K > Q > J > 10 > 9 > 8 > 7 > 6 > 5 > 4
/// > 3, under any trump suit.
pub proof fn law_rank_order(s: Suit, trump: Option<Suit>)
    ensures
        ({
            let c = |r: Rank| Card { suit: Some(s), rank: Some(r), joker: None };
            &&& card_order(c(Rank::Two), c(Rank::Ace), trump) == 1
            &&& card_order(c(Rank::Ace), c(Rank::King), trump) == 1
            &&& card_order(c(Rank::King), c(Rank::Queen), trump) == 1
            &&& card_order(c(Rank::Queen), c(Rank::Jack), trump) == 1
            &&& card_order(c(Rank::Jack), c(Rank::Ten), trump) == 1
            &&& card_order(c(Rank::Ten), c(Rank::Nine), trump) == 1
            &&& card_order(c(Rank::Nine), c(Rank::Eight), trump) == 1
            &&& card_order(c(Rank::Eight), c(Rank::Seven), trump) == 1
            &&& card_order(c(Rank::Seven), c(Rank::Six), trump) == 1
            &&& card_order(c(Rank::Six), c(Rank::Five), trump) == 1
            &&& card_order(c(Rank::Five), c(Rank::Four), trump) == 1
            &&& card_order(c(Rank::Four), c(Rank::Three), trump) == 1
        }),
{
}

} // verus!

verus! {

/// The points of a card: aces and tens 10, fives 5, every other card and the
/// jokers nothing; the scoring cards are exactly those with points.
pub proof fn law_card_points(s: Suit, r: Rank, j: Joker)
    ensures
        ({
            let c = Card { suit: Some(s), rank: Some(r), joker: None };
            let jk = Card { suit: None, rank: None, joker: Some(j) };
            &&& (r == Rank::Ace || r == Rank::Ten) ==> c.score_spec() == 10
            &&& r == Rank::Five ==> c.score_spec() == 5
            &&& (r != Rank::Ace && r != Rank::Ten && r != Rank::Five) ==> c.score_spec() == 0
            &&& jk.score_spec() == 0
            &&& c.is_score_spec() <==> c.score_spec() > 0
            &&& !jk.is_score_spec()
        }),
{
}

} // verus!
