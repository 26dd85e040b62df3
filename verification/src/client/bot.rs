use vstd::prelude::*;
use crate::client::types::{Card, Suit};
use crate::clock::{duration_nanos, elapsed_since_epoch, system_now};

verus! {

/// How hard the bot plays.
#[derive(Debug, Clone, Copy, PartialEq, Eq, Structural)]
pub enum BotLevel {
    Easy,
    Normal,
    Hard,
}

/// A computer player.
#[derive(Debug)]
pub struct Bot {
    level: BotLevel,
}

// ---------------------------------------------------------------------------
// The model of the bot's choices.
// ---------------------------------------------------------------------------

/// A card the bot plays at once on a lead: one of the lead suit that scores
/// nothing, or a joker.
pub open spec fn follows(c: Card, lead: Suit) -> bool {
    (c.suit == Some(lead) && !c.is_score_spec()) || (c.suit is None && c.is_joker_spec())
}

/// `i` is the first card of the hand that follows the lead.
pub open spec fn is_first_follower(hand: Seq<Card>, lead: Suit, i: int) -> bool {
    &&& 0 <= i < hand.len()
    &&& follows(hand[i], lead)
    &&& forall|j: int| 0 <= j < i ==> !follows(#[trigger] hand[j], lead)
}

/// How much the bot wants to keep a card it would throw away: jokers 0,
/// trumps their rank value, other cards 50 more than their rank value.
pub open spec fn discard_value(c: Card, trump: Option<Suit>) -> int {
    if c.is_joker_spec() {
        0
    } else if c.suit == trump {
        c.rank.unwrap().value_of() as int
    } else {
        50 + c.rank.unwrap().value_of()
    }
}

/// `i` is the first non-scoring card of least discard value.
pub open spec fn is_cheapest(hand: Seq<Card>, trump: Option<Suit>, i: int) -> bool {
    &&& 0 <= i < hand.len()
    &&& !hand[i].is_score_spec()
    &&& forall|j: int|
        0 <= j < hand.len() && !hand[j].is_score_spec() ==> discard_value(hand[i], trump)
            <= discard_value(#[trigger] hand[j], trump)
    &&& forall|j: int|
        0 <= j < i && !hand[j].is_score_spec() ==> discard_value(hand[i], trump) < discard_value(
            #[trigger] hand[j],
            trump,
        )
}

/// `i` is the first card of least discard value in the whole hand.
pub open spec fn is_smallest(hand: Seq<Card>, trump: Option<Suit>, i: int) -> bool {
    &&& 0 <= i < hand.len()
    &&& forall|j: int|
        0 <= j < hand.len() ==> discard_value(hand[i], trump) <= discard_value(#[trigger] hand[j], trump)
    &&& forall|j: int| 0 <= j < i ==> discard_value(hand[i], trump) < discard_value(#[trigger] hand[j], trump)
}

/// The card the normal bot plays: the first follower of the lead if there is
/// one; else the first cheapest non-scoring card; else, when every card
/// scores, the first smallest card.
pub open spec fn normal_choice(hand: Seq<Card>, lead: Option<Suit>, trump: Option<Suit>) -> int {
    if lead is Some && exists|i: int| is_first_follower(hand, lead.unwrap(), i) {
        choose|i: int| is_first_follower(hand, lead.unwrap(), i)
    } else if exists|i: int| is_cheapest(hand, trump, i) {
        choose|i: int| is_cheapest(hand, trump, i)
    } else {
        choose|i: int| is_smallest(hand, trump, i)
    }
}

/// The normal bot reads the rank of every ordinary non-scoring card when no card follows the lead.
pub open spec fn ranks_readable(hand: Seq<Card>, lead: Option<Suit>) -> bool {
    (lead is None || forall|i: int| 0 <= i < hand.len() ==> !follows(#[trigger] hand[i], lead.unwrap()))
        ==> forall|i: int|
        0 <= i < hand.len() && !hand[i].is_score_spec() && !hand[i].is_joker_spec() ==> (
        #[trigger] hand[i]).rank is Some
}

/// What one card adds to the bot's estimate of its hand: 30 for a joker, the
/// rank value for a trump, 5 for another suit, plus the card's score.
pub open spec fn card_weight(c: Card, trump: Option<Suit>) -> int {
    (if c.is_joker_spec() {
        30int
    } else if c.suit is Some {
        if c.suit == trump {
            c.rank.unwrap().value_of() as int
        } else {
            5
        }
    } else {
        0
    }) + (if c.is_score_spec() {
        c.score_spec() as int
    } else {
        0
    })
}

/// The bot's estimate of a hand: the sum of its card weights.
pub open spec fn hand_weight(hand: Seq<Card>, trump: Option<Suit>) -> int
    decreases hand.len(),
{
    if hand.len() == 0 {
        0
    } else {
        hand_weight(hand.drop_last(), trump) + card_weight(hand.last(), trump)
    }
}

/// The estimate reads the rank of every ordinary trump card.
pub open spec fn trump_ranks_readable(hand: Seq<Card>, trump: Option<Suit>) -> bool {
    forall|i: int|
        0 <= i < hand.len() && !hand[i].is_joker_spec() && hand[i].suit is Some && hand[i].suit
            == trump ==> (#[trigger] hand[i]).rank is Some
}

/// `x` held between `lo` and `hi`.
pub open spec fn clamp(x: int, lo: int, hi: int) -> int {
    if x < lo {
        lo
    } else if x > hi {
        hi
    } else {
        x
    }
}

/// The bid for a hand of the given estimate: 75 for the easy bot; the estimate
/// over 10 held within 75..150 for the normal bot; the estimate over 8 held
/// within 75..200 for the hard bot.
pub open spec fn bid_for(level: BotLevel, weight: int) -> int {
    match level {
        BotLevel::Easy => 75,
        BotLevel::Normal => clamp(weight / 10, 75, 150),
        BotLevel::Hard => clamp(weight / 8, 75, 200),
    }
}

/// The easy bot's pick for a clock reading: the reading, cut to a machine word,
/// modulo the hand size.
pub open spec fn easy_index(seed: u128, len: usize) -> int {
    ((seed as usize) % len) as int
}

/// The normal bot plays the first follower of the lead.
pub proof fn lemma_follower_chosen(hand: Seq<Card>, lead: Suit, trump: Option<Suit>, i: int)
    requires
        is_first_follower(hand, lead, i),
    ensures
        normal_choice(hand, Some(lead), trump) == i,
{
    let lead_opt = Some(lead);
    assert(lead_opt.unwrap() == lead);
    assert(exists|k: int| is_first_follower(hand, lead_opt.unwrap(), k));
    let c = choose|k: int| is_first_follower(hand, lead_opt.unwrap(), k);
    lemma_unique_choices(hand, lead, trump, c, i);
}

/// Each hand has one cheapest card, one smallest card, one first follower.
pub proof fn lemma_unique_choices(hand: Seq<Card>, lead: Suit, trump: Option<Suit>, i: int, j: int)
    ensures
        is_first_follower(hand, lead, i) && is_first_follower(hand, lead, j) ==> i == j,
        is_cheapest(hand, trump, i) && is_cheapest(hand, trump, j) ==> i == j,
        is_smallest(hand, trump, i) && is_smallest(hand, trump, j) ==> i == j,
{
    if is_smallest(hand, trump, i) && is_smallest(hand, trump, j) && i != j {
        if i < j {
            assert(discard_value(hand[j], trump) < discard_value(hand[i], trump));
        } else {
            assert(discard_value(hand[i], trump) < discard_value(hand[j], trump));
        }
    }
    if is_cheapest(hand, trump, i) && is_cheapest(hand, trump, j) && i != j {
        if i < j {
            assert(discard_value(hand[j], trump) < discard_value(hand[i], trump));
        } else {
            assert(discard_value(hand[i], trump) < discard_value(hand[j], trump));
        }
    }
}

} // verus!

verus! {

impl Bot {
    pub fn new(level: BotLevel) -> (b: Bot)
        ensures
            b.level_of() == level,
    {
        Bot { level }
    }

    pub closed spec fn level_of(&self) -> BotLevel {
        self.level
    }

    pub fn level(&self) -> (l: BotLevel)
        ensures
            l == self.level_of(),
    {
        self.level
    }

    /// Picks the index of the card to play, or `None` for an empty hand: the
    /// easy bot by the clock; the normal and hard bots alike by
    /// `normal_choice`, whatever lies on the table (`round_cards`).
    pub fn choose_card(
        &self,
        hand: &[Card],
        current_lead: &Option<Suit>,
        trump_suit: &Option<Suit>,
        round_cards: &[Option<Card>],
    ) -> (r: Option<usize>)
        requires
            self.level_of() != BotLevel::Easy ==> ranks_readable(hand@, *current_lead),
        ensures
            hand@.len() == 0 <==> r is None,
            r matches Some(i) ==> i < hand@.len(),
            self.level_of() != BotLevel::Easy && hand@.len() > 0 ==> r == Some(
                normal_choice(hand@, *current_lead, *trump_suit) as usize,
            ),
    {
        if hand.len() == 0 {
            return None;
        }
        match self.level {
            BotLevel::Easy => self.easy_strategy(hand),
            BotLevel::Normal => self.normal_strategy(hand, current_lead, trump_suit),
            BotLevel::Hard => self.hard_strategy(hand, current_lead, trump_suit, round_cards),
        }
    }

    /// A card picked by the clock: the nanoseconds since the Unix epoch modulo
    /// the hand size (see `easy_pick`); a clock set before the epoch reads as 0.
    fn easy_strategy(&self, hand: &[Card]) -> (r: Option<usize>)
        requires
            hand@.len() > 0,
        ensures
            r is Some,
            r.unwrap() < hand@.len(),
    {
        let now = system_now();
        let seed: u128 = match elapsed_since_epoch(&now) {
            Some(elapsed) => duration_nanos(&elapsed),
            None => 0,
        };
        Some(easy_pick(seed, hand.len()))
    }

    /// Follows the lead with a non-scoring card or a joker when it can, else
    /// throws the cheapest non-scoring card, else the smallest card.
    fn normal_strategy(&self, hand: &[Card], current_lead: &Option<Suit>, trump_suit: &Option<Suit>) -> (r:
        Option<usize>)
        requires
            hand@.len() > 0,
            ranks_readable(hand@, *current_lead),
        ensures
            r == Some(normal_choice(hand@, *current_lead, *trump_suit) as usize),
            0 <= normal_choice(hand@, *current_lead, *trump_suit) < hand@.len(),
    {
        if let Some(lead_suit) = current_lead {
            let mut i: usize = 0;
            while i < hand.len()
                invariant
                    i <= hand@.len(),
                    *current_lead == Some(*lead_suit),
                    forall|j: int| 0 <= j < i ==> !follows(#[trigger] hand@[j], *lead_suit),
                decreases hand@.len() - i,
            {
                let card = hand[i];
                if let Some(suit) = card.suit {
                    if suit == *lead_suit {
                        if !card.is_score() {
                            proof {
                                lemma_follower_chosen(hand@, *lead_suit, *trump_suit, i as int);
                            }
                            return Some(i);
                        }
                    }
                } else if card.is_joker() {
                    proof {
                        lemma_follower_chosen(hand@, *lead_suit, *trump_suit, i as int);
                    }
                    return Some(i);
                }
                i = i + 1;
            }
            assert(!exists|k: int| is_first_follower(hand@, *lead_suit, k));
        }
        let mut min_idx: usize = 0;
        let mut min_value: u8 = 100;
        let mut i: usize = 0;
        while i < hand.len()
            invariant
                i <= hand@.len(),
                forall|j: int|
                    0 <= j < hand@.len() && !hand@[j].is_score_spec() && !hand@[j].is_joker_spec()
                        ==> (#[trigger] hand@[j]).rank is Some,
                min_value <= 100,
                min_value == 100 <==> (forall|j: int| 0 <= j < i ==> (#[trigger] hand@[j]).is_score_spec()),
                min_value < 100 ==> {
                    &&& min_idx < i
                    &&& !hand@[min_idx as int].is_score_spec()
                    &&& min_value == discard_value(hand@[min_idx as int], *trump_suit)
                    &&& forall|j: int|
                        0 <= j < i && !hand@[j].is_score_spec() ==> min_value <= discard_value(
                            #[trigger] hand@[j],
                            *trump_suit,
                        )
                    &&& forall|j: int|
                        0 <= j < min_idx && !hand@[j].is_score_spec() ==> min_value < discard_value(
                            #[trigger] hand@[j],
                            *trump_suit,
                        )
                },
            decreases hand@.len() - i,
        {
            let card = hand[i];
            if !card.is_score() {
                let value: u8 = if card.is_joker() {
                    0
                } else if same_suit(&card.suit, trump_suit) {
                    card.rank.unwrap().value()
                } else {
                    50 + card.rank.unwrap().value()
                };
                assert(value == discard_value(card, *trump_suit));
                let ghost old_min = min_value;
                if value < min_value {
                    min_value = value;
                    min_idx = i;
                }
                assert forall|j: int| 0 <= j < i && !hand@[j].is_score_spec() implies min_value
                    <= discard_value(#[trigger] hand@[j], *trump_suit) by {
                    if old_min == 100 {
                        assert(hand@[j].is_score_spec());
                    }
                }
            }
            i = i + 1;
        }
        if min_value == 100 {
            proof {
                assert forall|k: int| !is_cheapest(hand@, *trump_suit, k) by {
                    if 0 <= k < hand@.len() {
                        assert(hand@[k].is_score_spec());
                    }
                }
            }
            let least = smallest_card(hand, trump_suit);
            proof {
                let c = choose|k: int| is_smallest(hand@, *trump_suit, k);
                lemma_unique_choices(hand@, Suit::Spades, *trump_suit, c, least as int);
            }
            Some(least)
        } else {
            proof {
                assert(is_cheapest(hand@, *trump_suit, min_idx as int));
                let c = choose|k: int| is_cheapest(hand@, *trump_suit, k);
                lemma_unique_choices(hand@, Suit::Spades, *trump_suit, c, min_idx as int);
            }
            Some(min_idx)
        }
    }

    /// Looks for the lead suit in the hand, then plays as the normal bot.
    fn hard_strategy(
        &self,
        hand: &[Card],
        current_lead: &Option<Suit>,
        trump_suit: &Option<Suit>,
        _round_cards: &[Option<Card>],
    ) -> (r: Option<usize>)
        requires
            hand@.len() > 0,
            ranks_readable(hand@, *current_lead),
        ensures
            r == Some(normal_choice(hand@, *current_lead, *trump_suit) as usize),
            0 <= normal_choice(hand@, *current_lead, *trump_suit) < hand@.len(),
    {
        let mut has_lead_suit = false;
        if let Some(lead_suit) = current_lead {
            let mut i: usize = 0;
            while i < hand.len()
                invariant
                    i <= hand@.len(),
                decreases hand@.len() - i,
            {
                if let Some(suit) = hand[i].suit {
                    if suit == *lead_suit {
                        has_lead_suit = true;
                        break;
                    }
                }
                i = i + 1;
            }
        }
        self.normal_strategy(hand, current_lead, trump_suit)
    }

    /// The bid for a hand: see `bid_for` and `hand_weight`.
    pub fn decide_bid(&self, hand: &[Card], trump_suit: &Option<Suit>) -> (b: u32)
        requires
            trump_ranks_readable(hand@, *trump_suit),
            hand_weight(hand@, *trump_suit) <= u32::MAX,
        ensures
            b == bid_for(self.level_of(), hand_weight(hand@, *trump_suit)),
            75 <= b <= 200,
    {
        let mut score: u32 = 0;
        let mut i: usize = 0;
        while i < hand.len()
            invariant
                i <= hand@.len(),
                trump_ranks_readable(hand@, *trump_suit),
                hand_weight(hand@, *trump_suit) <= u32::MAX,
                score == hand_weight(hand@.take(i as int), *trump_suit),
            decreases hand@.len() - i,
        {
            proof {
                lemma_hand_weight_prefix(hand@, *trump_suit, i as int + 1);
                assert(hand@.take(i + 1).drop_last() =~= hand@.take(i as int));
            }
            let card = hand[i];
            if card.is_joker() {
                score = score + 30;
            } else if let Some(suit) = card.suit {
                if same_suit(&Some(suit), trump_suit) {
                    score = score + card.rank.unwrap().value() as u32;
                } else {
                    score = score + 5;
                }
            }
            if card.is_score() {
                score = score + card.score() as u32;
            }
            i = i + 1;
        }
        assert(hand@.take(i as int) =~= hand@);
        match self.level {
            BotLevel::Easy => 75,
            BotLevel::Normal => clamp_u32(score / 10, 75, 150),
            BotLevel::Hard => clamp_u32(score / 8, 75, 200),
        }
    }
}

/// The easy bot's pick: see `easy_index`.
pub fn easy_pick(seed: u128, len: usize) -> (i: usize)
    requires
        len > 0,
    ensures
        i == easy_index(seed, len),
        i < len,
{
    (seed as usize) % len
}

/// The discard value of a card whose rank can be read: see `discard_value`.
fn discard_value_of(card: &Card, trump_suit: &Option<Suit>) -> (v: u8)
    requires
        card.is_joker_spec() || card.rank is Some,
    ensures
        v == discard_value(*card, *trump_suit),
{
    if card.is_joker() {
        0
    } else if same_suit(&card.suit, trump_suit) {
        card.rank.unwrap().value()
    } else {
        50 + card.rank.unwrap().value()
    }
}

/// The first card of least discard value in a hand of scoring cards.
fn smallest_card(hand: &[Card], trump_suit: &Option<Suit>) -> (i: usize)
    requires
        hand@.len() > 0,
        forall|j: int| 0 <= j < hand@.len() ==> (#[trigger] hand@[j]).is_score_spec(),
    ensures
        is_smallest(hand@, *trump_suit, i as int),
{
    let mut best: usize = 0;
    let mut best_value: u8 = discard_value_of(&hand[0], trump_suit);
    let mut i: usize = 1;
    while i < hand.len()
        invariant
            1 <= i <= hand@.len(),
            forall|j: int| 0 <= j < hand@.len() ==> (#[trigger] hand@[j]).is_score_spec(),
            best < i,
            best_value == discard_value(hand@[best as int], *trump_suit),
            forall|j: int| 0 <= j < i ==> best_value <= discard_value(#[trigger] hand@[j], *trump_suit),
            forall|j: int| 0 <= j < best ==> best_value < discard_value(#[trigger] hand@[j], *trump_suit),
        decreases hand@.len() - i,
    {
        assert(hand@[i as int].is_score_spec());
        let v = discard_value_of(&hand[i], trump_suit);
        if v < best_value {
            best = i;
            best_value = v;
        }
        i = i + 1;
    }
    best
}

/// `x` raised to at least `lo`, then lowered to at most `hi`.
fn clamp_u32(x: u32, lo: u32, hi: u32) -> (r: u32)
    requires
        lo <= hi,
    ensures
        r == clamp(x as int, lo as int, hi as int),
{
    let raised = if x < lo { lo } else { x };
    if raised > hi { hi } else { raised }
}

/// Whether two optional suits are the same.
fn same_suit(a: &Option<Suit>, b: &Option<Suit>) -> (r: bool)
    ensures
        r == (*a == *b),
{
    match (a, b) {
        (Some(x), Some(y)) => *x == *y,
        (None, None) => true,
        _ => false,
    }
}

/// Weights of cards are never negative, so a prefix of a hand weighs no more than the hand.
pub proof fn lemma_hand_weight_prefix(hand: Seq<Card>, trump: Option<Suit>, k: int)
    requires
        0 <= k <= hand.len(),
    ensures
        0 <= hand_weight(hand.take(k), trump) <= hand_weight(hand, trump),
    decreases hand.len(),
{
    if k == hand.len() {
        assert(hand.take(k) =~= hand);
        lemma_hand_weight_nonneg(hand, trump);
    } else {
        lemma_hand_weight_prefix(hand.drop_last(), trump, k);
        assert(hand.drop_last().take(k) =~= hand.take(k));
    }
}

pub proof fn lemma_hand_weight_nonneg(hand: Seq<Card>, trump: Option<Suit>)
    ensures
        0 <= hand_weight(hand, trump),
    decreases hand.len(),
{
    if hand.len() > 0 {
        lemma_hand_weight_nonneg(hand.drop_last(), trump);
    }
}

} // verus!

verus! {

/// A joker is the cheapest card to throw: when nothing was led, the normal
/// bot plays the hand's first joker, whatever the other cards are.
pub proof fn law_bot_throws_joker_first(hand: Seq<Card>, trump: Option<Suit>, j: int)
    requires
        0 <= j < hand.len(),
        hand[j].is_joker_spec(),
        forall|k: int| 0 <= k < j ==> !(#[trigger] hand[k]).is_joker_spec(),
    ensures
        normal_choice(hand, None, trump) == j,
{
    assert forall|k: int| 0 <= k < hand.len() && !hand[k].is_score_spec() implies discard_value(hand[j], trump)
        <= discard_value(#[trigger] hand[k], trump) by {
        if !hand[k].is_joker_spec() {
            assert(hand[k].rank.unwrap().value_of() >= 3);
        }
    }
    assert forall|k: int| 0 <= k < j && !hand[k].is_score_spec() implies discard_value(hand[j], trump)
        < discard_value(#[trigger] hand[k], trump) by {
        assert(hand[k].rank.unwrap().value_of() >= 3);
    }
    assert(is_cheapest(hand, trump, j));
    let c = choose|i: int| is_cheapest(hand, trump, i);
    lemma_unique_choices(hand, Suit::Spades, trump, c, j);
}

} // verus!

verus! {

/// The bids the bot makes from its estimate `w` of a hand: the easy bot always
/// 75; the normal bot a tenth of the estimate, rounded down, kept within
/// 75..150; the hard bot an eighth, kept within 75..200.
pub proof fn law_bot_bids(w: int)
    requires
        w >= 0,
    ensures
        bid_for(BotLevel::Easy, w) == 75,
        75 <= bid_for(BotLevel::Normal, w) <= 150,
        75 <= bid_for(BotLevel::Hard, w) <= 200,
        750 <= w < 1510 ==> 10 * bid_for(BotLevel::Normal, w) <= w < 10 * bid_for(BotLevel::Normal, w) + 10,
        600 <= w < 1608 ==> 8 * bid_for(BotLevel::Hard, w) <= w < 8 * bid_for(BotLevel::Hard, w) + 8,
        w < 750 ==> bid_for(BotLevel::Normal, w) == 75,
        w >= 1510 ==> bid_for(BotLevel::Normal, w) == 150,
        w < 600 ==> bid_for(BotLevel::Hard, w) == 75,
        w >= 1608 ==> bid_for(BotLevel::Hard, w) == 200,
{
}

} // verus!
