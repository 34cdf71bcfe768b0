//! The poker-hand evaluator: classifies a set of cards into the best hand
//! category it contains and picks a witness set of scoring cards.

use vstd::prelude::*;

use crate::playing_card::{
    spec_rank_index, spec_rank_of_index, spec_suit_index, spec_suit_of_index, PlayingCard, Rank,
    Suit,
};

verus! {

#[derive(Clone, Copy, PartialEq, Eq, Structural, PartialOrd, Ord, Debug)]
pub enum PokerHand {
    HighCard,
    Pair,
    TwoPair,
    ThreeOfAKind,
    Straight,
    Flush,
    FullHouse,
    FourOfAKind,
    StraightFlush,
    RoyalFlush,
    FiveOfAKind,
    FlushHouse,
    FlushFive,
}

/// The display name of a hand category.
pub open spec fn spec_hand_repr(h: PokerHand) -> Seq<char> {
    match h {
        PokerHand::HighCard => "High Card"@,
        PokerHand::Pair => "Pair"@,
        PokerHand::TwoPair => "Two Pair"@,
        PokerHand::ThreeOfAKind => "Three of a Kind"@,
        PokerHand::Straight => "Straight"@,
        PokerHand::Flush => "Flush"@,
        PokerHand::FullHouse => "Full House"@,
        PokerHand::FourOfAKind => "Four of a Kind"@,
        PokerHand::StraightFlush => "Straight Flush"@,
        PokerHand::RoyalFlush => "Royal Flush"@,
        PokerHand::FiveOfAKind => "Five of a Kind"@,
        PokerHand::FlushHouse => "Flush House"@,
        PokerHand::FlushFive => "Flush Five"@,
    }
}

/// The coin reward of a hand category.
pub open spec fn spec_coin_value(h: PokerHand) -> int {
    match h {
        PokerHand::FlushFive => 170,
        PokerHand::FlushHouse => 165,
        PokerHand::FiveOfAKind => 150,
        PokerHand::RoyalFlush => 140,
        PokerHand::StraightFlush => 120,
        PokerHand::FourOfAKind => 100,
        PokerHand::FullHouse => 80,
        PokerHand::Flush => 55,
        PokerHand::Straight => 50,
        PokerHand::ThreeOfAKind => 30,
        PokerHand::TwoPair => 20,
        PokerHand::Pair => 5,
        PokerHand::HighCard => 0,
    }
}

impl PokerHand {
    pub fn repr(&self) -> (r: &'static str)
        ensures
            r@ == spec_hand_repr(*self),
    {
        match self {
            PokerHand::HighCard => "High Card",
            PokerHand::Pair => "Pair",
            PokerHand::TwoPair => "Two Pair",
            PokerHand::ThreeOfAKind => "Three of a Kind",
            PokerHand::Straight => "Straight",
            PokerHand::Flush => "Flush",
            PokerHand::FullHouse => "Full House",
            PokerHand::FourOfAKind => "Four of a Kind",
            PokerHand::StraightFlush => "Straight Flush",
            PokerHand::RoyalFlush => "Royal Flush",
            PokerHand::FiveOfAKind => "Five of a Kind",
            PokerHand::FlushHouse => "Flush House",
            PokerHand::FlushFive => "Flush Five",
        }
    }

    pub fn coin_value(&self) -> (v: i32)
        ensures
            v as int == spec_coin_value(*self),
    {
        match self {
            PokerHand::FlushFive => 170,
            PokerHand::FlushHouse => 165,
            PokerHand::FiveOfAKind => 150,
            PokerHand::RoyalFlush => 140,
            PokerHand::StraightFlush => 120,
            PokerHand::FourOfAKind => 100,
            PokerHand::FullHouse => 80,
            PokerHand::Flush => 55,
            PokerHand::Straight => 50,
            PokerHand::ThreeOfAKind => 30,
            PokerHand::TwoPair => 20,
            PokerHand::Pair => 5,
            PokerHand::HighCard => 0,
        }
    }
}

/// How many of the cards have this rank.
pub open spec fn spec_rank_count(cards: Seq<PlayingCard>, rank: Rank) -> nat
    decreases cards.len(),
{
    if cards.len() == 0 {
        0
    } else {
        spec_rank_count(cards.drop_last(), rank) + if cards.last().rank == rank {
            1nat
        } else {
            0nat
        }
    }
}

/// How many of the cards have this suit.
pub open spec fn spec_suit_count(cards: Seq<PlayingCard>, suit: Suit) -> nat
    decreases cards.len(),
{
    if cards.len() == 0 {
        0
    } else {
        spec_suit_count(cards.drop_last(), suit) + if cards.last().suit == suit {
            1nat
        } else {
            0nat
        }
    }
}

/// Whether some rank occurs exactly `n` times.
pub open spec fn spec_has_rank_count(cards: Seq<PlayingCard>, n: nat) -> bool {
    exists|r: Rank| spec_rank_count(cards, r) == n
}

/// How many of the first `j` ranks (in fixed order) occur exactly twice.
pub open spec fn spec_pair_count_upto(cards: Seq<PlayingCard>, j: int) -> nat
    decreases j,
{
    if j <= 0 {
        0
    } else {
        spec_pair_count_upto(cards, j - 1) + if spec_rank_count(cards, spec_rank_of_index(j - 1))
            == 2 {
            1nat
        } else {
            0nat
        }
    }
}

/// How many distinct ranks occur exactly twice.
pub open spec fn spec_pair_count(cards: Seq<PlayingCard>) -> nat {
    spec_pair_count_upto(cards, 13)
}

/// A rank's value for straight checking: ace high at 14, down to two at 2.
pub open spec fn spec_straight_rank_value(r: Rank) -> int {
    14 - spec_rank_index(r)
}

/// Whether some card carries this straight value.
pub open spec fn spec_value_present(cards: Seq<PlayingCard>, v: int) -> bool {
    exists|i: int| 0 <= i < cards.len() && spec_straight_rank_value(cards[i].rank) == v
}

/// Whether the five straight values ending at `high` are all present.
pub open spec fn spec_straight_at(cards: Seq<PlayingCard>, high: int) -> bool {
    forall|v: int| high - 4 <= v <= high ==> spec_value_present(cards, v)
}

/// Whether the cards contain five consecutive straight values.
pub open spec fn spec_is_straight(cards: Seq<PlayingCard>) -> bool {
    exists|high: int| 5 <= high <= 14 && spec_straight_at(cards, high)
}

/// Whether at least five cards share one suit.
pub open spec fn spec_is_flush(cards: Seq<PlayingCard>) -> bool {
    exists|s: Suit| spec_suit_count(cards, s) >= 5
}

/// The royal-flush test: a flush and a straight whose highest present rank
/// is the ten (no ace, king, queen or jack among the cards at all).
pub open spec fn spec_is_royal_flush(cards: Seq<PlayingCard>) -> bool {
    &&& spec_is_flush(cards)
    &&& spec_is_straight(cards)
    &&& spec_rank_count(cards, Rank::Ace) == 0
    &&& spec_rank_count(cards, Rank::King) == 0
    &&& spec_rank_count(cards, Rank::Queen) == 0
    &&& spec_rank_count(cards, Rank::Jack) == 0
    &&& spec_rank_count(cards, Rank::Num10) > 0
}

/// The best hand category the cards contain, tried from the most valuable
/// down.
pub open spec fn spec_hand_category(cards: Seq<PlayingCard>) -> PokerHand {
    if spec_is_flush(cards) && spec_has_rank_count(cards, 5) {
        PokerHand::FlushFive
    } else if spec_is_flush(cards) && spec_has_rank_count(cards, 3) && spec_pair_count(cards) >= 1 {
        PokerHand::FlushHouse
    } else if spec_has_rank_count(cards, 5) {
        PokerHand::FiveOfAKind
    } else if spec_is_royal_flush(cards) {
        PokerHand::RoyalFlush
    } else if spec_is_flush(cards) && spec_is_straight(cards) {
        PokerHand::StraightFlush
    } else if spec_has_rank_count(cards, 4) {
        PokerHand::FourOfAKind
    } else if spec_has_rank_count(cards, 3) && spec_pair_count(cards) >= 1 {
        PokerHand::FullHouse
    } else if spec_is_flush(cards) {
        PokerHand::Flush
    } else if spec_is_straight(cards) {
        PokerHand::Straight
    } else if spec_has_rank_count(cards, 3) {
        PokerHand::ThreeOfAKind
    } else if spec_pair_count(cards) >= 2 {
        PokerHand::TwoPair
    } else if spec_pair_count(cards) == 1 {
        PokerHand::Pair
    } else {
        PokerHand::HighCard
    }
}

/// The position of a suit in the fixed suit order.
pub fn suit_to_index(suit: Suit) -> (i: usize)
    ensures
        i as int == spec_suit_index(suit),
        i < 4,
{
    match suit {
        Suit::Spade => 0,
        Suit::Heart => 1,
        Suit::Club => 2,
        Suit::Diamond => 3,
    }
}

/// The position of a rank in the fixed rank order, ace first.
pub fn rank_to_index(rank: Rank) -> (i: usize)
    ensures
        i as int == spec_rank_index(rank),
        i < 13,
{
    match rank {
        Rank::Ace => 0,
        Rank::King => 1,
        Rank::Queen => 2,
        Rank::Jack => 3,
        Rank::Num10 => 4,
        Rank::Num9 => 5,
        Rank::Num8 => 6,
        Rank::Num7 => 7,
        Rank::Num6 => 8,
        Rank::Num5 => 9,
        Rank::Num4 => 10,
        Rank::Num3 => 11,
        Rank::Num2 => 12,
    }
}

/// A rank's value for straight checking: ace high.
pub fn rank_straight_value(rank: Rank) -> (v: i32)
    ensures
        v as int == spec_straight_rank_value(rank),
        2 <= v <= 14,
{
    match rank {
        Rank::Ace => 14,
        Rank::King => 13,
        Rank::Queen => 12,
        Rank::Jack => 11,
        Rank::Num10 => 10,
        Rank::Num9 => 9,
        Rank::Num8 => 8,
        Rank::Num7 => 7,
        Rank::Num6 => 6,
        Rank::Num5 => 5,
        Rank::Num4 => 4,
        Rank::Num3 => 3,
        Rank::Num2 => 2,
    }
}

/// A rank occurs at most as often as there are cards.
proof fn lemma_rank_count_le_len(cards: Seq<PlayingCard>, rank: Rank)
    ensures
        spec_rank_count(cards, rank) <= cards.len(),
    decreases cards.len(),
{
    if cards.len() > 0 {
        lemma_rank_count_le_len(cards.drop_last(), rank);
    }
}

/// A suit occurs at most as often as there are cards.
proof fn lemma_suit_count_le_len(cards: Seq<PlayingCard>, suit: Suit)
    ensures
        spec_suit_count(cards, suit) <= cards.len(),
    decreases cards.len(),
{
    if cards.len() > 0 {
        lemma_suit_count_le_len(cards.drop_last(), suit);
    }
}

/// A vector filled with one value.
fn filled_vec<T: Copy>(count: usize, value: T) -> (v: Vec<T>)
    ensures
        v@.len() == count,
        forall|i: int| 0 <= i < count ==> v@[i] == value,
{
    let mut v: Vec<T> = Vec::new();
    let mut k: usize = 0;
    while k < count
        invariant
            k <= count,
            v@.len() == k,
            forall|i: int| 0 <= i < k ==> v@[i] == value,
        decreases count - k,
    {
        v.push(value);
        k = k + 1;
    }
    v
}

/// Up to `limit` of the cards whose rank sits at `rank_index`.
fn collect_cards_of_rank_index(cards: &Vec<PlayingCard>, rank_index: usize, limit: usize) -> (v:
    Vec<PlayingCard>)
    ensures
        v@.len() <= limit,
        forall|i: int| 0 <= i < v@.len() ==> cards@.contains(#[trigger] v@[i]),
        forall|i: int| 0 <= i < v@.len() ==> spec_rank_index((#[trigger] v@[i]).rank) == rank_index,
{
    let mut v: Vec<PlayingCard> = Vec::new();
    let mut k: usize = 0;
    while k < cards.len()
        invariant
            k <= cards@.len(),
            v@.len() <= limit,
            forall|i: int| 0 <= i < v@.len() ==> cards@.contains(#[trigger] v@[i]),
            forall|i: int| 0 <= i < v@.len() ==> spec_rank_index((#[trigger] v@[i]).rank) == rank_index,
        decreases cards@.len() - k,
    {
        if v.len() < limit && rank_to_index(cards[k].rank) == rank_index {
            v.push(cards[k]);
            proof {
                assert(cards@[k as int] == v@.last());
            }
        }
        k = k + 1;
    }
    v
}

/// Up to `limit` of the cards whose suit sits at `suit_index`.
fn collect_cards_of_suit_index(cards: &Vec<PlayingCard>, suit_index: usize, limit: usize) -> (v:
    Vec<PlayingCard>)
    ensures
        v@.len() <= limit,
        forall|i: int| 0 <= i < v@.len() ==> cards@.contains(#[trigger] v@[i]),
        forall|i: int| 0 <= i < v@.len() ==> spec_suit_index((#[trigger] v@[i]).suit) == suit_index,
{
    let mut v: Vec<PlayingCard> = Vec::new();
    let mut k: usize = 0;
    while k < cards.len()
        invariant
            k <= cards@.len(),
            v@.len() <= limit,
            forall|i: int| 0 <= i < v@.len() ==> cards@.contains(#[trigger] v@[i]),
            forall|i: int| 0 <= i < v@.len() ==> spec_suit_index((#[trigger] v@[i]).suit) == suit_index,
        decreases cards@.len() - k,
    {
        if v.len() < limit && suit_to_index(cards[k].suit) == suit_index {
            v.push(cards[k]);
            proof {
                assert(cards@[k as int] == v@.last());
            }
        }
        k = k + 1;
    }
    v
}

/// Some card carrying the given straight value, if one exists.
fn find_card_with_value(cards: &Vec<PlayingCard>, value: i32) -> (found: Option<PlayingCard>)
    ensures
        found matches Some(c) ==> cards@.contains(c),
{
    let mut k: usize = 0;
    while k < cards.len()
        invariant
            k <= cards@.len(),
        decreases cards@.len() - k,
    {
        if rank_straight_value(cards[k].rank) == value {
            let c = cards[k];
            proof {
                assert(cards@[k as int] == c);
            }
            return Some(c);
        }
        k = k + 1;
    }
    None
}

/// Classify the cards into the best hand category they contain, together
/// with at most five scoring cards drawn from them. The category is exact;
/// which particular cards witness it is left to the implementation, as the
/// scoring rules only read their ranks.
#[verifier::rlimit(60)]
pub fn eval_poker_hand(cards: &Vec<PlayingCard>) -> (result: (PokerHand, Vec<PlayingCard>))
    requires
        1 <= cards@.len() <= 255,
    ensures
        result.0 == spec_hand_category(cards@),
        forall|i: int| 0 <= i < result.1@.len() ==> cards@.contains(#[trigger] result.1@[i]),
        result.1@.len() <= 5,
        result.0 is Pair || result.0 is ThreeOfAKind || result.0 is FourOfAKind || result.0
            is FiveOfAKind ==> forall|i: int, j: int|
            0 <= i < result.1@.len() && 0 <= j < result.1@.len() ==> (#[trigger] result.1@[i]).rank
                == (#[trigger] result.1@[j]).rank,
        result.0 is Flush || result.0 is StraightFlush || result.0 is RoyalFlush || result.0
            is FlushHouse || result.0 is FlushFive ==> forall|i: int, j: int|
            0 <= i < result.1@.len() && 0 <= j < result.1@.len() ==> (#[trigger] result.1@[i]).suit
                == (#[trigger] result.1@[j]).suit,
        result.0 is HighCard ==> result.1@.len() == 1,
{
    let n: usize = cards.len();

    // Count each suit and each rank.
    let mut suit_counts: Vec<u8> = filled_vec(4, 0u8);
    let mut rank_counts: Vec<u8> = filled_vec(13, 0u8);
    let mut k: usize = 0;
    while k < n
        invariant
            k <= n,
            n == cards@.len(),
            n <= 255,
            suit_counts@.len() == 4,
            rank_counts@.len() == 13,
            forall|j: int|
                0 <= j < 4 ==> #[trigger] suit_counts@[j] as nat == spec_suit_count(
                    cards@.take(k as int),
                    spec_suit_of_index(j),
                ),
            forall|j: int|
                0 <= j < 13 ==> #[trigger] rank_counts@[j] as nat == spec_rank_count(
                    cards@.take(k as int),
                    spec_rank_of_index(j),
                ),
        decreases n - k,
    {
        let card: PlayingCard = cards[k];
        let si: usize = suit_to_index(card.suit);
        let ri: usize = rank_to_index(card.rank);
        proof {
            lemma_suit_count_le_len(cards@.take(k as int), spec_suit_of_index(si as int));
            lemma_rank_count_le_len(cards@.take(k as int), spec_rank_of_index(ri as int));
        }
        let sc: u8 = suit_counts[si];
        suit_counts[si] = sc + 1;
        let rc: u8 = rank_counts[ri];
        rank_counts[ri] = rc + 1;
        k = k + 1;
        proof {
            assert(cards@.take(k as int).drop_last() =~= cards@.take(k as int - 1));
            assert(cards@.take(k as int).last() == card);
            assert(spec_suit_of_index(si as int) == card.suit);
            assert(spec_rank_of_index(ri as int) == card.rank);
            assert forall|j: int| 0 <= j < 4 implies #[trigger] suit_counts@[j] as nat
                == spec_suit_count(cards@.take(k as int), spec_suit_of_index(j)) by {
                if j != si as int {
                    assert(spec_suit_of_index(j) != card.suit);
                }
            }
            assert forall|j: int| 0 <= j < 13 implies #[trigger] rank_counts@[j] as nat
                == spec_rank_count(cards@.take(k as int), spec_rank_of_index(j)) by {
                if j != ri as int {
                    assert(spec_rank_of_index(j) != card.rank);
                }
            }
        }
    }
    proof {
        assert(cards@.take(n as int) =~= cards@);
    }

    // Find a flush suit, lowest index first.
    let mut is_flush: bool = false;
    let mut flush_suit_index: usize = 0;
    let mut s: usize = 0;
    while s < 4
        invariant
            s <= 4,
            suit_counts@.len() == 4,
            forall|j: int|
                0 <= j < 4 ==> #[trigger] suit_counts@[j] as nat == spec_suit_count(
                    cards@,
                    spec_suit_of_index(j),
                ),
            is_flush ==> flush_suit_index < 4 && suit_counts@[flush_suit_index as int] >= 5,
            !is_flush ==> forall|j: int| 0 <= j < s ==> #[trigger] suit_counts@[j] < 5,
        decreases 4 - s,
    {
        if !is_flush && suit_counts[s] >= 5 {
            is_flush = true;
            flush_suit_index = s;
        }
        s = s + 1;
    }
    proof {
        if is_flush {
            assert(spec_suit_count(cards@, spec_suit_of_index(flush_suit_index as int)) >= 5);
        } else {
            assert forall|su: Suit| !(spec_suit_count(cards@, su) >= 5) by {
                let j = spec_suit_index(su);
                assert(spec_suit_of_index(j) == su);
                assert(suit_counts@[j] < 5);
            }
        }
        assert(is_flush == spec_is_flush(cards@));
    }

    // Scan the rank counts for repeated ranks.
    let mut has_five: bool = false;
    let mut has_four: bool = false;
    let mut has_three: bool = false;
    let mut five_index: usize = 0;
    let mut four_index: usize = 0;
    let mut three_index: usize = 0;
    let mut pair_indices: Vec<usize> = Vec::new();
    let mut j: usize = 0;
    while j < 13
        invariant
            j <= 13,
            rank_counts@.len() == 13,
            forall|i: int|
                0 <= i < 13 ==> #[trigger] rank_counts@[i] as nat == spec_rank_count(
                    cards@,
                    spec_rank_of_index(i),
                ),
            has_five == exists|i: int| 0 <= i < j && #[trigger] rank_counts@[i] == 5,
            has_five ==> five_index < j && rank_counts@[five_index as int] == 5,
            has_four == exists|i: int| 0 <= i < j && #[trigger] rank_counts@[i] == 4,
            has_four ==> four_index < j && rank_counts@[four_index as int] == 4,
            has_three == exists|i: int| 0 <= i < j && #[trigger] rank_counts@[i] == 3,
            has_three ==> three_index < j && rank_counts@[three_index as int] == 3,
            pair_indices@.len() == spec_pair_count_upto(cards@, j as int),
            forall|i: int|
                0 <= i < pair_indices@.len() ==> #[trigger] pair_indices@[i] < 13
                    && rank_counts@[pair_indices@[i] as int] == 2,
        decreases 13 - j,
    {
        let c: u8 = rank_counts[j];
        if c == 5 {
            has_five = true;
            five_index = j;
        } else if c == 4 {
            has_four = true;
            four_index = j;
        } else if c == 3 {
            if !has_three {
                three_index = j;
            }
            has_three = true;
        } else if c == 2 {
            pair_indices.push(j);
        }
        j = j + 1;
    }
    proof {
        if has_five {
            assert(spec_rank_count(cards@, spec_rank_of_index(five_index as int)) == 5);
        }
        if !has_five {
            assert forall|r: Rank| !(spec_rank_count(cards@, r) == 5) by {
                let i = spec_rank_index(r);
                assert(spec_rank_of_index(i) == r);
                assert(rank_counts@[i] != 5);
            }
        }
        assert(has_five == spec_has_rank_count(cards@, 5));
        if has_four {
            assert(spec_rank_count(cards@, spec_rank_of_index(four_index as int)) == 4);
        }
        if !has_four {
            assert forall|r: Rank| !(spec_rank_count(cards@, r) == 4) by {
                let i = spec_rank_index(r);
                assert(spec_rank_of_index(i) == r);
                assert(rank_counts@[i] != 4);
            }
        }
        assert(has_four == spec_has_rank_count(cards@, 4));
        if has_three {
            assert(spec_rank_count(cards@, spec_rank_of_index(three_index as int)) == 3);
        }
        if !has_three {
            assert forall|r: Rank| !(spec_rank_count(cards@, r) == 3) by {
                let i = spec_rank_index(r);
                assert(spec_rank_of_index(i) == r);
                assert(rank_counts@[i] != 3);
            }
        }
        assert(has_three == spec_has_rank_count(cards@, 3));
    }
    let pair_count: usize = pair_indices.len();

    // Mark which straight values occur.
    let mut present: Vec<bool> = filled_vec(15, false);
    let mut k2: usize = 0;
    while k2 < n
        invariant
            k2 <= n,
            n == cards@.len(),
            present@.len() == 15,
            forall|v: int|
                0 <= v < 15 ==> #[trigger] present@[v] == spec_value_present(
                    cards@.take(k2 as int),
                    v,
                ),
        decreases n - k2,
    {
        let value: i32 = rank_straight_value(cards[k2].rank);
        let vi: usize = value as usize;
        present[vi] = true;
        k2 = k2 + 1;
        proof {
            let prev = cards@.take(k2 as int - 1);
            let now = cards@.take(k2 as int);
            assert forall|v: int| 0 <= v < 15 implies #[trigger] present@[v] == spec_value_present(
                now,
                v,
            ) by {
                if present@[v] {
                    if v == vi as int {
                        assert(spec_straight_rank_value(now[k2 as int - 1].rank) == v);
                    } else {
                        let i = choose|i: int|
                            0 <= i < prev.len() && spec_straight_rank_value(prev[i].rank) == v;
                        assert(spec_straight_rank_value(now[i].rank) == v);
                    }
                } else {
                    if spec_value_present(now, v) {
                        let i = choose|i: int|
                            0 <= i < now.len() && spec_straight_rank_value(now[i].rank) == v;
                        if i < k2 as int - 1 {
                            assert(spec_straight_rank_value(prev[i].rank) == v);
                            assert(false);
                        } else {
                            assert(false);
                        }
                    }
                }
            }
        }
    }
    proof {
        assert(cards@.take(n as int) =~= cards@);
    }

    // Look for a straight, highest head first.
    let mut is_straight: bool = false;
    let mut straight_high: usize = 0;
    let mut h: usize = 14;
    while h >= 5
        invariant
            4 <= h <= 14,
            present@.len() == 15,
            forall|v: int| 0 <= v < 15 ==> #[trigger] present@[v] == spec_value_present(cards@, v),
            is_straight ==> 5 <= straight_high <= 14 && spec_straight_at(
                cards@,
                straight_high as int,
            ),
            !is_straight ==> forall|h0: int| h < h0 <= 14 ==> !spec_straight_at(cards@, h0),
        decreases h,
    {
        if !is_straight && present[h] && present[h - 1] && present[h - 2] && present[h - 3]
            && present[h - 4] {
            is_straight = true;
            straight_high = h;
            proof {
                assert forall|v: int| h - 4 <= v <= h implies spec_value_present(cards@, v) by {
                    assert(present@[v]);
                }
            }
        } else {
            proof {
                if !is_straight {
                    if spec_straight_at(cards@, h as int) {
                        assert(spec_value_present(cards@, h as int));
                        assert(spec_value_present(cards@, h as int - 1));
                        assert(spec_value_present(cards@, h as int - 2));
                        assert(spec_value_present(cards@, h as int - 3));
                        assert(spec_value_present(cards@, h as int - 4));
                        assert(false);
                    }
                }
            }
        }
        h = h - 1;
    }
    proof {
        if is_straight {
            assert(spec_straight_at(cards@, straight_high as int));
        }
        assert(is_straight == spec_is_straight(cards@));
    }

    // The royal-flush test reads the highest present rank.
    let is_royal: bool = is_flush && is_straight && rank_counts[0] == 0 && rank_counts[1] == 0
        && rank_counts[2] == 0 && rank_counts[3] == 0 && rank_counts[4] > 0;
    proof {
        assert(rank_counts@[0] as nat == spec_rank_count(cards@, Rank::Ace));
        assert(rank_counts@[1] as nat == spec_rank_count(cards@, Rank::King));
        assert(rank_counts@[2] as nat == spec_rank_count(cards@, Rank::Queen));
        assert(rank_counts@[3] as nat == spec_rank_count(cards@, Rank::Jack));
        assert(rank_counts@[4] as nat == spec_rank_count(cards@, Rank::Num10));
        assert(is_royal == spec_is_royal_flush(cards@));
    }

    // Hand the categories back, most valuable first, with witness cards.
    if is_flush && has_five {
        let flush_cards = collect_cards_of_suit_index(cards, flush_suit_index, 5);
        return (PokerHand::FlushFive, flush_cards);
    }
    if is_flush && has_three && pair_count >= 1 {
        let flush_cards = collect_cards_of_suit_index(cards, flush_suit_index, 5);
        return (PokerHand::FlushHouse, flush_cards);
    }
    if has_five {
        let five_cards = collect_cards_of_rank_index(cards, five_index, 5);
        return (PokerHand::FiveOfAKind, five_cards);
    }
    if is_royal {
        let flush_cards = collect_cards_of_suit_index(cards, flush_suit_index, 5);
        return (PokerHand::RoyalFlush, flush_cards);
    }
    if is_flush && is_straight {
        let flush_cards = collect_cards_of_suit_index(cards, flush_suit_index, 5);
        return (PokerHand::StraightFlush, flush_cards);
    }
    if has_four {
        let four_cards = collect_cards_of_rank_index(cards, four_index, 4);
        return (PokerHand::FourOfAKind, four_cards);
    }
    if has_three && pair_count >= 1 {
        let mut full_house_cards = collect_cards_of_rank_index(cards, three_index, 3);
        let mut pair_cards = collect_cards_of_rank_index(cards, pair_indices[0], 2);
        full_house_cards.append(&mut pair_cards);
        return (PokerHand::FullHouse, full_house_cards);
    }
    if is_flush {
        let flush_cards = collect_cards_of_suit_index(cards, flush_suit_index, 5);
        return (PokerHand::Flush, flush_cards);
    }
    if is_straight {
        let straight_cards = collect_straight_cards(cards, straight_high);
        return (PokerHand::Straight, straight_cards);
    }
    if has_three {
        let three_cards = collect_cards_of_rank_index(cards, three_index, 3);
        return (PokerHand::ThreeOfAKind, three_cards);
    }
    if pair_count >= 2 {
        let mut two_pair_cards = collect_cards_of_rank_index(cards, pair_indices[0], 2);
        let mut second = collect_cards_of_rank_index(cards, pair_indices[1], 2);
        two_pair_cards.append(&mut second);
        return (PokerHand::TwoPair, two_pair_cards);
    }
    if pair_count == 1 {
        let pair_cards = collect_cards_of_rank_index(cards, pair_indices[0], 2);
        return (PokerHand::Pair, pair_cards);
    }

    // High card: the card latest in the fixed rank order, as the in-game
    // scoring reads it.
    let mut best: PlayingCard = cards[0];
    let mut k3: usize = 1;
    while k3 < n
        invariant
            1 <= k3 <= n,
            n == cards@.len(),
            cards@.contains(best),
        decreases n - k3,
    {
        if rank_to_index(cards[k3].rank) > rank_to_index(best.rank) {
            best = cards[k3];
            proof {
                assert(cards@[k3 as int] == best);
            }
        }
        k3 = k3 + 1;
    }
    proof {
        assert(cards@[0] == cards@.index(0));
    }
    let mut high_cards: Vec<PlayingCard> = Vec::new();
    high_cards.push(best);
    (PokerHand::HighCard, high_cards)
}

/// One card for each value of the straight ending at `high`, where found.
fn collect_straight_cards(cards: &Vec<PlayingCard>, high: usize) -> (v: Vec<PlayingCard>)
    requires
        5 <= high <= 14,
    ensures
        v@.len() <= 5,
        forall|i: int| 0 <= i < v@.len() ==> cards@.contains(#[trigger] v@[i]),
{
    let mut v: Vec<PlayingCard> = Vec::new();
    let mut offset: usize = 0;
    while offset < 5
        invariant
            offset <= 5,
            5 <= high <= 14,
            v@.len() <= offset,
            forall|i: int| 0 <= i < v@.len() ==> cards@.contains(#[trigger] v@[i]),
        decreases 5 - offset,
    {
        let value: i32 = (high - offset) as i32;
        if let Some(c) = find_card_with_value(cards, value) {
            v.push(c);
        }
        offset = offset + 1;
    }
    v
}

} // verus!
