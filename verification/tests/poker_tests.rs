use term_slots::playing_card::{standard_52_deck, PlayingCard, Rank, Suit};
use term_slots::poker_hand::{eval_poker_hand, PokerHand};

fn card(suit: Suit, rank: Rank) -> PlayingCard {
    PlayingCard { suit, rank }
}

fn eval(cards: &[PlayingCard]) -> PokerHand {
    let owned: Vec<PlayingCard> = cards.to_vec();
    let (hand, scoring) = eval_poker_hand(&owned);
    assert!(scoring.len() <= 5);
    for c in &scoring {
        assert!(owned.contains(c));
    }
    hand
}

#[test]
fn high_card() {
    let hand = eval(&[
        card(Suit::Spade, Rank::Ace),
        card(Suit::Heart, Rank::Num9),
        card(Suit::Club, Rank::Num5),
    ]);
    assert_eq!(hand, PokerHand::HighCard);
}

#[test]
fn pair() {
    let hand = eval(&[
        card(Suit::Spade, Rank::Num9),
        card(Suit::Heart, Rank::Num9),
        card(Suit::Club, Rank::Num5),
    ]);
    assert_eq!(hand, PokerHand::Pair);
}

#[test]
fn two_pair() {
    let hand = eval(&[
        card(Suit::Spade, Rank::Num9),
        card(Suit::Heart, Rank::Num9),
        card(Suit::Club, Rank::Num5),
        card(Suit::Diamond, Rank::Num5),
    ]);
    assert_eq!(hand, PokerHand::TwoPair);
}

#[test]
fn three_of_a_kind() {
    let hand = eval(&[
        card(Suit::Spade, Rank::Jack),
        card(Suit::Heart, Rank::Jack),
        card(Suit::Club, Rank::Jack),
        card(Suit::Diamond, Rank::Num5),
    ]);
    assert_eq!(hand, PokerHand::ThreeOfAKind);
}

#[test]
fn straight_mixed_suits() {
    let hand = eval(&[
        card(Suit::Spade, Rank::Num5),
        card(Suit::Heart, Rank::Num6),
        card(Suit::Club, Rank::Num7),
        card(Suit::Diamond, Rank::Num8),
        card(Suit::Spade, Rank::Num9),
    ]);
    assert_eq!(hand, PokerHand::Straight);
}

#[test]
fn ace_high_straight_in_mixed_suits() {
    let hand = eval(&[
        card(Suit::Spade, Rank::Num10),
        card(Suit::Heart, Rank::Jack),
        card(Suit::Club, Rank::Queen),
        card(Suit::Diamond, Rank::King),
        card(Suit::Spade, Rank::Ace),
    ]);
    assert_eq!(hand, PokerHand::Straight);
}

#[test]
fn flush() {
    let hand = eval(&[
        card(Suit::Heart, Rank::Num2),
        card(Suit::Heart, Rank::Num6),
        card(Suit::Heart, Rank::Num7),
        card(Suit::Heart, Rank::Num9),
        card(Suit::Heart, Rank::Jack),
    ]);
    assert_eq!(hand, PokerHand::Flush);
}

#[test]
fn full_house() {
    let hand = eval(&[
        card(Suit::Spade, Rank::Num4),
        card(Suit::Heart, Rank::Num4),
        card(Suit::Club, Rank::Num4),
        card(Suit::Diamond, Rank::Num8),
        card(Suit::Spade, Rank::Num8),
    ]);
    assert_eq!(hand, PokerHand::FullHouse);
}

#[test]
fn four_of_a_kind() {
    let hand = eval(&[
        card(Suit::Spade, Rank::Queen),
        card(Suit::Heart, Rank::Queen),
        card(Suit::Club, Rank::Queen),
        card(Suit::Diamond, Rank::Queen),
        card(Suit::Spade, Rank::Num2),
    ]);
    assert_eq!(hand, PokerHand::FourOfAKind);
}

#[test]
fn ace_high_straight_flush_is_straight_flush_not_royal() {
    // The royal-flush test asks for a straight flush whose highest
    // present rank is the ten; an ace-high run keeps the plain label.
    let hand = eval(&[
        card(Suit::Spade, Rank::Num10),
        card(Suit::Spade, Rank::Jack),
        card(Suit::Spade, Rank::Queen),
        card(Suit::Spade, Rank::King),
        card(Suit::Spade, Rank::Ace),
    ]);
    assert_eq!(hand, PokerHand::StraightFlush);
}

#[test]
fn ten_high_straight_flush_counts_as_royal() {
    let hand = eval(&[
        card(Suit::Club, Rank::Num6),
        card(Suit::Club, Rank::Num7),
        card(Suit::Club, Rank::Num8),
        card(Suit::Club, Rank::Num9),
        card(Suit::Club, Rank::Num10),
    ]);
    assert_eq!(hand, PokerHand::RoyalFlush);
}

#[test]
fn five_of_a_kind_across_decks() {
    let hand = eval(&[
        card(Suit::Spade, Rank::Num7),
        card(Suit::Heart, Rank::Num7),
        card(Suit::Club, Rank::Num7),
        card(Suit::Diamond, Rank::Num7),
        card(Suit::Spade, Rank::Num7),
    ]);
    assert_eq!(hand, PokerHand::FiveOfAKind);
}

#[test]
fn flush_five() {
    let hand = eval(&[
        card(Suit::Heart, Rank::Num7),
        card(Suit::Heart, Rank::Num7),
        card(Suit::Heart, Rank::Num7),
        card(Suit::Heart, Rank::Num7),
        card(Suit::Heart, Rank::Num7),
    ]);
    assert_eq!(hand, PokerHand::FlushFive);
}

#[test]
fn flush_house() {
    let hand = eval(&[
        card(Suit::Diamond, Rank::Num3),
        card(Suit::Diamond, Rank::Num3),
        card(Suit::Diamond, Rank::Num3),
        card(Suit::Diamond, Rank::Num9),
        card(Suit::Diamond, Rank::Num9),
    ]);
    assert_eq!(hand, PokerHand::FlushHouse);
}

#[test]
fn coin_values_are_fixed() {
    assert_eq!(PokerHand::HighCard.coin_value(), 0);
    assert_eq!(PokerHand::Pair.coin_value(), 5);
    assert_eq!(PokerHand::TwoPair.coin_value(), 20);
    assert_eq!(PokerHand::ThreeOfAKind.coin_value(), 30);
    assert_eq!(PokerHand::Straight.coin_value(), 50);
    assert_eq!(PokerHand::Flush.coin_value(), 55);
    assert_eq!(PokerHand::FullHouse.coin_value(), 80);
    assert_eq!(PokerHand::FourOfAKind.coin_value(), 100);
    assert_eq!(PokerHand::StraightFlush.coin_value(), 120);
    assert_eq!(PokerHand::RoyalFlush.coin_value(), 140);
    assert_eq!(PokerHand::FiveOfAKind.coin_value(), 150);
    assert_eq!(PokerHand::FlushHouse.coin_value(), 165);
    assert_eq!(PokerHand::FlushFive.coin_value(), 170);
}

#[test]
fn hand_names() {
    assert_eq!(PokerHand::HighCard.repr(), "High Card");
    assert_eq!(PokerHand::FullHouse.repr(), "Full House");
    assert_eq!(PokerHand::FlushFive.repr(), "Flush Five");
}

#[test]
fn deck_has_52_distinct_cards() {
    let deck = standard_52_deck();
    assert_eq!(deck.len(), 52);
    for i in 0..deck.len() {
        for j in 0..i {
            assert_ne!(deck[i], deck[j]);
        }
    }
    assert_eq!(deck[0], card(Suit::Spade, Rank::Ace));
    assert_eq!(deck[13], card(Suit::Heart, Rank::Ace));
    assert_eq!(deck[51], card(Suit::Diamond, Rank::Num2));
}

#[test]
fn suit_and_rank_reprs() {
    assert_eq!(Suit::Spade.repr(), "♠");
    assert_eq!(Suit::Heart.repr(), "♥");
    assert_eq!(Rank::Num10.repr(), "10");
    assert_eq!(Rank::Ace.repr(), "A");
    assert_eq!(Suit::iter().len(), 4);
    assert_eq!(Rank::iter().len(), 13);
}
