//! The table: the slots a hand is played into, and the running evaluation
//! of the poker hand they hold.

use vstd::prelude::*;

use crate::playing_card::PlayingCard;
use crate::poker_hand::{eval_poker_hand, spec_hand_category, PokerHand};

verus! {

/// A card lying on the table.
#[derive(Clone, Copy, PartialEq, Eq, Structural, Debug)]
pub struct CardOnTable {
    pub card: PlayingCard,
}

/// The table: its card slots and the category of the hand they currently
/// form, if any card lies there.
pub struct Table {
    pub poker_hand: Option<PokerHand>,
    pub cards_on_table: Vec<Option<CardOnTable>>,
}

/// The cards occupying the table's slots, in slot order.
pub open spec fn spec_table_cards(slots: Seq<Option<CardOnTable>>) -> Seq<PlayingCard>
    decreases slots.len(),
{
    if slots.len() == 0 {
        Seq::empty()
    } else {
        spec_table_cards(slots.drop_last()) + match slots.last() {
            Some(c) => seq![c.card],
            None => Seq::empty(),
        }
    }
}

/// There are at most as many occupied slots as slots.
pub proof fn lemma_table_cards_le_len(slots: Seq<Option<CardOnTable>>)
    ensures
        spec_table_cards(slots).len() <= slots.len(),
    decreases slots.len(),
{
    if slots.len() > 0 {
        lemma_table_cards_le_len(slots.drop_last());
    }
}

/// The poker hand a table shows: the category of its occupied slots'
/// cards, or nothing when the table is empty.
pub open spec fn spec_table_hand(slots: Seq<Option<CardOnTable>>) -> Option<PokerHand> {
    if spec_table_cards(slots).len() == 0 {
        None
    } else {
        Some(spec_hand_category(spec_table_cards(slots)))
    }
}

/// Re-evaluate the table's poker hand from the cards lying on it.
pub fn update_current_poker_hand(table: &mut Table)
    requires
        old(table).cards_on_table@.len() <= 255,
    ensures
        final(table).cards_on_table@ == old(table).cards_on_table@,
        final(table).poker_hand == spec_table_hand(old(table).cards_on_table@),
{
    let mut table_cards: Vec<PlayingCard> = Vec::new();
    let mut k: usize = 0;
    let len: usize = table.cards_on_table.len();
    while k < len
        invariant
            k <= len,
            len == table.cards_on_table@.len(),
            table_cards@ == spec_table_cards(table.cards_on_table@.take(k as int)),
        decreases len - k,
    {
        if let Some(c) = table.cards_on_table[k] {
            table_cards.push(c.card);
        }
        k = k + 1;
        proof {
            assert(table.cards_on_table@.take(k as int).drop_last() =~= table.cards_on_table@.take(
                k as int - 1,
            ));
        }
    }
    proof {
        assert(table.cards_on_table@.take(len as int) =~= table.cards_on_table@);
        lemma_table_cards_le_len(table.cards_on_table@);
    }
    if table_cards.is_empty() {
        table.poker_hand = None;
        return ;
    }
    let (hand, _scoring) = eval_poker_hand(&table_cards);
    table.poker_hand = Some(hand);
}

} // verus!
