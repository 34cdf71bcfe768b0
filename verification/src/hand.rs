//! The player's hand: a fixed row of slots that may each hold a card.

use vstd::prelude::*;

use crate::playing_card::PlayingCard;

verus! {

pub struct Hand {
    pub hand_size: usize,
    pub cards_in_hand: Vec<Option<PlayingCard>>,
}

} // verus!
