//! Fixed card slots: screen positions that may hold a card.

use vstd::prelude::*;

use crate::playing_card::PlayingCard;

verus! {

use vstd::arithmetic::mul::lemma_mul_inequality;

/// One slot: a position on the screen and the card lying there, if any.
pub struct CardSlot {
    pub x: u16,
    pub y: u16,
    pub card: Option<PlayingCard>,
}

/// Build `count` empty card slots in a row: the first at `(origin_x,
/// origin_y)`, each following one `x_spacing` further right.
pub fn build_card_slots(origin_x: u16, origin_y: u16, x_spacing: u16, count: usize) -> (slots: Vec<
    CardSlot,
>)
    requires
        count <= u16::MAX,
        origin_x as int + count as int * x_spacing as int <= u16::MAX,
    ensures
        slots@.len() == count,
        forall|i: int|
            0 <= i < count ==> {
                &&& (#[trigger] slots@[i]).x as int == origin_x as int + i * x_spacing as int
                &&& slots@[i].y == origin_y
                &&& slots@[i].card is None
            },
{
    let mut slots: Vec<CardSlot> = Vec::new();
    let mut index: usize = 0;
    while index < count
        invariant
            index <= count,
            count <= u16::MAX,
            origin_x as int + count as int * x_spacing as int <= u16::MAX,
            slots@.len() == index,
            forall|i: int|
                0 <= i < index ==> {
                    &&& (#[trigger] slots@[i]).x as int == origin_x as int + i * x_spacing as int
                    &&& slots@[i].y == origin_y
                    &&& slots@[i].card is None
                },
        decreases count - index,
    {
        proof {
            lemma_mul_inequality(index as int, count as int, x_spacing as int);
        }
        let x: u16 = origin_x + (index as u16) * x_spacing;
        slots.push(CardSlot { x, y: origin_y, card: None });
        index = index + 1;
    }
    slots
}

} // verus!
