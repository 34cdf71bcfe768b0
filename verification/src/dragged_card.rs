//! Drag-and-drop of cards between the hand and the table.

use vstd::prelude::*;

use crate::constants::{
    BIG_PLAYING_CARD_HEIGHT, BIG_PLAYING_CARD_WIDTH, HAND_CARD_X_SPACING, HAND_ORIGIN_X,
    HAND_ORIGIN_Y, TABLE_CARD_X_SPACING, TABLE_ORIGIN_X, TABLE_ORIGIN_Y,
};
use crate::hand::Hand;
use crate::playing_card::PlayingCard;
use crate::table::{spec_table_hand, update_current_poker_hand, CardOnTable, Table};
use crate::utils::{point_in_rect, spec_point_in_rect};

verus! {

/// A place a card can be dragged from or dropped onto.
#[derive(Clone, Copy, PartialEq, Eq, Structural, Debug)]
pub enum DragAndDropLocation {
    Hand { index: usize },
    Table { index: usize },
}

/// Whether a card drag is in progress, and from where.
#[derive(Clone, Copy, PartialEq, Eq, Structural, Debug)]
pub enum CardDragState {
    NotDragging,
    Dragging { card: PlayingCard, source: DragAndDropLocation },
}

/// Whether a location's index lies within its row.
pub open spec fn spec_loc_in_bounds(
    table: Seq<Option<CardOnTable>>,
    hand: Seq<Option<PlayingCard>>,
    loc: DragAndDropLocation,
) -> bool {
    match loc {
        DragAndDropLocation::Hand { index } => index < hand.len(),
        DragAndDropLocation::Table { index } => index < table.len(),
    }
}

/// The card at a location, if one lies there.
pub open spec fn spec_card_at(
    table: Seq<Option<CardOnTable>>,
    hand: Seq<Option<PlayingCard>>,
    loc: DragAndDropLocation,
) -> Option<PlayingCard> {
    match loc {
        DragAndDropLocation::Hand { index } => hand[index as int],
        DragAndDropLocation::Table { index } => match table[index as int] {
            Some(c) => Some(c.card),
            None => None,
        },
    }
}

/// The table row after a card is placed at a location (unchanged when the
/// location is in the hand).
pub open spec fn spec_table_after_place(
    table: Seq<Option<CardOnTable>>,
    card: PlayingCard,
    loc: DragAndDropLocation,
) -> Seq<Option<CardOnTable>> {
    match loc {
        DragAndDropLocation::Table { index } => table.update(
            index as int,
            Some(CardOnTable { card }),
        ),
        DragAndDropLocation::Hand { index } => table,
    }
}

/// The hand row after a card is placed at a location (unchanged when the
/// location is on the table).
pub open spec fn spec_hand_after_place(
    hand: Seq<Option<PlayingCard>>,
    card: PlayingCard,
    loc: DragAndDropLocation,
) -> Seq<Option<PlayingCard>> {
    match loc {
        DragAndDropLocation::Hand { index } => hand.update(index as int, Some(card)),
        DragAndDropLocation::Table { index } => hand,
    }
}

/// Put a card down at a location and re-evaluate the table's hand.
pub fn place_card_at(table: &mut Table, hand: &mut Hand, card: PlayingCard, location:
    &DragAndDropLocation)
    requires
        spec_loc_in_bounds(old(table).cards_on_table@, old(hand).cards_in_hand@, *location),
        old(table).cards_on_table@.len() <= 255,
    ensures
        final(table).cards_on_table@ == spec_table_after_place(
            old(table).cards_on_table@,
            card,
            *location,
        ),
        final(hand).cards_in_hand@ == spec_hand_after_place(
            old(hand).cards_in_hand@,
            card,
            *location,
        ),
        final(hand).hand_size == old(hand).hand_size,
        final(table).poker_hand == spec_table_hand(final(table).cards_on_table@),
{
    match location {
        DragAndDropLocation::Hand { index } => {
            hand.cards_in_hand[*index] = Some(card);
        },
        DragAndDropLocation::Table { index } => {
            table.cards_on_table[*index] = Some(CardOnTable { card });
        },
    }
    update_current_poker_hand(table);
}

/// Empty a location and re-evaluate the table's hand.
pub fn delete_card_at(table: &mut Table, hand: &mut Hand, location: &DragAndDropLocation)
    requires
        spec_loc_in_bounds(old(table).cards_on_table@, old(hand).cards_in_hand@, *location),
        old(table).cards_on_table@.len() <= 255,
    ensures
        final(table).cards_on_table@ == (match *location {
            DragAndDropLocation::Table { index } => old(table).cards_on_table@.update(
                index as int,
                None,
            ),
            DragAndDropLocation::Hand { index } => old(table).cards_on_table@,
        }),
        final(hand).cards_in_hand@ == (match *location {
            DragAndDropLocation::Hand { index } => old(hand).cards_in_hand@.update(
                index as int,
                None,
            ),
            DragAndDropLocation::Table { index } => old(hand).cards_in_hand@,
        }),
        final(hand).hand_size == old(hand).hand_size,
        final(table).poker_hand == spec_table_hand(final(table).cards_on_table@),
{
    match location {
        DragAndDropLocation::Hand { index } => {
            hand.cards_in_hand[*index] = None;
        },
        DragAndDropLocation::Table { index } => {
            table.cards_on_table[*index] = None;
        },
    }
    update_current_poker_hand(table);
}

/// Whether a card lies at the location.
pub fn location_has_card(table: &Table, hand: &Hand, location: &DragAndDropLocation) -> (r: bool)
    requires
        spec_loc_in_bounds(table.cards_on_table@, hand.cards_in_hand@, *location),
    ensures
        r == (spec_card_at(table.cards_on_table@, hand.cards_in_hand@, *location) is Some),
{
    match location {
        DragAndDropLocation::Hand { index } => hand.cards_in_hand[*index].is_some(),
        DragAndDropLocation::Table { index } => table.cards_on_table[*index].is_some(),
    }
}

/// Take the card at a location out, leaving the slot empty, and
/// re-evaluate the table's hand.
fn try_take_card_from(table: &mut Table, hand: &mut Hand, location: &DragAndDropLocation) -> (taken:
    Option<PlayingCard>)
    requires
        spec_loc_in_bounds(old(table).cards_on_table@, old(hand).cards_in_hand@, *location),
        old(table).cards_on_table@.len() <= 255,
    ensures
        taken == spec_card_at(old(table).cards_on_table@, old(hand).cards_in_hand@, *location),
        final(table).cards_on_table@ == (match *location {
            DragAndDropLocation::Table { index } => old(table).cards_on_table@.update(
                index as int,
                None,
            ),
            DragAndDropLocation::Hand { index } => old(table).cards_on_table@,
        }),
        final(hand).cards_in_hand@ == (match *location {
            DragAndDropLocation::Hand { index } => old(hand).cards_in_hand@.update(
                index as int,
                None,
            ),
            DragAndDropLocation::Table { index } => old(hand).cards_in_hand@,
        }),
        final(hand).hand_size == old(hand).hand_size,
        final(table).poker_hand == spec_table_hand(final(table).cards_on_table@),
{
    let taken: Option<PlayingCard> = match location {
        DragAndDropLocation::Hand { index } => {
            let card = hand.cards_in_hand[*index];
            hand.cards_in_hand[*index] = None;
            card
        },
        DragAndDropLocation::Table { index } => {
            let slot = table.cards_on_table[*index];
            table.cards_on_table[*index] = None;
            match slot {
                Some(c) => Some(c.card),
                None => None,
            }
        },
    };
    update_current_poker_hand(table);
    taken
}

/// Exchange the cards at two distinct occupied locations and re-evaluate
/// the table's hand. Every other slot keeps its card.
pub fn swap_cards_at(
    table: &mut Table,
    hand: &mut Hand,
    location_a: &DragAndDropLocation,
    location_b: &DragAndDropLocation,
)
    requires
        spec_loc_in_bounds(old(table).cards_on_table@, old(hand).cards_in_hand@, *location_a),
        spec_loc_in_bounds(old(table).cards_on_table@, old(hand).cards_in_hand@, *location_b),
        old(table).cards_on_table@.len() <= 255,
        *location_a != *location_b,
        spec_card_at(old(table).cards_on_table@, old(hand).cards_in_hand@, *location_a) is Some,
        spec_card_at(old(table).cards_on_table@, old(hand).cards_in_hand@, *location_b) is Some,
    ensures
        final(table).cards_on_table@.len() == old(table).cards_on_table@.len(),
        final(hand).cards_in_hand@.len() == old(hand).cards_in_hand@.len(),
        final(hand).hand_size == old(hand).hand_size,
        spec_card_at(final(table).cards_on_table@, final(hand).cards_in_hand@, *location_a)
            == spec_card_at(old(table).cards_on_table@, old(hand).cards_in_hand@, *location_b),
        spec_card_at(final(table).cards_on_table@, final(hand).cards_in_hand@, *location_b)
            == spec_card_at(old(table).cards_on_table@, old(hand).cards_in_hand@, *location_a),
        forall|loc: DragAndDropLocation|
            spec_loc_in_bounds(old(table).cards_on_table@, old(hand).cards_in_hand@, loc) && loc
                != *location_a && loc != *location_b ==> #[trigger] spec_card_at(
                final(table).cards_on_table@,
                final(hand).cards_in_hand@,
                loc,
            ) == spec_card_at(old(table).cards_on_table@, old(hand).cards_in_hand@, loc),
        final(table).poker_hand == spec_table_hand(final(table).cards_on_table@),
{
    let card_from_a: PlayingCard = try_take_card_from(table, hand, location_a).unwrap();
    let card_from_b: PlayingCard = try_take_card_from(table, hand, location_b).unwrap();
    place_card_at(table, hand, card_from_a, location_b);
    place_card_at(table, hand, card_from_b, location_a);
    update_current_poker_hand(table);
}

/// Whether the drop hit-test accepts table slot `i` as a destination:
/// the slot is not the drag's own source and the pointer passes the
/// layout's rectangle test for it.
pub open spec fn spec_table_dest_accepts(
    source: DragAndDropLocation,
    mx: int,
    my: int,
    i: int,
) -> bool {
    &&& !(source == DragAndDropLocation::Table { index: i as usize })
    &&& spec_point_in_rect(
        mx,
        my,
        TABLE_ORIGIN_X as int + i * TABLE_CARD_X_SPACING as int,
        TABLE_ORIGIN_Y as int,
        BIG_PLAYING_CARD_WIDTH as int,
        BIG_PLAYING_CARD_HEIGHT as int,
    )
}

/// Whether the drop hit-test accepts hand slot `i` as a destination.
pub open spec fn spec_hand_dest_accepts(
    source: DragAndDropLocation,
    mx: int,
    my: int,
    i: int,
) -> bool {
    &&& !(source == DragAndDropLocation::Hand { index: i as usize })
    &&& spec_point_in_rect(
        mx,
        my,
        HAND_ORIGIN_X as int + i * HAND_CARD_X_SPACING as int,
        HAND_ORIGIN_Y as int,
        BIG_PLAYING_CARD_WIDTH as int,
        BIG_PLAYING_CARD_HEIGHT as int,
    )
}

/// The first table slot at or after `i` the hit-test accepts.
pub open spec fn spec_first_table_dest(
    len: int,
    source: DragAndDropLocation,
    mx: int,
    my: int,
    i: int,
) -> Option<int>
    decreases len - i,
{
    if i >= len {
        None
    } else if spec_table_dest_accepts(source, mx, my, i) {
        Some(i)
    } else {
        spec_first_table_dest(len, source, mx, my, i + 1)
    }
}

/// The first hand slot at or after `i` the hit-test accepts.
pub open spec fn spec_first_hand_dest(
    len: int,
    source: DragAndDropLocation,
    mx: int,
    my: int,
    i: int,
) -> Option<int>
    decreases len - i,
{
    if i >= len {
        None
    } else if spec_hand_dest_accepts(source, mx, my, i) {
        Some(i)
    } else {
        spec_first_hand_dest(len, source, mx, my, i + 1)
    }
}

/// The location a dragged card may be dropped at, if the pointer sits on
/// one: table slots are tried first, then hand slots, lowest index first,
/// skipping the drag's own source. The rectangle the layout tests against
/// takes the card's width and height as its far corner.
pub fn get_valid_drop_destination(
    mouse_x: u16,
    mouse_y: u16,
    table: &Table,
    hand: &Hand,
    source_location: &DragAndDropLocation,
) -> (dest: Option<DragAndDropLocation>)
    requires
        table.cards_on_table@.len() <= 255,
        hand.cards_in_hand@.len() <= 255,
    ensures
        dest == (match spec_first_table_dest(
            table.cards_on_table@.len() as int,
            *source_location,
            mouse_x as int,
            mouse_y as int,
            0,
        ) {
            Some(i) => Some(DragAndDropLocation::Table { index: i as usize }),
            None => match spec_first_hand_dest(
                hand.cards_in_hand@.len() as int,
                *source_location,
                mouse_x as int,
                mouse_y as int,
                0,
            ) {
                Some(i) => Some(DragAndDropLocation::Hand { index: i as usize }),
                None => None,
            },
        }),
{
    let table_len: usize = table.cards_on_table.len();
    let mut i: usize = 0;
    while i < table_len
        invariant
            i <= table_len,
            table_len == table.cards_on_table@.len(),
            table_len <= 255,
            spec_first_table_dest(
                table_len as int,
                *source_location,
                mouse_x as int,
                mouse_y as int,
                0,
            ) == spec_first_table_dest(
                table_len as int,
                *source_location,
                mouse_x as int,
                mouse_y as int,
                i as int,
            ),
        decreases table_len - i,
    {
        let x1: u16 = TABLE_ORIGIN_X + (i as u16) * TABLE_CARD_X_SPACING;
        let destination_is_source: bool = match source_location {
            DragAndDropLocation::Table { index } => *index == i,
            _ => false,
        };
        let hit: bool = point_in_rect(
            mouse_x,
            mouse_y,
            x1,
            TABLE_ORIGIN_Y,
            BIG_PLAYING_CARD_WIDTH,
            BIG_PLAYING_CARD_HEIGHT,
        );
        if !destination_is_source && hit {
            return Some(DragAndDropLocation::Table { index: i });
        }
        i = i + 1;
    }
    let hand_len: usize = hand.cards_in_hand.len();
    let mut j: usize = 0;
    while j < hand_len
        invariant
            j <= hand_len,
            hand_len == hand.cards_in_hand@.len(),
            hand_len <= 255,
            spec_first_table_dest(
                table.cards_on_table@.len() as int,
                *source_location,
                mouse_x as int,
                mouse_y as int,
                0,
            ) is None,
            spec_first_hand_dest(
                hand_len as int,
                *source_location,
                mouse_x as int,
                mouse_y as int,
                0,
            ) == spec_first_hand_dest(
                hand_len as int,
                *source_location,
                mouse_x as int,
                mouse_y as int,
                j as int,
            ),
        decreases hand_len - j,
    {
        let x1: u16 = HAND_ORIGIN_X + (j as u16) * HAND_CARD_X_SPACING;
        let destination_is_source: bool = match source_location {
            DragAndDropLocation::Hand { index } => *index == j,
            _ => false,
        };
        let hit: bool = point_in_rect(
            mouse_x,
            mouse_y,
            x1,
            HAND_ORIGIN_Y,
            BIG_PLAYING_CARD_WIDTH,
            BIG_PLAYING_CARD_HEIGHT,
        );
        if !destination_is_source && hit {
            return Some(DragAndDropLocation::Hand { index: j });
        }
        j = j + 1;
    }
    None
}

} // verus!
