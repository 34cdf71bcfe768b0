//! Playing cards: suits, ranks and the standard deck.

use vstd::prelude::*;

use crate::color::Color;
use crate::draw::DrawCall;
use crate::rich_text::{Attributes, RichText};

verus! {

use vstd::arithmetic::div_mod::lemma_fundamental_div_mod_converse;

#[derive(Clone, Copy, PartialEq, Eq, Structural, PartialOrd, Ord, Debug)]
pub enum Suit {
    Spade,
    Heart,
    Club,
    Diamond,
}

/// The text for a suit symbol.
pub open spec fn spec_suit_repr(s: Suit) -> Seq<char> {
    match s {
        Suit::Spade => "♠"@,
        Suit::Heart => "♥"@,
        Suit::Club => "♣"@,
        Suit::Diamond => "♦"@,
    }
}

/// The display colour of a suit: red for hearts and diamonds, black for
/// spades and clubs, both fully opaque.
pub open spec fn spec_suit_color(s: Suit) -> Color {
    match s {
        Suit::Heart | Suit::Diamond => Color { r: 200u8, g: 0u8, b: 0u8, a: 255u8 },
        Suit::Spade | Suit::Club => Color { r: 0u8, g: 0u8, b: 0u8, a: 255u8 },
    }
}

impl Suit {
    pub fn repr(&self) -> (r: &'static str)
        ensures
            r@ == spec_suit_repr(*self),
    {
        match self {
            Suit::Spade => "♠",
            Suit::Heart => "♥",
            Suit::Club => "♣",
            Suit::Diamond => "♦",
        }
    }

    pub fn color(&self) -> (c: Color)
        ensures
            c == spec_suit_color(*self),
    {
        match self {
            Suit::Spade | Suit::Club => Color::new(0, 0, 0, 255),
            Suit::Heart | Suit::Diamond => Color::new(200, 0, 0, 255),
        }
    }

    /// All four suits, in their fixed order.
    pub fn iter() -> (v: Vec<Suit>)
        ensures
            v@ == seq![Suit::Spade, Suit::Heart, Suit::Club, Suit::Diamond],
    {
        let mut v: Vec<Suit> = Vec::new();
        v.push(Suit::Spade);
        v.push(Suit::Heart);
        v.push(Suit::Club);
        v.push(Suit::Diamond);
        proof {
            assert(v@ =~= seq![Suit::Spade, Suit::Heart, Suit::Club, Suit::Diamond]);
        }
        v
    }
}

#[derive(Clone, Copy, PartialEq, Eq, Structural, PartialOrd, Ord, Debug)]
pub enum Rank {
    Ace,
    King,
    Queen,
    Jack,
    Num10,
    Num9,
    Num8,
    Num7,
    Num6,
    Num5,
    Num4,
    Num3,
    Num2,
}

/// The text for a rank.
pub open spec fn spec_rank_repr(r: Rank) -> Seq<char> {
    match r {
        Rank::Ace => "A"@,
        Rank::King => "K"@,
        Rank::Queen => "Q"@,
        Rank::Jack => "J"@,
        Rank::Num10 => "10"@,
        Rank::Num9 => "9"@,
        Rank::Num8 => "8"@,
        Rank::Num7 => "7"@,
        Rank::Num6 => "6"@,
        Rank::Num5 => "5"@,
        Rank::Num4 => "4"@,
        Rank::Num3 => "3"@,
        Rank::Num2 => "2"@,
    }
}

impl Rank {
    pub fn repr(&self) -> (r: &'static str)
        ensures
            r@ == spec_rank_repr(*self),
    {
        match self {
            Rank::Ace => "A",
            Rank::King => "K",
            Rank::Queen => "Q",
            Rank::Jack => "J",
            Rank::Num10 => "10",
            Rank::Num9 => "9",
            Rank::Num8 => "8",
            Rank::Num7 => "7",
            Rank::Num6 => "6",
            Rank::Num5 => "5",
            Rank::Num4 => "4",
            Rank::Num3 => "3",
            Rank::Num2 => "2",
        }
    }

    /// All thirteen ranks, from ace down to two.
    pub fn iter() -> (v: Vec<Rank>)
        ensures
            v@.len() == 13,
            forall|i: int| 0 <= i < 13 ==> v@[i] == spec_rank_of_index(i),
    {
        let mut v: Vec<Rank> = Vec::new();
        v.push(Rank::Ace);
        v.push(Rank::King);
        v.push(Rank::Queen);
        v.push(Rank::Jack);
        v.push(Rank::Num10);
        v.push(Rank::Num9);
        v.push(Rank::Num8);
        v.push(Rank::Num7);
        v.push(Rank::Num6);
        v.push(Rank::Num5);
        v.push(Rank::Num4);
        v.push(Rank::Num3);
        v.push(Rank::Num2);
        v
    }
}

/// The suit at a given position of the fixed suit order.
pub open spec fn spec_suit_of_index(i: int) -> Suit {
    if i == 0 {
        Suit::Spade
    } else if i == 1 {
        Suit::Heart
    } else if i == 2 {
        Suit::Club
    } else {
        Suit::Diamond
    }
}

/// The position of a suit in the fixed suit order.
pub open spec fn spec_suit_index(s: Suit) -> int {
    match s {
        Suit::Spade => 0,
        Suit::Heart => 1,
        Suit::Club => 2,
        Suit::Diamond => 3,
    }
}

/// The rank at a given position of the fixed rank order, ace first.
pub open spec fn spec_rank_of_index(i: int) -> Rank {
    if i == 0 {
        Rank::Ace
    } else if i == 1 {
        Rank::King
    } else if i == 2 {
        Rank::Queen
    } else if i == 3 {
        Rank::Jack
    } else if i == 4 {
        Rank::Num10
    } else if i == 5 {
        Rank::Num9
    } else if i == 6 {
        Rank::Num8
    } else if i == 7 {
        Rank::Num7
    } else if i == 8 {
        Rank::Num6
    } else if i == 9 {
        Rank::Num5
    } else if i == 10 {
        Rank::Num4
    } else if i == 11 {
        Rank::Num3
    } else {
        Rank::Num2
    }
}

/// The position of a rank in the fixed rank order, ace first.
pub open spec fn spec_rank_index(r: Rank) -> int {
    match r {
        Rank::Ace => 0,
        Rank::King => 1,
        Rank::Queen => 2,
        Rank::Jack => 3,
        Rank::Num10 => 4,
        Rank::Num9 => 5,
        Rank::Num8 => 6,
        Rank::Num7 => 7,
        Rank::Num6 => 8,
        Rank::Num5 => 9,
        Rank::Num4 => 10,
        Rank::Num3 => 11,
        Rank::Num2 => 12,
    }
}

/// One card of the deck.
#[derive(Clone, Copy, PartialEq, Eq, Structural, Debug)]
pub struct PlayingCard {
    pub suit: Suit,
    pub rank: Rank,
}

/// The card at a given position of the standard deck: suits in their fixed
/// order, thirteen ranks each.
pub open spec fn spec_deck_card(i: int) -> PlayingCard {
    PlayingCard { suit: spec_suit_of_index(i / 13), rank: spec_rank_of_index(i % 13) }
}

/// The standard deck: fifty-two distinct cards, suits in their fixed order
/// and, within each suit, ranks from ace down to two.
pub fn standard_52_deck() -> (deck: Vec<PlayingCard>)
    ensures
        deck@.len() == 52,
        forall|i: int| 0 <= i < 52 ==> deck@[i] == spec_deck_card(i),
{
    let suits: Vec<Suit> = Suit::iter();
    let ranks: Vec<Rank> = Rank::iter();
    let mut deck: Vec<PlayingCard> = Vec::new();
    let mut s: usize = 0;
    while s < 4
        invariant
            s <= 4,
            suits@ == seq![Suit::Spade, Suit::Heart, Suit::Club, Suit::Diamond],
            ranks@.len() == 13,
            forall|i: int| 0 <= i < 13 ==> ranks@[i] == spec_rank_of_index(i),
            deck@.len() == 13 * s,
            forall|i: int| 0 <= i < deck@.len() ==> deck@[i] == spec_deck_card(i),
        decreases 4 - s,
    {
        let mut r: usize = 0;
        while r < 13
            invariant
                s < 4,
                r <= 13,
                suits@ == seq![Suit::Spade, Suit::Heart, Suit::Club, Suit::Diamond],
                ranks@.len() == 13,
                forall|i: int| 0 <= i < 13 ==> ranks@[i] == spec_rank_of_index(i),
                deck@.len() == 13 * s + r,
                forall|i: int| 0 <= i < deck@.len() ==> deck@[i] == spec_deck_card(i),
            decreases 13 - r,
        {
            deck.push(PlayingCard { suit: suits[s], rank: ranks[r] });
            proof {
                let i0 = 13 * s as int + r as int;
                lemma_fundamental_div_mod_converse(i0, 13, s as int, r as int);
                assert(suits@[s as int] == spec_suit_of_index(s as int));
                assert(deck@[i0] == spec_deck_card(i0));
            }
            r = r + 1;
        }
        s = s + 1;
    }
    deck
}

/// The opaque white face colour every card is drawn on.
pub open spec fn spec_card_bg() -> Color {
    Color { r: 255u8, g: 255u8, b: 255u8, a: 255u8 }
}

/// A rank's text padded to two columns on the right (a trailing space for
/// the single-character ranks).
pub open spec fn spec_rank_pad_left(r: Rank) -> Seq<char> {
    if r is Num10 {
        spec_rank_repr(r)
    } else {
        spec_rank_repr(r) + seq![' ']
    }
}

/// A rank's text padded to two columns on the left.
pub open spec fn spec_rank_pad_right(r: Rank) -> Seq<char> {
    if r is Num10 {
        spec_rank_repr(r)
    } else {
        seq![' '] + spec_rank_repr(r)
    }
}

/// The text of the small one-row card face: the suit symbol followed by
/// the rank, right-aligned to two columns.
pub open spec fn spec_small_card_text(card: PlayingCard) -> Seq<char> {
    spec_suit_repr(card.suit) + spec_rank_pad_right(card.rank)
}

/// A rank's text with a trailing space for the single-character ranks.
fn rank_pad_left(rank: Rank) -> (s: String)
    ensures
        s@ == spec_rank_pad_left(rank),
{
    let mut s: String = String::from_str(rank.repr());
    if !matches!(rank, Rank::Num10) {
        proof {
            reveal_strlit(" ");
        }
        s.append(" ");
    }
    s
}

/// A rank's text with a leading space for the single-character ranks.
fn rank_pad_right(rank: Rank) -> (s: String)
    ensures
        s@ == spec_rank_pad_right(rank),
{
    if matches!(rank, Rank::Num10) {
        String::from_str(rank.repr())
    } else {
        proof {
            reveal_strlit(" ");
        }
        let mut s: String = String::from_str(" ");
        s.append(rank.repr());
        s
    }
}

/// The one-row draw call for a card's small face: its suit symbol and
/// rank in the suit's colour, bold, on the white card background.
pub fn draw_calls_playing_card_small(x: i16, y: i16, card: &PlayingCard) -> (dc: DrawCall)
    ensures
        dc.x == x,
        dc.y == y,
        dc.rich_text.text@ == spec_small_card_text(*card),
        dc.rich_text.fg == spec_suit_color(card.suit),
        dc.rich_text.bg == spec_card_bg(),
        dc.rich_text.attributes == (Attributes {
            bold: true,
            italic: false,
            underlined: false,
            hidden: false,
        }),
{
    let mut text: String = String::from_str(card.suit.repr());
    let rank_text: String = rank_pad_right(card.rank);
    text.append(rank_text.as_str());
    let rich_text: RichText = RichText::new(text).fg(card.suit.color()).bg(
        Color::new(255, 255, 255, 255),
    ).attributes(Attributes::bold());
    DrawCall { rich_text, x, y }
}

/// The text of row `row` (0 to 2) of a card's three-row face: the rank in
/// the top-left and bottom-right corners and the suit symbol in a pattern
/// that varies with the rank.
pub open spec fn spec_big_card_row(card: PlayingCard, row: int) -> Seq<char> {
    let suit = spec_suit_repr(card.suit);
    if card.rank is Ace {
        if row == 0 {
            spec_rank_pad_left(card.rank) + seq![' ']
        } else if row == 1 {
            seq![' '] + suit + seq![' ']
        } else {
            seq![' '] + spec_rank_pad_right(card.rank)
        }
    } else if card.rank is Num2 {
        if row == 0 {
            spec_rank_pad_left(card.rank) + suit
        } else if row == 1 {
            seq![' ', ' ', ' ']
        } else {
            suit + spec_rank_pad_right(card.rank)
        }
    } else {
        if row == 0 {
            spec_rank_pad_left(card.rank) + suit
        } else if row == 1 {
            seq![' '] + suit + seq![' ']
        } else {
            suit + spec_rank_pad_right(card.rank)
        }
    }
}

/// The text of one row of the three-row card face.
fn big_card_row(card: &PlayingCard, row: usize) -> (s: String)
    requires
        row < 3,
    ensures
        s@ == spec_big_card_row(*card, row as int),
{
    proof {
        reveal_strlit(" ");
        reveal_strlit("   ");
    }
    let ace: bool = matches!(card.rank, Rank::Ace);
    let two: bool = matches!(card.rank, Rank::Num2);
    if row == 0 {
        let mut s: String = rank_pad_left(card.rank);
        if ace {
            s.append(" ");
        } else {
            s.append(card.suit.repr());
        }
        s
    } else if row == 1 {
        if two {
            let s: String = String::from_str("   ");
            proof {
                assert(s@ =~= seq![' ', ' ', ' ']);
            }
            s
        } else {
            let mut s: String = String::from_str(" ");
            s.append(card.suit.repr());
            s.append(" ");
            s
        }
    } else {
        let mut s: String = if ace {
            String::from_str(" ")
        } else {
            String::from_str(card.suit.repr())
        };
        let tail: String = rank_pad_right(card.rank);
        s.append(tail.as_str());
        s
    }
}

/// The three draw calls of a card's big face, one per row, in the suit's
/// colour, bold, on the white card background. Rows that land off screen
/// are clipped by the compositor.
pub fn draw_calls_playing_card_big(x: i16, y: i16, card: &PlayingCard) -> (calls: Vec<DrawCall>)
    requires
        y + 2 <= i16::MAX,
    ensures
        calls@.len() == 3,
        forall|row: int|
            0 <= row < 3 ==> {
                &&& (#[trigger] calls@[row]).x == x
                &&& calls@[row].y == y + row
                &&& calls@[row].rich_text.text@ == spec_big_card_row(*card, row)
                &&& calls@[row].rich_text.fg == spec_suit_color(card.suit)
                &&& calls@[row].rich_text.bg == spec_card_bg()
                &&& calls@[row].rich_text.attributes == (Attributes {
                    bold: true,
                    italic: false,
                    underlined: false,
                    hidden: false,
                })
            },
{
    let mut calls: Vec<DrawCall> = Vec::new();
    let mut row: usize = 0;
    while row < 3
        invariant
            row <= 3,
            y + 2 <= i16::MAX,
            calls@.len() == row,
            forall|r: int|
                0 <= r < row ==> {
                    &&& (#[trigger] calls@[r]).x == x
                    &&& calls@[r].y == y + r
                    &&& calls@[r].rich_text.text@ == spec_big_card_row(*card, r)
                    &&& calls@[r].rich_text.fg == spec_suit_color(card.suit)
                    &&& calls@[r].rich_text.bg == spec_card_bg()
                    &&& calls@[r].rich_text.attributes == (Attributes {
                        bold: true,
                        italic: false,
                        underlined: false,
                        hidden: false,
                    })
                },
        decreases 3 - row,
    {
        let text: String = big_card_row(card, row);
        let rich_text: RichText = RichText::new(text).fg(card.suit.color()).bg(
            Color::new(255, 255, 255, 255),
        ).attributes(Attributes::bold());
        calls.push(DrawCall { rich_text, x, y: y + (row as i16) });
        row = row + 1;
    }
    calls
}

} // verus!
