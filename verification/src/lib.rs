//! A character-grid rendering pipeline for terminal games: an alpha-aware
//! colour model, a draw-call compositor over a cell buffer, a frame differ,
//! and a frame pacer, together with the card-game state that drives them.

pub mod card_slot;
pub mod color;
pub mod constants;
pub mod context;
pub mod dragged_card;
pub mod draw;
pub mod fps_limiter;
pub mod hand;
pub mod playing_card;
pub mod poker_hand;
pub mod rich_text;
pub mod screen;
pub mod shader;
pub mod slots;
pub mod table;
pub mod utils;
