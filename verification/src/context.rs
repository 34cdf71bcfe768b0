//! Plain game-state records shared across the input and drawing layers.

use vstd::prelude::*;

use crate::dragged_card::CardDragState;

verus! {

/// Whether the program keeps running after an input event.
#[derive(Clone, Copy, PartialEq, Eq, Structural, Debug)]
pub enum ProgramStatus {
    Running,
    Exit,
}

/// The pointer's position, button state and any card drag in progress.
pub struct MouseContext {
    pub x: u16,
    pub y: u16,
    pub is_left_down: bool,
    pub card_drag: CardDragState,
}

/// Player-toggleable rendering settings.
#[derive(Clone, Copy, PartialEq, Eq, Structural, Debug)]
pub struct Settings {
    pub vignette_enabled: bool,
    pub bg_shader_enabled: bool,
}

} // verus!
