//! Editing the grid with the stylus: what each stylus event does to the grid
//! and to the drawing mode, and what has to be drawn again afterwards.

use vstd::prelude::*;
use crate::game::{Cell, Frame};
use crate::layout::{cell_under, get_cell_from_absolute, on_field};
use crate::model::Grid;

verus! {

/// What the stylus reported.
#[derive(Clone, Copy, PartialEq, Eq, Debug, Structural)]
pub enum PenEvent {
    /// The tip touches the panel at the pixel `(x, y)`.
    Draw { x: u32, y: u32 },
    /// The writing end of the stylus came into reach.
    ToolPen,
    /// The rubber end of the stylus came into reach.
    ToolRubber,
    /// Any other event.
    Other,
}

/// What is left to do after a stylus event.
#[derive(Clone, Copy, PartialEq, Eq, Debug, Structural)]
pub enum PenAction {
    /// Nothing changed on the panel.
    Nothing,
    /// The cell `(x, y)` changed to `cell` and has to be drawn again.
    Redraw { x: u32, y: u32, cell: Cell },
}

/// The state that the stylus writes: live cells with the writing end, dead
/// ones with the rubber.
pub open spec fn ink(draw_mode: bool) -> Cell {
    if draw_mode {
        Cell::Alive
    } else {
        Cell::Dead
    }
}

/// What a touch at the pixel `(x, y)` leaves to do on the grid `g`: a redraw
/// of the cell under the pixel where the write changes it, else nothing.
pub open spec fn touch_action(g: Grid, draw_mode: bool, x: int, y: int) -> PenAction {
    let c = cell_under(x, y);
    if on_field(x, y) && g.cell(c.0, c.1) != ink(draw_mode) {
        PenAction::Redraw { x: c.0 as u32, y: c.1 as u32, cell: ink(draw_mode) }
    } else {
        PenAction::Nothing
    }
}

/// The grid after a touch at the pixel `(x, y)`: the cell under the pixel
/// holds the stylus's state; off the field nothing is written.
pub open spec fn touch_grid(g: Grid, draw_mode: bool, x: int, y: int) -> Grid {
    let c = cell_under(x, y);
    if on_field(x, y) {
        g.set(c.0, c.1, ink(draw_mode))
    } else {
        g
    }
}

/// Applies one stylus event. A touch on the field writes the stylus's state
/// into the cell under it and asks for a redraw only if the cell changed; a
/// change of tool switches between drawing and erasing; nothing else has an
/// effect.
pub fn on_wacom_input(frame: &mut Frame, draw_mode: &mut bool, event: PenEvent) -> (action:
    PenAction)
    requires
        old(frame).wf(),
    ensures
        final(frame).wf(),
        match event {
            PenEvent::Draw { x, y } => {
                &&& *final(draw_mode) == *old(draw_mode)
                &&& final(frame)@ == touch_grid(old(frame)@, *old(draw_mode), x as int, y as int)
                &&& action == touch_action(old(frame)@, *old(draw_mode), x as int, y as int)
            },
            PenEvent::ToolPen => {
                &&& *final(draw_mode)
                &&& *final(frame) == *old(frame)
                &&& action == PenAction::Nothing
            },
            PenEvent::ToolRubber => {
                &&& !*final(draw_mode)
                &&& *final(frame) == *old(frame)
                &&& action == PenAction::Nothing
            },
            PenEvent::Other => {
                &&& *final(draw_mode) == *old(draw_mode)
                &&& *final(frame) == *old(frame)
                &&& action == PenAction::Nothing
            },
        },
{
    match event {
        PenEvent::Draw { x, y } => {
            if let Some((cx, cy)) = get_cell_from_absolute(x, y) {
                let new_state = if *draw_mode {
                    Cell::Alive
                } else {
                    Cell::Dead
                };
                if frame.set_cell(cx, cy, new_state) {
                    PenAction::Redraw { x: cx, y: cy, cell: new_state }
                } else {
                    PenAction::Nothing
                }
            } else {
                PenAction::Nothing
            }
        },
        PenEvent::ToolPen => {
            *draw_mode = true;
            PenAction::Nothing
        },
        PenEvent::ToolRubber => {
            *draw_mode = false;
            PenAction::Nothing
        },
        PenEvent::Other => PenAction::Nothing,
    }
}

} // verus!
