//! Menus, widgets and screens for the OLED display.
//!
//! Drawing functions append to a [`Canvas`], a list of figures that
//! [`render`] draws into the frame buffer.

pub mod canvas;
pub mod display;
pub mod menu;
pub mod redraw;
pub mod render;
pub mod screens;
pub mod widgets;

use vstd::prelude::*;

pub use canvas::Canvas;
use canvas::{Area, DrawOp};

verus! {

pub const DISPLAY_WIDTH: u32 = 128;

pub const DISPLAY_HEIGHT: u32 = 64;

/// The whole display in black.
pub open spec fn blank() -> canvas::Figure {
    canvas::Figure::Fill { area: Area { x: 0, y: 0, width: 128, height: 64 }, on: false }
}

/// Clears the entire display.
pub fn clear_display(canvas: &mut Canvas)
    ensures
        final(canvas)@ == old(canvas)@.push(blank()),
{
    canvas.push(
        DrawOp::Fill {
            area: Area { x: 0, y: 0, width: DISPLAY_WIDTH, height: DISPLAY_HEIGHT },
            on: false,
        },
    );
}

} // verus!
