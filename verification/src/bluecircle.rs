//! The blue-circle sketch: one blue disc in the middle of the surface.

use vstd::prelude::*;
use crate::angle::FULL_TURN;
use crate::fixed::ONE;
use crate::fixed::from_pixels;
use crate::fixed::pixels;
use crate::fixed::whole_pixels;
use crate::surface::Color;
use crate::surface::Shape;
use crate::surface::Surface;
use crate::surface::SurfaceView;

verus! {

/// Why nothing was drawn.
#[derive(Clone, Copy, Debug, PartialEq, Eq, Structural)]
pub enum DrawError {
    /// The surface is too small for the margin: the radius would be below
    /// zero.
    NegativeRadius,
}

/// The blue of the disc.
pub open spec fn blue() -> Color {
    Color { red: 0, green: 0, blue: 255, alpha: ONE }
}

/// The radius of the disc on a surface of the given size: what is left of
/// the shorter half side after a margin of 5 pixels.
pub open spec fn radius(width: u32, height: u32) -> int {
    let shorter = if width <= height {
        width
    } else {
        height
    };
    pixels(shorter as int) / 2 - pixels(5)
}

/// The disc on a surface of the given size.
pub open spec fn circle(width: u32, height: u32) -> Shape {
    Shape::FillArc {
        cx: (pixels(width as int) / 2) as i64,
        cy: (pixels(height as int) / 2) as i64,
        radius: radius(width, height) as i64,
        start_angle: 0,
        end_angle: FULL_TURN,
        color: blue(),
    }
}

/// Draws the sketch on a container of the given displayed size: a surface
/// of that size with the disc on it, unless the surface is too small for
/// the disc.
pub fn start(bounds_width: i64, bounds_height: i64) -> (outcome: Result<Surface, DrawError>)
    ensures
        match outcome {
            Ok(surface) => {
                &&& radius(surface@.width, surface@.height) >= 0
                &&& surface@ == (SurfaceView {
                    width: whole_pixels(bounds_width as int) as u32,
                    height: whole_pixels(bounds_height as int) as u32,
                    shapes: seq![circle(surface@.width, surface@.height)],
                })
            },
            Err(error) => {
                &&& error == DrawError::NegativeRadius
                &&& radius(
                    whole_pixels(bounds_width as int) as u32,
                    whole_pixels(bounds_height as int) as u32,
                ) < 0
            },
        },
{
    let mut surface = Surface::new(0, 0);
    surface.resize(bounds_width, bounds_height);
    let center_x = from_pixels(surface.width()) / 2;
    let center_y = from_pixels(surface.height()) / 2;
    let shorter = if center_x <= center_y {
        center_x
    } else {
        center_y
    };
    let radius = shorter - 5 * ONE;
    if radius < 0 {
        return Err(DrawError::NegativeRadius);
    }
    surface.fill_arc(
        center_x,
        center_y,
        radius,
        0,
        FULL_TURN,
        Color { red: 0, green: 0, blue: 255, alpha: ONE },
    );
    assert(surface@.shapes =~= seq![circle(surface@.width, surface@.height)]);
    Ok(surface)
}

} // verus!
