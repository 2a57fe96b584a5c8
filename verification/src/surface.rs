//! The drawing surface: its pixel size and the display list of a frame.
//!
//! Drawing is immediate-mode: each primitive appends one command to the
//! list, and the list holds what is visible until the next `clear`. A host
//! replays the list, in order, on the real surface.

use vstd::prelude::*;
use crate::fixed::whole_pixels;
use crate::fixed::to_whole_pixels;

verus! {

/// A colour: three channels and an opacity as a fixed-point factor.
#[derive(Clone, Copy, Debug, PartialEq, Eq, Structural)]
pub struct Color {
    pub red: u8,
    pub green: u8,
    pub blue: u8,
    pub alpha: i64,
}

/// A position on the surface, in fixed-point pixels.
#[derive(Clone, Copy, Debug, PartialEq, Eq, Structural)]
pub struct Point {
    pub x: i64,
    pub y: i64,
}

/// One immediate-mode draw call. Lengths are fixed-point pixels, angles
/// are binary angles.
#[derive(Debug, PartialEq, Eq)]
pub enum DrawCommand {
    FillRect { x: i64, y: i64, width: i64, height: i64, color: Color },
    StrokeRect { x: i64, y: i64, width: i64, height: i64, color: Color },
    FillArc { cx: i64, cy: i64, radius: i64, start_angle: i64, end_angle: i64, color: Color },
    FillPolygon { points: Vec<Point>, color: Color },
}

/// What a draw command draws.
pub enum Shape {
    FillRect { x: i64, y: i64, width: i64, height: i64, color: Color },
    StrokeRect { x: i64, y: i64, width: i64, height: i64, color: Color },
    FillArc { cx: i64, cy: i64, radius: i64, start_angle: i64, end_angle: i64, color: Color },
    FillPolygon { points: Seq<Point>, color: Color },
}

impl View for DrawCommand {
    type V = Shape;

    open spec fn view(&self) -> Shape {
        match *self {
            DrawCommand::FillRect { x, y, width, height, color } => Shape::FillRect {
                x,
                y,
                width,
                height,
                color,
            },
            DrawCommand::StrokeRect { x, y, width, height, color } => Shape::StrokeRect {
                x,
                y,
                width,
                height,
                color,
            },
            DrawCommand::FillArc { cx, cy, radius, start_angle, end_angle, color } => Shape::FillArc {
                cx,
                cy,
                radius,
                start_angle,
                end_angle,
                color,
            },
            DrawCommand::FillPolygon { points, color } => Shape::FillPolygon {
                points: points@,
                color,
            },
        }
    }
}

/// The shapes of a list of commands, in order.
pub open spec fn shapes_of(commands: Seq<DrawCommand>) -> Seq<Shape> {
    Seq::new(commands.len(), |i: int| commands[i]@)
}

/// A surface as a value: its size in whole pixels and what is drawn on it.
pub struct SurfaceView {
    pub width: u32,
    pub height: u32,
    pub shapes: Seq<Shape>,
}

impl SurfaceView {
    /// The surface after its size is brought in line with a container whose
    /// displayed size is `bounds_width` by `bounds_height`.
    pub open spec fn resized(self, bounds_width: int, bounds_height: int) -> SurfaceView {
        SurfaceView {
            width: whole_pixels(bounds_width) as u32,
            height: whole_pixels(bounds_height) as u32,
            shapes: self.shapes,
        }
    }

    /// The surface with one more shape drawn.
    pub open spec fn drawn(self, shape: Shape) -> SurfaceView {
        SurfaceView { width: self.width, height: self.height, shapes: self.shapes.push(shape) }
    }

    /// The surface with more shapes drawn, in order.
    pub open spec fn drawn_all(self, shapes: Seq<Shape>) -> SurfaceView {
        SurfaceView { width: self.width, height: self.height, shapes: self.shapes + shapes }
    }

    /// The surface wiped blank.
    pub open spec fn cleared(self) -> SurfaceView {
        SurfaceView { width: self.width, height: self.height, shapes: Seq::empty() }
    }
}

/// The surface manager.
pub struct Surface {
    width: u32,
    height: u32,
    commands: Vec<DrawCommand>,
}

impl View for Surface {
    type V = SurfaceView;

    closed spec fn view(&self) -> SurfaceView {
        SurfaceView { width: self.width, height: self.height, shapes: shapes_of(self.commands@) }
    }
}

impl Surface {
    /// A blank surface of the given size.
    pub fn new(width: u32, height: u32) -> (surface: Surface)
        ensures
            surface@ == (SurfaceView { width, height, shapes: Seq::empty() }),
    {
        let surface = Surface { width, height, commands: Vec::new() };
        assert(shapes_of(surface.commands@) =~= Seq::empty());
        surface
    }

    /// The width in whole pixels.
    pub fn width(&self) -> (width: u32)
        ensures
            width == self@.width,
    {
        self.width
    }

    /// The height in whole pixels.
    pub fn height(&self) -> (height: u32)
        ensures
            height == self@.height,
    {
        self.height
    }

    /// The display list of the current frame.
    pub fn commands(&self) -> (commands: &Vec<DrawCommand>)
        ensures
            shapes_of(commands@) == self@.shapes,
    {
        &self.commands
    }

    /// Sets the pixel size to the whole pixels of the container's displayed
    /// size. What is drawn stays as it is.
    pub fn resize(&mut self, bounds_width: i64, bounds_height: i64)
        ensures
            final(self)@ == old(self)@.resized(bounds_width as int, bounds_height as int),
    {
        self.width = to_whole_pixels(bounds_width);
        self.height = to_whole_pixels(bounds_height);
    }

    /// Wipes the surface blank.
    pub fn clear(&mut self)
        ensures
            final(self)@ == old(self)@.cleared(),
    {
        self.commands.clear();
        assert(shapes_of(self.commands@) =~= Seq::empty());
    }

    /// Appends one command to the display list.
    fn issue(&mut self, command: DrawCommand)
        ensures
            final(self)@ == old(self)@.drawn(command@),
    {
        self.commands.push(command);
        assert(shapes_of(self.commands@) =~= shapes_of(old(self).commands@).push(command@));
    }

    /// Fills a rectangle.
    pub fn fill_rect(&mut self, x: i64, y: i64, width: i64, height: i64, color: Color)
        ensures
            final(self)@ == old(self)@.drawn(Shape::FillRect { x, y, width, height, color }),
    {
        self.issue(DrawCommand::FillRect { x, y, width, height, color });
    }

    /// Strokes the outline of a rectangle.
    pub fn stroke_rect(&mut self, x: i64, y: i64, width: i64, height: i64, color: Color)
        ensures
            final(self)@ == old(self)@.drawn(Shape::StrokeRect { x, y, width, height, color }),
    {
        self.issue(DrawCommand::StrokeRect { x, y, width, height, color });
    }

    /// Fills the sector of a circle between two angles. A radius below zero
    /// is a mistake of the caller.
    pub fn fill_arc(
        &mut self,
        cx: i64,
        cy: i64,
        radius: i64,
        start_angle: i64,
        end_angle: i64,
        color: Color,
    )
        requires
            radius >= 0,
        ensures
            final(self)@ == old(self)@.drawn(
                Shape::FillArc { cx, cy, radius, start_angle, end_angle, color },
            ),
    {
        self.issue(DrawCommand::FillArc { cx, cy, radius, start_angle, end_angle, color });
    }

    /// Fills the closed path through `points`.
    pub fn fill_polygon(&mut self, points: Vec<Point>, color: Color)
        ensures
            final(self)@ == old(self)@.drawn(Shape::FillPolygon { points: points@, color }),
    {
        self.issue(DrawCommand::FillPolygon { points, color });
    }
}

/// Resizing twice for one container size gives what resizing once gives,
/// and resizing a surface that has the container's size changes nothing.
pub proof fn lemma_resize_idempotent(surface: SurfaceView, bounds_width: int, bounds_height: int)
    ensures
        surface.resized(bounds_width, bounds_height).resized(bounds_width, bounds_height)
            == surface.resized(bounds_width, bounds_height),
        surface.resized(bounds_width, bounds_height).width == whole_pixels(bounds_width),
        surface.resized(bounds_width, bounds_height).height == whole_pixels(bounds_height),
        surface.width == whole_pixels(bounds_width) && surface.height == whole_pixels(bounds_height)
            ==> surface.resized(bounds_width, bounds_height) == surface,
{
}

} // verus!
