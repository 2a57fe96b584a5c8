//! The spray-can sketch: a can in the middle of the surface that sprays red
//! particles to the right, in front of a fixed scene.

use vstd::prelude::*;
use crate::angle::FULL_TURN;
use crate::angle::cos;
use crate::angle::cosine;
use crate::angle::lemma_sine_bounds;
use crate::angle::lemma_sine_periodic;
use crate::angle::normalize;
use crate::angle::normalized;
use crate::angle::sin;
use crate::angle::sine;
use crate::fixed::ONE;
use crate::fixed::fits;
use crate::fixed::from_pixels;
use crate::fixed::lemma_scaled_bounds;
use crate::fixed::pixels;
use crate::fixed::scale;
use crate::fixed::scaled;
use crate::fixed::whole_pixels;
use crate::fixed::within;
use crate::particle::Draw;
use crate::particle::SpraySource;
use crate::simulator::Phase;
use crate::simulator::Simulator;
use crate::simulator::SimulatorView;
use crate::simulator::StepError;
use crate::simulator::lemma_accepted_not_refused;
use crate::simulator::sprites;
use crate::surface::Color;
use crate::surface::Point;
use crate::surface::Shape;
use crate::surface::Surface;
use crate::surface::SurfaceView;

verus! {

/// The light blue of the background.
pub open spec fn sky() -> Color {
    Color { red: 0xAD, green: 0xD8, blue: 0xE6, alpha: ONE }
}

/// The black of the border, the corner marks and the nozzle.
pub open spec fn ink() -> Color {
    Color { red: 0, green: 0, blue: 0, alpha: ONE }
}

/// The gray of the can.
pub open spec fn steel() -> Color {
    Color { red: 0x80, green: 0x80, blue: 0x80, alpha: ONE }
}

/// The faint red of the cone: one part in five opaque.
pub open spec fn haze() -> Color {
    Color { red: 255, green: 0, blue: 0, alpha: 13107 }
}

/// Half of an angle, rounded toward zero.
pub open spec fn half_angle(spread: int) -> int {
    if spread >= 0 {
        spread / 2
    } else {
        -((-spread) / 2)
    }
}

/// The can with its foot at `(x, y)`: a body of 40 by 80 pixels and a
/// nozzle of 10 by 10 on top of it.
pub open spec fn spray_can(x: int, y: int) -> Seq<Shape> {
    seq![
        Shape::FillRect {
            x: (x - pixels(20)) as i64,
            y: (y - pixels(80)) as i64,
            width: pixels(40) as i64,
            height: pixels(80) as i64,
            color: steel(),
        },
        Shape::FillRect {
            x: (x - pixels(5)) as i64,
            y: (y - pixels(90)) as i64,
            width: pixels(10) as i64,
            height: pixels(10) as i64,
            color: ink(),
        },
    ]
}

/// The point at 100 pixels from `(x, y)` in the direction `angle`.
pub open spec fn cone_edge(x: int, y: int, angle: int) -> Point {
    Point {
        x: (x + scaled(pixels(100), cosine(angle))) as i64,
        y: (y + scaled(pixels(100), sine(angle))) as i64,
    }
}

/// The cone from `(x, y)` about the direction `angle`, `spread` wide: the
/// triangle from the tip to the ends of its two edges.
pub open spec fn cone(x: int, y: int, angle: int, spread: int) -> Shape {
    Shape::FillPolygon {
        points: seq![
            Point { x: x as i64, y: y as i64 },
            cone_edge(x, y, angle - half_angle(spread)),
            cone_edge(x, y, angle + half_angle(spread)),
        ],
        color: haze(),
    }
}

/// The angle to either side of the facing that the can sprays in: a
/// sixteenth of a half turn.
pub const HALF_SPREAD: i64 = 2048;

/// Where the can sprays from on a surface of the given size: 100 pixels
/// above the middle.
pub open spec fn spray_origin(width: u32, height: u32) -> Point {
    Point { x: (pixels(width as int) / 2) as i64, y: (pixels(height as int) / 2 - pixels(100)) as i64 }
}

/// The fixed scene on a surface of the given size: the background, the
/// border, a mark of 5 by 5 pixels in each corner, the can with its foot in
/// the middle, and the cone of the spray.
pub open spec fn static_scene(width: u32, height: u32) -> Seq<Shape> {
    let w = pixels(width as int);
    let h = pixels(height as int);
    let mark = pixels(5);
    seq![
        Shape::FillRect { x: 0, y: 0, width: w as i64, height: h as i64, color: sky() },
        Shape::StrokeRect { x: 0, y: 0, width: w as i64, height: h as i64, color: ink() },
        Shape::FillRect { x: 0, y: 0, width: mark as i64, height: mark as i64, color: ink() },
        Shape::FillRect {
            x: (w - mark) as i64,
            y: 0,
            width: mark as i64,
            height: mark as i64,
            color: ink(),
        },
        Shape::FillRect {
            x: 0,
            y: (h - mark) as i64,
            width: mark as i64,
            height: mark as i64,
            color: ink(),
        },
        Shape::FillRect {
            x: (w - mark) as i64,
            y: (h - mark) as i64,
            width: mark as i64,
            height: mark as i64,
            color: ink(),
        },
    ] + spray_can(w / 2, h / 2).push(cone(w / 2, h / 2 - pixels(100), 0, 2 * HALF_SPREAD))
}

/// The spray of the can: to the right, a sixteenth of a half turn to either
/// side, five particles a tick at one to three pixels a tick, sixty ticks
/// of life.
pub open spec fn spray_source(origin: Point) -> SpraySource {
    SpraySource {
        origin,
        facing: 0,
        half_spread: HALF_SPREAD,
        spawn_rate: 5,
        min_speed: ONE,
        max_speed: (3 * ONE) as i64,
        initial_life: 60,
    }
}

/// Brings the size of the surface in line with its container.
pub fn resize_canvas(surface: &mut Surface, bounds_width: i64, bounds_height: i64)
    ensures
        final(surface)@ == old(surface)@.resized(bounds_width as int, bounds_height as int),
{
    surface.resize(bounds_width, bounds_height);
}

/// Draws the can with its foot at `(x, y)`.
pub fn draw_spray_can(surface: &mut Surface, x: i64, y: i64)
    requires
        fits(x - pixels(20)),
        fits(y - pixels(90)),
    ensures
        final(surface)@ == old(surface)@.drawn_all(spray_can(x as int, y as int)),
{
    let steel = Color { red: 0x80, green: 0x80, blue: 0x80, alpha: ONE };
    let ink = Color { red: 0, green: 0, blue: 0, alpha: ONE };
    surface.fill_rect(x - 20 * ONE, y - 80 * ONE, 40 * ONE, 80 * ONE, steel);
    surface.fill_rect(x - 5 * ONE, y - 90 * ONE, 10 * ONE, 10 * ONE, ink);
    assert(surface@.shapes =~= old(surface)@.shapes + spray_can(x as int, y as int));
}

/// The end of the edge of a cone from `(x, y)` in the direction
/// `turned + offset`, where `turned` stands for `angle`.
fn edge_point(x: i64, y: i64, Ghost(angle): Ghost<int>, turned: i64, offset: i64) -> (point: Point)
    requires
        fits(x - pixels(100)),
        fits(x + pixels(100)),
        fits(y - pixels(100)),
        fits(y + pixels(100)),
        turned == normalized(angle),
        within(offset as int, 0x4000_0000_0000_0000),
    ensures
        point == cone_edge(x as int, y as int, angle + offset),
{
    let length: i64 = 100 * ONE;
    let direction = turned + offset;
    proof {
        vstd::arithmetic::div_mod::lemma_add_mod_noop(angle, offset as int, FULL_TURN as int);
        vstd::arithmetic::div_mod::lemma_add_mod_noop(
            turned as int,
            offset as int,
            FULL_TURN as int,
        );
        lemma_sine_periodic(direction as int, angle + offset);
        lemma_sine_bounds(direction as int);
        lemma_scaled_bounds(length as int, cosine(direction as int));
        lemma_scaled_bounds(length as int, sine(direction as int));
    }
    let reach_x = scale(length, cos(direction));
    let reach_y = scale(length, sin(direction));
    Point { x: x + reach_x, y: y + reach_y }
}

/// Draws the cone from `(x, y)` about the direction `angle`, `spread` wide.
pub fn draw_cone(surface: &mut Surface, x: i64, y: i64, angle: i64, spread: i64)
    requires
        fits(x - pixels(100)),
        fits(x + pixels(100)),
        fits(y - pixels(100)),
        fits(y + pixels(100)),
    ensures
        final(surface)@ == old(surface)@.drawn(
            cone(x as int, y as int, angle as int, spread as int),
        ),
{
    let turned = normalize(angle);
    let half = spread / 2;
    assert(half == half_angle(spread as int));
    let left = edge_point(x, y, Ghost(angle as int), turned, -half);
    let right = edge_point(x, y, Ghost(angle as int), turned, half);
    let mut points: Vec<Point> = Vec::new();
    points.push(Point { x, y });
    points.push(left);
    points.push(right);
    assert(points@ =~= seq![
        Point { x, y },
        cone_edge(x as int, y as int, angle - half_angle(spread as int)),
        cone_edge(x as int, y as int, angle + half_angle(spread as int)),
    ]);
    surface.fill_polygon(points, Color { red: 255, green: 0, blue: 0, alpha: 13107 });
}

/// Draws the fixed scene over the whole surface.
pub fn draw_static_scene(surface: &mut Surface)
    ensures
        final(surface)@ == old(surface)@.drawn_all(
            static_scene(old(surface)@.width, old(surface)@.height),
        ),
{
    let width = from_pixels(surface.width());
    let height = from_pixels(surface.height());
    let size = 5 * ONE;
    let sky = Color { red: 0xAD, green: 0xD8, blue: 0xE6, alpha: ONE };
    let ink = Color { red: 0, green: 0, blue: 0, alpha: ONE };
    surface.fill_rect(0, 0, width, height, sky);
    surface.stroke_rect(0, 0, width, height, ink);
    surface.fill_rect(0, 0, size, size, ink);
    surface.fill_rect(width - size, 0, size, size, ink);
    surface.fill_rect(0, height - size, size, size, ink);
    surface.fill_rect(width - size, height - size, size, size, ink);
    let can_x = width / 2;
    let can_y = height / 2;
    draw_spray_can(surface, can_x, can_y);
    draw_cone(surface, can_x, can_y - 100 * ONE, 0, 2 * HALF_SPREAD);
    assert(surface@.shapes =~= old(surface)@.shapes + static_scene(
        old(surface)@.width,
        old(surface)@.height,
    ));
}

/// What a frame shows on a surface of the given size: the fixed scene, and
/// over it the discs of the live particles.
pub open spec fn frame_shapes(width: u32, height: u32, simulator: SimulatorView) -> Seq<Shape> {
    static_scene(width, height) + sprites(simulator.particles, simulator.source.initial_life)
}

/// The surface after a tick has redrawn it for `simulator`.
pub open spec fn redrawn(surface: SurfaceView, simulator: SimulatorView) -> SurfaceView {
    SurfaceView {
        width: surface.width,
        height: surface.height,
        shapes: frame_shapes(surface.width, surface.height, simulator),
    }
}

/// One tick with the given draws: wipes the surface, draws the fixed
/// scene, and steps the simulator, which draws the live particles. A tick
/// that is refused changes nothing.
pub fn update_particles_with(
    surface: &mut Surface,
    simulator: &mut Simulator,
    draws: &Vec<Draw>,
) -> (outcome: Result<(), StepError>)
    requires
        old(simulator).wf(),
    ensures
        final(simulator).wf(),
        match outcome {
            Ok(()) => {
                &&& old(simulator)@.accepts(draws@)
                &&& final(simulator)@ == old(simulator)@.stepped(draws@)
                &&& final(surface)@ == redrawn(old(surface)@, final(simulator)@)
            },
            Err(error) => {
                &&& old(simulator)@.refusal(draws@, error)
                &&& final(simulator)@ == old(simulator)@
                &&& final(surface)@ == old(surface)@
            },
        },
{
    match simulator.check(draws) {
        Ok(()) => {},
        Err(error) => {
            return Err(error);
        },
    }
    surface.clear();
    draw_static_scene(surface);
    match simulator.step(surface, draws) {
        Ok(()) => {
            assert(surface@.shapes =~= frame_shapes(
                old(surface)@.width,
                old(surface)@.height,
                simulator@,
            ));
            Ok(())
        },
        Err(error) => {
            proof {
                lemma_accepted_not_refused(old(simulator)@, draws@, error);
            }
            unreached()
        },
    }
}

/// One tick with fresh random draws, which it returns. Only a simulator
/// that has not been started refuses it.
pub fn update_particles(surface: &mut Surface, simulator: &mut Simulator) -> (outcome: Result<Vec<Draw>, StepError>)
    requires
        old(simulator).wf(),
    ensures
        final(simulator).wf(),
        match outcome {
            Ok(draws) => {
                &&& old(simulator)@.accepts(draws@)
                &&& final(simulator)@ == old(simulator)@.stepped(draws@)
                &&& final(surface)@ == redrawn(old(surface)@, final(simulator)@)
            },
            Err(error) => {
                &&& error == StepError::NotRunning
                &&& old(simulator)@.phase is Idle
                &&& final(simulator)@ == old(simulator)@
                &&& final(surface)@ == old(surface)@
            },
        },
{
    match simulator.phase() {
        Phase::Idle => {
            return Err(StepError::NotRunning);
        },
        Phase::Running => {},
    }
    let mut rng = rand::thread_rng();
    let draws = simulator.source().draw_batch(&mut rng);
    match update_particles_with(surface, simulator, &draws) {
        Ok(()) => Ok(draws),
        Err(error) => {
            proof {
                lemma_accepted_not_refused(old(simulator)@, draws@, error);
            }
            unreached()
        },
    }
}

/// Why the sketch takes no more frames.
#[derive(Clone, Copy, Debug, PartialEq, Eq, Structural)]
pub enum Halt {
    /// The host asked it to stop.
    Stopped,
    /// The host lost the drawing surface: the sketch cannot go on.
    SurfaceLost,
}

/// What the host does after a frame.
#[derive(Clone, Copy, Debug, PartialEq, Eq, Structural)]
pub enum Schedule {
    /// Show the frame and ask for the next one.
    Again,
    /// Ask for no more frames.
    Never(Halt),
}

/// The sketch as a value.
pub struct SketchView {
    pub surface: SurfaceView,
    pub simulator: SimulatorView,
    pub halted: Option<Halt>,
}

impl SketchView {
    /// The simulator is well formed and running.
    pub open spec fn wf(self) -> bool {
        &&& self.simulator.wf()
        &&& self.simulator.phase is Running
    }

    /// The sketch after a frame with these draws.
    pub open spec fn framed(self, draws: Seq<Draw>) -> SketchView {
        SketchView {
            surface: redrawn(self.surface, self.simulator.stepped(draws)),
            simulator: self.simulator.stepped(draws),
            halted: self.halted,
        }
    }

    /// The sketch after its container has changed its size: the surface
    /// has the new size and shows the fixed scene for it, and the particles
    /// are as they were.
    pub open spec fn resized(self, bounds_width: int, bounds_height: int) -> SketchView {
        let sized = self.surface.resized(bounds_width, bounds_height);
        SketchView {
            surface: SurfaceView {
                width: sized.width,
                height: sized.height,
                shapes: static_scene(sized.width, sized.height),
            },
            simulator: self.simulator,
            halted: self.halted,
        }
    }

    /// The sketch after it was told to halt: the first reason stays.
    pub open spec fn halted_for(self, reason: Halt) -> SketchView {
        SketchView {
            surface: self.surface,
            simulator: self.simulator,
            halted: match self.halted {
                Some(first) => Some(first),
                None => Some(reason),
            },
        }
    }
}

/// The spray-can sketch: the one owner of the surface and the simulator.
/// The host hands it each event and does what it answers.
pub struct Sketch {
    surface: Surface,
    simulator: Simulator,
    halted: Option<Halt>,
}

impl View for Sketch {
    type V = SketchView;

    closed spec fn view(&self) -> SketchView {
        SketchView { surface: self.surface@, simulator: self.simulator@, halted: self.halted }
    }
}

/// Starts the sketch on a container of the given displayed size: sizes the
/// surface, starts a simulator that sprays from above the middle of it, and
/// draws the fixed scene.
pub fn start(bounds_width: i64, bounds_height: i64) -> (sketch: Sketch)
    ensures
        sketch.wf(),
        sketch@.halted is None,
        sketch@.surface.width == whole_pixels(bounds_width as int),
        sketch@.surface.height == whole_pixels(bounds_height as int),
        sketch@.surface.shapes == static_scene(sketch@.surface.width, sketch@.surface.height),
        sketch@.simulator == (SimulatorView {
            source: spray_source(spray_origin(sketch@.surface.width, sketch@.surface.height)),
            phase: Phase::Running,
            particles: Seq::empty(),
        }),
{
    let mut surface = Surface::new(0, 0);
    resize_canvas(&mut surface, bounds_width, bounds_height);
    let origin = Point {
        x: from_pixels(surface.width()) / 2,
        y: from_pixels(surface.height()) / 2 - 100 * ONE,
    };
    let source = SpraySource {
        origin,
        facing: 0,
        half_spread: HALF_SPREAD,
        spawn_rate: 5,
        min_speed: ONE,
        max_speed: 3 * ONE,
        initial_life: 60,
    };
    let mut simulator = Simulator::new(source);
    simulator.start();
    draw_static_scene(&mut surface);
    assert(surface@.shapes =~= static_scene(surface@.width, surface@.height));
    Sketch { surface, simulator, halted: None }
}

impl Sketch {
    /// The invariant of the sketch.
    pub open spec fn wf(&self) -> bool {
        self@.wf()
    }

    /// The surface, with the frame to show.
    pub fn surface(&self) -> (surface: &Surface)
        ensures
            surface@ == self@.surface,
    {
        &self.surface
    }

    /// The simulator, with the live particles.
    pub fn simulator(&self) -> (simulator: &Simulator)
        ensures
            simulator@ == self@.simulator,
    {
        &self.simulator
    }

    /// Why the sketch takes no more frames, if it takes none.
    pub fn halted(&self) -> (halted: Option<Halt>)
        ensures
            halted == self@.halted,
    {
        self.halted
    }

    /// A frame with the given draws. A halted sketch stays as it is and
    /// answers with the reason; a frame that is refused changes nothing.
    pub fn frame_with(&mut self, draws: &Vec<Draw>) -> (outcome: Result<Schedule, StepError>)
        requires
            old(self).wf(),
        ensures
            final(self).wf(),
            match outcome {
                Ok(Schedule::Never(reason)) => {
                    &&& old(self)@.halted == Some(reason)
                    &&& final(self)@ == old(self)@
                },
                Ok(Schedule::Again) => {
                    &&& old(self)@.halted is None
                    &&& old(self)@.simulator.accepts(draws@)
                    &&& final(self)@ == old(self)@.framed(draws@)
                },
                Err(error) => {
                    &&& old(self)@.halted is None
                    &&& old(self)@.simulator.refusal(draws@, error)
                    &&& final(self)@ == old(self)@
                },
            },
    {
        if let Some(reason) = self.halted {
            return Ok(Schedule::Never(reason));
        }
        match update_particles_with(&mut self.surface, &mut self.simulator, draws) {
            Ok(()) => Ok(Schedule::Again),
            Err(error) => Err(error),
        }
    }

    /// A frame with fresh random draws, which it returns beside the answer.
    /// A halted sketch stays as it is, draws nothing and answers with the
    /// reason.
    pub fn frame(&mut self) -> (outcome: (Schedule, Vec<Draw>))
        requires
            old(self).wf(),
        ensures
            final(self).wf(),
            match outcome.0 {
                Schedule::Never(reason) => {
                    &&& old(self)@.halted == Some(reason)
                    &&& outcome.1@.len() == 0
                    &&& final(self)@ == old(self)@
                },
                Schedule::Again => {
                    &&& old(self)@.halted is None
                    &&& old(self)@.simulator.accepts(outcome.1@)
                    &&& final(self)@ == old(self)@.framed(outcome.1@)
                },
            },
    {
        if let Some(reason) = self.halted {
            return (Schedule::Never(reason), Vec::new());
        }
        match update_particles(&mut self.surface, &mut self.simulator) {
            Ok(draws) => (Schedule::Again, draws),
            Err(_) => unreached(),
        }
    }

    /// The container has changed its size: resizes the surface and redraws
    /// the fixed scene for the new size. The particles are not touched.
    pub fn resized(&mut self, bounds_width: i64, bounds_height: i64)
        requires
            old(self).wf(),
        ensures
            final(self).wf(),
            final(self)@ == old(self)@.resized(bounds_width as int, bounds_height as int),
    {
        resize_canvas(&mut self.surface, bounds_width, bounds_height);
        self.surface.clear();
        draw_static_scene(&mut self.surface);
        assert(self.surface@.shapes =~= static_scene(self.surface@.width, self.surface@.height));
    }

    /// Halts the sketch: no frame is taken from now on. The first reason
    /// given is the one that stays.
    pub fn halt(&mut self, reason: Halt)
        requires
            old(self).wf(),
        ensures
            final(self).wf(),
            final(self)@ == old(self)@.halted_for(reason),
            final(self)@.halted is Some,
    {
        if self.halted.is_none() {
            self.halted = Some(reason);
        }
    }
}

} // verus!
