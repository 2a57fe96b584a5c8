use spray_sketch::fixed::ONE;
use spray_sketch::particle::{Draw, SpraySource};
use spray_sketch::simulator::{Phase, Simulator, StepError};
use spray_sketch::spraycan::{
    draw_cone, draw_spray_can, draw_static_scene, resize_canvas, start, update_particles,
    update_particles_with, Halt, Schedule,
};
use spray_sketch::surface::{Color, DrawCommand, Point, Surface};

const SKY: Color = Color { red: 0xAD, green: 0xD8, blue: 0xE6, alpha: 65536 };
const INK: Color = Color { red: 0, green: 0, blue: 0, alpha: 65536 };
const STEEL: Color = Color { red: 0x80, green: 0x80, blue: 0x80, alpha: 65536 };
const HAZE: Color = Color { red: 255, green: 0, blue: 0, alpha: 13107 };

fn fill(x: i64, y: i64, width: i64, height: i64, color: Color) -> DrawCommand {
    DrawCommand::FillRect { x: x * ONE, y: y * ONE, width: width * ONE, height: height * ONE, color }
}

fn scene(width: i64, height: i64) -> Vec<DrawCommand> {
    let (cx, cy) = (width * ONE / 2, height * ONE / 2);
    vec![
        fill(0, 0, width, height, SKY),
        DrawCommand::StrokeRect { x: 0, y: 0, width: width * ONE, height: height * ONE, color: INK },
        fill(0, 0, 5, 5, INK),
        fill(width - 5, 0, 5, 5, INK),
        fill(0, height - 5, 5, 5, INK),
        fill(width - 5, height - 5, 5, 5, INK),
        DrawCommand::FillRect { x: cx - 20 * ONE, y: cy - 80 * ONE, width: 40 * ONE, height: 80 * ONE, color: STEEL },
        DrawCommand::FillRect { x: cx - 5 * ONE, y: cy - 90 * ONE, width: 10 * ONE, height: 10 * ONE, color: INK },
        DrawCommand::FillPolygon {
            points: vec![
                Point { x: cx, y: cy - 100 * ONE },
                Point { x: cx + 6426000, y: cy - 100 * ONE - 1289200 },
                Point { x: cx + 6426000, y: cy - 100 * ONE + 1289200 },
            ],
            color: HAZE,
        },
    ]
}

fn preset(width: i64, height: i64) -> SpraySource {
    SpraySource {
        origin: Point { x: width * ONE / 2, y: height * ONE / 2 - 100 * ONE },
        facing: 0,
        half_spread: 2048,
        spawn_rate: 5,
        min_speed: ONE,
        max_speed: 3 * ONE,
        initial_life: 60,
    }
}

fn straight(count: usize) -> Vec<Draw> {
    vec![Draw { angle: 0, speed: ONE }; count]
}

#[test]
fn the_can_is_a_body_and_a_nozzle() {
    let mut surface = Surface::new(300, 300);
    draw_spray_can(&mut surface, 150 * ONE, 150 * ONE);
    assert_eq!(surface.commands(), &vec![fill(130, 70, 40, 80, STEEL), fill(145, 60, 10, 10, INK)]);
    draw_spray_can(&mut surface, -7, 3);
    assert_eq!(surface.commands().len(), 4);
    assert_eq!(
        surface.commands()[3],
        DrawCommand::FillRect { x: -7 - 5 * ONE, y: 3 - 90 * ONE, width: 10 * ONE, height: 10 * ONE, color: INK }
    );
}

#[test]
fn the_cone_is_a_triangle_about_its_direction() {
    let mut surface = Surface::new(300, 300);
    draw_cone(&mut surface, 150 * ONE, 50 * ONE, 0, 4096);
    draw_cone(&mut surface, 0, 0, 16384, 0);
    draw_cone(&mut surface, 0, 0, 32768 + 65536 * 3, 32768);
    draw_cone(&mut surface, 0, 0, -65536, -4097);
    let tip = Point { x: 0, y: 0 };
    assert_eq!(
        surface.commands(),
        &vec![
            DrawCommand::FillPolygon {
                points: vec![
                    Point { x: 150 * ONE, y: 50 * ONE },
                    Point { x: 150 * ONE + 6426000, y: 50 * ONE - 1289200 },
                    Point { x: 150 * ONE + 6426000, y: 50 * ONE + 1289200 },
                ],
                color: HAZE,
            },
            DrawCommand::FillPolygon {
                points: vec![tip, Point { x: 0, y: 100 * ONE }, Point { x: 0, y: 100 * ONE }],
                color: HAZE,
            },
            DrawCommand::FillPolygon {
                points: vec![tip, Point { x: 0, y: 100 * ONE }, Point { x: 0, y: -100 * ONE }],
                color: HAZE,
            },
            DrawCommand::FillPolygon {
                points: vec![tip, Point { x: 6426000, y: 1289200 }, Point { x: 6426000, y: -1289200 }],
                color: HAZE,
            },
        ]
    );
}

#[test]
fn the_fixed_scene_on_a_square_surface() {
    let mut surface = Surface::new(300, 300);
    draw_static_scene(&mut surface);
    assert_eq!(surface.commands(), &scene(300, 300));
    assert_eq!(surface.commands()[6], fill(130, 70, 40, 80, STEEL));
    assert_eq!(surface.commands()[3], fill(295, 0, 5, 5, INK));
}

#[test]
fn the_fixed_scene_is_drawn_after_what_is_there() {
    let mut surface = Surface::new(31, 17);
    surface.fill_rect(1, 2, 3, 4, HAZE);
    draw_static_scene(&mut surface);
    assert_eq!(surface.commands().len(), 10);
    assert_eq!(surface.commands()[0], DrawCommand::FillRect { x: 1, y: 2, width: 3, height: 4, color: HAZE });
    assert_eq!(&surface.commands()[1..], &scene(31, 17)[..]);
    assert_eq!(
        surface.commands()[7],
        DrawCommand::FillRect {
            x: 15 * ONE + ONE / 2 - 20 * ONE,
            y: 8 * ONE + ONE / 2 - 80 * ONE,
            width: 40 * ONE,
            height: 80 * ONE,
            color: STEEL
        }
    );
}

#[test]
fn the_fixed_scene_on_the_smallest_and_the_largest_surface() {
    let mut none = Surface::new(0, 0);
    draw_static_scene(&mut none);
    assert_eq!(none.commands(), &scene(0, 0));
    assert_eq!(none.commands()[3], fill(-5, 0, 5, 5, INK));
    let mut huge = Surface::new(u32::MAX, u32::MAX);
    draw_static_scene(&mut huge);
    assert_eq!(huge.commands(), &scene(u32::MAX as i64, u32::MAX as i64));
}

#[test]
fn a_resize_moves_the_decorations_to_the_new_size() {
    let mut sketch = start(300 * ONE, 300 * ONE);
    assert_eq!(sketch.surface().commands(), &scene(300, 300));
    sketch.resized(600 * ONE, 400 * ONE);
    assert_eq!((sketch.surface().width(), sketch.surface().height()), (600, 400));
    assert_eq!(sketch.surface().commands(), &scene(600, 400));
    assert_eq!(sketch.surface().commands()[5], fill(595, 395, 5, 5, INK));
    assert_eq!(sketch.surface().commands()[6], fill(280, 120, 40, 80, STEEL));
    assert_eq!(sketch.surface().commands()[7], fill(295, 110, 10, 10, INK));
    let mut surface = Surface::new(300, 300);
    resize_canvas(&mut surface, 600 * ONE, 400 * ONE);
    resize_canvas(&mut surface, 600 * ONE, 400 * ONE);
    draw_static_scene(&mut surface);
    assert_eq!(surface.commands(), &scene(600, 400));
}

#[test]
fn resize_leaves_the_particles_and_their_origin() {
    let mut sketch = start(300 * ONE, 300 * ONE);
    assert_eq!(sketch.frame_with(&straight(5)), Ok(Schedule::Again));
    assert_eq!(sketch.frame_with(&straight(5)), Ok(Schedule::Again));
    let before = sketch.simulator().particles().clone();
    sketch.resized(600 * ONE, 400 * ONE);
    assert_eq!(sketch.simulator().particles(), &before);
    assert_eq!(sketch.simulator().source(), preset(300, 300));
    assert_eq!(sketch.frame_with(&straight(5)), Ok(Schedule::Again));
    let shown = sketch.surface().commands();
    assert_eq!(&shown[..9], &scene(600, 400)[..]);
    assert_eq!(shown.len(), 9 + 15);
    assert_eq!(sketch.simulator().particles()[14].x, 150 * ONE + ONE);
}

#[test]
fn start_sizes_the_surface_and_runs_the_preset() {
    let sketch = start(300 * ONE + 123, 200 * ONE + 65535);
    assert_eq!((sketch.surface().width(), sketch.surface().height()), (300, 200));
    assert_eq!(sketch.surface().commands(), &scene(300, 200));
    assert_eq!(sketch.simulator().phase(), Phase::Running);
    assert_eq!(sketch.simulator().source(), preset(300, 200));
    assert!(sketch.simulator().particles().is_empty());
    assert_eq!(sketch.halted(), None);
    assert_eq!(preset(300, 200).validate(), Ok(()));
    let empty = start(-ONE, 0);
    assert_eq!((empty.surface().width(), empty.surface().height()), (0, 0));
    assert_eq!(empty.simulator().source().origin, Point { x: 0, y: -100 * ONE });
    let huge = start(i64::MAX, i64::MAX);
    assert_eq!(huge.simulator().source().validate(), Ok(()));
}

#[test]
fn a_frame_shows_the_scene_and_then_the_particles() {
    let mut sketch = start(300 * ONE, 300 * ONE);
    let draws = vec![
        Draw { angle: 1000, speed: 2 * ONE },
        Draw { angle: -1000, speed: 2 * ONE },
        Draw { angle: 2048, speed: 3 * ONE },
        Draw { angle: 0, speed: ONE },
        Draw { angle: -2048, speed: ONE },
    ];
    assert_eq!(sketch.frame_with(&draws), Ok(Schedule::Again));
    let shown = sketch.surface().commands();
    assert_eq!(shown.len(), 14);
    assert_eq!(&shown[..9], &scene(300, 300)[..]);
    let alpha = 59 * ONE / 60;
    let red = Color { red: 255, green: 0, blue: 0, alpha };
    let disc = |cx: i64, cy: i64| DrawCommand::FillArc {
        cx: 150 * ONE + cx,
        cy: 50 * ONE + cy,
        radius: 2 * alpha,
        start_angle: 0,
        end_angle: 65536,
        color: red,
    };
    assert_eq!(
        &shown[9..],
        &[disc(130462, 12710), disc(130462, -12710), disc(192780, 38676), disc(ONE, 0), disc(64260, -12892)][..]
    );
    assert_eq!(sketch.frame_with(&draws), Ok(Schedule::Again));
    assert_eq!(sketch.surface().commands().len(), 19);
}

#[test]
fn a_refused_frame_changes_nothing() {
    let mut sketch = start(300 * ONE, 300 * ONE);
    assert_eq!(sketch.frame_with(&straight(5)), Ok(Schedule::Again));
    let particles = sketch.simulator().particles().clone();
    assert_eq!(sketch.frame_with(&straight(4)), Err(StepError::DrawCount));
    let mut draws = straight(5);
    draws[3].speed = 0;
    assert_eq!(sketch.frame_with(&draws), Err(StepError::DrawRejected { index: 3 }));
    assert_eq!(sketch.simulator().particles(), &particles);
    assert_eq!(sketch.surface().commands().len(), 14);
}

#[test]
fn a_halted_sketch_takes_no_frame() {
    let mut sketch = start(300 * ONE, 300 * ONE);
    assert_eq!(sketch.frame_with(&straight(5)), Ok(Schedule::Again));
    sketch.halt(Halt::SurfaceLost);
    assert_eq!(sketch.halted(), Some(Halt::SurfaceLost));
    sketch.halt(Halt::Stopped);
    assert_eq!(sketch.halted(), Some(Halt::SurfaceLost));
    assert_eq!(sketch.frame_with(&straight(5)), Ok(Schedule::Never(Halt::SurfaceLost)));
    assert_eq!(sketch.frame_with(&straight(1)), Ok(Schedule::Never(Halt::SurfaceLost)));
    let (answer, draws) = sketch.frame();
    assert_eq!(answer, Schedule::Never(Halt::SurfaceLost));
    assert!(draws.is_empty());
    assert_eq!(sketch.simulator().particles().len(), 5);
    assert_eq!(sketch.surface().commands().len(), 14);
    let mut stopped = start(300 * ONE, 300 * ONE);
    stopped.halt(Halt::Stopped);
    assert_eq!(stopped.frame().0, Schedule::Never(Halt::Stopped));
    assert!(stopped.simulator().particles().is_empty());
}

#[test]
fn random_draws_lie_in_the_cone_and_in_the_speed_range() {
    let source = SpraySource { facing: 5000, ..preset(300, 300) };
    let mut rng = rand::thread_rng();
    let mut angles = Vec::new();
    let mut speeds = Vec::new();
    for _ in 0..2000 {
        let drawn = source.draw(&mut rng);
        assert!(5000 - 2048 <= drawn.angle && drawn.angle <= 5000 + 2048);
        assert!(ONE <= drawn.speed && drawn.speed <= 3 * ONE);
        assert!(source.accepts(&drawn));
        angles.push(drawn.angle);
        speeds.push(drawn.speed);
    }
    assert!(angles.iter().any(|a| *a != 5000 - 2048));
    assert!(angles.iter().any(|a| *a != 5000 + 2048));
    assert!(angles.iter().any(|a| *a != angles[0]));
    assert!(speeds.iter().any(|s| *s != ONE));
    assert!(speeds.iter().any(|s| *s != 3 * ONE));
    assert!(speeds.iter().any(|s| *s != speeds[0]));
}

#[test]
fn random_draws_from_a_single_point() {
    let source = SpraySource { half_spread: 0, min_speed: 7, max_speed: 7, facing: -3, ..preset(300, 300) };
    let mut rng = rand::thread_rng();
    for _ in 0..50 {
        assert_eq!(source.draw(&mut rng), Draw { angle: -3, speed: 7 });
    }
}

#[test]
fn a_random_batch_has_the_spawn_rate() {
    let mut rng = rand::thread_rng();
    for rate in [0usize, 1, 5, 64] {
        let source = SpraySource { spawn_rate: rate, ..preset(300, 300) };
        let draws = source.draw_batch(&mut rng);
        assert_eq!(draws.len(), rate);
        assert!(draws.iter().all(|d| source.accepts(d)));
    }
}

#[test]
fn a_random_tick_is_the_tick_of_the_draws_it_returns() {
    let mut surface = Surface::new(300, 300);
    let mut simulator = Simulator::new(preset(300, 300));
    assert_eq!(update_particles(&mut surface, &mut simulator), Err(StepError::NotRunning));
    assert!(surface.commands().is_empty());
    simulator.start();
    let mut replayed = Simulator::new(preset(300, 300));
    replayed.start();
    let mut replayed_surface = Surface::new(300, 300);
    for tick in 1..=70usize {
        let draws = update_particles(&mut surface, &mut simulator).unwrap();
        assert_eq!(draws.len(), 5);
        assert!(draws.iter().all(|d| simulator.source().accepts(d)));
        assert_eq!(update_particles_with(&mut replayed_surface, &mut replayed, &draws), Ok(()));
        assert_eq!(simulator.particles(), replayed.particles());
        assert_eq!(surface.commands(), replayed_surface.commands());
        assert_eq!(simulator.particles().len(), 5 * tick.min(59));
        assert_eq!(surface.commands().len(), 9 + simulator.particles().len());
        assert!(simulator.particles().iter().all(|p| p.life > 0 && p.life < 60));
    }
}

#[test]
fn random_frames_reach_the_steady_state() {
    let mut sketch = start(300 * ONE, 300 * ONE);
    for tick in 1..=100usize {
        let (answer, draws) = sketch.frame();
        assert_eq!(answer, Schedule::Again);
        assert_eq!(draws.len(), 5);
        assert_eq!(sketch.simulator().particles().len(), 5 * tick.min(59));
    }
    let origin = sketch.simulator().source().origin;
    for p in sketch.simulator().particles() {
        let age = 60 - p.life;
        assert_eq!(p.x, origin.x + age * p.vx);
        assert_eq!(p.y, origin.y + age * p.vy);
        assert!(p.vx > 0 && p.vx <= 3 * ONE);
        assert!(p.vy.abs() <= 3 * 12892);
    }
}

#[test]
fn an_idle_simulator_refuses_the_tick_with_draws_too() {
    let mut surface = Surface::new(300, 300);
    surface.fill_rect(0, 0, 1, 1, INK);
    let mut simulator = Simulator::new(preset(300, 300));
    assert_eq!(
        update_particles_with(&mut surface, &mut simulator, &straight(5)),
        Err(StepError::NotRunning)
    );
    assert_eq!(surface.commands().len(), 1);
}
