use spray_sketch::bluecircle;
use spray_sketch::bluecircle::DrawError;
use spray_sketch::fixed::ONE;
use spray_sketch::surface::{Color, DrawCommand, Point, Surface};

const RED: Color = Color { red: 255, green: 0, blue: 0, alpha: 65536 };

#[test]
fn a_new_surface_is_blank() {
    let surface = Surface::new(300, 150);
    assert_eq!(surface.width(), 300);
    assert_eq!(surface.height(), 150);
    assert!(surface.commands().is_empty());
}

#[test]
fn resize_takes_the_whole_pixels_of_the_container() {
    let mut surface = Surface::new(0, 0);
    surface.resize(300 * ONE + 40000, 299 * ONE + 65535);
    assert_eq!((surface.width(), surface.height()), (300, 299));
    surface.resize(-5 * ONE, i64::MAX);
    assert_eq!((surface.width(), surface.height()), (0, u32::MAX));
}

#[test]
fn resize_twice_gives_the_same_size() {
    let mut surface = Surface::new(10, 10);
    surface.fill_rect(0, 0, ONE, ONE, RED);
    surface.resize(640 * ONE + 1, 480 * ONE);
    let once = (surface.width(), surface.height());
    surface.resize(640 * ONE + 1, 480 * ONE);
    assert_eq!((surface.width(), surface.height()), once);
    assert_eq!(once, (640, 480));
    assert_eq!(surface.commands().len(), 1);
}

#[test]
fn each_primitive_issues_one_command() {
    let mut surface = Surface::new(100, 100);
    surface.fill_rect(1, 2, 3, 4, RED);
    surface.stroke_rect(5, 6, 7, 8, RED);
    surface.fill_arc(9, 10, 11, 12, 13, RED);
    surface.fill_polygon(vec![Point { x: 1, y: 2 }, Point { x: 3, y: 4 }], RED);
    let expected = vec![
        DrawCommand::FillRect { x: 1, y: 2, width: 3, height: 4, color: RED },
        DrawCommand::StrokeRect { x: 5, y: 6, width: 7, height: 8, color: RED },
        DrawCommand::FillArc { cx: 9, cy: 10, radius: 11, start_angle: 12, end_angle: 13, color: RED },
        DrawCommand::FillPolygon {
            points: vec![Point { x: 1, y: 2 }, Point { x: 3, y: 4 }],
            color: RED,
        },
    ];
    assert_eq!(surface.commands(), &expected);
    assert_eq!((surface.width(), surface.height()), (100, 100));
}

#[test]
fn clear_wipes_the_commands_and_keeps_the_size() {
    let mut surface = Surface::new(100, 50);
    surface.fill_rect(1, 2, 3, 4, RED);
    surface.fill_arc(0, 0, 0, 0, 0, RED);
    surface.clear();
    assert!(surface.commands().is_empty());
    assert_eq!((surface.width(), surface.height()), (100, 50));
    surface.clear();
    assert!(surface.commands().is_empty());
}

#[test]
fn blue_circle_fills_the_middle() {
    let surface = bluecircle::start(300 * ONE, 200 * ONE).unwrap();
    assert_eq!((surface.width(), surface.height()), (300, 200));
    let expected = vec![DrawCommand::FillArc {
        cx: 150 * ONE,
        cy: 100 * ONE,
        radius: 95 * ONE,
        start_angle: 0,
        end_angle: 65536,
        color: Color { red: 0, green: 0, blue: 255, alpha: ONE },
    }];
    assert_eq!(surface.commands(), &expected);
}

#[test]
fn blue_circle_on_an_odd_size_is_centred_on_the_half_pixel() {
    let surface = bluecircle::start(301 * ONE + 7, 11 * ONE).unwrap();
    let expected = vec![DrawCommand::FillArc {
        cx: 150 * ONE + ONE / 2,
        cy: 5 * ONE + ONE / 2,
        radius: ONE / 2,
        start_angle: 0,
        end_angle: 65536,
        color: Color { red: 0, green: 0, blue: 255, alpha: ONE },
    }];
    assert_eq!(surface.commands(), &expected);
}

#[test]
fn blue_circle_of_radius_zero_is_drawn() {
    let surface = bluecircle::start(10 * ONE, 400 * ONE).unwrap();
    match &surface.commands()[0] {
        DrawCommand::FillArc { radius, cx, cy, .. } => {
            assert_eq!((*radius, *cx, *cy), (0, 5 * ONE, 200 * ONE));
        }
        other => panic!("unexpected command {:?}", other),
    }
}

#[test]
fn blue_circle_needs_room_for_its_margin() {
    assert_eq!(bluecircle::start(9 * ONE, 400 * ONE).err(), Some(DrawError::NegativeRadius));
    assert_eq!(bluecircle::start(400 * ONE, 9 * ONE + 65535).err(), Some(DrawError::NegativeRadius));
    assert_eq!(bluecircle::start(0, 0).err(), Some(DrawError::NegativeRadius));
    assert_eq!(bluecircle::start(-ONE, 300 * ONE).err(), Some(DrawError::NegativeRadius));
}
