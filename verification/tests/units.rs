use spray_sketch::angle::{cos, normalize, sin, FULL_TURN, HALF_TURN, QUARTER_TURN};
use spray_sketch::fixed::{fraction, from_pixels, scale, to_whole_pixels, ONE};
use spray_sketch::greeting::greet;

#[test]
fn greet_wraps_the_name() {
    assert_eq!(greet("World"), "Hello, World!");
    assert_eq!(greet(""), "Hello, !");
    assert_eq!(greet("Zoë"), "Hello, Zoë!");
}

#[test]
fn pixels_convert_both_ways() {
    assert_eq!(from_pixels(0), 0);
    assert_eq!(from_pixels(300), 300 * ONE);
    assert_eq!(from_pixels(u32::MAX), u32::MAX as i64 * 65536);
    assert_eq!(to_whole_pixels(300 * ONE), 300);
    assert_eq!(to_whole_pixels(from_pixels(u32::MAX)), u32::MAX);
}

#[test]
fn whole_pixels_drop_the_fraction() {
    assert_eq!(to_whole_pixels(300 * ONE + 65535), 300);
    assert_eq!(to_whole_pixels(ONE - 1), 0);
    assert_eq!(to_whole_pixels(ONE), 1);
}

#[test]
fn whole_pixels_of_nothing_or_less_are_none() {
    assert_eq!(to_whole_pixels(0), 0);
    assert_eq!(to_whole_pixels(-1), 0);
    assert_eq!(to_whole_pixels(-300 * ONE), 0);
    assert_eq!(to_whole_pixels(i64::MIN), 0);
}

#[test]
fn whole_pixels_stop_at_the_largest_count() {
    assert_eq!(to_whole_pixels(i64::MAX), u32::MAX);
    assert_eq!(to_whole_pixels((u32::MAX as i64 + 1) * ONE), u32::MAX);
    assert_eq!(to_whole_pixels(u32::MAX as i64 * ONE - 1), u32::MAX - 1);
}

#[test]
fn scale_rounds_toward_zero() {
    assert_eq!(scale(3, ONE / 2), 1);
    assert_eq!(scale(-3, ONE / 2), -1);
    assert_eq!(scale(3, -ONE / 2), -1);
    assert_eq!(scale(-3, -ONE / 2), 1);
    assert_eq!(scale(100 * ONE, ONE), 100 * ONE);
    assert_eq!(scale(100 * ONE, -ONE), -100 * ONE);
    assert_eq!(scale(100 * ONE, 0), 0);
    assert_eq!(scale(i64::MAX, ONE), i64::MAX);
    assert_eq!(scale(i64::MIN + 1, -ONE), i64::MAX);
    assert_eq!(scale(100 * ONE, 64260), 6426000);
}

#[test]
fn fraction_is_the_share_of_the_whole() {
    assert_eq!(fraction(0, 60), 0);
    assert_eq!(fraction(60, 60), ONE);
    assert_eq!(fraction(30, 60), ONE / 2);
    assert_eq!(fraction(59, 60), 64443);
    assert_eq!(fraction(1, 60), 1092);
    assert_eq!(fraction(1, u32::MAX), 0);
    assert_eq!(fraction(u32::MAX as i64, u32::MAX), ONE);
}

#[test]
fn normalize_brings_an_angle_into_one_turn() {
    assert_eq!(normalize(0), 0);
    assert_eq!(normalize(FULL_TURN), 0);
    assert_eq!(normalize(FULL_TURN + 5), 5);
    assert_eq!(normalize(-1), FULL_TURN - 1);
    assert_eq!(normalize(-FULL_TURN), 0);
    assert_eq!(normalize(-3 * FULL_TURN - 7), FULL_TURN - 7);
    assert_eq!(normalize(i64::MAX), 65535);
    assert_eq!(normalize(i64::MIN), 0);
}

#[test]
fn sine_and_cosine_are_exact_at_the_quarter_turns() {
    assert_eq!((sin(0), cos(0)), (0, ONE));
    assert_eq!((sin(QUARTER_TURN), cos(QUARTER_TURN)), (ONE, 0));
    assert_eq!((sin(HALF_TURN), cos(HALF_TURN)), (0, -ONE));
    assert_eq!((sin(3 * QUARTER_TURN), cos(3 * QUARTER_TURN)), (-ONE, 0));
    assert_eq!((sin(FULL_TURN), cos(FULL_TURN)), (0, ONE));
}

#[test]
fn sine_and_cosine_follow_the_arch() {
    assert_eq!((sin(2048), cos(2048)), (12892, 64260));
    assert_eq!((sin(-2048), cos(-2048)), (-12892, 64260));
    assert_eq!((sin(1000), cos(1000)), (6355, 65231));
    assert_eq!((sin(8192), cos(8192)), (46260, 46260));
}

#[test]
fn sine_and_cosine_repeat_and_stay_within_one() {
    let mut angle: i64 = -200_000;
    while angle < 200_000 {
        let (s, c) = (sin(angle), cos(angle));
        assert!(-ONE <= s && s <= ONE);
        assert!(-ONE <= c && c <= ONE);
        assert_eq!(s, sin(angle + FULL_TURN));
        assert_eq!(c, cos(angle - 3 * FULL_TURN));
        assert_eq!(c, sin(angle + QUARTER_TURN));
        angle += 997;
    }
    assert_eq!(cos(i64::MAX), sin(normalize(i64::MAX) + QUARTER_TURN));
    assert_eq!(sin(i64::MIN), 0);
}
