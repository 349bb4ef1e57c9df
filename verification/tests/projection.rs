use waypoint_editor::field::{
    Field, FieldPose, FieldPosition, ScreenPose, ScreenVec, FIELD_HEIGHT, FIELD_WH_RATIO, FIELD_WIDTH,
};
use waypoint_editor::heading::{Heading, HEADING_UNIT};
use waypoint_editor::layout::{Layout, LayoutRect, LayoutSettings, PixelVec};
use waypoint_editor::math::{abs_i128, abs_i64, isqrt};

const M: i32 = 1_000_000;

fn at(x: i32, y: i32) -> FieldPosition {
    FieldPosition { x, y }
}

fn field() -> Field {
    Field { size: at(10 * M, 5 * M) }
}

fn rect(x: i32, y: i32, w: i32, h: i32) -> LayoutRect {
    LayoutRect { pos: PixelVec { x, y }, size: PixelVec { x: w, y: h }, border_size: 15 }
}

fn layout() -> Layout {
    Layout {
        field: rect(-500, -250, 1000, 500),
        auto_cfg: rect(520, -250, 60, 500),
        console: rect(-500, -380, 1000, 100),
        screen_size: PixelVec { x: 1200, y: 800 },
    }
}

#[test]
fn the_field_has_its_size() {
    let f = Field::default();
    assert_eq!(f.size, at(16_459_200, 8_229_600));
    assert_eq!(FIELD_WIDTH, 16_459_200);
    assert_eq!(FIELD_HEIGHT, 8_229_600);
    assert_eq!(FIELD_WIDTH, FIELD_WH_RATIO * FIELD_HEIGHT);
    assert_eq!(HEADING_UNIT, 1_000_000);
}

#[test]
fn to_screen_vec_scales_the_field_to_its_rectangle() {
    let f = field();
    let l = layout();
    assert_eq!(f.to_screen_vec(&l, &at(3 * M, 4 * M)), ScreenVec { x: -200, y: 150 });
    assert_eq!(f.to_screen_vec(&l, &at(0, 0)), ScreenVec { x: -500, y: -250 });
    assert_eq!(f.to_screen_vec(&l, &at(10 * M, 5 * M)), ScreenVec { x: 500, y: 250 });
}

#[test]
fn to_screen_vec_rounds_down() {
    let f = field();
    let l = layout();
    assert_eq!(f.to_screen_vec(&l, &at(12_345, 19_999)), ScreenVec { x: -499, y: -249 });
    assert_eq!(f.to_screen_vec(&l, &at(9_999, 9_999)), ScreenVec { x: -500, y: -250 });
    assert_eq!(f.to_screen_vec(&l, &at(-1, -1)), ScreenVec { x: -501, y: -251 });
    assert_eq!(f.to_screen_vec(&l, &at(-10_000, -10_001)), ScreenVec { x: -501, y: -252 });
}

#[test]
fn to_screen_vec_reaches_beyond_the_field() {
    let f = Field { size: at(1, 1) };
    let mut l = layout();
    l.field = rect(i32::MAX, i32::MIN, i32::MAX, i32::MAX);
    assert_eq!(
        f.to_screen_vec(&l, &at(i32::MAX, i32::MIN)),
        ScreenVec { x: 2147483647 + 2147483647 * 2147483647, y: -2147483648 - 2147483647 * 2147483648 }
    );
    l.field = rect(0, 0, i32::MIN, i32::MIN);
    assert_eq!(
        f.to_screen_vec(&l, &at(i32::MIN, i32::MAX)),
        ScreenVec { x: 2147483648 * 2147483648, y: -2147483648 * 2147483647 }
    );
}

#[test]
fn to_screen_vec_on_the_real_field() {
    let f = Field::default();
    let l = Layout::build(&LayoutSettings::default(), 1280, 720);
    assert_eq!(f.to_screen_vec(&l, &at(M, M)), ScreenVec { x: -555, y: -30 });
    assert_eq!(f.to_screen_vec(&l, &at(FIELD_WIDTH, FIELD_HEIGHT)), ScreenVec { x: 233, y: 325 });
    assert_eq!(f.to_field_position(&l, ScreenVec { x: -555, y: -30 }), Some(at(982_052, 998_144)));
    assert_eq!(f.to_field_position(&l, ScreenVec { x: -186, y: 123 }), Some(at(8_229_600, 4_114_800)));
}

#[test]
fn to_screen_transform_keeps_the_heading() {
    let pose = FieldPose { translation: at(3 * M, 4 * M), rotation: Heading { x: 600_000, y: -800_000 } };
    assert_eq!(
        field().to_screen_transform(&layout(), &pose),
        ScreenPose { translation: ScreenVec { x: -200, y: 150 }, rotation: Heading { x: 600_000, y: -800_000 } }
    );
}

#[test]
fn to_field_position_inverts_the_scaling() {
    let f = field();
    let l = layout();
    assert_eq!(f.to_field_position(&l, ScreenVec { x: -200, y: 150 }), Some(at(3 * M, 4 * M)));
    assert_eq!(f.to_field_position(&l, ScreenVec { x: -499, y: -249 }), Some(at(10_000, 10_000)));
    assert_eq!(f.to_field_position(&l, ScreenVec { x: -500, y: -250 }), Some(at(0, 0)));
    assert_eq!(f.to_field_position(&l, ScreenVec { x: 500, y: 250 }), Some(at(10 * M, 5 * M)));
}

#[test]
fn to_field_position_rounds_down() {
    let f = Field { size: at(10, 10) };
    let mut l = layout();
    l.field = rect(0, 0, 3, 4);
    assert_eq!(f.to_field_position(&l, ScreenVec { x: 1, y: 1 }), Some(at(3, 2)));
    assert_eq!(f.to_field_position(&l, ScreenVec { x: 2, y: 3 }), Some(at(6, 7)));
    assert_eq!(f.to_field_position(&l, ScreenVec { x: 3, y: 4 }), Some(at(10, 10)));
}

#[test]
fn to_field_position_has_nothing_outside_the_rectangle() {
    let f = field();
    let l = layout();
    assert_eq!(f.to_field_position(&l, ScreenVec { x: -501, y: 0 }), None);
    assert_eq!(f.to_field_position(&l, ScreenVec { x: 501, y: 0 }), None);
    assert_eq!(f.to_field_position(&l, ScreenVec { x: 0, y: -251 }), None);
    assert_eq!(f.to_field_position(&l, ScreenVec { x: 0, y: 251 }), None);
    assert_eq!(f.to_field_position(&l, ScreenVec { x: i64::MIN, y: i64::MAX }), None);
    assert_eq!(f.to_field_position(&l, ScreenVec { x: i64::MAX, y: 0 }), None);
}

#[test]
fn to_field_position_has_nothing_in_a_rectangle_without_area() {
    let f = field();
    let mut l = Layout::default();
    assert_eq!(f.to_field_position(&l, ScreenVec { x: 0, y: 0 }), None);
    l.field = rect(0, 0, 100, 0);
    assert_eq!(f.to_field_position(&l, ScreenVec { x: 50, y: 0 }), None);
    l.field = rect(0, 0, -100, -100);
    assert_eq!(f.to_field_position(&l, ScreenVec { x: -50, y: -50 }), None);
}

#[test]
fn to_field_position_at_the_widest_rectangle() {
    let f = Field { size: at(i32::MAX, i32::MAX) };
    let mut l = layout();
    l.field = rect(i32::MAX, i32::MAX, i32::MAX, i32::MAX);
    let far: i64 = 2 * 2147483647;
    assert_eq!(f.to_field_position(&l, ScreenVec { x: far, y: far }), Some(at(i32::MAX, i32::MAX)));
    assert_eq!(f.to_field_position(&l, ScreenVec { x: far + 1, y: far }), None);
    assert_eq!(f.to_field_position(&l, ScreenVec { x: 2147483647, y: far - 1 }), Some(at(0, i32::MAX - 1)));
}

#[test]
fn a_round_trip_comes_back_within_a_pixel() {
    let f = field();
    let l = layout();
    // A pixel spans 10 000 micrometres.
    for p in [at(1_234_567, 2_345_678), at(0, 0), at(10 * M, 5 * M), at(9_999_999, 4_999_999), at(1, 1), at(10_000, 9_999)] {
        let on_screen = f.to_screen_vec(&l, &p);
        let back = f.to_field_position(&l, on_screen).unwrap();
        assert!(back.x <= p.x && p.x - back.x <= 10_001);
        assert!(back.y <= p.y && p.y - back.y <= 10_001);
    }
    let on_screen = f.to_screen_vec(&l, &at(1_234_567, 2_345_678));
    assert_eq!(on_screen, ScreenVec { x: -377, y: -16 });
    assert_eq!(f.to_field_position(&l, on_screen), Some(at(1_230_000, 2_340_000)));
}

#[test]
fn a_round_trip_is_exact_where_a_pixel_spans_less_than_a_micrometre() {
    let f = Field { size: at(100, 50) };
    let l = layout();
    for x in 0..=100 {
        for y in [0, 1, 17, 49, 50] {
            let on_screen = f.to_screen_vec(&l, &at(x, y));
            assert_eq!(f.to_field_position(&l, on_screen), Some(at(x, y)));
        }
    }
}

#[test]
fn dist_is_the_distance_rounded_down() {
    assert_eq!(at(0, 0).dist(&at(3 * M, 4 * M)), 5_000_000);
    assert_eq!(at(3 * M, 4 * M).dist(&at(0, 0)), 5_000_000);
    assert_eq!(at(7, 7).dist(&at(7, 7)), 0);
    assert_eq!(at(0, 0).dist(&at(1, 1)), 1);
    assert_eq!(at(0, 0).dist(&at(2, 2)), 2);
    assert_eq!(at(-5, 0).dist(&at(5, 0)), 10);
    assert_eq!(at(i32::MIN, i32::MIN).dist(&at(i32::MAX, i32::MAX)), 6_074_000_998);
    assert_eq!(at(0, 0).dist_squared(&at(3, 4)), 25);
    assert_eq!(at(i32::MIN, i32::MIN).dist_squared(&at(i32::MAX, i32::MAX)), 2 * 4294967295u128 * 4294967295u128);
}

#[test]
fn a_heading_points_at_its_target() {
    let from = at(M, M);
    assert_eq!(Heading::toward(&from, &at(4 * M, 5 * M)), Heading { x: 600_000, y: 800_000 });
    assert_eq!(Heading::toward(&from, &at(M, M + 5)), Heading { x: 0, y: 1_000_000 });
    assert_eq!(Heading::toward(&from, &at(M - 7, M)), Heading { x: -1_000_000, y: 0 });
    assert_eq!(Heading::toward(&from, &at(M, -M)), Heading { x: 0, y: -1_000_000 });
    assert_eq!(Heading::toward(&from, &at(M + 1, M + 1)), Heading { x: 707_107, y: 707_107 });
    assert_eq!(Heading::toward(&from, &at(M - 250_000, M + 250_000)), Heading { x: -707_106, y: 707_106 });
    assert_eq!(Heading::toward(&from, &at(M + 1, M - 2)), Heading { x: 447_213, y: -894_427 });
    assert_eq!(Heading::toward(&from, &at(M + 123_456, M - 654_321)), Heading { x: 185_406, y: -982_661 });
}

#[test]
fn a_heading_toward_the_same_point_is_zero() {
    assert_eq!(Heading::toward(&at(5, 6), &at(5, 6)), Heading { x: 1_000_000, y: 0 });
    assert_eq!(Heading::zero(), Heading { x: 1_000_000, y: 0 });
}

#[test]
fn a_heading_across_the_widest_span() {
    assert_eq!(
        Heading::toward(&at(i32::MIN, i32::MIN), &at(i32::MAX, i32::MAX)),
        Heading { x: 707_106, y: 707_106 }
    );
    assert_eq!(Heading::toward(&at(i32::MAX, 0), &at(i32::MIN, 1)), Heading { x: -1_000_000, y: 0 });
}

#[test]
fn isqrt_is_the_floor_of_the_root() {
    assert_eq!(isqrt(0), 0);
    assert_eq!(isqrt(1), 1);
    assert_eq!(isqrt(2), 1);
    assert_eq!(isqrt(3), 1);
    assert_eq!(isqrt(4), 2);
    assert_eq!(isqrt(99), 9);
    assert_eq!(isqrt(100), 10);
    assert_eq!(isqrt(25_000_000_000_000), 5_000_000);
    assert_eq!(isqrt(1 << 64), 1 << 32);
    assert_eq!(isqrt((1 << 64) - 1), (1 << 32) - 1);
    assert_eq!(isqrt(u128::MAX), u64::MAX);
    assert_eq!(isqrt(u128::MAX - 2 * (u64::MAX as u128)), u64::MAX);
    assert_eq!(isqrt(u128::MAX - 2 * (u64::MAX as u128) - 1), u64::MAX - 1);
}

#[test]
fn magnitudes() {
    assert_eq!(abs_i64(-5), 5);
    assert_eq!(abs_i64(5), 5);
    assert_eq!(abs_i64(0), 0);
    assert_eq!(abs_i64(i64::MIN), 1 << 63);
    assert_eq!(abs_i128(i128::MIN), 1 << 127);
    assert_eq!(abs_i128(-1), 1);
}

#[test]
fn the_layout_of_a_window() {
    let l = Layout::build(&LayoutSettings::default(), 1280, 720);
    assert_eq!(l.field, rect(-605, -79, 838, 404));
    assert_eq!(l.auto_cfg, rect(283, -79, 322, 404));
    assert_eq!(l.console, rect(-605, -325, 1210, 196));
    assert_eq!(l.screen_size, PixelVec { x: 1280, y: 720 });
    assert!(l.field.is_usable());
}

#[test]
fn the_layout_of_a_window_of_odd_size() {
    let l = Layout::build(&LayoutSettings::default(), 1281, 721);
    assert_eq!(l.field, rect(-605, -78, 838, 404));
    assert_eq!(l.auto_cfg, rect(283, -78, 323, 404));
    assert_eq!(l.console, rect(-605, -325, 1211, 197));
}

#[test]
fn the_layout_of_a_window_too_small_for_its_panels() {
    let l = Layout::build(&LayoutSettings::default(), 0, 0);
    assert_eq!(l.field, rect(35, 23, -86, -58));
    assert_eq!(l.auto_cfg, rect(-1, 23, -34, -58));
    assert_eq!(l.console, rect(35, 35, -70, -62));
    assert!(!l.field.is_usable());
    let l = Layout::build(&LayoutSettings::default(), 30, 30);
    assert_eq!(l.field, rect(20, 17, -44, -37));
    assert_eq!(l.console, rect(20, 20, -40, -53));
}

#[test]
fn the_layout_at_the_widest_settings() {
    let settings = LayoutSettings { margin: 65535, border_size: 65535 };
    let l = Layout::build(&settings, 65535, 65535);
    let wide = |x: i32, y: i32, w: i32, h: i32| LayoutRect {
        pos: PixelVec { x, y },
        size: PixelVec { x: w, y: h },
        border_size: 65535,
    };
    assert_eq!(l.field, wide(98303, 78643, -222820, -176945));
    assert_eq!(l.auto_cfg, wide(72088, 78643, -170390, -176945));
    assert_eq!(l.console, wide(98303, 98303, -196605, -216265));
}

#[test]
fn the_field_panel_is_limited_by_the_window_height() {
    // 2000 by 400: the usable area is 1960 by 360, and seven tenths of the
    // height, 252, allow a panel of 504 by 252.
    let l = Layout::build(&LayoutSettings { margin: 20, border_size: 0 }, 2000, 400);
    assert_eq!(l.field.size, PixelVec { x: 504, y: 252 });
    assert_eq!(l.field.pos, PixelVec { x: -980, y: -180 + 108 });
    assert_eq!(l.auto_cfg.pos, PixelVec { x: -980 + 504 + 20, y: -72 });
    assert_eq!(l.auto_cfg.size, PixelVec { x: 1960 - 504 - 20, y: 252 });
    assert_eq!(l.console.size, PixelVec { x: 1960, y: 360 - 252 - 20 });
}

#[test]
fn the_default_layout_has_no_area() {
    let l = Layout::default();
    assert_eq!(l.screen_size, PixelVec { x: 0, y: 0 });
    assert!(!l.field.is_usable());
    assert_eq!(LayoutSettings::default(), LayoutSettings { margin: 20, border_size: 15 });
    assert_eq!(LayoutRect::default().size, PixelVec { x: 0, y: 0 });
    assert_eq!(PixelVec::new(3, -4), PixelVec { x: 3, y: -4 });
    assert_eq!(FieldPosition::new(3, -4), at(3, -4));
}

#[test]
fn a_heading_is_parallel_to_its_vector_up_to_rounding() {
    let from = at(0, 0);
    for (dx, dy) in [
        (1, 1),
        (1, -2),
        (3 * M, 4 * M),
        (-250_000, 250_000),
        (123_456, -654_321),
        (i32::MAX, 1),
        (1, i32::MIN),
        (-1, 0),
        (7, 1_000_003),
        (i32::MIN, i32::MIN),
    ] {
        let h = Heading::toward(&from, &at(dx, dy));
        let cross = i128::from(h.x) * i128::from(dy) - i128::from(h.y) * i128::from(dx);
        let longer = i128::from(dx).abs().max(i128::from(dy).abs());
        assert!(cross.abs() < longer);
        assert!(h.x.abs() <= HEADING_UNIT && h.y.abs() <= HEADING_UNIT);
        assert!(h.x.abs().max(h.y.abs()) >= 707_106);
        assert!(i64::from(h.x) * i64::from(dx) >= 0 && i64::from(h.y) * i64::from(dy) >= 0);
        // The length is a million, give or take two.
        let length_squared = i64::from(h.x) * i64::from(h.x) + i64::from(h.y) * i64::from(h.y);
        assert!(length_squared >= 999_998 * 999_998 && length_squared <= 1_000_002 * 1_000_002);
    }
}

#[test]
fn a_length_on_screen_goes_by_the_horizontal_scale() {
    let f = field();
    let l = layout();
    assert_eq!(f.to_screen_length(&l, 736_600), 73);
    assert_eq!(f.to_screen_length(&l, 10 * M), 1000);
    assert_eq!(f.to_screen_length(&l, 0), 0);
    assert_eq!(f.to_screen_length(&l, -1), -1);
    assert_eq!(f.to_screen_length(&l, 9_999), 0);
}

#[test]
fn a_field_needs_an_extent() {
    assert!(Field::default().is_valid());
    assert!(field().is_valid());
    assert!(!Field { size: at(0, 5) }.is_valid());
    assert!(!Field { size: at(5, 0) }.is_valid());
    assert!(!Field { size: at(-5, 5) }.is_valid());
}

#[test]
fn a_pose_is_a_position_and_a_heading() {
    let p = FieldPose::new(at(3, 4), Heading { x: 0, y: 1_000_000 });
    assert_eq!(p.translation, at(3, 4));
    assert_eq!(p.rotation, Heading { x: 0, y: 1_000_000 });
}
