use circle_scenes::circles::{intersects_any, intersects_any2, is_too_close, Circle, Point};
use circle_scenes::color_generator::{ColorGenerator, Hsl};
use circle_scenes::fixed::PIXEL;
use circle_scenes::packing::{
    accept, pack, place, ColorStep, PackingState, COLOR_CHANGE_PERIOD, MAX_CIRCLES_PER_RADIUS,
    MIN_RADIUS, RADIUS_STEP, START_RADIUS,
};

const GREY: Hsl = Hsl { hue: 0, saturation: 500_000, lightness: 500_000 };

fn circle(x: i64, y: i64, r: i64) -> Circle {
    Circle { pos: Point { x: x * PIXEL, y: y * PIXEL }, r: r * PIXEL, c: GREY }
}

fn clear_of_each_other(a: &Circle, b: &Circle) -> bool {
    let dx = (a.pos.x - b.pos.x) as i128;
    let dy = (a.pos.y - b.pos.y) as i128;
    let rs = (a.r + b.r) as i128;
    rs * rs + 50 * (PIXEL as i128) * (PIXEL as i128) <= dx * dx + dy * dy
}

fn packed(area_width: u32) -> Vec<Circle> {
    let (mut generator, _) = ColorGenerator::new(100_000, 800_000, 700_000, rand::thread_rng());
    let mut rng = rand::thread_rng();
    pack(area_width, &mut generator, &mut rng)
}

#[test]
fn clearance_is_fifty_square_pixels_beyond_touching() {
    let origin = Point { x: 0, y: 0 };
    // radii 3 and 4: the square of the distance must reach (3 + 4)^2 + 50 = 99
    let far = Point { x: 10 * PIXEL, y: 0 };
    assert!(!is_too_close(origin, 3 * PIXEL, far, 4 * PIXEL));
    let near = Point { x: 9 * PIXEL, y: 4 * PIXEL };
    assert!(is_too_close(origin, 3 * PIXEL, near, 4 * PIXEL));
    // the square root of 99 lies between 9.949874 and 9.949875
    let edge = Point { x: 9_949_874, y: 0 };
    assert!(is_too_close(origin, 3 * PIXEL, edge, 4 * PIXEL));
    let over = Point { x: 9_949_875, y: 0 };
    assert!(!is_too_close(origin, 3 * PIXEL, over, 4 * PIXEL));
}

#[test]
fn clearance_at_equality_is_kept() {
    let a = Point { x: 0, y: 0 };
    // radii 0 and 0: the square of the distance must reach 50 = 1 + 49
    assert!(!is_too_close(a, 0, Point { x: PIXEL, y: 7 * PIXEL }, 0));
    assert!(is_too_close(a, 0, Point { x: PIXEL, y: 7 * PIXEL - 1 }, 0));
    // radii 1 and 4: 25 + 50 = 75, and 7^2 + 5^2 = 74 falls short of it
    assert!(is_too_close(a, PIXEL, Point { x: 7 * PIXEL, y: 5 * PIXEL }, 4 * PIXEL));
    // radii 2 and 3: 25 + 50 = 75, and 9^2 = 81 is beyond it
    assert!(!is_too_close(a, 2 * PIXEL, Point { x: 9 * PIXEL, y: 0 }, 3 * PIXEL));
    // radii 5 and 5: 100 + 50 = 150, between 11^2 + 5^2 = 146 and 12^2 + 5^2 = 169
    assert!(is_too_close(a, 5 * PIXEL, Point { x: 11 * PIXEL, y: 5 * PIXEL }, 5 * PIXEL));
    assert!(!is_too_close(a, 5 * PIXEL, Point { x: 12 * PIXEL, y: 5 * PIXEL }, 5 * PIXEL));
}

#[test]
fn intersects_any_finds_the_one_that_is_close() {
    let others = vec![circle(-100, 0, 20), circle(100, 0, 20), circle(0, 100, 10)];
    assert!(!intersects_any(&circle(0, 0, 20), &others));
    assert!(intersects_any(&circle(60, 0, 20), &others));
    assert!(intersects_any(&circle(0, 80, 10), &others));
    assert!(!intersects_any(&circle(0, 0, 20), &[]));
}

#[test]
fn intersects_any2_reads_centres_and_radii_in_pairs() {
    let centres = vec![
        Point { x: -100 * PIXEL, y: 0 },
        Point { x: 100 * PIXEL, y: 0 },
        Point { x: 0, y: 100 * PIXEL },
    ];
    let radii = vec![20 * PIXEL, 20 * PIXEL, 10 * PIXEL];
    let here = Point { x: 60 * PIXEL, y: 0 };
    assert!(intersects_any2(here, 20 * PIXEL, &centres, &radii));
    assert!(!intersects_any2(Point { x: 0, y: 0 }, 20 * PIXEL, &centres, &radii));
    // the third centre has no radius to go with: it is not looked at
    assert!(!intersects_any2(Point { x: 0, y: 90 * PIXEL }, 5 * PIXEL, &centres, &radii[..2]));
    assert!(intersects_any2(Point { x: 0, y: 90 * PIXEL }, 5 * PIXEL, &centres, &radii));
}

#[test]
fn accept_adds_only_what_keeps_clear() {
    let mut circs = vec![circle(0, 0, 20)];
    assert!(!accept(&mut circs, circle(30, 0, 20)));
    assert_eq!(circs.len(), 1);
    assert!(accept(&mut circs, circle(50, 0, 20)));
    assert_eq!(circs.len(), 2);
    assert_eq!(circs[1], circle(50, 0, 20));
}

#[test]
fn place_puts_the_first_circle_anywhere_inside() {
    let mut rng = rand::thread_rng();
    let mut circs = Vec::new();
    assert!(place(&mut circs, 20 * PIXEL, 256, GREY, &mut rng));
    assert_eq!(circs.len(), 1);
    assert_eq!(circs[0].r, 20 * PIXEL);
    assert_eq!(circs[0].c, GREY);
    assert!(circs[0].pos.x.abs() <= 108 * PIXEL);
    assert!(circs[0].pos.y.abs() <= 108 * PIXEL);
}

#[test]
fn place_gives_up_where_the_radius_does_not_fit() {
    let mut rng = rand::thread_rng();
    let mut circs = Vec::new();
    assert!(!place(&mut circs, 20 * PIXEL, 39, GREY, &mut rng));
    assert!(circs.is_empty());
    assert!(place(&mut circs, 20 * PIXEL, 40, GREY, &mut rng));
    assert_eq!(circs[0].pos, Point { x: 0, y: 0 });
}

#[test]
fn place_gives_up_where_there_is_no_room() {
    let mut rng = rand::thread_rng();
    let mut circs = vec![circle(0, 0, 20)];
    assert!(!place(&mut circs, 20 * PIXEL, 60, GREY, &mut rng));
    assert_eq!(circs.len(), 1);
}

#[test]
fn packing_state_starts_at_the_start_radius() {
    let state = PackingState::new();
    assert_eq!(state.target_radius, 20 * PIXEL);
    assert_eq!(state.circles_at_current_radius, 0);
    assert_eq!(state.color_change_count, 0);
    assert!(!state.is_finished());
}

#[test]
fn packing_state_steps_down_on_failure() {
    let mut state = PackingState::new();
    assert_eq!(state.record(false), ColorStep::Keep);
    assert_eq!(state.target_radius, 19 * PIXEL);
    assert_eq!(state.circles_at_current_radius, 0);
    assert_eq!(state.color_change_count, 0);
}

#[test]
fn packing_state_counts_circles_and_jumps_every_thirtieth() {
    let mut state = PackingState::new();
    for placed in 1..=29u32 {
        assert_eq!(state.record(true), ColorStep::Drift);
        assert_eq!(state.circles_at_current_radius, placed);
        assert_eq!(state.color_change_count, placed);
    }
    assert_eq!(state.record(true), ColorStep::Jump);
    assert_eq!(state.circles_at_current_radius, 30);
    assert_eq!(state.color_change_count, 0);
    assert_eq!(state.target_radius, START_RADIUS);
}

#[test]
fn packing_state_steps_down_after_a_hundred_circles() {
    let mut state = PackingState::new();
    for _ in 1..MAX_CIRCLES_PER_RADIUS {
        state.record(true);
    }
    assert_eq!(state.target_radius, START_RADIUS);
    assert_eq!(state.circles_at_current_radius, 99);
    assert_eq!(state.record(true), ColorStep::Drift);
    assert_eq!(state.target_radius, START_RADIUS - RADIUS_STEP);
    assert_eq!(state.circles_at_current_radius, 0);
    assert_eq!(state.color_change_count, 100 % COLOR_CHANGE_PERIOD);
}

#[test]
fn packing_state_finishes_at_the_minimum_radius() {
    let mut state = PackingState::new();
    let mut rounds = 0;
    let mut last = state.target_radius;
    while !state.is_finished() {
        state.record(false);
        assert!(state.target_radius < last);
        assert!(state.target_radius >= MIN_RADIUS);
        last = state.target_radius;
        rounds += 1;
    }
    assert_eq!(rounds, 16);
    assert_eq!(state.target_radius, MIN_RADIUS);
}

#[test]
fn pack_256_keeps_clearance_and_radius_bounds() {
    let circs = packed(256);
    assert!(!circs.is_empty());
    let largest = circs.iter().map(|c| c.r).max().unwrap();
    let smallest = circs.iter().map(|c| c.r).min().unwrap();
    assert!(largest <= 20 * PIXEL);
    assert!(smallest > 4 * PIXEL);
    for i in 0..circs.len() {
        for j in 0..circs.len() {
            if i != j {
                assert!(clear_of_each_other(&circs[i], &circs[j]));
            }
        }
    }
}

#[test]
fn pack_radii_never_grow_and_stay_whole_pixels() {
    let circs = packed(256);
    assert_eq!(circs[0].r, START_RADIUS);
    for pair in circs.windows(2) {
        assert!(pair[0].r >= pair[1].r);
    }
    for c in &circs {
        assert_eq!(c.r % PIXEL, 0);
        assert!(c.r > MIN_RADIUS && c.r <= START_RADIUS);
    }
}

#[test]
fn pack_keeps_the_circles_inside_the_area() {
    let circs = packed(256);
    for c in &circs {
        assert!(c.pos.x.abs() + c.r <= 128 * PIXEL);
        assert!(c.pos.y.abs() + c.r <= 128 * PIXEL);
    }
}

#[test]
fn pack_has_at_most_a_hundred_circles_of_each_radius() {
    let circs = packed(1280);
    for r in 5..=20 {
        let n = circs.iter().filter(|c| c.r == r * PIXEL).count();
        assert!(n <= 100);
    }
    assert_eq!(circs.iter().filter(|c| c.r == 20 * PIXEL).count(), 100);
}

#[test]
fn pack_of_an_area_too_small_is_empty() {
    assert!(packed(0).is_empty());
    assert!(packed(9).is_empty());
    let one = packed(10);
    assert_eq!(one.len(), 1);
    assert_eq!(one[0].r, 5 * PIXEL);
    assert_eq!(one[0].pos, Point { x: 0, y: 0 });
}

#[test]
fn pack_starts_with_the_largest_radius_that_fits() {
    let circs = packed(31);
    assert_eq!(circs[0].r, 15 * PIXEL);
    let circs = packed(u32::MAX);
    assert_eq!(circs[0].r, START_RADIUS);
}

#[test]
fn pack_colours_walk_from_the_start_colour() {
    let circs = packed(256);
    assert_eq!(circs[0].c, Hsl { hue: 100_000, saturation: 800_000, lightness: 700_000 });
    for i in 1..circs.len() {
        let (prev, next) = (circs[i - 1].c, circs[i].c);
        if i % 30 == 0 {
            assert!(next.hue >= 0 && next.hue < 30_000_000);
            assert_eq!(next.saturation, prev.saturation);
            assert_eq!(next.lightness, prev.lightness);
        } else {
            assert_eq!(next.hue, prev.hue);
            assert!((next.saturation - prev.saturation).abs() <= 10_000);
            assert!((next.lightness - prev.lightness).abs() <= 50_000);
            assert!(next.saturation >= 0 && next.saturation <= 1_000_000);
            assert!(next.lightness >= 300_000 && next.lightness <= 900_000);
        }
    }
}
