use circle_scenes::color_generator::{ColorGenerator, Hsl};

fn walk(hue: i32, saturation: i32, lightness: i32) -> ColorGenerator {
    ColorGenerator::new(hue, saturation, lightness, rand::thread_rng()).0
}

#[test]
fn new_returns_the_start_colour() {
    let (generator, first) = ColorGenerator::new(100_000, 800_000, 700_000, rand::thread_rng());
    assert_eq!(first, Hsl { hue: 100_000, saturation: 800_000, lightness: 700_000 });
    assert_eq!(generator.current(), first);
}

#[test]
fn with_hue_replaces_only_the_hue() {
    let c = Hsl { hue: 100_000, saturation: 800_000, lightness: 700_000 };
    assert_eq!(c.with_hue(29_000_000), Hsl { hue: 29_000_000, saturation: 800_000, lightness: 700_000 });
}

#[test]
fn drifted_adds_within_the_range() {
    let c = Hsl { hue: 7, saturation: 500_000, lightness: 500_000 };
    assert_eq!(c.drifted(10_000, -50_000), Hsl { hue: 7, saturation: 510_000, lightness: 450_000 });
    assert_eq!(c.drifted(-1, 1), Hsl { hue: 7, saturation: 499_999, lightness: 500_001 });
}

#[test]
fn drifted_clamps_saturation_to_zero_and_one() {
    let high = Hsl { hue: 0, saturation: 995_000, lightness: 500_000 };
    assert_eq!(high.drifted(10_000, 0).saturation, 1_000_000);
    let low = Hsl { hue: 0, saturation: 5_000, lightness: 500_000 };
    assert_eq!(low.drifted(-10_000, 0).saturation, 0);
    let beyond = Hsl { hue: 0, saturation: i32::MAX, lightness: i32::MIN };
    assert_eq!(beyond.drifted(i32::MAX, i32::MIN), Hsl { hue: 0, saturation: 1_000_000, lightness: 300_000 });
}

#[test]
fn drifted_clamps_lightness_to_three_and_nine_tenths() {
    let dark = Hsl { hue: 0, saturation: 500_000, lightness: 310_000 };
    assert_eq!(dark.drifted(0, -50_000).lightness, 300_000);
    let bright = Hsl { hue: 0, saturation: 500_000, lightness: 890_000 };
    assert_eq!(bright.drifted(0, 50_000).lightness, 900_000);
    let out = Hsl { hue: 0, saturation: 500_000, lightness: 0 };
    assert_eq!(out.drifted(0, 0).lightness, 300_000);
}

#[test]
fn rand_color_draws_the_hue_from_the_first_thirty_degrees() {
    let mut generator = walk(200_000_000, 800_000, 700_000);
    for _ in 0..2000 {
        let c = generator.rand_color();
        assert!(c.hue >= 0 && c.hue < 30_000_000);
        assert_eq!(c.saturation, 800_000);
        assert_eq!(c.lightness, 700_000);
        assert_eq!(generator.current(), c);
    }
}

#[test]
fn rand_color_does_not_repeat_one_hue() {
    let mut generator = walk(0, 800_000, 700_000);
    let first = generator.rand_color().hue;
    let mut other = false;
    for _ in 0..200 {
        if generator.rand_color().hue != first {
            other = true;
        }
    }
    assert!(other);
}

#[test]
fn rand_color_variation_stays_in_bounds() {
    let mut generator = walk(100_000, 995_000, 305_000);
    for _ in 0..20_000 {
        let before = generator.current();
        let c = generator.rand_color_variation();
        assert_eq!(c.hue, 100_000);
        assert!(c.saturation >= 0 && c.saturation <= 1_000_000);
        assert!(c.lightness >= 300_000 && c.lightness <= 900_000);
        assert!((c.saturation - before.saturation).abs() <= 10_000);
        assert!((c.lightness - before.lightness).abs() <= 50_000);
        assert_eq!(generator.current(), c);
    }
}

#[test]
fn rand_color_variation_brings_a_colour_out_of_range_back() {
    let mut generator = walk(0, 2_000_000, -500_000);
    let c = generator.rand_color_variation();
    assert_eq!(c, Hsl { hue: 0, saturation: 1_000_000, lightness: 300_000 });
}

#[test]
fn rand_color_variation_moves_the_colour() {
    let mut generator = walk(0, 500_000, 600_000);
    let mut moved = false;
    for _ in 0..200 {
        let before = generator.current();
        if generator.rand_color_variation() != before {
            moved = true;
        }
    }
    assert!(moved);
}
