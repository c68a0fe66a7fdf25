//! Frames of an animated scene: what is shown of each circle at a moment,
//! derived from the circle as it was packed and from samples of the waves
//! that drive the animation. The circles as packed are never changed.
//!
//! The waves are trigonometric functions of time, which the caller samples; a
//! sample is in millionths, and one that lies outside `[-1, 1]` counts as the
//! end of that interval that it lies beyond.

use crate::circles::{all_in_limits, Circle, Point};
use crate::color_generator::{
    Hsl, MAX_LIGHTNESS, MAX_SATURATION, MIN_LIGHTNESS, MIN_SATURATION,
};
use crate::fixed::{clamp, clamped, WHOLE};
use crate::scenes::Circles2;
use vstd::prelude::*;

verus! {

/// The radius swings by this many hundredths of itself.
pub const RADIUS_SWING_PERCENT: i64 = 12;

/// The centre moves right by at most this many pixels.
pub const X_SWING: i64 = 5;

/// The centre moves up by at most this many pixels.
pub const Y_SWING: i64 = 3;

/// Saturation and lightness swing by this many tenths.
pub const COLOR_SWING_TENTHS: i64 = 4;

/// The samples that go into the frame of one circle.
#[derive(Clone, Copy, Debug, PartialEq, Eq, Structural)]
pub struct Waves {
    /// The wave of the radius: a sine.
    pub radius: i32,
    /// The wave of the horizontal offset: a tangent, of which the size counts,
    /// up to 1.
    pub x: i32,
    /// The wave of the vertical offset: a sine, of which the size counts.
    pub y: i32,
}

/// A sample as a value of `[-1, 1]`.
pub open spec fn unit_wave(wave: int) -> int {
    clamped(wave, -WHOLE, WHOLE as int)
}

/// The size of a sample as a value of `[0, 1]`.
pub open spec fn wave_size(wave: int) -> int {
    clamped(
        if wave < 0 {
            -wave
        } else {
            wave
        },
        0,
        WHOLE as int,
    )
}

/// The radius shown: the radius as packed, times one plus the swing times the
/// sample, rounded down.
pub open spec fn shown_radius(r: int, wave: int) -> int {
    r * (100 * WHOLE + RADIUS_SWING_PERCENT * unit_wave(wave)) / (100 * WHOLE)
}

/// How far the centre is moved along an axis: the swing of the axis, in
/// pixels, times the size of the sample.
pub open spec fn shown_offset(swing: int, wave: int) -> int {
    swing * wave_size(wave)
}

/// What a colour channel is moved by: the swing times the sample, rounded
/// down.
pub open spec fn color_shift(wave: int) -> int {
    COLOR_SWING_TENTHS * unit_wave(wave) / 10
}

/// The colour shown: the hue as it is, saturation and lightness moved by
/// their waves and clamped to the range that a drift keeps.
pub open spec fn shown_color(base: Hsl, saturation_wave: int, lightness_wave: int) -> Hsl {
    Hsl {
        hue: base.hue,
        saturation: clamped(
            base.saturation + color_shift(saturation_wave),
            MIN_SATURATION as int,
            MAX_SATURATION as int,
        ) as i32,
        lightness: clamped(
            base.lightness + color_shift(lightness_wave),
            MIN_LIGHTNESS as int,
            MAX_LIGHTNESS as int,
        ) as i32,
    }
}

/// The circle shown for a circle as packed.
pub open spec fn shown_circle(
    base: Circle,
    waves: Waves,
    saturation_wave: int,
    lightness_wave: int,
) -> Circle {
    Circle {
        pos: Point {
            x: (base.pos.x + shown_offset(X_SWING as int, waves.x as int)) as i64,
            y: (base.pos.y + shown_offset(Y_SWING as int, waves.y as int)) as i64,
        },
        r: shown_radius(base.r as int, waves.radius as int) as i64,
        c: shown_color(base.c, saturation_wave, lightness_wave),
    }
}

/// The colour shown for a colour as packed. Its saturation and lightness lie
/// in the range that a drift keeps, whatever the colour and the samples.
pub fn present_color(base: Hsl, saturation_wave: i32, lightness_wave: i32) -> (shown: Hsl)
    ensures
        shown == shown_color(base, saturation_wave as int, lightness_wave as int),
        shown.drift_bounded(),
{
    let sw: i64 = clamp(saturation_wave as i64, -WHOLE, WHOLE);
    let lw: i64 = clamp(lightness_wave as i64, -WHOLE, WHOLE);
    let s_shift: i64 = (COLOR_SWING_TENTHS * sw + COLOR_SWING_TENTHS * WHOLE) / 10
        - COLOR_SWING_TENTHS * WHOLE / 10;
    let l_shift: i64 = (COLOR_SWING_TENTHS * lw + COLOR_SWING_TENTHS * WHOLE) / 10
        - COLOR_SWING_TENTHS * WHOLE / 10;
    let s: i64 = clamp(base.saturation as i64 + s_shift, MIN_SATURATION, MAX_SATURATION);
    let l: i64 = clamp(base.lightness as i64 + l_shift, MIN_LIGHTNESS, MAX_LIGHTNESS);
    Hsl { hue: base.hue, saturation: s as i32, lightness: l as i32 }
}

/// The circle shown for a circle as packed. Its radius differs from the
/// radius as packed by at most the swing, its centre lies right of and above
/// the centre as packed by at most the swings of the axes.
pub fn present_circle(base: &Circle, waves: Waves, saturation_wave: i32, lightness_wave: i32) -> (shown:
    Circle)
    requires
        base.in_limits(),
    ensures
        shown == shown_circle(*base, waves, saturation_wave as int, lightness_wave as int),
        shown.c.drift_bounded(),
        base.r * (100 - RADIUS_SWING_PERCENT) / 100 <= shown.r <= base.r * (100
            + RADIUS_SWING_PERCENT) / 100,
        base.pos.x <= shown.pos.x <= base.pos.x + X_SWING * WHOLE,
        base.pos.y <= shown.pos.y <= base.pos.y + Y_SWING * WHOLE,
{
    let rw: i64 = clamp(waves.radius as i64, -WHOLE, WHOLE);
    let factor: i64 = 100 * WHOLE + RADIUS_SWING_PERCENT * rw;
    assert(0 <= base.r * factor <= 0x1000_0000_0000_0000 * 112_000_000) by (nonlinear_arith)
        requires
            0 <= base.r <= 0x1000_0000_0000_0000,
            0 <= factor <= 112_000_000,
    ;
    let r: i128 = (base.r as i128 * factor as i128) / ((100 * WHOLE) as i128);
    assert(base.r * 88_000_000 <= base.r * factor <= base.r * 112_000_000) by (nonlinear_arith)
        requires
            0 <= base.r,
            88_000_000 <= factor <= 112_000_000,
    ;
    let x_size: i64 = clamp(
        if waves.x < 0 {
            -(waves.x as i64)
        } else {
            waves.x as i64
        },
        0,
        WHOLE,
    );
    let y_size: i64 = clamp(
        if waves.y < 0 {
            -(waves.y as i64)
        } else {
            waves.y as i64
        },
        0,
        WHOLE,
    );
    Circle {
        pos: Point { x: base.pos.x + X_SWING * x_size, y: base.pos.y + Y_SWING * y_size },
        r: r as i64,
        c: present_color(base.c, saturation_wave, lightness_wave),
    }
}

/// The frame of a scene that has been packed: for each circle that has its
/// samples, the circle shown, in the order of the circles. Circles beyond the
/// samples and samples beyond the circles are not looked at. A scene that has
/// not been packed has no frame.
pub fn circles2_update(
    circles2: &Circles2,
    waves: &[Waves],
    saturation_wave: i32,
    lightness_wave: i32,
) -> (frame: Vec<Circle>)
    requires
        circles2.allcircs.wf(),
        all_in_limits(circles2.allcircs@),
    ensures
        !circles2.done_setup ==> frame@.len() == 0,
        circles2.done_setup ==> frame@.len() == (if waves@.len() < circles2.allcircs@.len() {
            waves@.len()
        } else {
            circles2.allcircs@.len()
        }),
        forall|i: int|
            0 <= i < frame@.len() ==> #[trigger] frame@[i] == shown_circle(
                circles2.allcircs@[i],
                waves@[i],
                saturation_wave as int,
                lightness_wave as int,
            ),
{
    let mut frame: Vec<Circle> = Vec::new();
    if !circles2.done_setup {
        return frame;
    }
    let n = circles2.allcircs.len();
    let mut i: usize = 0;
    while i < n && i < waves.len()
        invariant
            circles2.allcircs.wf(),
            all_in_limits(circles2.allcircs@),
            n == circles2.allcircs@.len(),
            i <= n,
            i <= waves@.len(),
            frame@.len() == i,
            forall|k: int|
                0 <= k < i ==> #[trigger] frame@[k] == shown_circle(
                    circles2.allcircs@[k],
                    waves@[k],
                    saturation_wave as int,
                    lightness_wave as int,
                ),
        decreases n - i,
    {
        let base = circles2.allcircs.get(i);
        frame.push(present_circle(&base, waves[i], saturation_wave, lightness_wave));
        i += 1;
    }
    frame
}

} // verus!
