//! A random walk through hue, saturation and lightness.

use crate::fixed::{clamp, clamped, DEGREE, WHOLE};
use crate::random::uniform;
use rand::rngs::ThreadRng;
use vstd::prelude::*;

verus! {

/// A hue jump draws the new hue from `[0, HUE_JUMP_SPAN)`: the first thirty
/// degrees of the colour wheel.
pub const HUE_JUMP_SPAN: i64 = 30 * DEGREE;

/// A drift moves saturation by at most this much: 0.01.
pub const SATURATION_DRIFT: i64 = 10_000;

/// A drift moves lightness by at most this much: 0.05.
pub const LIGHTNESS_DRIFT: i64 = 50_000;

/// A drift keeps saturation at or above this: 0.
pub const MIN_SATURATION: i64 = 0;

/// A drift keeps saturation at or below this: 1.
pub const MAX_SATURATION: i64 = WHOLE;

/// A drift keeps lightness at or above this: 0.3.
pub const MIN_LIGHTNESS: i64 = 300_000;

/// A drift keeps lightness at or below this: 0.9.
pub const MAX_LIGHTNESS: i64 = 900_000;

/// A colour: hue in millionths of a degree, saturation and lightness in
/// millionths of one.
#[derive(Clone, Copy, Debug, PartialEq, Eq, Structural)]
pub struct Hsl {
    pub hue: i32,
    pub saturation: i32,
    pub lightness: i32,
}

impl Hsl {
    /// This colour with its hue replaced.
    pub open spec fn spec_with_hue(self, hue: i32) -> Hsl {
        Hsl { hue, saturation: self.saturation, lightness: self.lightness }
    }

    /// This colour after a drift by `ds` in saturation and `dl` in lightness:
    /// each sum is clamped to the range that a drift keeps.
    pub open spec fn spec_drifted(self, ds: int, dl: int) -> Hsl {
        Hsl {
            hue: self.hue,
            saturation: clamped(
                self.saturation + ds,
                MIN_SATURATION as int,
                MAX_SATURATION as int,
            ) as i32,
            lightness: clamped(
                self.lightness + dl,
                MIN_LIGHTNESS as int,
                MAX_LIGHTNESS as int,
            ) as i32,
        }
    }

    /// Saturation and lightness lie in the range that a drift keeps.
    pub open spec fn drift_bounded(self) -> bool {
        &&& MIN_SATURATION <= self.saturation <= MAX_SATURATION
        &&& MIN_LIGHTNESS <= self.lightness <= MAX_LIGHTNESS
    }

    /// `next` can come out of a hue jump from this colour: the hue is in the
    /// jump's span, the rest is untouched.
    pub open spec fn jumps_to(self, next: Hsl) -> bool {
        &&& 0 <= next.hue < HUE_JUMP_SPAN
        &&& next.saturation == self.saturation
        &&& next.lightness == self.lightness
    }

    /// `next` can come out of a drift from this colour: the hue is untouched,
    /// and saturation and lightness each lie between the clamped ends of the
    /// interval that the drift can reach.
    pub open spec fn drifts_to(self, next: Hsl) -> bool {
        &&& next.hue == self.hue
        &&& self.spec_drifted(-SATURATION_DRIFT, -LIGHTNESS_DRIFT).saturation <= next.saturation
        &&& next.saturation <= self.spec_drifted(SATURATION_DRIFT as int, LIGHTNESS_DRIFT as int).saturation
        &&& self.spec_drifted(-SATURATION_DRIFT, -LIGHTNESS_DRIFT).lightness <= next.lightness
        &&& next.lightness <= self.spec_drifted(SATURATION_DRIFT as int, LIGHTNESS_DRIFT as int).lightness
    }

    /// This colour with its hue replaced.
    pub fn with_hue(self, hue: i32) -> (c: Hsl)
        ensures
            c == self.spec_with_hue(hue),
    {
        Hsl { hue, saturation: self.saturation, lightness: self.lightness }
    }

    /// This colour after a drift by `ds` in saturation and `dl` in lightness.
    pub fn drifted(self, ds: i32, dl: i32) -> (c: Hsl)
        ensures
            c == self.spec_drifted(ds as int, dl as int),
            c.drift_bounded(),
    {
        let s: i64 = clamp(self.saturation as i64 + ds as i64, MIN_SATURATION, MAX_SATURATION);
        let l: i64 = clamp(self.lightness as i64 + dl as i64, MIN_LIGHTNESS, MAX_LIGHTNESS);
        Hsl { hue: self.hue, saturation: s as i32, lightness: l as i32 }
    }
}

/// The walk: a current colour and the random source that moves it.
pub struct ColorGenerator {
    rng: ThreadRng,
    hsl: Hsl,
}

impl View for ColorGenerator {
    type V = Hsl;

    /// The current colour.
    closed spec fn view(&self) -> Hsl {
        self.hsl
    }
}

impl ColorGenerator {
    /// A walk that starts at the given colour, and that colour.
    pub fn new(hue: i32, saturation: i32, lightness: i32, rng: ThreadRng) -> (r: (ColorGenerator, Hsl))
        ensures
            r.0@ == (Hsl { hue, saturation, lightness }),
            r.1 == r.0@,
    {
        let hsl = Hsl { hue, saturation, lightness };
        (ColorGenerator { hsl, rng }, hsl)
    }

    /// The current colour.
    pub fn current(&self) -> (c: Hsl)
        ensures
            c == self@,
    {
        self.hsl
    }

    /// A hue jump: the hue is drawn afresh from the first thirty degrees,
    /// wherever it was before. Returns the new colour.
    pub fn rand_color(&mut self) -> (c: Hsl)
        ensures
            c == final(self)@,
            old(self)@.jumps_to(c),
    {
        let hue: i64 = uniform(&mut self.rng, 0, HUE_JUMP_SPAN - 1);
        self.hsl = self.hsl.with_hue(hue as i32);
        self.hsl
    }

    /// A drift: saturation moves by a draw from `[-0.01, 0.01]` and lightness
    /// by a draw from `[-0.05, 0.05]`, each clamped; the hue stays. Returns the
    /// new colour.
    pub fn rand_color_variation(&mut self) -> (c: Hsl)
        ensures
            c == final(self)@,
            old(self)@.drifts_to(c),
            c.drift_bounded(),
    {
        let ds: i64 = uniform(&mut self.rng, -SATURATION_DRIFT, SATURATION_DRIFT);
        let dl: i64 = uniform(&mut self.rng, -LIGHTNESS_DRIFT, LIGHTNESS_DRIFT);
        self.hsl = self.hsl.drifted(ds as i32, dl as i32);
        self.hsl
    }
}

} // verus!
