use vstd::prelude::*;

use crate::clock::get_us;

verus! {

/// How long a picture is the main subject, in microseconds.
pub const SHOW_DURATION: u64 = 3_000_000;

/// How long a new picture takes to fade in over the old one, in microseconds.
pub const TRANSITION_DURATION: u64 = 300_000;

/// Whether a picture slowly grows or slowly shrinks while it is shown.
#[derive(PartialEq, Eq, Structural, Clone, Copy, Debug)]
pub enum ZoomDirection {
    In,
    Out,
}

impl ZoomDirection {
    pub open spec fn negated(self) -> ZoomDirection {
        match self {
            ZoomDirection::In => ZoomDirection::Out,
            ZoomDirection::Out => ZoomDirection::In,
        }
    }

    /// The other direction.
    pub fn not(self) -> (r: ZoomDirection)
        ensures
            r == self.negated(),
    {
        match self {
            ZoomDirection::In => ZoomDirection::Out,
            ZoomDirection::Out => ZoomDirection::In,
        }
    }
}

/// An exact fraction `num / den`, handed to the renderer as it stands.
#[derive(PartialEq, Eq, Structural, Clone, Copy, Debug)]
pub struct Ratio {
    pub num: u128,
    pub den: u128,
}

/// Time since `start`, in microseconds; a clock that went back counts as 0.
pub open spec fn age(start: u64, now: u64) -> nat {
    if now >= start {
        (now - start) as nat
    } else {
        0
    }
}

/// Numerator of the fade-in, over `TRANSITION_DURATION`.
pub open spec fn alpha_num(start: u64, now: u64) -> nat {
    if age(start, now) < TRANSITION_DURATION {
        age(start, now)
    } else {
        TRANSITION_DURATION as nat
    }
}

/// What is left of the showing time, never below 0.
pub open spec fn time_left(start: u64, now: u64) -> nat {
    if age(start, now) < SHOW_DURATION {
        (SHOW_DURATION - age(start, now)) as nat
    } else {
        0
    }
}

/// The zoom factor as a fraction: growing linearly by a tenth per showing
/// time when zooming in, easing quadratically down to 1 when zooming out.
pub open spec fn zoom_spec(dir: ZoomDirection, start: u64, now: u64) -> (int, int) {
    match dir {
        ZoomDirection::In => (10 * SHOW_DURATION + age(start, now), 10 * SHOW_DURATION),
        ZoomDirection::Out => (
            10 * SHOW_DURATION * SHOW_DURATION + time_left(start, now) * time_left(start, now),
            10 * SHOW_DURATION * SHOW_DURATION,
        ),
    }
}

fn age_at(start: u64, now: u64) -> (r: u64)
    ensures
        r == age(start, now),
{
    if now >= start {
        now - start
    } else {
        0
    }
}

/// When a picture started to show, and which way it zooms.
#[derive(PartialEq, Eq, Structural, Clone, Copy, Debug)]
pub struct PictureState {
    pub start: u64,
    pub zoom_direction: ZoomDirection,
}

impl PictureState {
    /// A picture that starts to show now.
    pub fn new(zoom_direction: ZoomDirection) -> (r: PictureState)
        ensures
            r.zoom_direction == zoom_direction,
    {
        PictureState { start: get_us(), zoom_direction }
    }

    /// Whether the picture has fully faded in at `now`.
    pub fn has_transitioned(&self, now: u64) -> (r: bool)
        ensures
            r == (age(self.start, now) > TRANSITION_DURATION),
    {
        age_at(self.start, now) > TRANSITION_DURATION
    }

    /// The share of the showing time that has passed; above 1 once the
    /// picture outstays it.
    pub fn get_overflowing_t(&self, now: u64) -> (r: Ratio)
        ensures
            r.num == age(self.start, now),
            r.den == SHOW_DURATION,
    {
        Ratio { num: age_at(self.start, now) as u128, den: SHOW_DURATION as u128 }
    }

    /// The opacity: rises linearly from 0 to 1 over the transition, then
    /// stays at 1.
    pub fn get_alpha(&self, now: u64) -> (r: Ratio)
        ensures
            r.num == alpha_num(self.start, now),
            r.den == TRANSITION_DURATION,
    {
        let a = age_at(self.start, now);
        let num = if a < TRANSITION_DURATION {
            a
        } else {
            TRANSITION_DURATION
        };
        Ratio { num: num as u128, den: TRANSITION_DURATION as u128 }
    }

    /// The zoom factor at `now`, at least 1.
    pub fn get_zoom(&self, now: u64) -> (r: Ratio)
        ensures
            (r.num as int, r.den as int) == zoom_spec(self.zoom_direction, self.start, now),
    {
        let a = age_at(self.start, now);
        match self.zoom_direction {
            ZoomDirection::In => {
                Ratio {
                    num: 10 * SHOW_DURATION as u128 + a as u128,
                    den: 10 * SHOW_DURATION as u128,
                }
            },
            ZoomDirection::Out => {
                let left: u128 = if a < SHOW_DURATION {
                    (SHOW_DURATION - a) as u128
                } else {
                    0
                };
                assert(left * left <= 9_000_000_000_000) by (nonlinear_arith)
                    requires
                        left <= 3_000_000,
                ;
                Ratio {
                    num: 90_000_000_000_000 + left * left,
                    den: 90_000_000_000_000,
                }
            },
        }
    }
}

/// How much to stretch each axis so that an image covers a viewport without
/// distortion: the axis along which the image is too short is stretched by
/// the ratio of the two aspect ratios, the other is left as it is. Returns
/// the scale of the x axis, then of the y axis.
pub fn aspect_scale(view_width: u32, view_height: u32, image_width: u32, image_height: u32) -> (r: (Ratio, Ratio))
    ensures
        view_width * image_height > image_width * view_height ==> r == (
            Ratio { num: 1, den: 1 },
            Ratio {
                num: (view_width * image_height) as u128,
                den: (view_height * image_width) as u128,
            },
        ),
        view_width * image_height <= image_width * view_height ==> r == (
            Ratio {
                num: (image_width * view_height) as u128,
                den: (image_height * view_width) as u128,
            },
            Ratio { num: 1, den: 1 },
        ),
{
    let wide = product(view_width, image_height);
    let tall = product(image_width, view_height);
    if wide > tall {
        let den = product(view_height, image_width);
        (Ratio { num: 1, den: 1 }, Ratio { num: wide as u128, den: den as u128 })
    } else {
        let den = product(image_height, view_width);
        (Ratio { num: tall as u128, den: den as u128 }, Ratio { num: 1, den: 1 })
    }
}

fn product(a: u32, b: u32) -> (r: u64)
    ensures
        r == a * b,
{
    assert(a * b <= u32::MAX * u32::MAX) by (nonlinear_arith)
        requires
            a <= u32::MAX,
            b <= u32::MAX,
    ;
    a as u64 * b as u64
}

} // verus!
