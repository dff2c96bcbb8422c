//! The field-of-view projector: pinhole projection of star directions
//! onto a focal plane and from there onto integer screen coordinates,
//! with visibility culling by position and by brightness.

use vstd::prelude::*;
use crate::fixed::{
    abs, lemma_abs_mul, lemma_round_div_bound, lemma_round_div_close, round_div, round_div_i128,
    round_div_signed, MICRO, MICRO_SQ,
};
use crate::sky::{Brightness, Sky, StarEntry};
use crate::vec3::{Vec3, Vec3i};

verus! {

/// Largest half-field-of-view scale factor a [`FoV`] may carry:
/// a million units on the millionths scale.
pub const FOV_SCALE_MAX: i64 = 1_000_000_000_000;

/// Numerator of the brightness-visibility threshold `0.01 ^ 0.8`,
/// written to eighteen decimal places over [`VISIBILITY_DEN`].
pub const VISIBILITY_NUM: i64 = 25_118_864_315_095_801;

/// Denominator of the brightness-visibility threshold.
pub const VISIBILITY_DEN: i64 = 1_000_000_000_000_000_000;

/// A focal-plane point: the 2D projection of a direction, in millionths.
#[derive(Clone, Copy, Debug, PartialEq, Eq)]
pub struct Fpp {
    pub x: i64,
    pub y: i64,
}

/// What one star becomes on screen: a drawn point with an 8-bit
/// intensity, or nothing at all.
#[derive(Clone, Debug, PartialEq)]
pub enum ScreenStar {
    Visible { x: u8, y: u8, brightness: u8, name: String },
    Hidden,
}

/// One focal-plane coordinate: `x / z / h` on the millionths scale,
/// rounded once.
pub open spec fn focal_coord(x: int, z: int, h: int) -> int
    recommends
        z != 0,
        h > 0,
{
    round_div_signed(x * (MICRO_SQ as int), z * h)
}

/// One screen coordinate: the focal coordinate mapped from `[-1, 1]`
/// onto `[0, m]` and rounded to the nearest integer, computed in one
/// exact step as `m * (x * MICRO + z * h) / (2 * z * h)`.
pub open spec fn screen_coord(x: int, z: int, h: int, m: int) -> int
    recommends
        z > 0,
        h > 0,
{
    round_div((x * (MICRO as int) + z * h) * m, 2 * (z * h))
}

/// Where a direction lands on a `mx` by `my` viewport: `None` for a
/// star behind the observer (`z <= 0`) or outside the viewport.
pub open spec fn to_screen_spec(v: Vec3i, hx: int, hy: int, mx: int, my: int) -> Option<(int, int)> {
    if v.z <= 0 {
        None
    } else {
        let sx = screen_coord(v.x, v.z, hx, mx);
        let sy = screen_coord(v.y, v.z, hy, my);
        if 0 <= sx < mx && 0 <= sy < my {
            Some((sx, sy))
        } else {
            None
        }
    }
}

/// The zoom-dependent visibility rule: brightness over the horizontal
/// half-field-of-view must exceed `0.01 ^ 0.8`.
pub open spec fn visible_brightness(b: int, hx: int) -> bool {
    b * (VISIBILITY_DEN as int) > (VISIBILITY_NUM as int) * hx
}

/// Brightness rescaled to an 8-bit display intensity:
/// `128 + floor(b * 127)` on the unit scale, saturated at 255.
pub open spec fn display_intensity(b: int) -> int {
    let v = 128 + b * 127 / (MICRO as int);
    if v > 255 {
        255
    } else {
        v
    }
}

/// What one star entry becomes on screen under the given projector.
pub open spec fn screen_star_spec(hx: int, hy: int, e: StarEntry, mx: int, my: int) -> ScreenStar {
    match to_screen_spec(e.pos@, hx, hy, mx, my) {
        Some(p) => if visible_brightness(e.brightness.micros as int, hx) {
            ScreenStar::Visible {
                x: p.0 as u8,
                y: p.1 as u8,
                brightness: display_intensity(e.brightness.micros as int) as u8,
                name: e.name,
            }
        } else {
            ScreenStar::Hidden
        },
        None => ScreenStar::Hidden,
    }
}

/// A positive product from positive factors.
proof fn lemma_mul_pos(a: int, b: int)
    requires
        a > 0,
        b > 0,
    ensures
        a * b > 0,
{
    assert(a * b > 0) by (nonlinear_arith)
        requires
            a > 0,
            b > 0,
    ;
}

/// A nonzero product from nonzero factors.
proof fn lemma_mul_nonzero(a: int, b: int)
    requires
        a != 0,
        b != 0,
    ensures
        a * b != 0,
{
    assert(a * b != 0) by (nonlinear_arith)
        requires
            a != 0,
            b != 0,
    ;
}

/// The field of view: two positive half-angle-derived scale factors in
/// millionths, the divisors of the pinhole projection.  Smaller values
/// mean a narrower view, that is, more zoom.
#[derive(Clone, Debug)]
pub struct FoV {
    pub half_fov_x: i64,
    pub half_fov_y: i64,
}

impl FoV {
    /// Both scale factors positive and within range.
    pub open spec fn wf(&self) -> bool {
        0 < self.half_fov_x <= FOV_SCALE_MAX && 0 < self.half_fov_y <= FOV_SCALE_MAX
    }

    pub fn new(half_fov_x: i64, half_fov_y: i64) -> (r: FoV)
        requires
            0 < half_fov_x <= FOV_SCALE_MAX,
            0 < half_fov_y <= FOV_SCALE_MAX,
        ensures
            r.half_fov_x == half_fov_x,
            r.half_fov_y == half_fov_y,
            r.wf(),
    {
        FoV { half_fov_x, half_fov_y }
    }

    /// Multiply both scale factors by `scale` (in millionths): above one
    /// unit it widens the view, below one unit it zooms in.
    pub fn rescale(&self, scale: i64) -> (r: FoV)
        requires
            self.wf(),
            scale > 0,
            self.half_fov_x * scale >= MICRO,
            self.half_fov_y * scale >= MICRO,
            self.half_fov_x * scale <= FOV_SCALE_MAX * MICRO,
            self.half_fov_y * scale <= FOV_SCALE_MAX * MICRO,
        ensures
            r.half_fov_x == round_div(self.half_fov_x * scale, MICRO as int),
            r.half_fov_y == round_div(self.half_fov_y * scale, MICRO as int),
            r.wf(),
    {
        let px: i128 = (self.half_fov_x as i128) * (scale as i128);
        let py: i128 = (self.half_fov_y as i128) * (scale as i128);
        let nx = round_div_i128(px, MICRO as i128);
        let ny = round_div_i128(py, MICRO as i128);
        proof {
            lemma_round_div_bound(px as int, MICRO as int, FOV_SCALE_MAX as int);
            lemma_round_div_bound(py as int, MICRO as int, FOV_SCALE_MAX as int);
            lemma_round_div_close(px as int, MICRO as int);
            lemma_round_div_close(py as int, MICRO as int);
        }
        FoV { half_fov_x: nx as i64, half_fov_y: ny as i64 }
    }

    /// The zoom readout: the horizontal scale factor itself.
    pub fn zoom(&self) -> (r: i64)
        ensures
            r == self.half_fov_x,
    {
        self.half_fov_x
    }

    /// Whether a star of this brightness clears the zoom-dependent
    /// visibility threshold.
    pub fn can_be_seen(&self, b: &Brightness) -> (r: bool)
        requires
            self.wf(),
        ensures
            r == visible_brightness(b.micros as int, self.half_fov_x as int),
    {
        proof {
            lemma_abs_mul(
                VISIBILITY_NUM as int,
                self.half_fov_x as int,
                VISIBILITY_NUM as int,
                FOV_SCALE_MAX as int,
            );
        }
        (b.micros as i128) * (VISIBILITY_DEN as i128) > (VISIBILITY_NUM as i128) * (self.half_fov_x
            as i128)
    }

    /// The focal-plane point of a direction: each axis divided by the
    /// forward coordinate and by the matching scale factor.  A star in
    /// the observer's plane (`z == 0`) has no projection and is ruled
    /// out; the result must fit the fixed-point range.
    pub fn project(&self, star: &Vec3) -> (r: Fpp)
        requires
            self.wf(),
            star@.z != 0,
            abs(focal_coord(star@.x, star@.z, self.half_fov_x as int)) <= i64::MAX,
            abs(focal_coord(star@.y, star@.z, self.half_fov_y as int)) <= i64::MAX,
        ensures
            r.x == focal_coord(star@.x, star@.z, self.half_fov_x as int),
            r.y == focal_coord(star@.y, star@.z, self.half_fov_y as int),
    {
        let fx = Self::project_axis(star.x, star.z, self.half_fov_x);
        let fy = Self::project_axis(star.y, star.z, self.half_fov_y);
        Fpp { x: fx, y: fy }
    }

    /// One axis of [`FoV::project`].
    fn project_axis(x: i64, z: i64, h: i64) -> (r: i64)
        requires
            z != 0,
            0 < h <= FOV_SCALE_MAX,
            abs(focal_coord(x as int, z as int, h as int)) <= i64::MAX,
        ensures
            r == focal_coord(x as int, z as int, h as int),
    {
        proof {
            lemma_abs_mul(x as int, MICRO_SQ as int, 0x8000_0000_0000_0000, MICRO_SQ as int);
            lemma_abs_mul(z as int, h as int, 0x8000_0000_0000_0000, FOV_SCALE_MAX as int);
        }
        let num: i128 = (x as i128) * (MICRO_SQ as i128);
        let den: i128 = (z as i128) * (h as i128);
        let q: i128 = if den > 0 {
            round_div_i128(num, den)
        } else {
            proof {
                lemma_mul_nonzero(z as int, h as int);
            }
            round_div_i128(-num, -den)
        };
        q as i64
    }

    /// The focal-plane points of a whole sky, order, brightness and
    /// names preserved.
    pub fn project_sky(&self, sky: &Sky) -> (r: Vec<(Fpp, Brightness, String)>)
        requires
            self.wf(),
            forall|i: int|
                0 <= i < sky.stars@.len() ==> {
                    &&& (#[trigger] sky.stars@[i]).pos@.z != 0
                    &&& abs(
                        focal_coord(sky.stars@[i].pos@.x, sky.stars@[i].pos@.z, self.half_fov_x as int),
                    ) <= i64::MAX
                    &&& abs(
                        focal_coord(sky.stars@[i].pos@.y, sky.stars@[i].pos@.z, self.half_fov_y as int),
                    ) <= i64::MAX
                },
        ensures
            r@.len() == sky.stars@.len(),
            forall|i: int|
                0 <= i < sky.stars@.len() ==> {
                    &&& (#[trigger] r@[i]).0.x == focal_coord(
                        sky.stars@[i].pos@.x,
                        sky.stars@[i].pos@.z,
                        self.half_fov_x as int,
                    )
                    &&& r@[i].0.y == focal_coord(
                        sky.stars@[i].pos@.y,
                        sky.stars@[i].pos@.z,
                        self.half_fov_y as int,
                    )
                    &&& r@[i].1 == sky.stars@[i].brightness
                    &&& r@[i].2 == sky.stars@[i].name
                },
    {
        let n = sky.stars.len();
        let mut out: Vec<(Fpp, Brightness, String)> = Vec::new();
        let mut i: usize = 0;
        while i < n
            invariant
                n == sky.stars@.len(),
                i <= n,
                out@.len() == i as int,
                self.wf(),
                forall|k: int|
                    0 <= k < sky.stars@.len() ==> {
                        &&& (#[trigger] sky.stars@[k]).pos@.z != 0
                        &&& abs(
                            focal_coord(
                                sky.stars@[k].pos@.x,
                                sky.stars@[k].pos@.z,
                                self.half_fov_x as int,
                            ),
                        ) <= i64::MAX
                        &&& abs(
                            focal_coord(
                                sky.stars@[k].pos@.y,
                                sky.stars@[k].pos@.z,
                                self.half_fov_y as int,
                            ),
                        ) <= i64::MAX
                    },
                forall|k: int|
                    0 <= k < i as int ==> {
                        &&& (#[trigger] out@[k]).0.x == focal_coord(
                            sky.stars@[k].pos@.x,
                            sky.stars@[k].pos@.z,
                            self.half_fov_x as int,
                        )
                        &&& out@[k].0.y == focal_coord(
                            sky.stars@[k].pos@.y,
                            sky.stars@[k].pos@.z,
                            self.half_fov_y as int,
                        )
                        &&& out@[k].1 == sky.stars@[k].brightness
                        &&& out@[k].2 == sky.stars@[k].name
                    },
            decreases n - i,
        {
            let e = &sky.stars[i];
            let fpp = self.project(&e.pos);
            out.push((fpp, e.brightness, e.name.clone()));
            i = i + 1;
        }
        out
    }

    /// Where a direction lands on the viewport, or `None` for a star
    /// behind the observer or off screen.
    pub fn to_screen(&self, star: &Vec3, maxx: u8, maxy: u8) -> (r: Option<(u8, u8)>)
        requires
            self.wf(),
        ensures
            ({
                let s = to_screen_spec(
                    star@,
                    self.half_fov_x as int,
                    self.half_fov_y as int,
                    maxx as int,
                    maxy as int,
                );
                match r {
                    Some(p) => s == Some((p.0 as int, p.1 as int)),
                    None => s == None::<(int, int)>,
                }
            }),
    {
        if star.z <= 0 {
            return None;
        }
        let sx = Self::screen_axis(star.x, star.z, self.half_fov_x, maxx);
        let sy = Self::screen_axis(star.y, star.z, self.half_fov_y, maxy);
        if 0 <= sx && sx < maxx as i128 && 0 <= sy && sy < maxy as i128 {
            Some((sx as u8, sy as u8))
        } else {
            None
        }
    }

    /// One axis of [`FoV::to_screen`], before the viewport test.
    fn screen_axis(x: i64, z: i64, h: i64, m: u8) -> (r: i128)
        requires
            z > 0,
            0 < h <= FOV_SCALE_MAX,
        ensures
            r == screen_coord(x as int, z as int, h as int, m as int),
    {
        proof {
            lemma_abs_mul(x as int, MICRO as int, 0x8000_0000_0000_0000, MICRO as int);
            lemma_abs_mul(z as int, h as int, 0x8000_0000_0000_0000, FOV_SCALE_MAX as int);
            lemma_mul_pos(z as int, h as int);
            lemma_abs_mul(
                (x as int) * (MICRO as int) + (z as int) * (h as int),
                m as int,
                0x8000_0000_0000_0000 * (MICRO as int) + 0x8000_0000_0000_0000 * (
                FOV_SCALE_MAX as int),
                255,
            );
        }
        let t: i128 = (z as i128) * (h as i128);
        let num: i128 = ((x as i128) * (MICRO as i128) + t) * (m as i128);
        round_div_i128(num, 2 * t)
    }

    /// The whole pipeline for one frame: each star of the sky becomes a
    /// drawn point with an 8-bit intensity, or nothing if it is behind
    /// the observer, off the viewport, or too faint for the current
    /// zoom.
    pub fn project_sky_to_screen(&self, sky: Sky, maxx: u8, maxy: u8) -> (r: Vec<ScreenStar>)
        requires
            self.wf(),
        ensures
            r@.len() == sky.stars@.len(),
            forall|i: int|
                0 <= i < sky.stars@.len() ==> #[trigger] r@[i] == screen_star_spec(
                    self.half_fov_x as int,
                    self.half_fov_y as int,
                    sky.stars@[i],
                    maxx as int,
                    maxy as int,
                ),
    {
        let n = sky.stars.len();
        let mut out: Vec<ScreenStar> = Vec::new();
        let mut i: usize = 0;
        while i < n
            invariant
                n == sky.stars@.len(),
                i <= n,
                out@.len() == i as int,
                self.wf(),
                forall|k: int|
                    0 <= k < i as int ==> #[trigger] out@[k] == screen_star_spec(
                        self.half_fov_x as int,
                        self.half_fov_y as int,
                        sky.stars@[k],
                        maxx as int,
                        maxy as int,
                    ),
            decreases n - i,
        {
            let e = &sky.stars[i];
            let sp = self.to_screen(&e.pos, maxx, maxy);
            let vis = self.can_be_seen(&e.brightness);
            match sp {
                Some(p) => {
                    if vis {
                        let level = display_intensity_of(&e.brightness);
                        out.push(
                            ScreenStar::Visible {
                                x: p.0,
                                y: p.1,
                                brightness: level,
                                name: e.name.clone(),
                            },
                        );
                    } else {
                        out.push(ScreenStar::Hidden);
                    }
                },
                None => {
                    out.push(ScreenStar::Hidden);
                },
            }
            i = i + 1;
        }
        out
    }
}

/// Brightness rescaled to the 8-bit display intensity.
pub fn display_intensity_of(b: &Brightness) -> (r: u8)
    ensures
        r as int == display_intensity(b.micros as int),
{
    let t: u64 = (b.micros as u64) * 127 / 1_000_000;
    let v: u64 = 128 + t;
    if v > 255 {
        255
    } else {
        v as u8
    }
}

} // verus!
