//! The phosphor persistence model: a pure function from the previous
//! frame's intensity buffer, the current point list and the tunable
//! parameters to the next intensity buffer. Per pixel, the previous value
//! decays by the dim factor, every lit point within the glow radius
//! contributes a falloff-weighted amount, and the result is clamped to the
//! valid intensity range. Displayed colors blend between the background
//! and the beam color by this intensity.

use vstd::arithmetic::div_mod::{lemma_fundamental_div_mod, lemma_mod_bound};
use vstd::prelude::*;

use crate::color::Color;
use crate::gfx::Point;

verus! {

/// The largest pixel intensity: full beam brightness.
pub const INTENSITY_MAX: u32 = 65535;

/// The denominator of the dim factor: a dim factor of 65536 wipes the
/// previous frame entirely, 0 keeps it forever.
pub const DIM_SCALE: u32 = 65536;

/// The tunable parameters of the persistence stage.
#[derive(Debug, Clone, Copy, PartialEq, Eq, Structural)]
pub struct ElectronParams {
    /// The glow radius around a lit point, in pixels.
    pub radius: u32,
    /// The per-frame decay of the previous image, in units of 1/65536.
    pub dim_factor: u32,
    /// The logical screen width points are quantized against.
    pub screen_w: u32,
    /// The logical screen height points are quantized against.
    pub screen_h: u32,
}

/// The background and beam colors of the display.
#[derive(Debug, Clone, Copy, PartialEq, Eq, Structural)]
pub struct DisplayColors {
    /// The background color.
    pub primary: Color,
    /// The beam color.
    pub secondary: Color,
}

/// A previous intensity after one frame of phosphor decay.
pub open spec fn spec_decay(prev: int, dim: int) -> int {
    prev * (65536 - dim) / 65536
}

/// The glow a single point contributes to a pixel: lit points within the
/// radius contribute the squared-distance falloff `(r² - d²) * 255 / r²`,
/// everything else contributes nothing.
pub open spec fn spec_glow(p: Point, px: int, py: int, radius: int) -> int {
    let dx = px - p.x;
    let dy = py - p.y;
    let d2 = dx * dx + dy * dy;
    let r2 = radius * radius;
    if p.power == 1 && radius > 0 && d2 <= r2 {
        (r2 - d2) * 255 / r2
    } else {
        0
    }
}

/// The glow of a whole point list at a pixel.
pub open spec fn spec_glow_sum(pts: Seq<Point>, px: int, py: int, radius: int) -> int
    decreases pts.len(),
{
    if pts.len() == 0 {
        0
    } else {
        spec_glow_sum(pts.drop_last(), px, py, radius) + spec_glow(pts.last(), px, py, radius)
    }
}

/// An intensity clamped to the valid range.
pub open spec fn spec_clamp(v: int) -> int {
    if v > 65535 {
        65535
    } else {
        v
    }
}

/// The next intensity of one pixel: the decayed previous value plus the
/// glow of every point, clamped.
pub open spec fn spec_next_intensity(
    prev: int,
    pts: Seq<Point>,
    px: int,
    py: int,
    radius: int,
    dim: int,
) -> int {
    spec_clamp(spec_decay(prev, dim) + spec_glow_sum(pts, px, py, radius))
}

/// A decayed intensity never grows and never goes negative.
proof fn lemma_decay_bound(p: int, dim: int)
    requires
        0 <= p,
        0 <= dim <= 65536,
    ensures
        0 <= spec_decay(p, dim) <= p,
{
    let f = 65536 - dim;
    lemma_fundamental_div_mod(p * f, 65536);
    lemma_mod_bound(p * f, 65536);
    assert(0 <= p * f / 65536 <= p) by (nonlinear_arith)
        requires
            0 <= p,
            0 <= f <= 65536,
            p * f == 65536 * (p * f / 65536) + (p * f) % 65536,
            0 <= (p * f) % 65536 < 65536,
    ;
}

/// A single point's glow lies between 0 and the peak.
proof fn lemma_glow_bound(p: Point, px: int, py: int, radius: int)
    ensures
        0 <= spec_glow(p, px, py, radius) <= 255,
{
    let dx = px - p.x;
    let dy = py - p.y;
    let d2 = dx * dx + dy * dy;
    let r2 = radius * radius;
    if p.power == 1 && radius > 0 && d2 <= r2 {
        assert(d2 >= 0 && r2 > 0) by (nonlinear_arith)
            requires
                radius > 0,
                d2 == dx * dx + dy * dy,
                r2 == radius * radius,
        ;
        lemma_fundamental_div_mod((r2 - d2) * 255, r2);
        lemma_mod_bound((r2 - d2) * 255, r2);
        assert(0 <= (r2 - d2) * 255 / r2 <= 255) by (nonlinear_arith)
            requires
                0 <= d2 <= r2,
                r2 > 0,
                (r2 - d2) * 255 == r2 * ((r2 - d2) * 255 / r2) + ((r2 - d2) * 255) % r2,
                0 <= ((r2 - d2) * 255) % r2 < r2,
        ;
    }
}

/// A point list's glow at a pixel is never negative.
proof fn lemma_glow_sum_nonneg(pts: Seq<Point>, px: int, py: int, radius: int)
    ensures
        spec_glow_sum(pts, px, py, radius) >= 0,
    decreases pts.len(),
{
    if pts.len() > 0 {
        lemma_glow_sum_nonneg(pts.drop_last(), px, py, radius);
        lemma_glow_bound(pts.last(), px, py, radius);
    }
}

/// The glow a single point contributes to a pixel.
fn glow_at(p: Point, px: u32, py: u32, radius: u32) -> (g: u32)
    requires
        px <= 65536,
        py <= 65536,
        radius <= 65535,
    ensures
        g == spec_glow(p, px as int, py as int, radius as int),
        g <= 255,
{
    proof {
        lemma_glow_bound(p, px as int, py as int, radius as int);
    }
    if p.power != 1 || radius == 0 {
        return 0;
    }
    let dx: u64 = if px >= p.x as u32 {
        (px - p.x as u32) as u64
    } else {
        (p.x as u32 - px) as u64
    };
    let dy: u64 = if py >= p.y as u32 {
        (py - p.y as u32) as u64
    } else {
        (p.y as u32 - py) as u64
    };
    proof {
        let sdx = px as int - p.x as int;
        let sdy = py as int - p.y as int;
        assert(dx * dx == sdx * sdx && dy * dy == sdy * sdy) by (nonlinear_arith)
            requires
                dx == if sdx >= 0 {
                    sdx
                } else {
                    -sdx
                },
                dy == if sdy >= 0 {
                    sdy
                } else {
                    -sdy
                },
        ;
        assert(dx <= 65536 && dy <= 65536);
        assert(dx * dx + dy * dy <= 65536 * 65536 + 65536 * 65536) by (nonlinear_arith)
            requires
                0 <= dx <= 65536,
                0 <= dy <= 65536,
        ;
    }
    let d2: u64 = dx * dx + dy * dy;
    proof {
        assert(radius * radius <= 65535 * 65535int) by (nonlinear_arith)
            requires
                0 <= radius <= 65535,
        ;
    }
    let r2: u64 = (radius as u64) * (radius as u64);
    if d2 <= r2 {
        proof {
            assert((r2 - d2) * 255 <= 65535 * 65535 * 255int) by (nonlinear_arith)
                requires
                    0 <= d2 <= r2,
                    r2 <= 65535 * 65535int,
            ;
            assert(r2 >= 1) by (nonlinear_arith)
                requires
                    r2 == radius * radius,
                    radius >= 1,
            ;
        }
        let g: u64 = (r2 - d2) * 255 / r2;
        g as u32
    } else {
        0
    }
}

/// Compute the next frame's intensity buffer from the previous one, the
/// current point list and the parameters: per pixel, the decayed previous
/// value plus every point's glow, clamped to the valid range. Pixels are
/// laid out row by row: index `i` is the pixel at `(i % width, i / width)`.
pub fn persistence_step(
    prev: &Vec<u32>,
    points: &Vec<Point>,
    width: usize,
    height: usize,
    params: &ElectronParams,
) -> (r: Vec<u32>)
    requires
        width * height == prev@.len(),
        width <= 65536,
        height <= 65536,
        params.radius <= 65535,
        params.dim_factor <= 65536,
        forall|i: int| 0 <= i < prev@.len() ==> #[trigger] prev@[i] <= 65535,
    ensures
        r@.len() == prev@.len(),
        forall|i: int|
            0 <= i < prev@.len() ==> #[trigger] r@[i] == spec_next_intensity(
                prev@[i] as int,
                points@,
                i % width as int,
                i / width as int,
                params.radius as int,
                params.dim_factor as int,
            ),
        forall|i: int| 0 <= i < r@.len() ==> #[trigger] r@[i] <= 65535,
{
    let mut out: Vec<u32> = Vec::new();
    let n = prev.len();
    proof {
        if n > 0 {
            assert(width > 0) by (nonlinear_arith)
                requires
                    width * height == n,
                    n > 0,
            ;
        }
    }
    let mut i: usize = 0;
    while i < n
        invariant
            i <= n,
            n == prev@.len(),
            width * height == n,
            n > 0 ==> width > 0,
            width <= 65536,
            height <= 65536,
            params.radius <= 65535,
            params.dim_factor <= 65536,
            forall|j: int| 0 <= j < prev@.len() ==> #[trigger] prev@[j] <= 65535,
            out@.len() == i,
            forall|j: int|
                0 <= j < i ==> #[trigger] out@[j] == spec_next_intensity(
                    prev@[j] as int,
                    points@,
                    j % width as int,
                    j / width as int,
                    params.radius as int,
                    params.dim_factor as int,
                ),
            forall|j: int| 0 <= j < i ==> #[trigger] out@[j] <= 65535,
        decreases n - i,
    {
        let px: usize = i % width;
        let py: usize = i / width;
        proof {
            lemma_fundamental_div_mod(i as int, width as int);
            lemma_mod_bound(i as int, width as int);
            let ghost iw = i as int;
            let ghost ww = width as int;
            assert(iw / ww <= 65536) by (nonlinear_arith)
                requires
                    iw == ww * (iw / ww) + iw % ww,
                    0 <= iw % ww < ww,
                    0 < ww,
                    ww <= 65536,
                    iw < ww * (height as int),
                    height as int <= 65536,
            ;
        }
        proof {
            let ghost pv = prev@[i as int] as int;
            let ghost f = 65536 - params.dim_factor as int;
            assert(pv * f <= 65535 * 65536int) by (nonlinear_arith)
                requires
                    0 <= pv <= 65535,
                    0 <= f <= 65536,
            ;
        }
        let base: u64 = (prev[i] as u64) * ((DIM_SCALE - params.dim_factor) as u64) / (
        DIM_SCALE as u64);
        proof {
            lemma_decay_bound(prev@[i as int] as int, params.dim_factor as int);
        }
        let mut acc: u32 = base as u32;
        let ghost px_i = i as int % width as int;
        let ghost py_i = i as int / width as int;
        let ghost decay_i = spec_decay(prev@[i as int] as int, params.dim_factor as int);
        let mut k: usize = 0;
        proof {
            assert(points@.take(0) =~= Seq::<Point>::empty());
        }
        while k < points.len()
            invariant
                k <= points@.len(),
                px == px_i,
                py == py_i,
                px <= 65536,
                py <= 65536,
                params.radius <= 65535,
                0 <= decay_i <= 65535,
                acc == spec_clamp(decay_i + spec_glow_sum(
                    points@.take(k as int),
                    px_i,
                    py_i,
                    params.radius as int,
                )),
            decreases points@.len() - k,
        {
            let g = glow_at(points[k], px as u32, py as u32, params.radius);
            proof {
                assert(points@.take(k + 1).drop_last() =~= points@.take(k as int));
                assert(points@.take(k + 1).last() == points@[k as int]);
                lemma_glow_sum_nonneg(points@.take(k as int), px_i, py_i, params.radius as int);
            }
            if acc > INTENSITY_MAX - g {
                acc = INTENSITY_MAX;
            } else {
                acc = acc + g;
            }
            k = k + 1;
        }
        proof {
            assert(points@.take(points@.len() as int) =~= points@);
        }
        out.push(acc);
        i = i + 1;
    }
    out
}

/// The persistence renderer: owns the intensity framebuffer, the current
/// point list, the display colors and the tunable parameters, and applies
/// one persistence step per frame.
pub struct ElectronRenderer {
    /// The intensity framebuffer, row by row.
    framebuffer: Vec<u32>,
    /// The points of the current frame.
    points: Vec<Point>,
    /// The background and beam colors.
    colors: DisplayColors,
    /// The tunable parameters.
    params: ElectronParams,
    /// The framebuffer width in pixels.
    width: usize,
    /// The framebuffer height in pixels.
    height: usize,
}

impl ElectronRenderer {
    /// The renderer's well-formedness: the framebuffer matches its
    /// dimensions, every intensity is in range, the parameters are in
    /// range, and every point carries a power flag.
    pub closed spec fn wf(&self) -> bool {
        &&& self.framebuffer@.len() == self.width * self.height
        &&& self.width <= 65536
        &&& self.height <= 65536
        &&& self.params.radius <= 65535
        &&& self.params.dim_factor <= 65536
        &&& forall|i: int|
            0 <= i < self.framebuffer@.len() ==> #[trigger] self.framebuffer@[i] <= 65535
        &&& forall|i: int| 0 <= i < self.points@.len() ==> (#[trigger] self.points@[i]).power <= 1
    }

    /// The intensity framebuffer, row by row.
    pub closed spec fn framebuffer_view(&self) -> Seq<u32> {
        self.framebuffer@
    }

    /// The points of the current frame.
    pub closed spec fn points_view(&self) -> Seq<Point> {
        self.points@
    }

    /// The display colors.
    pub closed spec fn colors_view(&self) -> DisplayColors {
        self.colors
    }

    /// The tunable parameters.
    pub closed spec fn params_view(&self) -> ElectronParams {
        self.params
    }

    /// The framebuffer dimensions.
    pub closed spec fn dims(&self) -> (usize, usize) {
        (self.width, self.height)
    }

    /// Create a renderer with a dark framebuffer, no points, and the given
    /// colors and parameters.
    pub fn new(width: usize, height: usize, params: ElectronParams, colors: DisplayColors) -> (r:
        Self)
        requires
            width <= 65536,
            height <= 65536,
            params.radius <= 65535,
            params.dim_factor <= 65536,
            width * height <= usize::MAX,
        ensures
            r.wf(),
            r.dims() == (width, height),
            r.params_view() == params,
            r.colors_view() == colors,
            r.points_view() == Seq::<Point>::empty(),
            r.framebuffer_view().len() == width * height,
            forall|i: int| 0 <= i < r.framebuffer_view().len() ==> r.framebuffer_view()[i] == 0u32,
    {
        let pixels = width * height;
        let mut framebuffer: Vec<u32> = Vec::new();
        let mut i: usize = 0;
        while i < pixels
            invariant
                i <= pixels,
                framebuffer@.len() == i,
                forall|j: int| 0 <= j < i ==> #[trigger] framebuffer@[j] == 0u32,
            decreases pixels - i,
        {
            framebuffer.push(0);
            i = i + 1;
        }
        Self { framebuffer, points: Vec::new(), colors, params, width, height }
    }

    /// Replace the current point list.
    pub fn set_points(&mut self, points: Vec<Point>)
        requires
            old(self).wf(),
            forall|i: int| 0 <= i < points@.len() ==> (#[trigger] points@[i]).power <= 1,
        ensures
            final (self).wf(),
            final (self).points_view() == points@,
            final (self).framebuffer_view() == old(self).framebuffer_view(),
            final (self).colors_view() == old(self).colors_view(),
            final (self).params_view() == old(self).params_view(),
            final (self).dims() == old(self).dims(),
    {
        self.points = points;
    }

    /// Set the display colors.
    pub fn set_display_colors(&mut self, primary: Color, secondary: Color)
        requires
            old(self).wf(),
        ensures
            final (self).wf(),
            final (self).colors_view() == (DisplayColors { primary, secondary }),
            final (self).framebuffer_view() == old(self).framebuffer_view(),
            final (self).points_view() == old(self).points_view(),
            final (self).params_view() == old(self).params_view(),
            final (self).dims() == old(self).dims(),
    {
        self.colors = DisplayColors { primary, secondary };
    }

    /// Update the tunable parameters; no framebuffer storage is touched.
    pub fn update_params(&mut self, params: ElectronParams)
        requires
            old(self).wf(),
            params.radius <= 65535,
            params.dim_factor <= 65536,
        ensures
            final (self).wf(),
            final (self).params_view() == params,
            final (self).framebuffer_view() == old(self).framebuffer_view(),
            final (self).points_view() == old(self).points_view(),
            final (self).colors_view() == old(self).colors_view(),
            final (self).dims() == old(self).dims(),
    {
        self.params = params;
    }

    /// Run one persistence step: decay the previous framebuffer and add
    /// the glow of the current points, per pixel.
    pub fn process(&mut self)
        requires
            old(self).wf(),
        ensures
            final (self).wf(),
            final (self).framebuffer_view().len() == old(self).framebuffer_view().len(),
            forall|i: int|
                0 <= i < old(self).framebuffer_view().len() ==> #[trigger] final (
                    self).framebuffer_view()[i] == spec_next_intensity(
                    old(self).framebuffer_view()[i] as int,
                    old(self).points_view(),
                    i % old(self).dims().0 as int,
                    i / old(self).dims().0 as int,
                    old(self).params_view().radius as int,
                    old(self).params_view().dim_factor as int,
                ),
            final (self).points_view() == old(self).points_view(),
            final (self).colors_view() == old(self).colors_view(),
            final (self).params_view() == old(self).params_view(),
            final (self).dims() == old(self).dims(),
    {
        self.framebuffer = persistence_step(
            &self.framebuffer,
            &self.points,
            self.width,
            self.height,
            &self.params,
        );
    }

    /// Wipe the framebuffer to dark.
    pub fn clear(&mut self)
        requires
            old(self).wf(),
        ensures
            final (self).wf(),
            final (self).framebuffer_view().len() == old(self).framebuffer_view().len(),
            forall|i: int|
                0 <= i < final (self).framebuffer_view().len() ==> final (
                    self).framebuffer_view()[i] == 0u32,
            final (self).points_view() == old(self).points_view(),
            final (self).colors_view() == old(self).colors_view(),
            final (self).params_view() == old(self).params_view(),
            final (self).dims() == old(self).dims(),
    {
        let pixels = self.framebuffer.len();
        let mut framebuffer: Vec<u32> = Vec::new();
        let mut i: usize = 0;
        while i < pixels
            invariant
                i <= pixels,
                framebuffer@.len() == i,
                forall|j: int| 0 <= j < i ==> #[trigger] framebuffer@[j] == 0u32,
            decreases pixels - i,
        {
            framebuffer.push(0);
            i = i + 1;
        }
        self.framebuffer = framebuffer;
    }

    /// The intensity framebuffer, row by row.
    pub fn framebuffer(&self) -> (r: &Vec<u32>)
        ensures
            r@ == self.framebuffer_view(),
    {
        &self.framebuffer
    }

    /// The displayed color of one pixel: the display colors blended by the
    /// pixel's intensity.
    pub fn pixel_color(&self, index: usize) -> (c: Color)
        requires
            self.wf(),
            index < self.framebuffer_view().len(),
        ensures
            c == (Color {
                r: spec_blend_channel(
                    self.colors_view().primary.r as int,
                    self.colors_view().secondary.r as int,
                    self.framebuffer_view()[index as int] as int,
                ) as u8,
                g: spec_blend_channel(
                    self.colors_view().primary.g as int,
                    self.colors_view().secondary.g as int,
                    self.framebuffer_view()[index as int] as int,
                ) as u8,
                b: spec_blend_channel(
                    self.colors_view().primary.b as int,
                    self.colors_view().secondary.b as int,
                    self.framebuffer_view()[index as int] as int,
                ) as u8,
            }),
    {
        blend(&self.colors, self.framebuffer[index])
    }
}

/// One blended color channel: the background channel moved toward the beam
/// channel by `intensity / 65535`.
pub open spec fn spec_blend_channel(p: int, s: int, intensity: int) -> int {
    if s >= p {
        p + (s - p) * intensity / 65535
    } else {
        p - (p - s) * intensity / 65535
    }
}

/// Blend one color channel between background and beam by an intensity.
pub fn blend_channel(p: u8, s: u8, intensity: u32) -> (r: u8)
    requires
        intensity <= 65535,
    ensures
        r == spec_blend_channel(p as int, s as int, intensity as int),
{
    let diff: u32 = if s >= p {
        (s - p) as u32
    } else {
        (p - s) as u32
    };
    proof {
        assert(diff * intensity <= 255 * 65535int) by (nonlinear_arith)
            requires
                0 <= diff <= 255,
                0 <= intensity <= 65535,
        ;
    }
    let moved64: u64 = (diff as u64) * (intensity as u64) / 65535;
    proof {
        lemma_fundamental_div_mod(diff as int * intensity as int, 65535);
        lemma_mod_bound(diff as int * intensity as int, 65535);
        assert(0 <= diff as int * intensity as int / 65535 <= diff as int) by (nonlinear_arith)
            requires
                0 <= diff as int <= 255,
                0 <= intensity as int <= 65535,
                diff as int * intensity as int == 65535 * (diff as int * intensity as int / 65535)
                    + (diff as int * intensity as int) % 65535,
                0 <= (diff as int * intensity as int) % 65535 < 65535,
    ;
    }
    let moved: u32 = moved64 as u32;
    if s >= p {
        p + (moved as u8)
    } else {
        p - (moved as u8)
    }
}

/// Blend a pixel's displayed color between the background and the beam
/// color by its intensity.
pub fn blend(colors: &DisplayColors, intensity: u32) -> (c: Color)
    requires
        intensity <= 65535,
    ensures
        c == (Color {
            r: spec_blend_channel(
                colors.primary.r as int,
                colors.secondary.r as int,
                intensity as int,
            ) as u8,
            g: spec_blend_channel(
                colors.primary.g as int,
                colors.secondary.g as int,
                intensity as int,
            ) as u8,
            b: spec_blend_channel(
                colors.primary.b as int,
                colors.secondary.b as int,
                intensity as int,
            ) as u8,
        }),
{
    Color {
        r: blend_channel(colors.primary.r, colors.secondary.r, intensity),
        g: blend_channel(colors.primary.g, colors.secondary.g, intensity),
        b: blend_channel(colors.primary.b, colors.secondary.b, intensity),
    }
}

} // verus!
