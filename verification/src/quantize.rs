//! The point quantizer: packs a point's (x, y, power) into a single 32-bit
//! word for transfer to the parallel compute stage. Coordinates are
//! normalized against the logical screen size, clamped, and scaled to
//! 14-bit fixed point; the word is `(x14 << 18) | (y14 << 4) | power`.
//! Quantization is lossy by design: 14 bits of spatial resolution.

use vstd::arithmetic::div_mod::{lemma_fundamental_div_mod, lemma_mod_bound};
use vstd::prelude::*;

use crate::gfx::Point;

verus! {

/// The hard cap on the per-frame point-lookup structure.
pub const MAX_LOOKUP_POINTS: usize = 8192;

/// A coordinate scaled to 14-bit fixed point against a screen extent:
/// clamped to the extent, then mapped onto 0..=16383.
pub open spec fn q14_of(v: int, extent: int) -> int
    recommends
        extent > 0,
{
    if v >= extent {
        16383
    } else {
        v * 16383 / extent
    }
}

/// The packed word of a quantized point.
pub open spec fn spec_pack_point(x: int, y: int, power: int, w: int, h: int) -> int
    recommends
        w > 0,
        h > 0,
        0 <= power <= 1,
{
    q14_of(x, w) * 0x40000 + q14_of(y, h) * 0x10 + power
}

/// A 14-bit coordinate scaled back against a screen extent.
pub open spec fn unq14_of(c: int, extent: int) -> int {
    c * extent / 16383
}

/// Pack (x, y, power) into a single `u32`: x and y normalized against the
/// screen size, clamped, scaled to 14 bits; x in bits 31..18, y in bits
/// 17..4, power in bit 0.
pub fn pack_point(x: u16, y: u16, power: u32, screen_w: u32, screen_h: u32) -> (r: u32)
    requires
        screen_w > 0,
        screen_h > 0,
        power <= 1,
    ensures
        r == spec_pack_point(x as int, y as int, power as int, screen_w as int, screen_h as int),
{
    let x14: u32 = q14(x, screen_w);
    let y14: u32 = q14(y, screen_h);
    x14 * 0x40000 + y14 * 0x10 + power
}

/// Scale one coordinate to 14-bit fixed point against a screen extent.
fn q14(v: u16, extent: u32) -> (r: u32)
    requires
        extent > 0,
    ensures
        r == q14_of(v as int, extent as int),
        r <= 16383,
{
    if v as u32 >= extent {
        16383
    } else {
        let wide: u64 = (v as u64) * 16383 / (extent as u64);
        proof {
            lemma_fundamental_div_mod((v as int) * 16383, extent as int);
            lemma_mod_bound((v as int) * 16383, extent as int);
            assert((v as int) * 16383 / (extent as int) < 16383) by (nonlinear_arith)
                requires
                    0 <= (v as int) < (extent as int),
                    (v as int) * 16383 == (extent as int) * ((v as int) * 16383 / (extent as int))
                        + ((v as int) * 16383) % (extent as int),
                    0 <= ((v as int) * 16383) % (extent as int) < (extent as int),
            ;
            assert((v as int) * 16383 / (extent as int) >= 0) by (nonlinear_arith)
                requires
                    0 <= (v as int) < (extent as int),
                    (v as int) * 16383 == (extent as int) * ((v as int) * 16383 / (extent as int))
                        + ((v as int) * 16383) % (extent as int),
                    0 <= ((v as int) * 16383) % (extent as int) < (extent as int),
            ;
        }
        wide as u32
    }
}

/// Unpack a quantized word back into (x, y, power), rescaling by the same
/// screen size. The inverse of [`pack_point`] up to the 14-bit
/// quantization error.
pub fn unpack_point(data: u32, screen_w: u32, screen_h: u32) -> (r: (u32, u32, u32))
    ensures
        r.0 == unq14_of((data as int) / 0x40000 % 0x4000, screen_w as int),
        r.1 == unq14_of((data as int) / 0x10 % 0x4000, screen_h as int),
        r.2 == (data as int) % 2,
{
    let x14: u32 = (data / 0x40000) % 0x4000;
    let y14: u32 = (data / 0x10) % 0x4000;
    let power: u32 = data % 2;
    proof {
        assert(x14 * screen_w <= 0x4000 * 0xFFFFFFFFint && y14 * screen_h <= 0x4000
            * 0xFFFFFFFFint) by (nonlinear_arith)
            requires
                0 <= x14 < 0x4000,
                0 <= y14 < 0x4000,
                0 <= screen_w <= 0xFFFFFFFFint,
                0 <= screen_h <= 0xFFFFFFFFint,
        ;
    }
    let x: u64 = (x14 as u64) * (screen_w as u64) / 16383;
    let y: u64 = (y14 as u64) * (screen_h as u64) / 16383;
    proof {
        let ghost d = data as int;
        lemma_unq14_fits(d / 0x40000 % 0x4000, screen_w as int);
        lemma_unq14_fits(d / 0x10 % 0x4000, screen_h as int);
    }
    (x as u32, y as u32, power)
}

/// A rescaled 14-bit coordinate stays within the `u32` range.
proof fn lemma_unq14_fits(c: int, extent: int)
    requires
        0 <= c < 0x4000,
        0 <= extent <= u32::MAX,
    ensures
        0 <= unq14_of(c, extent) <= extent,
{
    lemma_fundamental_div_mod(c * extent, 16383);
    lemma_mod_bound(c * extent, 16383);
    assert(0 <= c * extent / 16383 <= extent) by (nonlinear_arith)
        requires
            0 <= c < 0x4000,
            extent >= 0,
            c * extent == 16383 * (c * extent / 16383) + (c * extent) % 16383,
            0 <= (c * extent) % 16383 < 16383,
    ;
}

/// Packing then unpacking a coordinate within the screen extent recovers it
/// within the 14-bit quantization error: the recovered value never
/// overshoots, and it falls short by less than one quantization step
/// (`extent / 16383`) plus one.
pub proof fn lemma_quantize_round_trip(v: int, extent: int)
    requires
        0 <= v <= extent,
        0 < extent,
    ensures
        unq14_of(q14_of(v, extent), extent) <= v,
        16383 * (v - unq14_of(q14_of(v, extent), extent)) < extent + 16383,
{
    let a = q14_of(v, extent);
    let b = unq14_of(a, extent);
    if v == extent {
        assert(a == 16383);
        lemma_fundamental_div_mod(16383 * extent, 16383);
        lemma_mod_bound(16383 * extent, 16383);
        assert(b == extent) by (nonlinear_arith)
            requires
                b == 16383 * extent / 16383,
                16383 * extent == 16383 * (16383 * extent / 16383) + (16383 * extent) % 16383,
                0 <= (16383 * extent) % 16383 < 16383,
        ;
    } else {
        lemma_fundamental_div_mod(v * 16383, extent);
        lemma_mod_bound(v * 16383, extent);
        let r1 = (v * 16383) % extent;
        lemma_fundamental_div_mod(a * extent, 16383);
        lemma_mod_bound(a * extent, 16383);
        let r2 = (a * extent) % 16383;
        assert(16383 * (v - b) == r1 + r2) by (nonlinear_arith)
            requires
                v * 16383 == extent * a + r1,
                a * extent == 16383 * b + r2,
        ;
        assert(v - b >= 0 && 16383 * (v - b) < extent + 16383) by (nonlinear_arith)
            requires
                16383 * (v - b) == r1 + r2,
                0 <= r1 < extent,
                0 <= r2 < 16383,
        ;
    }
}

/// A quantized coordinate stays within 14 bits.
proof fn lemma_q14_bounds(v: int, extent: int)
    requires
        0 <= v,
        0 < extent,
    ensures
        0 <= q14_of(v, extent) <= 16383,
{
    if v < extent {
        lemma_fundamental_div_mod(v * 16383, extent);
        lemma_mod_bound(v * 16383, extent);
        assert(0 <= v * 16383 / extent < 16383) by (nonlinear_arith)
            requires
                0 <= v < extent,
                v * 16383 == extent * (v * 16383 / extent) + (v * 16383) % extent,
                0 <= (v * 16383) % extent < extent,
        ;
    }
}

/// The packed word gives each field back: x from bits 31..18, y from bits
/// 17..4, power from bit 0.
proof fn lemma_pack_fields(a: u32, b: u32, p: u32)
    requires
        a <= 16383,
        b <= 16383,
        p <= 1,
    ensures
        (a * 0x40000 + b * 0x10 + p) / 0x40000 % 0x4000 == a,
        (a * 0x40000 + b * 0x10 + p) / 0x10 % 0x4000 == b,
        (a * 0x40000 + b * 0x10 + p) % 2 == p,
{
    assert((a * 0x40000 + b * 0x10 + p) / 0x40000 % 0x4000 == a && (a * 0x40000 + b * 0x10 + p)
        / 0x10 % 0x4000 == b && (a * 0x40000 + b * 0x10 + p) % 2 == p) by (bit_vector)
        requires
            a <= 16383,
            b <= 16383,
            p <= 1,
    ;
}

/// Packing then unpacking any (x, y) within the screen extents recovers
/// the power flag exactly and each coordinate within the 14-bit
/// quantization error bound: the recovered value never overshoots and
/// falls short by less than one quantization step (`extent / 16383`) plus
/// one.
pub proof fn lemma_pack_point_round_trip(x: u16, y: u16, power: u32, w: u32, h: u32)
    requires
        x as int <= w as int,
        y as int <= h as int,
        w > 0,
        h > 0,
        power <= 1,
    ensures
        ({
            let packed = spec_pack_point(x as int, y as int, power as int, w as int, h as int);
            let ux = unq14_of(packed / 0x40000 % 0x4000, w as int);
            let uy = unq14_of(packed / 0x10 % 0x4000, h as int);
            &&& packed % 2 == power
            &&& 0 <= ux <= x
            &&& 0 <= uy <= y
            &&& 16383 * (x - ux) < w + 16383
            &&& 16383 * (y - uy) < h + 16383
        }),
{
    let a = q14_of(x as int, w as int);
    let b = q14_of(y as int, h as int);
    lemma_q14_bounds(x as int, w as int);
    lemma_q14_bounds(y as int, h as int);
    lemma_pack_fields(a as u32, b as u32, power);
    lemma_quantize_round_trip(x as int, w as int);
    lemma_quantize_round_trip(y as int, h as int);
    lemma_unq14_fits(a, w as int);
    lemma_unq14_fits(b, h as int);
}

/// What quantizing a frame's point list yields: each point packed in order,
/// truncated to the hard cap, with a single blank entry standing in for an
/// empty list so the lookup structure is never empty.
pub open spec fn spec_quantize_points(pts: Seq<Point>, w: int, h: int) -> Seq<u32>
    recommends
        w > 0,
        h > 0,
{
    if pts.len() == 0 {
        seq![0u32]
    } else {
        Seq::new(
            if pts.len() > 8192 {
                8192nat
            } else {
                pts.len()
            },
            |i: int| spec_pack_point(pts[i].x as int, pts[i].y as int, pts[i].power as int, w, h) as u32,
        )
    }
}

/// Quantize a frame's point list for the point-lookup structure: each point
/// packed in order. A point count beyond the hard cap truncates to exactly
/// [`MAX_LOOKUP_POINTS`] entries; an empty list yields one blank entry.
pub fn quantize_points(points: &Vec<Point>, screen_w: u32, screen_h: u32) -> (r: Vec<u32>)
    requires
        screen_w > 0,
        screen_h > 0,
        forall|i: int| 0 <= i < points@.len() ==> (#[trigger] points@[i]).power <= 1,
    ensures
        r@ == spec_quantize_points(points@, screen_w as int, screen_h as int),
        r@.len() == if points@.len() == 0 {
            1int
        } else if points@.len() > 8192 {
            8192int
        } else {
            points@.len() as int
        },
{
    let mut data: Vec<u32> = Vec::new();
    let count: usize = if points.len() > MAX_LOOKUP_POINTS {
        MAX_LOOKUP_POINTS
    } else {
        points.len()
    };
    let mut i: usize = 0;
    while i < count
        invariant
            i <= count,
            count == if points@.len() > 8192 {
                8192int
            } else {
                points@.len() as int
            },
            screen_w > 0,
            screen_h > 0,
            forall|j: int| 0 <= j < points@.len() ==> (#[trigger] points@[j]).power <= 1,
            data@.len() == i,
            forall|j: int|
                0 <= j < i ==> data@[j] == spec_pack_point(
                    points@[j].x as int,
                    points@[j].y as int,
                    points@[j].power as int,
                    screen_w as int,
                    screen_h as int,
                ),
        decreases count - i,
    {
        let p = points[i];
        let packed = pack_point(p.x, p.y, p.power, screen_w, screen_h);
        data.push(packed);
        i = i + 1;
    }
    if data.len() == 0 {
        data.push(0);
    }
    proof {
        assert(data@ =~= spec_quantize_points(points@, screen_w as int, screen_h as int));
    }
    data
}

} // verus!
