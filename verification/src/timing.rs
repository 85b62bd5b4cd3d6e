//! Frame pacing arithmetic: how long to sleep to hold a target frame rate,
//! and the rate a frame time corresponds to. The clock readings themselves
//! come from outside the library; these functions work on the measured
//! durations in microseconds.

use vstd::prelude::*;

verus! {

/// One second in microseconds.
pub const MICROS_PER_SECOND: u64 = 1000000;

/// The remainder of the target frame period after a frame took
/// `delta_micros`: the time to sleep before the next frame, 0 when the
/// frame already ran long.
pub fn frame_delay_micros(delta_micros: u64, target_fps: u32) -> (r: u64)
    requires
        target_fps > 0,
    ensures
        r == if delta_micros < 1000000u64 / (target_fps as u64) {
            1000000u64 / (target_fps as u64) - delta_micros
        } else {
            0int
        },
{
    let target_frame_time = MICROS_PER_SECOND / (target_fps as u64);
    if delta_micros < target_frame_time {
        target_frame_time - delta_micros
    } else {
        0
    }
}

/// The frames per second a frame time corresponds to, rounded to the
/// nearest whole number; the maximum when the frame took no measurable
/// time at all.
pub fn fps_of_delta(delta_micros: u64) -> (r: u32)
    ensures
        delta_micros == 0 ==> r == u32::MAX,
        delta_micros > 0 ==> r as int == (1000000 + (delta_micros as int) / 2) / (
        delta_micros as int),
{
    if delta_micros == 0 {
        u32::MAX
    } else {
        let rounded = (MICROS_PER_SECOND + delta_micros / 2) / delta_micros;
        proof {
            let d = delta_micros as int;
            let q = (1000000 + d / 2) / d;
            vstd::arithmetic::div_mod::lemma_fundamental_div_mod(1000000 + d / 2, d);
            vstd::arithmetic::div_mod::lemma_mod_bound(1000000 + d / 2, d);
            vstd::arithmetic::div_mod::lemma_fundamental_div_mod(d, 2);
            vstd::arithmetic::div_mod::lemma_mod_bound(d, 2);
            assert(0 <= q <= 1000000) by (nonlinear_arith)
                requires
                    d >= 1,
                    1000000 + d / 2 == d * q + (1000000 + d / 2) % d,
                    0 <= (1000000 + d / 2) % d < d,
                    d == 2 * (d / 2) + d % 2,
                    0 <= d % 2 < 2,
            ;
        }
        rounded as u32
    }
}

} // verus!
