//! The demo tachometer: the needle sweeps the gauge scale in fixed steps and
//! starts again from zero once it would pass the top.

use vstd::prelude::*;

verus! {

/// Top of the gauge scale, in rpm.
pub const TACH_MAX: u16 = 8000;

/// How far the needle moves per frame, in rpm.
pub const TACH_STEP: u16 = 100;

/// The reading after `tach`: one step up (wrapping at the `u16` range), or
/// back to zero if that passes the top of the scale.
pub open spec fn tach_after(tach: u16) -> u16 {
    let up = ((tach + TACH_STEP) % 0x10000) as u16;
    if up > TACH_MAX {
        0
    } else {
        up
    }
}

/// The reading after `k` frames, starting from `tach`.
pub open spec fn tach_after_frames(tach: u16, k: nat) -> u16
    decreases k,
{
    if k == 0 {
        tach
    } else {
        tach_after(tach_after_frames(tach, (k - 1) as nat))
    }
}

/// The next needle reading of the demo sweep.
pub fn next_tach_reading(tach: u16) -> (next: u16)
    ensures
        next == tach_after(tach),
        next <= TACH_MAX,
{
    let up = tach.wrapping_add(TACH_STEP);
    if up > TACH_MAX {
        0
    } else {
        up
    }
}

/// On the scale, the needle moves up one step, or back to zero when the step
/// would pass the top.
pub proof fn law_tach_steps_on_scale(tach: u16)
    requires
        tach <= TACH_MAX,
    ensures
        tach_after(tach) == if tach + TACH_STEP <= TACH_MAX {
            (tach + TACH_STEP) as u16
        } else {
            0u16
        },
{
}

/// Past the top of the `u16` range the step wraps around: a reading within
/// one step of 65535 moves to where the step lands modulo 65536.
pub proof fn law_tach_wraps(tach: u16)
    requires
        tach as int + 100 > 0xFFFF,
    ensures
        tach_after(tach) == tach as int + 100 - 0x10000,
{
}

/// Whatever the reading, the next one is on the scale.
pub proof fn law_tach_stays_on_scale(tach: u16)
    ensures
        tach_after(tach) <= TACH_MAX,
{
}

/// From zero the needle passes every step of the scale up to the top, and
/// the frame after the top it is back at zero.
pub proof fn law_tach_sweep_from_zero(k: nat)
    requires
        k <= 80,
    ensures
        tach_after_frames(0, k) == 100 * k,
        tach_after_frames(0, 81) == 0,
{
    lemma_sweep_reaches_top(k);
    lemma_sweep_reaches_top(80);
    assert(tach_after_frames(0, 81) == tach_after(tach_after_frames(0, 80)));
}

proof fn lemma_sweep_reaches_top(k: nat)
    requires
        k <= 80,
    ensures
        tach_after_frames(0, k) == 100 * k,
    decreases k,
{
    if k > 0 {
        lemma_sweep_reaches_top((k - 1) as nat);
    }
}

} // verus!
