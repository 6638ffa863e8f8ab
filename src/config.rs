use vstd::prelude::*;

verus! {

/// The frame size actually used: the requested size rounded down to a
/// multiple of `time_res`, or `time_res` itself where that rounds to zero.
pub open spec fn spec_effective_frame_size(frame_size: nat, time_res: nat) -> nat
    recommends
        time_res >= 1,
{
    let rounded = frame_size / time_res * time_res;
    if rounded == 0 {
        time_res
    } else {
        rounded
    }
}

/// Rounds a requested transform size to the frame size the engine uses.
pub fn effective_frame_size(frame_size: usize, time_res: usize) -> (r: usize)
    requires
        time_res >= 1,
    ensures
        r == spec_effective_frame_size(frame_size as nat, time_res as nat),
        r % time_res == 0,
        r >= time_res,
        r <= frame_size || r == time_res,
{
    let q: usize = frame_size / time_res;
    proof {
        assert(q * time_res <= frame_size) by (nonlinear_arith)
            requires
                q == frame_size / time_res,
                time_res >= 1,
        ;
        assert((q * time_res) % (time_res as int) == 0) by (nonlinear_arith)
            requires
                time_res >= 1,
                q >= 0,
        ;
        assert(q * time_res == 0 || q * time_res >= time_res) by (nonlinear_arith)
            requires
                time_res >= 1,
                q >= 0,
        ;
    }
    let rounded: usize = q * time_res;
    if rounded == 0 {
        time_res
    } else {
        rounded
    }
}

/// The number of samples the analysis window advances per sub-frame.
pub fn hop_size(frame_size: usize, time_res: usize) -> (r: usize)
    requires
        time_res >= 1,
    ensures
        r == frame_size / time_res,
{
    frame_size / time_res
}

} // verus!
