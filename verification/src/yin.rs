use vstd::prelude::*;

verus! {

/// `p` is a power of two.
pub open spec fn is_pow2(p: nat) -> bool
    decreases p,
{
    if p == 1 {
        true
    } else if p < 2 || p % 2 == 1 {
        false
    } else {
        is_pow2(p / 2)
    }
}

/// The smallest power of two that is at least `x` (1 for `x` = 0).
pub fn next_power_of_two(x: usize) -> (p: usize)
    requires
        x <= usize::MAX / 2 + 1,
    ensures
        is_pow2(p as nat),
        p >= x,
        p == 1 || p / 2 < x,
{
    let mut p: usize = 1;
    while p < x
        invariant
            x <= usize::MAX / 2 + 1,
            1 <= p,
            is_pow2(p as nat),
            p == 1 || p / 2 < x,
        decreases usize::MAX - p,
    {
        assert(is_pow2((p * 2) as nat)) by {
            assert((p * 2) as nat / 2 == p as nat);
        }
        p = p * 2;
    }
    p
}

/// Length of the FFT used for the difference function of frames of
/// `frame_len` samples: the smallest power of two that holds two frames,
/// and at least 2.
pub fn fft_len_for(frame_len: usize) -> (n: usize)
    requires
        2 * frame_len <= usize::MAX / 2 + 1,
    ensures
        is_pow2(n as nat),
        n >= 2,
        n >= 2 * frame_len,
        n == 2 || n / 2 < 2 * frame_len,
{
    let p = next_power_of_two(frame_len * 2);
    if p >= 2 {
        p
    } else {
        assert(is_pow2(2)) by {
            assert(is_pow2(1));
        }
        2
    }
}

} // verus!
