use vstd::prelude::*;

verus! {

/// Samples per FFT analysis window (a power of two).
pub const FFT_SIZE: usize = 2048;

/// Output bands of the spectrum display, log-spaced from 20 Hz to 20 kHz.
pub const SPECTRUM_BANDS: usize = 80;

/// FFT bins that carry unique information for real input: `FFT_SIZE / 2`.
pub const NYQUIST_BINS: usize = 1024;

/// The FFT bins `[lo, hi)` whose peak magnitude makes up one display band,
/// given the bins in which the band's lower and upper frequency edges fall:
/// the DC bin is skipped, the range stays below the Nyquist bin count, and
/// it always holds at least one bin.
pub fn band_bin_range(lo_edge_bin: usize, hi_edge_bin: usize) -> (r: (usize, usize))
    ensures
        r.0 == if lo_edge_bin < 1 {
            1
        } else if lo_edge_bin > NYQUIST_BINS - 1 {
            (NYQUIST_BINS - 1) as usize
        } else {
            lo_edge_bin
        },
        r.1 == if hi_edge_bin < r.0 + 1 {
            (r.0 + 1) as usize
        } else if hi_edge_bin > NYQUIST_BINS {
            NYQUIST_BINS
        } else {
            hi_edge_bin
        },
        1 <= r.0 < r.1 <= NYQUIST_BINS,
{
    let lo = if lo_edge_bin < 1 {
        1
    } else {
        lo_edge_bin
    };
    let lo = if lo > NYQUIST_BINS - 1 {
        NYQUIST_BINS - 1
    } else {
        lo
    };
    let hi = if hi_edge_bin < lo + 1 {
        lo + 1
    } else {
        hi_edge_bin
    };
    let hi = if hi > NYQUIST_BINS {
        NYQUIST_BINS
    } else {
        hi
    };
    (lo, hi)
}

} // verus!
