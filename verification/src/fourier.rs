use vstd::prelude::*;

verus! {

/// Length of the signal that is transformed: the window followed by zeros up
/// to `zpadding` times its length. `None` where that length is beyond what the
/// machine can address.
pub fn padded_len(window: usize, zpadding: u32) -> (padded: Option<usize>)
    ensures
        padded is Some <==> window * zpadding <= usize::MAX,
        padded matches Some(len) ==> len == window * zpadding,
{
    let factor: usize = zpadding as usize;
    if factor == 0 || window == 0 {
        assert(window * zpadding == 0) by (nonlinear_arith)
            requires
                window == 0 || zpadding == 0,
        ;
        return Some(0);
    }
    if window > usize::MAX / factor {
        assert(window * zpadding > usize::MAX) by (nonlinear_arith)
            requires
                zpadding == factor,
                factor > 0,
                window > usize::MAX / factor,
        ;
        return None;
    }
    assert(window * zpadding <= usize::MAX) by (nonlinear_arith)
        requires
            zpadding == factor,
            factor > 0,
            window <= usize::MAX / factor,
    ;
    Some(window * factor)
}

/// Number of components that the spectrum of a signal of `padded` samples
/// keeps.
///
/// Of the `padded` bins of the transform only the lower half is kept, and of
/// that half the first bin, the constant part of the signal, is left out.
pub open spec fn spectrum_len(padded: int) -> int {
    if padded / 2 >= 1 {
        padded / 2 - 1
    } else {
        0
    }
}

/// Number of components that the spectrum of a signal of `padded` samples
/// keeps.
pub fn bin_count(padded: usize) -> (count: usize)
    ensures
        count == spectrum_len(padded as int),
{
    let half: usize = padded / 2;
    if half >= 1 {
        half - 1
    } else {
        0
    }
}

/// The bin of the transform that the component at `index` of the spectrum is
/// read from, or `None` where the spectrum has no such component.
///
/// The component read from bin `i` of a signal of `padded` samples stands for
/// the frequency `i / padded` times the sampling rate.
pub fn bin_number(index: usize, padded: usize) -> (bin: Option<usize>)
    ensures
        bin is Some <==> index < spectrum_len(padded as int),
        bin matches Some(i) ==> i == index + 1,
{
    if index < bin_count(padded) {
        Some(index + 1)
    } else {
        None
    }
}

/// Whether a noise mask of `mask_len` components can be laid over the spectrum
/// of a signal of `padded` samples: it has to hold one component for each of
/// the spectrum's.
pub fn mask_fits(mask_len: usize, padded: usize) -> (fits: bool)
    ensures
        fits <==> mask_len == spectrum_len(padded as int),
{
    mask_len == bin_count(padded)
}

/// Every component of the spectrum is read from a bin above the constant part
/// and strictly below the middle of the transform, so it stands for a
/// frequency above zero and below half the sampling rate. Components further
/// up in the spectrum are read from higher bins.
pub proof fn lemma_bins_are_positive_frequencies(index: int, padded: int)
    requires
        0 <= index < spectrum_len(padded),
    ensures
        0 < 2 * (index + 1) < padded,
{
}

} // verus!
