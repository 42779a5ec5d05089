//! Validity rules for the display helpers that consume a window snapshot:
//! when a low-pass cutoff is usable, how long the filter's burn-in lasts,
//! and when a spectral estimate has enough samples.
//!
//! The filtering and the spectral transform themselves are floating-point
//! work done by their consumers; these rules are the contract the rest of
//! the pipeline holds them to.

use vstd::prelude::*;

verus! {

/// Whether `n` is a power of two.
pub open spec fn pow2(n: nat) -> bool
    decreases n,
{
    if n == 0 {
        false
    } else if n == 1 {
        true
    } else {
        n % 2 == 0 && pow2(n / 2)
    }
}

/// Whether `n` is a power of two.
pub fn is_power_of_two(n: usize) -> (r: bool)
    ensures
        r == pow2(n as nat),
    decreases n,
{
    if n == 0 {
        false
    } else if n == 1 {
        true
    } else {
        n % 2 == 0 && is_power_of_two(n / 2)
    }
}

/// Every catalog spectral window size is a power of two.
pub proof fn lemma_fft_size_pow2(v: crate::ylab::YLabVersion)
    ensures
        pow2(crate::ylab::fft_size_spec(v) as nat),
{
    assert(pow2(1));
    assert(pow2(2));
    assert(pow2(4));
    assert(pow2(8));
    assert(pow2(16));
    assert(pow2(32));
    assert(pow2(64));
    assert(pow2(128));
    assert(pow2(256));
    assert(pow2(512));
}

/// Whether a low-pass cutoff, in millihertz, is valid for a window that
/// spans `duration_ms` milliseconds and holds `n_samples` samples: it
/// must lie strictly between the reciprocal of twice the window duration
/// and half the sample rate.
pub open spec fn lowpass_valid_spec(cutoff_mhz: u64, duration_ms: u64, n_samples: u64) -> bool {
    &&& n_samples >= 2
    &&& duration_ms > 0
    &&& cutoff_mhz * duration_ms * 2 > 1_000_000
    &&& cutoff_mhz * duration_ms * 2 < 1_000_000 * n_samples
}

/// Whether a low-pass cutoff is valid for the current window: strictly
/// above the reciprocal of twice the window duration and strictly below
/// half the sample rate.
pub fn lowpass_valid(cutoff_mhz: u64, duration_ms: u64, n_samples: u64) -> (r: bool)
    ensures
        r == lowpass_valid_spec(cutoff_mhz, duration_ms, n_samples),
{
    if n_samples < 2 || duration_ms == 0 {
        return false;
    }
    proof {
        assert((cutoff_mhz as int) * (duration_ms as int) <= u128::MAX) by(nonlinear_arith)
            requires
                cutoff_mhz <= u64::MAX,
                duration_ms <= u64::MAX,
        ;
    }
    let prod: u128 = (cutoff_mhz as u128) * (duration_ms as u128);
    proof {
        assert((prod * 2 > 1_000_000) == (prod > 500_000));
        assert((prod * 2 < 1_000_000 * n_samples) == (prod < 500_000 * n_samples));
    }
    prod > 500_000 && prod < 500_000u128 * (n_samples as u128)
}

/// The burn-in length of the low-pass filter: how many leading output
/// samples reflect its startup transient and are discarded — two rate
/// periods per cutoff period, plus one.
pub fn burn_in(rate_hz: u64, cutoff_hz: u64) -> (r: u64)
    requires
        cutoff_hz > 0,
        rate_hz < 0x4000_0000_0000_0000,
    ensures
        r == 2 * (rate_hz / cutoff_hz) + 1,
{
    2 * (rate_hz / cutoff_hz) + 1
}

/// How far a window is toward a spectral estimate: `Ready` once it holds
/// `fft_size` samples, else the progress in thousandths.
#[derive(Copy, Clone, Debug, PartialEq, Eq, Structural)]
pub enum SpectrumReadiness {
    Ready,
    Buffering { permille: u64 },
}

/// The readiness of a window of `n_samples` samples for a spectral
/// estimate needing `fft_size` of them.
pub fn fft_progress(n_samples: usize, fft_size: usize) -> (r: SpectrumReadiness)
    requires
        fft_size > 0,
    ensures
        n_samples >= fft_size <==> r is Ready,
        r matches SpectrumReadiness::Buffering { permille } ==> permille == n_samples as nat * 1000
            / fft_size as nat,
{
    if n_samples >= fft_size {
        SpectrumReadiness::Ready
    } else {
        let scaled: u128 = (n_samples as u128) * 1000;
        let permille: u64 = (scaled / (fft_size as u128)) as u64;
        proof {
            assert((n_samples as nat) * 1000 / (fft_size as nat) < 1000) by(nonlinear_arith)
                requires
                    n_samples < fft_size,
                    fft_size > 0,
            ;
        }
        SpectrumReadiness::Buffering { permille }
    }
}

} // verus!
