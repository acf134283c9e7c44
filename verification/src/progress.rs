//! Progress accounting for a long-running model download: which percentage a
//! partial transfer stands at, and at which percentages a progress event is
//! emitted.

use vstd::prelude::*;

verus! {

/// The percentage of a transfer that has completed, rounded down.
///
/// `downloaded` is the number of bytes received so far and `total` the full
/// size of the resource; the result is `floor(downloaded * 100 / total)`,
/// capped at 100 so that an over-long transfer still reads as complete.
pub fn download_progress(downloaded: u64, total: u64) -> (p: u8)
    requires
        total > 0,
    ensures
        downloaded <= total ==> p == downloaded * 100 / (total as int),
        downloaded > total ==> p == 100,
{
    if downloaded >= total {
        proof {
            if downloaded == total {
                vstd::arithmetic::div_mod::lemma_div_multiples_vanish(100, total as int);
                assert(100 * (total as int) == downloaded * 100) by (nonlinear_arith)
                    requires
                        downloaded == total,
                ;
            }
        }
        100
    } else {
        let p128 = (downloaded as u128) * 100 / (total as u128);
        proof {
            assert((downloaded as u128) * 100 == downloaded * 100) by (nonlinear_arith);
            assert(downloaded * 100 < (total as int) * 100) by (nonlinear_arith)
                requires
                    downloaded < total,
            ;
            vstd::arithmetic::div_mod::lemma_multiply_divide_lt(
                downloaded * 100,
                total as int,
                100,
            );
        }
        p128 as u8
    }
}

/// Whether a progress event is due at percentage `p`: one is emitted at every
/// fifth percentage point.
pub fn progress_event_due(p: u8) -> (due: bool)
    ensures
        due == (p % 5 == 0),
{
    p % 5 == 0
}

} // verus!
