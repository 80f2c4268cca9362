//! Latency statistics: nearest-rank percentiles over sorted samples.
use vstd::prelude::*;

verus! {

/// The nearest-rank index of `pct` percent among `n` samples:
/// `round(pct / 100 * (n - 1))`, halves rounding up.
pub open spec fn nearest_rank_index(n: nat, pct: nat) -> int {
    (pct * (n - 1) + 50) / 100
}

/// The `pct`-th percentile of `data`, which the caller has sorted: the sample
/// at the nearest-rank index, or 0 when there are no samples.
pub fn percentile(data: &Vec<u128>, pct: u64) -> (r: u128)
    requires
        pct <= 100,
    ensures
        data@.len() == 0 ==> r == 0,
        data@.len() > 0 ==> 0 <= nearest_rank_index(data@.len(), pct as nat) < data@.len()
            && r == data@[nearest_rank_index(data@.len(), pct as nat)],
{
    if data.len() == 0 {
        return 0;
    }
    let last = (data.len() - 1) as u128;
    assert(pct as u128 * last <= 100 * last) by (nonlinear_arith)
        requires
            pct <= 100,
    ;
    assert(100 * last <= 100 * 0xffff_ffff_ffff_ffffu128) by (nonlinear_arith)
        requires
            last <= 0xffff_ffff_ffff_ffffu128,
    ;
    let idx = (pct as u128 * last + 50) / 100;
    assert(idx <= last) by (nonlinear_arith)
        requires
            idx == (pct as u128 * last + 50) / 100,
            pct <= 100,
    ;
    data[idx as usize]
}

} // verus!
