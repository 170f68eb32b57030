//! Deterministic palette hues: starting from zero, each round halves the
//! step and appends a shifted copy of everything so far, until at least the
//! requested number of hues exists. The result spreads hues evenly no
//! matter how many are taken.

use vstd::prelude::*;
use crate::fx::{div_floor, FX_ONE};

verus! {

/// The step added in round `k`: one unit halved `k` times, rounded down.
pub open spec fn hue_step(k: nat) -> int
    decreases k,
{
    if k == 0 {
        FX_ONE as int
    } else {
        hue_step((k - 1) as nat) / 2
    }
}

/// The hue table after `k` doubling rounds: round `k` appends a copy of the
/// table shifted up by that round's step.
pub open spec fn hue_rounds(k: nat) -> Seq<int>
    decreases k,
{
    if k == 0 {
        seq![0int]
    } else {
        let p = hue_rounds((k - 1) as nat);
        p + p.map_values(|h: int| h + hue_step(k))
    }
}

/// Normalized hues for a palette of `color_count` entries, in `[0, 1]`
/// units: the first doubling round whose table covers the count. Callers
/// take the first `color_count` of them.
pub fn generate_normal_hue_vec(color_count: usize) -> (r: Vec<i64>)
    requires
        color_count <= 65536,
    ensures
        r@.len() >= 1,
        r@.len() >= color_count,
        color_count >= 1 ==> r@.len() < 2 * color_count,
        exists|k: nat| r@.map_values(|h: i64| h as int) == hue_rounds(k),
        forall|j: int| 0 <= j < r@.len() ==> 0 <= #[trigger] r@[j] <= FX_ONE,
{
    let mut hue_vec: Vec<i64> = Vec::new();
    hue_vec.push(0);
    let mut step: i64 = FX_ONE;
    let ghost mut k: nat = 0;
    proof {
        assert(hue_vec@.map_values(|h: i64| h as int) =~= hue_rounds(0));
    }
    while hue_vec.len() < color_count
        invariant
            color_count <= 65536,
            1 <= hue_vec@.len() <= 131072,
            color_count >= 1 ==> hue_vec@.len() < 2 * color_count,
            hue_vec@.map_values(|h: i64| h as int) == hue_rounds(k),
            step == hue_step(k),
            0 <= step <= FX_ONE,
            forall|j: int|
                0 <= j < hue_vec@.len() ==> 0 <= #[trigger] hue_vec@[j] && hue_vec@[j] + step
                    <= FX_ONE,
        decreases 2 * color_count - hue_vec.len(),
    {
        let len0 = hue_vec.len();
        let ghost prev = hue_vec@;
        let ghost prev_step = step as int;
        proof {
            vstd::arithmetic::div_mod::lemma_fundamental_div_mod(step as int, 2);
        }
        step = div_floor(step, 2);
        proof {
            k = k + 1;
        }
        let mut j: usize = 0;
        while j < len0
            invariant
                j <= len0,
                len0 == prev.len(),
                prev.len() + len0 <= 131072,
                0 <= step,
                2 * step <= prev_step,
                forall|i: int|
                    0 <= i < prev.len() ==> 0 <= #[trigger] prev[i] && prev[i] + prev_step
                        <= FX_ONE,
                hue_vec@.len() == prev.len() + j,
                forall|i: int| 0 <= i < prev.len() ==> #[trigger] hue_vec@[i] == prev[i],
                forall|i: int|
                    0 <= i < j ==> #[trigger] hue_vec@[prev.len() + i] == prev[i] + step,
            decreases len0 - j,
        {
            let v = hue_vec[j];
            hue_vec.push(v + step);
            j = j + 1;
        }
        proof {
            let m = hue_vec@.map_values(|h: i64| h as int);
            let p = hue_rounds((k - 1) as nat);
            assert(prev.map_values(|h: i64| h as int) == p);
            assert(m =~= p + p.map_values(|h: int| h + hue_step(k))) by {
                assert forall|i: int| 0 <= i < m.len() implies m[i] == (p + p.map_values(
                    |h: int| h + hue_step(k),
                ))[i] by {
                    if i < p.len() {
                        assert(hue_vec@[i] == prev[i]);
                        assert(p[i] == prev[i] as int);
                    } else {
                        assert(hue_vec@[prev.len() + (i - p.len())] == prev[i - p.len()]
                            + step);
                        assert(p[i - p.len()] == prev[i - p.len()] as int);
                    }
                }
            }
            assert forall|j2: int|
                0 <= j2 < hue_vec@.len() implies 0 <= #[trigger] hue_vec@[j2] && hue_vec@[j2]
                + step <= FX_ONE by {
                if j2 < prev.len() {
                    assert(hue_vec@[j2] == prev[j2]);
                } else {
                    assert(hue_vec@[prev.len() + (j2 - prev.len())] == prev[j2 - prev.len()]
                        + step);
                }
            }
        }
    }
    hue_vec
}

} // verus!
