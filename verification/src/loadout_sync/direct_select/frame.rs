//! Frame fingerprint arithmetic.
use vstd::prelude::*;

verus! {

/// Grid side used when sampling a region into a fingerprint.
pub const ROI_FINGERPRINT_SAMPLES: u32 = 32;

/// Mean absolute luma difference from which two fingerprints count as a
/// changed frame.
pub const PAGE_CHANGE_MEAN_DIFF: u32 = 6;

/// Sum of the absolute differences of the first `n` samples.
pub open spec fn abs_diff_sum(left: Seq<u8>, right: Seq<u8>, n: int) -> int
    decreases n,
{
    if n <= 0 {
        0
    } else {
        abs_diff_sum(left, right, n - 1) + if left[n - 1] >= right[n - 1] {
            left[n - 1] - right[n - 1]
        } else {
            right[n - 1] - left[n - 1]
        }
    }
}

/// Two fingerprints differ enough to be worth a semantic scan: their mean
/// absolute difference reaches the threshold. Empty or mismatched
/// fingerprints always count as changed.
pub open spec fn frame_changed_spec(left: Seq<u8>, right: Seq<u8>) -> bool {
    left.len() == 0 || left.len() != right.len() || abs_diff_sum(left, right, left.len() as int)
        >= PAGE_CHANGE_MEAN_DIFF * left.len()
}

/// BT.601 luma weights in 8.8 fixed point, rounded.
pub open spec fn luma601_spec(r: u8, g: u8, b: u8) -> int {
    (77 * r + 150 * g + 29 * b + 128) / 256
}

/// Luma of one RGB pixel (BT.601 weights, fixed point).
pub fn luma601_u8(r: u8, g: u8, b: u8) -> (y: u8)
    ensures
        y as int == luma601_spec(r, g, b),
{
    let sum: u32 = 77u32 * (r as u32) + 150u32 * (g as u32) + 29u32 * (b as u32) + 128u32;
    assert(sum >> 8u32 == sum / 256) by (bit_vector);
    (sum >> 8u32) as u8
}

proof fn lemma_abs_diff_sum_bounds(left: Seq<u8>, right: Seq<u8>, n: int)
    requires
        0 <= n <= left.len(),
        n <= right.len(),
    ensures
        0 <= abs_diff_sum(left, right, n) <= 255 * n,
    decreases n,
{
    if n > 0 {
        lemma_abs_diff_sum_bounds(left, right, n - 1);
    }
}

/// Whether the picture changed between two fingerprints (mean absolute
/// difference compared in whole numbers: `sum >= 6 * len`).
pub fn frame_changed(left: &[u8], right: &[u8]) -> (r: bool)
    ensures
        r == frame_changed_spec(left@, right@),
{
    let n = left.len();
    if n == 0 || n != right.len() {
        return true;
    }
    let mut total: u128 = 0;
    let mut i: usize = 0;
    while i < n
        invariant
            n == left@.len(),
            n == right@.len(),
            i <= n,
            total as int == abs_diff_sum(left@, right@, i as int),
        decreases n - i,
    {
        proof {
            lemma_abs_diff_sum_bounds(left@, right@, i as int);
        }
        let a = left[i];
        let b = right[i];
        let d: u128 = if a >= b {
            (a - b) as u128
        } else {
            (b - a) as u128
        };
        total = total + d;
        i = i + 1;
    }
    total >= 6u128 * (n as u128)
}

} // verus!
