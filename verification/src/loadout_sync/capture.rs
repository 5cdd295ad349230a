//! What a capture hands on: the grey and colour pixels of a client area read
//! as BGRA bytes, and the refusal of an all-black frame.
//!
//! Reading the screen itself is done by the application.
use vstd::prelude::*;
use crate::loadout_sync::error::LoadoutSyncError;

verus! {

/// Luma of pixel `i` of a BGRA buffer: `(299 r + 587 g + 114 b) / 1000`.
pub open spec fn luma_at(buf: Seq<u8>, i: int) -> int {
    (299 * buf[4 * i + 2] + 587 * buf[4 * i + 1] + 114 * buf[4 * i]) / 1000
}

/// Sum of the lumas of the first `n` pixels.
pub open spec fn luma_sum(buf: Seq<u8>, n: int) -> int
    decreases n,
{
    if n <= 0 {
        0
    } else {
        luma_sum(buf, n - 1) + luma_at(buf, n - 1)
    }
}

/// Byte `k` of the RGBA image made from a BGRA buffer: blue and red swapped,
/// alpha 255.
pub open spec fn rgba_at(buf: Seq<u8>, k: int) -> u8 {
    let base = k - k % 4;
    if k % 4 == 0 {
        buf[base + 2]
    } else if k % 4 == 1 {
        buf[base + 1]
    } else if k % 4 == 2 {
        buf[base]
    } else {
        255u8
    }
}

/// The frame is black: its mean luma is below 1.
pub open spec fn is_black_frame(buf: Seq<u8>, pixels: int) -> bool {
    luma_sum(buf, pixels) < if pixels >= 1 { pixels } else { 1 }
}

/// The detail given for an all-black frame.
pub open spec fn black_frame_detail() -> Seq<char> {
    "捕获到全黑画面（GDI 兜底也拿不到画面，请确认游戏窗口未被最小化）"@
}

proof fn lemma_luma_bounds(buf: Seq<u8>, i: int)
    requires
        0 <= i,
        4 * i + 3 < buf.len(),
    ensures
        0 <= luma_at(buf, i) <= 255,
{
    let s = 299 * buf[4 * i + 2] + 587 * buf[4 * i + 1] + 114 * buf[4 * i];
    assert(0 <= s <= 255 * 1000);
}

proof fn lemma_luma_sum_bound(buf: Seq<u8>, n: int)
    requires
        0 <= n,
        4 * n <= buf.len(),
    ensures
        0 <= luma_sum(buf, n) <= 255 * n,
    decreases n,
{
    if n > 0 {
        lemma_luma_sum_bound(buf, n - 1);
        lemma_luma_bound_at(buf, n - 1);
    }
}

proof fn lemma_luma_bound_at(buf: Seq<u8>, i: int)
    requires
        0 <= i,
        4 * i + 4 <= buf.len(),
    ensures
        0 <= luma_at(buf, i) <= 255,
{
    lemma_luma_bounds(buf, i);
}

/// Luma of one pixel.
fn pixel_luma(b: u8, g: u8, r: u8) -> (l: u8)
    ensures
        l == (299 * r + 587 * g + 114 * b) / 1000,
{
    let s: u32 = r as u32 * 299 + g as u32 * 587 + b as u32 * 114;
    assert(s <= 255_000);
    (s / 1000) as u8
}

/// The grey and RGBA pixels of a `width`×`height` BGRA buffer (rows top
/// down), or a `CaptureFailed` when the frame is all black: its mean luma is
/// below 1, so nothing is recognised or clicked on it.
pub fn frame_from_bgra(buf: &[u8], width: u32, height: u32) -> (r: Result<(Vec<u8>, Vec<u8>), LoadoutSyncError>)
    requires
        buf@.len() == 4 * (width * height),
    ensures
        r is Err <==> is_black_frame(buf@, width * height),
        r matches Err(e) ==> e matches LoadoutSyncError::CaptureFailed { detail } && detail@
            == black_frame_detail(),
        r matches Ok((gray, rgba)) ==> {
            &&& gray@.len() == width * height
            &&& forall|i: int| 0 <= i < width * height ==> gray@[i] == luma_at(buf@, i)
            &&& rgba@.len() == buf@.len()
            &&& forall|k: int| 0 <= k < buf@.len() ==> rgba@[k] == rgba_at(buf@, k)
        },
{
    let n: usize = buf.len() / 4;
    assert(n == width * height);
    let mut gray: Vec<u8> = Vec::new();
    let mut rgba: Vec<u8> = Vec::new();
    let mut sum: u128 = 0;
    let total: usize = buf.len();
    assert(total == 4 * n);
    let mut i: usize = 0;
    while i < n
        invariant
            n == width * height,
            buf@.len() == 4 * n,
            total == 4 * n,
            i <= n,
            gray@.len() == i,
            forall|j: int| 0 <= j < i ==> gray@[j] == luma_at(buf@, j),
            rgba@.len() == 4 * i,
            forall|k: int| 0 <= k < 4 * i ==> rgba@[k] == rgba_at(buf@, k),
            sum == luma_sum(buf@, i as int),
            sum <= 255 * i,
        decreases n - i,
    {
        let base: usize = 4 * i;
        let luma = pixel_luma(buf[base], buf[base + 1], buf[base + 2]);
        proof {
            lemma_luma_bound_at(buf@, i as int);
        }
        gray.push(luma);
        let ghost rb = rgba@;
        rgba.push(buf[base + 2]);
        rgba.push(buf[base + 1]);
        rgba.push(buf[base]);
        rgba.push(255u8);
        proof {
            assert forall|k: int| 0 <= k < 4 * (i + 1) implies rgba@[k] == rgba_at(buf@, k) by {
                if k < 4 * i {
                    assert(rgba@[k] == rb[k]);
                } else {
                    assert(k - k % 4 == 4 * i);
                }
            }
        }
        sum = sum + luma as u128;
        i = i + 1;
    }
    let floor: u128 = if n >= 1 { n as u128 } else { 1 };
    if sum < floor {
        return Err(LoadoutSyncError::CaptureFailed {
            detail: String::from_str("捕获到全黑画面（GDI 兜底也拿不到画面，请确认游戏窗口未被最小化）"),
        });
    }
    Ok((gray, rgba))
}

} // verus!
