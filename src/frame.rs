use vstd::prelude::*;

use crate::color::Rgb8;

verus! {

/// Number of zero bytes that close a frame of `n` pixels: `ceil(n / 2)`.
pub open spec fn padding_len(n: int) -> int {
    (n + 1) / 2
}

/// Byte `j` of the pixel section: pixel `j / 4` of the strip, counted from
/// `offset` and wrapping around, sent as `0xFF, blue, green, red`.
pub open spec fn pixel_byte(px: Seq<Rgb8>, offset: int, j: int) -> u8 {
    let q = px[(offset + j / 4) % (px.len() as int)];
    if j % 4 == 0 {
        0xFF
    } else if j % 4 == 1 {
        q.blue
    } else if j % 4 == 2 {
        q.green
    } else {
        q.red
    }
}

/// The frame sent for `px`: four zero bytes, four bytes per pixel starting
/// at pixel `offset` (wrapping around), then `ceil(n / 2)` zero bytes.
pub open spec fn frame_bytes(px: Seq<Rgb8>, offset: int) -> Seq<u8> {
    let n = px.len() as int;
    Seq::new(4, |j: int| 0u8) + Seq::new((4 * n) as nat, |j: int| pixel_byte(px, offset, j))
        + Seq::new(padding_len(n) as nat, |j: int| 0u8)
}

/// Index into the strip of the `k`-th pixel sent when sending starts at `offset`.
fn wrapped_index(offset: usize, k: usize, n: usize) -> (r: usize)
    requires
        k < n,
        2 * n <= usize::MAX,
    ensures
        r == (offset + k) % (n as int),
        r < n,
{
    let start = offset % n;
    let idx = start + k;
    proof {
        vstd::arithmetic::div_mod::lemma_add_mod_noop(offset as int, k as int, n as int);
        vstd::arithmetic::div_mod::lemma_small_mod(k as nat, n as nat);
        if idx < n {
            vstd::arithmetic::div_mod::lemma_small_mod(idx as nat, n as nat);
        } else {
            vstd::arithmetic::div_mod::lemma_mod_sub_multiples_vanish(idx as int, n as int);
            vstd::arithmetic::div_mod::lemma_small_mod((idx - n) as nat, n as nat);
        }
    }
    if idx >= n {
        idx - n
    } else {
        idx
    }
}

/// Frames a strip for the serial bus: a four-byte zero header, then for
/// each pixel in strip order from `offset` (wrapping around) the quad
/// `0xFF, blue, green, red`, then `ceil(n / 2)` zero bytes of padding.
pub fn encode_frame(pixels: &Vec<Rgb8>, offset: usize) -> (r: Vec<u8>)
    requires
        4 * pixels.len() + pixels.len() + 8 <= usize::MAX,
    ensures
        r@ == frame_bytes(pixels@, offset as int),
{
    let n = pixels.len();
    let mut out: Vec<u8> = Vec::with_capacity(4 + 4 * n + (n + 1) / 2);
    out.push(0);
    out.push(0);
    out.push(0);
    out.push(0);
    let mut k: usize = 0;
    while k < n
        invariant
            n == pixels.len(),
            k <= n,
            4 * n + n + 8 <= usize::MAX,
            out@.len() == 4 + 4 * k,
            forall|j: int| 0 <= j < 4 ==> out@[j] == 0,
            forall|j: int| 0 <= j < 4 * k ==> out@[4 + j] == pixel_byte(pixels@, offset as int, j),
        decreases n - k,
    {
        let q = pixels[wrapped_index(offset, k, n)];
        out.push(0xFF);
        out.push(q.blue);
        out.push(q.green);
        out.push(q.red);
        proof {
            let b = 4 * k as int;
            assert(b / 4 == k && b % 4 == 0);
            assert((b + 1) / 4 == k && (b + 1) % 4 == 1);
            assert((b + 2) / 4 == k && (b + 2) % 4 == 2);
            assert((b + 3) / 4 == k && (b + 3) % 4 == 3);
        }
        k = k + 1;
    }
    let pad = (n + 1) / 2;
    let mut z: usize = 0;
    while z < pad
        invariant
            n == pixels.len(),
            pad == padding_len(n as int),
            z <= pad,
            4 * n + n + 8 <= usize::MAX,
            out@.len() == 4 + 4 * n + z,
            forall|j: int| 0 <= j < 4 ==> out@[j] == 0,
            forall|j: int| 0 <= j < 4 * n ==> out@[4 + j] == pixel_byte(pixels@, offset as int, j),
            forall|j: int| 4 + 4 * n <= j < out@.len() ==> out@[j] == 0,
        decreases pad - z,
    {
        out.push(0);
        z = z + 1;
    }
    assert(out@ =~= frame_bytes(pixels@, offset as int));
    out
}

} // verus!
