//! Conversion between RGBA pixel rasters and normalized RGB tensors.
use vstd::prelude::*;
use crate::error::EngineError;
use crate::fixed::{clamp_spec, clamp_unit, lemma_split, ONE};

verus! {

/// A channel byte mapped to `[0, ONE]`, rounded to nearest.
pub open spec fn normalize_spec(b: u8) -> int {
    (b * ONE as int + 127) / 255
}

/// A tensor value clamped to `[0, ONE]` and mapped to a byte, rounded to nearest.
pub open spec fn denormalize_spec(v: int) -> u8 {
    ((clamp_spec(v) * 255 + ONE as int / 2) / (ONE as int)) as u8
}

/// The interleaved RGB tensor of an RGBA raster: alpha dropped, channels normalized.
pub open spec fn preprocess_spec(p: Seq<u8>) -> Seq<int> {
    Seq::new((p.len() / 4 * 3) as nat, |j: int| normalize_spec(p[4 * (j / 3) + j % 3]))
}

/// The RGBA raster of `n` pixels of an RGB tensor: channels denormalized, alpha opaque.
pub open spec fn postprocess_spec(t: Seq<int>, n: nat) -> Seq<u8> {
    Seq::new(
        n * 4,
        |k: int|
            if k % 4 == 3 {
                255u8
            } else {
                denormalize_spec(t[3 * (k / 4) + k % 4])
            },
    )
}

/// A tensor's elements as mathematical integers.
pub open spec fn ints(t: Seq<i32>) -> Seq<int> {
    t.map_values(|v: i32| v as int)
}

proof fn lemma_normalize_bounds(b: u8)
    ensures
        0 <= normalize_spec(b) <= ONE,
{
    assert(0 <= (b * ONE + 127) / 255 <= ONE) by (nonlinear_arith)
        requires 0 <= b <= 255, ONE == 1_000_000;
}

/// Normalizing a channel byte and denormalizing it gives the byte back.
pub proof fn lemma_byte_round_trip(b: u8)
    ensures
        denormalize_spec(normalize_spec(b)) == b,
{
    let v = normalize_spec(b);
    lemma_normalize_bounds(b);
    let bi = b as int;
    assert(255 * v <= bi * 1_000_000 + 127 < 255 * v + 255) by (nonlinear_arith)
        requires v == (bi * 1_000_000 + 127) / 255;
    assert((v * 255 + 500_000) / 1_000_000 == bi) by (nonlinear_arith)
        requires 255 * v <= bi * 1_000_000 + 127 < 255 * v + 255;
}

/// Denormalizing the normalized tensor of an RGBA raster gives back its colour
/// channels exactly, with the alpha channel made opaque.
pub proof fn lemma_codec_round_trip(p: Seq<u8>)
    requires
        p.len() % 4 == 0,
    ensures
        postprocess_spec(preprocess_spec(p), p.len() / 4) =~= Seq::new(
            p.len(),
            |k: int|
                if k % 4 == 3 {
                    255u8
                } else {
                    p[k]
                },
        ),
{
    let t = preprocess_spec(p);
    let n = p.len() / 4;
    assert forall|k: int| 0 <= k < p.len() && k % 4 != 3 implies
        denormalize_spec(t[3 * (k / 4) + k % 4]) == p[k] by {
        let i = k / 4;
        let c = k % 4;
        vstd::arithmetic::div_mod::lemma_fundamental_div_mod(k, 4);
        assert(0 <= i < n);
        let j = 3 * i + c;
        lemma_split(i, c, 3);
        assert(4 * (j / 3) + j % 3 == k);
        lemma_byte_round_trip(p[k]);
    }
    assert(n * 4 == p.len());
}

/// Turns an RGBA raster of `width` by `height` pixels into an interleaved RGB
/// tensor with each channel normalized to `[0, ONE]`.
pub fn preprocess(pixels: &Vec<u8>, width: u32, height: u32) -> (r: Result<Vec<i32>, EngineError>)
    ensures
        match r {
            Ok(t) => pixels@.len() == width * height * 4 && t@.len() == width * height * 3 && ints(t@)
                == preprocess_spec(pixels@),
            Err(e) => e == EngineError::DecodeError && pixels@.len() != width * height * 4,
        },
{
    assert((width as u64) * (height as u64) <= u64::MAX) by (nonlinear_arith)
        requires width <= u32::MAX, height <= u32::MAX;
    let n_pixels: u64 = (width as u64) * (height as u64);
    if pixels.len() % 4 != 0 || (pixels.len() / 4) as u64 != n_pixels {
        return Err(EngineError::DecodeError);
    }
    let n: usize = pixels.len() / 4;
    let mut t: Vec<i32> = Vec::new();
    let mut i: usize = 0;
    while i < n
        invariant
            n == pixels@.len() / 4,
            pixels@.len() % 4 == 0,
            i <= n,
            t@.len() == 3 * i,
            forall|j: int| 0 <= j < 3 * i ==> #[trigger] t@[j] as int == normalize_spec(pixels@[4 * (j / 3) + j % 3]),
        decreases n - i,
    {
        let mut c: usize = 0;
        while c < 3
            invariant
                n == pixels@.len() / 4,
                pixels@.len() % 4 == 0,
                i < n,
                c <= 3,
                t@.len() == 3 * i + c,
                forall|j: int| 0 <= j < 3 * i + c ==> #[trigger] t@[j] as int == normalize_spec(pixels@[4 * (j / 3) + j % 3]),
            decreases 3 - c,
        {
            let len: usize = pixels.len();
            proof {
                assert(4 * i + c < len) by (nonlinear_arith)
                    requires i < n, c < 3, n == len / 4, len % 4 == 0;
            }
            let b: u8 = pixels[4 * i + c];
            proof {
                lemma_normalize_bounds(b);
                lemma_split(i as int, c as int, 3);
            }
            let v: i64 = (b as i64 * ONE + 127) / 255;
            t.push(v as i32);
            c = c + 1;
        }
        i = i + 1;
    }
    assert(ints(t@) =~= preprocess_spec(pixels@));
    Ok(t)
}

/// Denormalizes the channel of a tensor value to a byte.
pub fn denormalize(v: i32) -> (r: u8)
    ensures
        r == denormalize_spec(v as int),
{
    let c: i64 = clamp_unit(v as i64);
    ((c * 255 + ONE / 2) / ONE) as u8
}

/// Turns the first `width * height` pixels of an interleaved RGB tensor into an
/// opaque RGBA raster.
pub fn postprocess(tensor: &Vec<i32>, width: u32, height: u32) -> (r: Vec<u8>)
    requires
        tensor@.len() >= width * height * 3,
        width * height * 4 <= usize::MAX,
    ensures
        r@ == postprocess_spec(ints(tensor@), (width * height) as nat),
        r@.len() == width * height * 4,
{
    let n: usize = (width as usize) * (height as usize);
    let mut out: Vec<u8> = Vec::new();
    let mut i: usize = 0;
    while i < n
        invariant
            n == width * height,
            tensor@.len() >= 3 * n,
            i <= n,
            out@.len() == 4 * i,
            forall|k: int| 0 <= k < 4 * i ==> #[trigger] out@[k] == postprocess_spec(ints(tensor@), n as nat)[k],
        decreases n - i,
    {
        let mut c: usize = 0;
        while c < 4
            invariant
                n == width * height,
                tensor@.len() >= 3 * n,
                i < n,
                c <= 4,
                out@.len() == 4 * i + c,
                forall|k: int| 0 <= k < 4 * i + c ==> #[trigger] out@[k] == postprocess_spec(ints(tensor@), n as nat)[k],
            decreases 4 - c,
        {
            let len: usize = tensor.len();
            proof {
                lemma_split(i as int, c as int, 4);
                assert(3 * i + 3 <= len) by (nonlinear_arith)
                    requires i < n, len >= 3 * n;
            }
            if c == 3 {
                out.push(255);
            } else {
                let b = denormalize(tensor[3 * i + c]);
                out.push(b);
            }
            c = c + 1;
        }
        i = i + 1;
    }
    assert(out@ =~= postprocess_spec(ints(tensor@), n as nat));
    out
}

} // verus!
