//! Linear interpolation between an original and a stylized tensor.
use vstd::prelude::*;
use crate::codec::ints;
use crate::fixed::{clamp_spec, clamp_unit, div_floor, ONE};

verus! {

/// `o` moved toward `t` by the fraction `s / ONE`, rounded down.
pub open spec fn mix(o: int, t: int, s: int) -> int {
    (o * (ONE - s) + t * s) / (ONE as int)
}

/// The element-wise blend of two tensors, the strength first clamped to `[0, ONE]`.
pub open spec fn blend_spec(o: Seq<int>, t: Seq<int>, strength: int) -> Seq<int> {
    Seq::new(o.len(), |i: int| mix(o[i], t[i], clamp_spec(strength)))
}

proof fn lemma_mix_between(o: int, t: int, s: int)
    requires
        0 <= s <= ONE,
    ensures
        o <= t ==> o <= mix(o, t, s) <= t,
        t <= o ==> t <= mix(o, t, s) <= o,
{
    let a = o * (ONE - s) + t * s;
    if o <= t {
        assert(o * 1_000_000 <= a <= t * 1_000_000) by (nonlinear_arith)
            requires a == o * (1_000_000 - s) + t * s, 0 <= s <= 1_000_000, o <= t;
        assert(o <= a / 1_000_000 <= t) by (nonlinear_arith)
            requires o * 1_000_000 <= a <= t * 1_000_000;
    } else {
        assert(t * 1_000_000 <= a <= o * 1_000_000) by (nonlinear_arith)
            requires a == o * (1_000_000 - s) + t * s, 0 <= s <= 1_000_000, t <= o;
        assert(t <= a / 1_000_000 <= o) by (nonlinear_arith)
            requires t * 1_000_000 <= a <= o * 1_000_000;
    }
}

/// A strength of zero (or less) gives the original tensor back.
pub proof fn lemma_blend_none(o: Seq<int>, t: Seq<int>, strength: int)
    requires
        strength <= 0,
    ensures
        blend_spec(o, t, strength) == o,
{
    assert forall|i: int| 0 <= i < o.len() implies mix(o[i], t[i], 0) == o[i] by {
        assert(o[i] * (ONE - 0) + t[i] * 0 == o[i] * ONE);
    }
    assert(blend_spec(o, t, strength) =~= o);
}

/// A full strength (or more) gives the stylized tensor.
pub proof fn lemma_blend_full(o: Seq<int>, t: Seq<int>, strength: int)
    requires
        o.len() == t.len(),
        strength >= ONE,
    ensures
        blend_spec(o, t, strength) == t,
{
    assert forall|i: int| 0 <= i < o.len() implies mix(o[i], t[i], ONE as int) == t[i] by {
        assert(o[i] * (ONE - ONE) + t[i] * ONE == t[i] * ONE);
    }
    assert(blend_spec(o, t, strength) =~= t);
}

/// Blends `original` toward `stylized` by `strength` millionths, clamped to `[0, ONE]`.
pub fn blend(original: &Vec<i32>, stylized: &Vec<i32>, strength: i64) -> (r: Vec<i32>)
    requires
        original@.len() == stylized@.len(),
    ensures
        r@.len() == original@.len(),
        ints(r@) == blend_spec(ints(original@), ints(stylized@), strength as int),
{
    let s: i64 = clamp_unit(strength);
    let mut out: Vec<i32> = Vec::new();
    let mut i: usize = 0;
    while i < original.len()
        invariant
            original@.len() == stylized@.len(),
            s == clamp_spec(strength as int),
            0 <= s <= ONE,
            i <= original@.len(),
            out@.len() == i,
            forall|k: int|
                0 <= k < i ==> #[trigger] out@[k] as int == mix(
                    original@[k] as int,
                    stylized@[k] as int,
                    s as int,
                ),
        decreases original@.len() - i,
    {
        let o: i64 = original[i] as i64;
        let t: i64 = stylized[i] as i64;
        proof {
            lemma_mix_between(o as int, t as int, s as int);
            assert(-0x80_0000_0000_0000 <= o * (ONE - s) <= 0x80_0000_0000_0000) by (nonlinear_arith)
                requires -0x8000_0000 <= o <= 0x8000_0000, 0 <= ONE - s <= 1_000_000;
            assert(-0x80_0000_0000_0000 <= t * s <= 0x80_0000_0000_0000) by (nonlinear_arith)
                requires -0x8000_0000 <= t <= 0x8000_0000, 0 <= s <= 1_000_000;
        }
        let v: i64 = div_floor(o * (ONE - s) + t * s, ONE);
        out.push(v as i32);
        i = i + 1;
    }
    assert(ints(out@) =~= blend_spec(ints(original@), ints(stylized@), strength as int));
    out
}

} // verus!
