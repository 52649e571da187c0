//! The deterministic closed-form transforms that stand in for each style's model.
use vstd::prelude::*;
use crate::codec::ints;
use crate::fixed::{
    clamp_spec, clamp_unit, cosine_of_multiple, cosine_spec, div_floor, sine_milli, sine_of_multiple,
    sine_spec, ONE,
};
use crate::registry::Style;

verus! {

/// `p` scaled by `pct` percent, rounded down.
pub open spec fn percent(p: int, pct: int) -> int {
    p * pct / 100
}

/// Colour boost of the painterly swirl, in percent, by channel.
pub open spec fn swirl_boost(c: int) -> int {
    if c == 0 {
        140
    } else if c == 1 {
        120
    } else {
        110
    }
}

/// Side, in pixels, of the square blocks of the geometric style.
pub const BLOCK_SIZE: u64 = 16;

/// Whether a pixel lies on a block boundary of the geometric style: the first
/// column or the first row of its block.
pub open spec fn cubist_edge(x: int, y: int) -> bool {
    x % (BLOCK_SIZE as int) == 0 || y % (BLOCK_SIZE as int) == 0
}

/// The neon glow at a pixel, in millionths.
pub open spec fn neon_glow(x: int, y: int) -> int {
    let s = sine_spec(10 * (x + y));
    200 * (if s < 0 {
        -s
    } else {
        s
    })
}

/// The quantization level, from 0 to 6, of the cel-shaded style.
pub open spec fn cel_level(p: int) -> int {
    let q = (6 * p + ONE / 2) / (ONE as int);
    if q < 0 {
        0
    } else if q > 6 {
        6
    } else {
        q
    }
}

/// The cel-shaded value: quantized, then boosted above the midpoint and dampened below.
pub open spec fn cel_value(p: int) -> int {
    let v = cel_level(p) * ONE / 6;
    if v > ONE / 2 {
        clamp_spec(percent(v, 130))
    } else {
        percent(v, 90)
    }
}

/// The value that a style gives an element `p` of channel `c` at pixel `(x, y)`,
/// the pixel being number `pos` in raster order.
pub open spec fn style_value(s: Style, p: int, c: int, x: int, y: int, pos: int) -> int {
    match s {
        Style::VanGoghStarryNight => clamp_spec(
            percent(p, swirl_boost(c)) + 100 * sine_spec(20 * x) + 100 * cosine_spec(20 * y)
                + 100_000,
        ),
        Style::PicassoCubist => if cubist_edge(x, y) {
            clamp_spec(2 * p)
        } else {
            clamp_spec(percent(p, 60) + 200_000)
        },
        Style::CyberpunkNeon => clamp_spec(
            if c == 0 {
                percent(p, 130) + neon_glow(x, y)
            } else if c == 1 {
                percent(p, 80)
            } else {
                percent(p, 150) + neon_glow(x, y)
            },
        ),
        Style::MonetWaterLilies => clamp_spec(percent(p, 110) + 50 * (1000 + sine_spec(pos))),
        Style::AnimeStudioGhibli => cel_value(p),
    }
}

/// The simulated output of a style on an interleaved RGB tensor of rows `w` pixels wide.
pub open spec fn simulate_spec(s: Style, t: Seq<int>, w: int) -> Seq<int> {
    Seq::new(
        t.len(),
        |i: int| style_value(s, t[i], i % 3, (i / 3) % w, (i / 3) / w, i / 3),
    )
}

/// Every value a style produces lies in `[0, ONE]`.
pub proof fn lemma_style_value_in_unit(s: Style, p: int, c: int, x: int, y: int, pos: int)
    ensures
        0 <= style_value(s, p, c, x, y, pos) <= ONE,
{
    if s == Style::AnimeStudioGhibli {
        let q = cel_level(p);
        let v = q * ONE / 6;
        assert(0 <= v <= ONE) by (nonlinear_arith)
            requires 0 <= q <= 6, v == q * 1_000_000 / 6;
        assert(0 <= percent(v, 90) <= ONE) by (nonlinear_arith)
            requires 0 <= v <= 1_000_000;
    }
}

/// The simulated transform is a function of its inputs: equal tensors give
/// element-for-element identical outputs.
pub proof fn lemma_simulation_deterministic(
    s: Style,
    t: Seq<i32>,
    w: int,
    r1: Seq<i32>,
    r2: Seq<i32>,
)
    requires
        ints(r1) == simulate_spec(s, ints(t), w),
        ints(r2) == simulate_spec(s, ints(t), w),
    ensures
        r1 == r2,
{
    assert(r1.len() == ints(r1).len());
    assert(r2.len() == ints(r2).len());
    assert forall|i: int| 0 <= i < r1.len() implies r1[i] == r2[i] by {
        assert(ints(r1)[i] == r1[i] as int);
        assert(ints(r2)[i] == r2[i] as int);
    }
    assert(r1 =~= r2);
}

/// `p` scaled by `pct` percent, rounded down.
fn scale(p: i64, pct: i64) -> (r: i64)
    requires
        -0x1_0000_0000 <= p <= 0x1_0000_0000,
        0 <= pct <= 200,
    ensures
        r == percent(p as int, pct as int),
{
    assert(-0x100_0000_0000 <= p * pct <= 0x100_0000_0000) by (nonlinear_arith)
        requires -0x1_0000_0000 <= p <= 0x1_0000_0000, 0 <= pct <= 200;
    div_floor(p * pct, 100)
}

fn cel(p: i64) -> (r: i64)
    requires
        -0x8000_0000 <= p <= 0x8000_0000,
    ensures
        r == cel_value(p as int),
{
    let q0: i64 = div_floor(6 * p + ONE / 2, ONE);
    let q: i64 = if q0 < 0 {
        0
    } else if q0 > 6 {
        6
    } else {
        q0
    };
    let v: i64 = q * ONE / 6;
    if v > ONE / 2 {
        clamp_unit(scale(v, 130))
    } else {
        scale(v, 90)
    }
}

/// The value that `style` gives element `p` of channel `c` at pixel `(x, y)`,
/// the pixel being number `pos` in raster order.
pub fn style_element(style: Style, p: i32, c: usize, x: u64, y: u64, pos: u64) -> (r: i32)
    requires
        c < 3,
        x + y <= u64::MAX,
    ensures
        r == style_value(style, p as int, c as int, x as int, y as int, pos as int),
        0 <= r <= ONE,
{
    proof {
        lemma_style_value_in_unit(style, p as int, c as int, x as int, y as int, pos as int);
    }
    let p: i64 = p as i64;
    let v: i64 = match style {
        Style::VanGoghStarryNight => {
            let boost: i64 = if c == 0 {
                140
            } else if c == 1 {
                120
            } else {
                110
            };
            let swirl_x: i64 = 100 * sine_of_multiple(20, x);
            let swirl_y: i64 = 100 * cosine_of_multiple(20, y);
            clamp_unit(scale(p, boost) + swirl_x + swirl_y + 100_000)
        },
        Style::PicassoCubist => {
            if x % BLOCK_SIZE == 0 || y % BLOCK_SIZE == 0 {
                clamp_unit(2 * p)
            } else {
                clamp_unit(scale(p, 60) + 200_000)
            }
        },
        Style::CyberpunkNeon => {
            let s: i64 = sine_of_multiple(10, x + y);
            let glow: i64 = 200 * (if s < 0 {
                -s
            } else {
                s
            });
            let shifted: i64 = if c == 0 {
                scale(p, 130) + glow
            } else if c == 1 {
                scale(p, 80)
            } else {
                scale(p, 150) + glow
            };
            clamp_unit(shifted)
        },
        Style::MonetWaterLilies => {
            let soft_light: i64 = 50 * (1000 + sine_milli(pos));
            clamp_unit(scale(p, 110) + soft_light)
        },
        Style::AnimeStudioGhibli => cel(p),
    };
    v as i32
}

/// Runs a style's simulated transform over an interleaved RGB tensor whose rows
/// are `width` pixels wide.
pub fn simulate(style: Style, input: &Vec<i32>, width: u32) -> (r: Vec<i32>)
    requires
        width > 0,
    ensures
        r@.len() == input@.len(),
        ints(r@) == simulate_spec(style, ints(input@), width as int),
        forall|i: int| 0 <= i < r@.len() ==> 0 <= #[trigger] r@[i] <= ONE,
{
    let mut out: Vec<i32> = Vec::new();
    let w: u64 = width as u64;
    let mut i: usize = 0;
    while i < input.len()
        invariant
            w == width,
            w > 0,
            i <= input@.len(),
            out@.len() == i,
            forall|k: int|
                0 <= k < i ==> #[trigger] out@[k] as int == simulate_spec(
                    style,
                    ints(input@),
                    width as int,
                )[k],
            forall|k: int| 0 <= k < i ==> 0 <= #[trigger] out@[k] <= ONE,
        decreases input@.len() - i,
    {
        let pos: u64 = (i / 3) as u64;
        proof {
            assert(pos % w <= pos) by (nonlinear_arith)
                requires w > 0;
            assert(pos / w <= pos) by (nonlinear_arith)
                requires w > 0;
            assert(pos * 3 <= i);
        }
        let v = style_element(style, input[i], i % 3, pos % w, pos / w, pos);
        out.push(v);
        i = i + 1;
    }
    assert(ints(out@) =~= simulate_spec(style, ints(input@), width as int));
    out
}

} // verus!
