//! Reshaping between the pixel-interleaved tensor layout and the
//! channel-planar layout `[1, channels, height, width]` of a compiled model.
use vstd::prelude::*;
use crate::fixed::lemma_split;

verus! {

/// The channel-planar form of an interleaved RGB tensor of `n` pixels.
pub open spec fn planar_spec(t: Seq<i32>, n: int) -> Seq<i32> {
    Seq::new(t.len(), |k: int| t[(k % n) * 3 + k / n])
}

/// The interleaved form of a channel-planar RGB tensor of `n` pixels.
pub open spec fn interleaved_spec(t: Seq<i32>, n: int) -> Seq<i32> {
    Seq::new(t.len(), |k: int| t[(k % 3) * n + k / 3])
}

/// Reshaping to planar and back gives the interleaved tensor unchanged.
pub proof fn lemma_layout_round_trip(t: Seq<i32>, n: int)
    requires
        n > 0,
        t.len() == 3 * n,
    ensures
        interleaved_spec(planar_spec(t, n), n) == t,
{
    let pl = planar_spec(t, n);
    assert forall|k: int| 0 <= k < t.len() implies pl[(k % 3) * n + k / 3] == t[k] by {
        let c = k % 3;
        let p = k / 3;
        vstd::arithmetic::div_mod::lemma_fundamental_div_mod(k, 3);
        assert(0 <= p < n);
        let j = n * c + p;
        assert(j == c * n + p) by (nonlinear_arith)
            requires j == n * c + p;
        assert(j < 3 * n) by (nonlinear_arith)
            requires j == n * c + p, 0 <= c < 3, 0 <= p < n;
        lemma_split(c, p, n);
        assert(p * 3 + c == k);
    }
    assert(interleaved_spec(pl, n) =~= t);
}

/// Reorders an interleaved RGB tensor of `width` by `height` pixels into the
/// channel-planar layout.
pub fn to_planar(t: &Vec<i32>, width: usize, height: usize) -> (r: Vec<i32>)
    requires
        t@.len() == width * height * 3,
    ensures
        r@.len() == t@.len(),
        r@ == planar_spec(t@, width * height),
        forall|c: int, y: int, x: int|
            0 <= c < 3 && 0 <= y < height && 0 <= x < width ==> #[trigger] r@[c * height * width + y
                * width + x] == t@[(y * width + x) * 3 + c],
{
    let len: usize = t.len();
    assert(width * height <= len) by (nonlinear_arith)
        requires len == width * height * 3;
    let n: usize = width * height;
    let mut r: Vec<i32> = Vec::new();
    let mut c: usize = 0;
    while c < 3
        invariant
            n == width * height,
            t@.len() == 3 * n,
            len == t@.len(),
            c <= 3,
            r@.len() == c * n,
            forall|k: int| 0 <= k < r@.len() ==> #[trigger] r@[k] == t@[(k % n as int) * 3 + k / n as int],
        decreases 3 - c,
    {
        let mut p: usize = 0;
        while p < n
            invariant
                n == width * height,
                t@.len() == 3 * n,
                len == t@.len(),
            len == t@.len(),
                c < 3,
                p <= n,
                r@.len() == c * n + p,
                forall|k: int| 0 <= k < r@.len() ==> #[trigger] r@[k] == t@[(k % n as int) * 3 + k / n as int],
            decreases n - p,
        {
            proof {
                assert(p * 3 + c < len) by (nonlinear_arith)
                    requires p < n, c < 3, len == 3 * n;
                lemma_split(c as int, p as int, n as int);
                assert(n * c + p == c * n + p) by (nonlinear_arith);
            }
            r.push(t[p * 3 + c]);
            p = p + 1;
        }
        proof {
            assert(c * n + n == (c + 1) * n) by (nonlinear_arith);
        }
        c = c + 1;
    }
    assert(r@ =~= planar_spec(t@, width * height));
    proof {
        assert forall|c: int, y: int, x: int|
            0 <= c < 3 && 0 <= y < height && 0 <= x < width implies #[trigger] r@[c * height * width + y
                * width + x] == t@[(y * width + x) * 3 + c] by {
            let p = y * width + x;
            assert(0 <= p < n) by (nonlinear_arith)
                requires p == y * width + x, 0 <= y < height, 0 <= x < width, n == width * height;
            assert(c * height * width + y * width + x == n * c + p) by (nonlinear_arith)
                requires p == y * width + x, n == width * height;
            assert(n * c + p < 3 * n) by (nonlinear_arith)
                requires 0 <= p < n, 0 <= c < 3;
            lemma_split(c, p, n as int);
        }
    }
    r
}

/// Reorders a channel-planar RGB tensor of `width` by `height` pixels into the
/// interleaved layout.
pub fn to_interleaved(t: &Vec<i32>, width: usize, height: usize) -> (r: Vec<i32>)
    requires
        t@.len() == width * height * 3,
    ensures
        r@.len() == t@.len(),
        r@ == interleaved_spec(t@, width * height),
        forall|c: int, y: int, x: int|
            0 <= c < 3 && 0 <= y < height && 0 <= x < width ==> #[trigger] r@[(y * width + x) * 3 + c]
                == t@[c * height * width + y * width + x],
{
    let len: usize = t.len();
    assert(width * height <= len) by (nonlinear_arith)
        requires len == width * height * 3;
    let n: usize = width * height;
    let mut r: Vec<i32> = Vec::new();
    let mut p: usize = 0;
    while p < n
        invariant
            n == width * height,
            t@.len() == 3 * n,
            len == t@.len(),
            p <= n,
            r@.len() == 3 * p,
            forall|k: int| 0 <= k < r@.len() ==> #[trigger] r@[k] == t@[(k % 3) * n + k / 3],
        decreases n - p,
    {
        let mut c: usize = 0;
        while c < 3
            invariant
                n == width * height,
                t@.len() == 3 * n,
                len == t@.len(),
            len == t@.len(),
                p < n,
                c <= 3,
                r@.len() == 3 * p + c,
                forall|k: int| 0 <= k < r@.len() ==> #[trigger] r@[k] == t@[(k % 3) * n + k / 3],
            decreases 3 - c,
        {
            proof {
                assert(c * n + p < len) by (nonlinear_arith)
                    requires p < n, c < 3, len == 3 * n;
                lemma_split(p as int, c as int, 3);
            }
            r.push(t[c * n + p]);
            c = c + 1;
        }
        p = p + 1;
    }
    assert(r@ =~= interleaved_spec(t@, width * height));
    proof {
        assert forall|c: int, y: int, x: int|
            0 <= c < 3 && 0 <= y < height && 0 <= x < width implies #[trigger] r@[(y * width + x) * 3 + c]
                == t@[c * height * width + y * width + x] by {
            let p = y * width + x;
            assert(0 <= p < n) by (nonlinear_arith)
                requires p == y * width + x, 0 <= y < height, 0 <= x < width, n == width * height;
            assert(c * height * width + y * width + x == c * n + p) by (nonlinear_arith)
                requires p == y * width + x, n == width * height;
            assert(p * 3 + c < 3 * n) by (nonlinear_arith)
                requires 0 <= p < n, 0 <= c < 3;
            lemma_split(p, c, 3);
            assert(3 * p + c == p * 3 + c);
        }
    }
    r
}

} // verus!
