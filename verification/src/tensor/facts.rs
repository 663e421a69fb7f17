//! Facts about shapes and positions.

use vstd::arithmetic::div_mod::*;
use vstd::arithmetic::mul::*;
use vstd::prelude::*;

use crate::tensor::value::{count, in_range, inner, outer, position, spread_position, spreads};
use crate::tensor::layers::full;

verus! {

/// The elements of a shape, split at an axis.
pub proof fn lemma_split(dims: Seq<usize>, axis: int)
    requires
        0 <= axis < dims.len(),
    ensures
        count(dims) == outer(dims, axis) * dims[axis] * inner(dims, axis),
    decreases axis,
{
    if axis == 0 {
        assert(dims.take(0) =~= Seq::<usize>::empty());
        lemma_mul_basics(dims[0] as int);
    } else {
        let rest = dims.skip(1);
        lemma_split(rest, axis - 1);
        assert(rest.take(axis - 1) =~= dims.take(axis).skip(1));
        assert(rest.skip(axis) =~= dims.skip(axis + 1));
        assert(dims.take(axis)[0] == dims[0]);
        let a = dims[0] as int;
        let b = outer(rest, axis - 1) as int;
        let c = dims[axis] as int;
        let d = inner(dims, axis) as int;
        assert(a * (b * c * d) == (a * b) * c * d) by (nonlinear_arith);
    }
}

/// A place along an axis lies inside the tensor.
pub proof fn lemma_position(dims: Seq<usize>, axis: int, o: int, m: int, i: int)
    requires
        0 <= axis < dims.len(),
        in_range(dims, axis, o, m, i),
    ensures
        0 <= position(dims, axis, o, m, i) < count(dims),
{
    lemma_split(dims, axis);
    let d = dims[axis] as int;
    let n = inner(dims, axis) as int;
    let t = outer(dims, axis) as int;
    assert(0 <= (o * d + m) * n + i < t * d * n) by (nonlinear_arith)
        requires
            0 <= o < t,
            0 <= m < d,
            0 <= i < n,
    ;
}

/// Every position is a place along any axis.
pub proof fn lemma_place(dims: Seq<usize>, axis: int, k: int) -> (p: (int, int, int))
    requires
        0 <= axis < dims.len(),
        0 <= k < count(dims),
    ensures
        in_range(dims, axis, p.0, p.1, p.2),
        position(dims, axis, p.0, p.1, p.2) == k,
        p.2 == k % inner(dims, axis) as int,
{
    lemma_split(dims, axis);
    let d = dims[axis] as int;
    let n = inner(dims, axis) as int;
    let t = outer(dims, axis) as int;
    assert(n > 0 && d > 0) by (nonlinear_arith)
        requires
            0 <= k < t * d * n,
            n >= 0,
            d >= 0,
            t >= 0,
    ;
    let q = k / n;
    let i = k % n;
    lemma_fundamental_div_mod(k, n);
    lemma_mod_bound(k, n);
    let o = q / d;
    let m = q % d;
    lemma_fundamental_div_mod(q, d);
    lemma_mod_bound(q, d);
    assert(q >= 0 && o >= 0 && o < t) by (nonlinear_arith)
        requires
            k == n * q + i,
            0 <= i < n,
            q == d * o + m,
            0 <= m < d,
            0 <= k < t * d * n,
            n > 0,
            d > 0,
    ;
    assert((o * d + m) * n + i == k) by (nonlinear_arith)
        requires
            k == n * q + i,
            q == d * o + m,
    ;
    (o, m, i)
}

/// Shapes of one to four axes, written out.
pub proof fn lemma_counts(a: usize, b: usize, c: usize, d: usize)
    ensures
        count(Seq::<usize>::empty()) == 1,
        count(seq![a]) == a,
        count(seq![a, b]) == a * b,
        count(seq![a, b, c]) == a * (b * c),
        count(seq![a, b, c, d]) == a * (b * (c * d)),
{
    reveal_with_fuel(count, 5);
    lemma_mul_basics(a as int);
    lemma_mul_basics(b as int);
    lemma_mul_basics(c as int);
    lemma_mul_basics(d as int);
    assert(seq![a].skip(1) =~= Seq::<usize>::empty());
    assert(seq![b].skip(1) =~= Seq::<usize>::empty());
    assert(seq![c].skip(1) =~= Seq::<usize>::empty());
    assert(seq![d].skip(1) =~= Seq::<usize>::empty());
    assert(seq![a, b].skip(1) =~= seq![b]);
    assert(seq![b, c].skip(1) =~= seq![c]);
    assert(seq![c, d].skip(1) =~= seq![d]);
    assert(seq![a, b, c].skip(1) =~= seq![b, c]);
    assert(seq![b, c, d].skip(1) =~= seq![c, d]);
    assert(seq![a, b, c, d].skip(1) =~= seq![b, c, d]);
    assert(count(seq![a]) == a);
    assert(count(seq![b]) == b);
    assert(count(seq![c]) == c);
    assert(count(seq![d]) == d);
    assert(count(seq![a, b]) == a * b);
    assert(count(seq![b, c]) == b * c);
    assert(count(seq![c, d]) == c * d);
    assert(count(seq![b, c, d]) == b * (c * d));
}

/// The second axis of shapes of two to four axes.
pub proof fn lemma_second_axis(b: usize, n: usize, h: usize, a: usize)
    ensures
        outer(seq![b, n], 1) == b,
        inner(seq![b, n], 1) == 1,
        outer(seq![b, n, a], 1) == b,
        inner(seq![b, n, a], 1) == a,
        outer(seq![b, n, h, a], 1) == b,
        inner(seq![b, n, h, a], 1) == h * a,
{
    lemma_counts(b, n, h, a);
    lemma_counts(h, a, a, a);
    lemma_counts(a, a, a, a);
    assert(seq![b, n].take(1) =~= seq![b]);
    assert(seq![b, n].skip(2) =~= Seq::<usize>::empty());
    assert(seq![b, n, a].take(1) =~= seq![b]);
    assert(seq![b, n, a].skip(2) =~= seq![a]);
    assert(seq![b, n, h, a].take(1) =~= seq![b]);
    assert(seq![b, n, h, a].skip(2) =~= seq![h, a]);
}

/// Spreading reads inside the tensor that is spread.
pub proof fn lemma_spread_in_range(src: Seq<usize>, dst: Seq<usize>, k: int)
    requires
        spreads(src, dst),
        0 <= k < count(dst),
    ensures
        0 <= spread_position(src, dst, k) < count(src),
    decreases src.len(),
{
    if src.len() > 0 {
        let below = count(dst.skip(1)) as int;
        let first = dst[0] as int;
        assert(below > 0) by (nonlinear_arith)
            requires
                0 <= k < first * below,
                below >= 0,
                first >= 0,
        ;
        lemma_fundamental_div_mod(k, below);
        lemma_mod_bound(k, below);
        let q = k / below;
        let rem = k % below;
        assert(0 <= q < first) by (nonlinear_arith)
            requires
                0 <= k < first * below,
                k == below * q + rem,
                0 <= rem < below,
        ;
        assert forall|j: int| 0 <= j < src.skip(1).len() implies #[trigger] src.skip(1)[j]
            == dst.skip(1)[j] || src.skip(1)[j] == 1 by {
            assert(src.skip(1)[j] == src[j + 1]);
            assert(dst.skip(1)[j] == dst[j + 1]);
        }
        lemma_spread_in_range(src.skip(1), dst.skip(1), rem);
        let place = if src[0] == dst[0] {
            q
        } else {
            0
        };
        let n = count(src.skip(1)) as int;
        let s0 = src[0] as int;
        let tail = spread_position(src.skip(1), dst.skip(1), rem);
        assert(src[0] == dst[0] || src[0] == 1);
        assert(0 <= place * n + tail < s0 * n) by (nonlinear_arith)
            requires
                0 <= place < s0,
                0 <= tail < n,
        ;
    }
}

/// Spreading a last axis over three axes before it repeats it.
pub proof fn lemma_spread_last(b: usize, n: usize, h: usize, a: usize, k: int)
    requires
        0 <= k < count(seq![b, n, h, a]),
    ensures
        spread_position(seq![1usize, 1, 1, a], seq![b, n, h, a], k) == k % a as int,
        a > 0,
{
    lemma_counts(b, n, h, a);
    lemma_counts(n, h, a, a);
    lemma_counts(h, a, a, a);
    lemma_counts(a, a, a, a);
    let (bi, ni, hi, ai) = (b as int, n as int, h as int, a as int);
    assert(ai > 0 && hi > 0 && ni > 0 && bi > 0) by (nonlinear_arith)
        requires
            0 <= k < bi * (ni * (hi * ai)),
            bi >= 0,
            ni >= 0,
            hi >= 0,
            ai >= 0,
    ;
    let k1 = k % (ni * (hi * ai));
    let k2 = k1 % (hi * ai);
    let k3 = k2 % ai;
    assert(ni * (hi * ai) > 0 && hi * ai > 0) by (nonlinear_arith)
        requires
            ni > 0,
            hi > 0,
            ai > 0,
    ;
    lemma_mod_bound(k, ni * (hi * ai));
    lemma_mod_bound(k1, hi * ai);
    lemma_mod_bound(k2, ai);
    lemma_mod_mod(k, hi * ai, ni);
    lemma_mul_is_commutative(ni, hi * ai);
    lemma_mod_mod(k, ai, hi);
    lemma_mul_is_commutative(hi, ai);
    assert(k2 == k % (hi * ai));
    assert(k3 == k % ai);
    // The quotient on an axis that both shapes have once is zero.
    lemma_fundamental_div_mod(k, ni * (hi * ai));
    lemma_fundamental_div_mod(k1, hi * ai);
    lemma_fundamental_div_mod(k2, ai);
    let (q0, q1, q2) = (k / (ni * (hi * ai)), k1 / (hi * ai), k2 / ai);
    assert(bi == 1 ==> q0 == 0) by (nonlinear_arith)
        requires
            0 <= k < bi * (ni * (hi * ai)),
            k == (ni * (hi * ai)) * q0 + k1,
            0 <= k1,
            ni * (hi * ai) > 0,
            q0 >= 0 || q0 < 0,
            k1 < ni * (hi * ai),
    ;
    assert(ni == 1 ==> q1 == 0) by (nonlinear_arith)
        requires
            0 <= k1 < ni * (hi * ai),
            k1 == (hi * ai) * q1 + k2,
            0 <= k2 < hi * ai,
    ;
    assert(hi == 1 ==> q2 == 0) by (nonlinear_arith)
        requires
            0 <= k2 < hi * ai,
            k2 == ai * q2 + k3,
            0 <= k3 < ai,
    ;
    let s4 = seq![1usize, 1, 1, a];
    let d4 = seq![b, n, h, a];
    let s3 = seq![1usize, 1, a];
    let d3 = seq![n, h, a];
    let s2 = seq![1usize, a];
    let d2 = seq![h, a];
    let s1 = seq![a];
    let d1 = seq![a];
    let e = Seq::<usize>::empty();
    assert(s4.skip(1) =~= s3 && d4.skip(1) =~= d3);
    assert(s3.skip(1) =~= s2 && d3.skip(1) =~= d2);
    assert(s2.skip(1) =~= s1 && d2.skip(1) =~= d1);
    assert(s1.skip(1) =~= e && d1.skip(1) =~= e);
    assert(spread_position(e, e, k3 % 1) == 0);
    lemma_div_basics(k3);
    lemma_mul_basics(k3);
    assert(spread_position(s1, d1, k3) == k3);
    assert(spread_position(s2, d2, k2) == k3) by {
        lemma_mul_basics(count(s1) as int);
        assert((if h == 1 { q2 } else { 0 }) == 0);
    }
    assert(spread_position(s3, d3, k1) == k3) by {
        lemma_mul_basics(count(s2) as int);
        assert((if n == 1 { q1 } else { 0 }) == 0);
    }
    assert(spread_position(s4, d4, k) == k3) by {
        lemma_mul_basics(count(s3) as int);
        assert((if b == 1 { q0 } else { 0 }) == 0);
    }
}

/// Spreading one entry of each row over two further axes repeats that entry.
pub proof fn lemma_spread_rows(b: usize, n: usize, h: usize, a: usize, o: int, m: int, i: int)
    requires
        0 <= o < b,
        0 <= m < n,
        0 <= i < h * a,
    ensures
        spread_position(
            seq![b, n, 1usize, 1],
            seq![b, n, h, a],
            (o * n + m) * (h * a) + i,
        ) == o * n + m,
{
    lemma_counts(b, n, h, a);
    lemma_counts(n, h, a, a);
    lemma_counts(h, a, a, a);
    lemma_counts(a, a, a, a);
    lemma_counts(n, 1, 1, 1);
    lemma_counts(1, 1, 1, 1);
    let (ni, hi, ai) = (n as int, h as int, a as int);
    let w = hi * ai;
    let k = (o * ni + m) * w + i;
    assert(ai > 0 && hi > 0) by (nonlinear_arith)
        requires
            0 <= i < hi * ai,
            hi >= 0,
            ai >= 0,
    ;
    let k1 = m * w + i;
    assert(0 <= k1 < ni * w) by (nonlinear_arith)
        requires
            0 <= m < ni,
            0 <= i < w,
            k1 == m * w + i,
    ;
    assert(k == o * (ni * w) + k1) by (nonlinear_arith)
        requires
            k == (o * ni + m) * w + i,
            k1 == m * w + i,
    ;
    lemma_fundamental_div_mod_converse(k, ni * w, o, k1);
    lemma_fundamental_div_mod_converse(k1, w, m, i);
    let k3 = i % ai;
    lemma_fundamental_div_mod(i, ai);
    lemma_mod_bound(i, ai);
    let q2 = i / ai;
    assert(hi == 1 ==> q2 == 0) by (nonlinear_arith)
        requires
            0 <= i < hi * ai,
            i == ai * q2 + k3,
            0 <= k3 < ai,
    ;
    let s4 = seq![b, n, 1usize, 1];
    let d4 = seq![b, n, h, a];
    let s3 = seq![n, 1usize, 1];
    let d3 = seq![n, h, a];
    let s2 = seq![1usize, 1];
    let d2 = seq![h, a];
    let s1 = seq![1usize];
    let d1 = seq![a];
    let e = Seq::<usize>::empty();
    assert(s4.skip(1) =~= s3 && d4.skip(1) =~= d3);
    assert(s3.skip(1) =~= s2 && d3.skip(1) =~= d2);
    assert(s2.skip(1) =~= s1 && d2.skip(1) =~= d1);
    assert(s1.skip(1) =~= e && d1.skip(1) =~= e);
    lemma_div_basics(k3);
    assert(spread_position(e, e, k3 % 1) == 0);
    assert(spread_position(s1, d1, k3) == 0);
    assert(spread_position(s2, d2, i) == 0) by {
        lemma_mul_basics(count(s1) as int);
        assert((if h == 1 { q2 } else { 0 }) == 0);
    }
    assert(count(s2) == 1 && count(s3) == ni);
    lemma_mul_basics(m);
    assert(spread_position(s3, d3, k1) == m);
    assert(spread_position(s4, d4, k) == o * ni + m);
}

/// Spreading a last axis over two axes before it repeats it.
pub proof fn lemma_spread_last_of_three(b: usize, h: usize, a: usize, k: int)
    requires
        0 <= k < count(seq![b, h, a]),
    ensures
        spread_position(seq![1usize, 1, a], seq![b, h, a], k) == k % a as int,
        a > 0,
{
    lemma_counts(1, b, h, a);
    lemma_counts(b, h, a, a);
    lemma_mul_basics(count(seq![b, h, a]) as int);
    lemma_spread_last(1, b, h, a, k);
    let s4 = seq![1usize, 1, 1, a];
    let d4 = seq![1usize, b, h, a];
    assert(s4.skip(1) =~= seq![1usize, 1, a]);
    assert(d4.skip(1) =~= seq![b, h, a]);
    let n = count(seq![b, h, a]) as int;
    lemma_small_mod(k as nat, n as nat);
    lemma_basic_div(k, n);
    lemma_mul_basics(count(seq![1usize, 1, a]) as int);
}

/// A position of `[batch, samples, horizon, action]` and one of a single
/// sequence meet the same action component when they meet the same step.
pub proof fn lemma_component(q: int, h: int, a: int, i: int)
    requires
        a > 0,
    ensures
        (q * (h * a) + i) % a == i % a,
{
    assert(q * (h * a) + i == a * (q * h) + i) by (nonlinear_arith);
    lemma_mod_multiples_vanish(q * h, i, a);
}

/// One more axis multiplies the number of elements.
pub proof fn lemma_count_push(dims: Seq<usize>, x: usize)
    ensures
        count(dims.push(x)) == count(dims) * x,
    decreases dims.len(),
{
    if dims.len() == 0 {
        assert(dims.push(x) =~= seq![x]);
        lemma_counts(x, x, x, x);
        lemma_mul_basics(x as int);
    } else {
        lemma_count_push(dims.skip(1), x);
        assert(dims.push(x).skip(1) =~= dims.skip(1).push(x));
        lemma_mul_is_associative(dims[0] as int, count(dims.skip(1)) as int, x as int);
    }
}

/// The last axis, split off.
pub proof fn lemma_count_last(dims: Seq<usize>)
    requires
        dims.len() > 0,
    ensures
        count(dims) == count(dims.drop_last()) * dims.last(),
{
    lemma_count_push(dims.drop_last(), dims.last());
    assert(dims.drop_last().push(dims.last()) =~= dims);
}

/// The number of elements of a shape of five axes.
pub proof fn lemma_five(a: usize, b: usize, c: usize, d: usize, e: usize)
    ensures
        count(seq![a, b, c, d, e]) == a * (b * (c * (d * e))),
{
    let s = seq![a, b, c, d, e];
    assert(s.skip(1) =~= seq![b, c, d, e]);
    lemma_counts(b, c, d, e);
}

/// A shape without an empty axis has elements.
pub proof fn lemma_full_count(dims: Seq<usize>)
    requires
        full(dims),
    ensures
        count(dims) > 0,
    decreases dims.len(),
{
    if dims.len() > 0 {
        let rest = dims.skip(1);
        assert forall|k: int| 0 <= k < rest.len() implies #[trigger] rest[k] > 0 by {
            assert(rest[k] == dims[k + 1]);
        }
        lemma_full_count(rest);
        assert(dims[0] > 0);
        vstd::arithmetic::mul::lemma_mul_strictly_positive(dims[0] as int, count(rest) as int);
    }
}

/// Spreading over the same shape changes nothing.
pub proof fn lemma_spread_same(dims: Seq<usize>, k: int)
    requires
        0 <= k < count(dims),
    ensures
        spread_position(dims, dims, k) == k,
    decreases dims.len(),
{
    if dims.len() > 0 {
        let rest = dims.skip(1);
        let (d, below) = (dims[0] as int, count(rest) as int);
        assert(count(dims) == d * below);
        assert(below > 0) by (nonlinear_arith)
            requires
                0 <= k < d * below,
                below >= 0,
        ;
        lemma_fundamental_div_mod(k, below);
        lemma_mod_bound(k, below);
        lemma_spread_same(rest, k % below);
        assert(k / below * below == below * (k / below)) by (nonlinear_arith);
    }
}

/// Spreading an axis of size one behind the first repeats each entry of the first.
pub proof fn lemma_spread_inserted(b: usize, n: usize, rest: Seq<usize>, o: int, m: int, i: int)
    requires
        0 <= o < b,
        0 <= m < n,
        0 <= i < count(rest),
    ensures
        spread_position(
            seq![b, 1usize] + rest,
            seq![b, n] + rest,
            (o * n + m) * count(rest) + i,
        ) == o * count(rest) + i,
        count(seq![b, n] + rest) == b * n * count(rest),
        count(seq![b, 1usize] + rest) == b * count(rest),
{
    let (src, dst) = (seq![b, 1usize] + rest, seq![b, n] + rest);
    let (s1, d1) = (src.skip(1), dst.skip(1));
    let (w, bi, ni) = (count(rest) as int, b as int, n as int);
    assert(s1 =~= seq![1usize] + rest);
    assert(d1 =~= seq![n] + rest);
    assert(s1.skip(1) =~= rest);
    assert(d1.skip(1) =~= rest);
    assert(count(d1) == ni * w);
    assert(count(s1) == 1 * w);
    assert(count(dst) == bi * count(d1));
    assert(count(src) == bi * count(s1));
    assert(bi * (ni * w) == bi * ni * w) by (nonlinear_arith);
    let k = (o * ni + m) * w + i;
    let k1 = m * w + i;
    assert(k == (ni * w) * o + k1 && 0 <= k1 < ni * w) by (nonlinear_arith)
        requires
            k == (o * ni + m) * w + i,
            k1 == m * w + i,
            0 <= m < ni,
            0 <= i < w,
    ;
    vstd::arithmetic::div_mod::lemma_fundamental_div_mod_converse(k, ni * w, o, k1);
    assert(k1 == w * m + i) by (nonlinear_arith)
        requires
            k1 == m * w + i,
    ;
    vstd::arithmetic::div_mod::lemma_fundamental_div_mod_converse(k1, w, m, i);
    lemma_spread_same(rest, i);
    lemma_mul_basics(w);
    let place = if n == 1 {
        m
    } else {
        0
    };
    assert(place == 0);
    assert(spread_position(s1, d1, k1) == 0 * w + i);
}

/// Spreading a last axis over the axes before it repeats it.
pub proof fn lemma_spread_onto_last(dst: Seq<usize>, k: int)
    requires
        dst.len() > 0,
        0 <= k < count(dst),
    ensures
        spread_position(
            Seq::new((dst.len() - 1) as nat, |j: int| 1usize).push(dst.last()),
            dst,
            k,
        ) == k % dst.last() as int,
        dst.last() > 0,
    decreases dst.len(),
{
    let n = dst.last();
    let src = Seq::new((dst.len() - 1) as nat, |j: int| 1usize).push(n);
    let rest = dst.skip(1);
    let below = count(rest) as int;
    let d = dst[0] as int;
    assert(count(dst) == d * below);
    assert(below > 0 && d > 0) by (nonlinear_arith)
        requires
            0 <= k < d * below,
            below >= 0,
            d >= 0,
    ;
    lemma_fundamental_div_mod(k, below);
    lemma_mod_bound(k, below);
    if dst.len() == 1 {
        assert(rest =~= Seq::<usize>::empty());
        assert(src.skip(1) =~= Seq::<usize>::empty());
        assert(count(Seq::<usize>::empty()) == 1);
        assert(spread_position(src.skip(1), rest, k % below) == 0);
        assert(src[0] == n && dst[0] == n);
        assert(spread_position(src, dst, k) == k / below * count(src.skip(1)) + 0);
        lemma_mul_basics(d);
        lemma_div_basics(k);
        lemma_small_mod(k as nat, n as nat);
    } else {
        lemma_spread_onto_last(rest, k % below);
        assert(rest.last() == n);
        assert(src.skip(1) =~= Seq::new((rest.len() - 1) as nat, |j: int| 1usize).push(n));
        lemma_count_last(rest);
        let m = count(rest.drop_last()) as int;
        assert(below == m * n);
        assert(m > 0) by (nonlinear_arith)
            requires
                below == m * n,
                below > 0,
                m >= 0,
                n >= 0,
        ;
        assert(src[0] == 1);
        if d == 1 {
            assert(k / below == 0) by {
                lemma_mul_basics(below);
                lemma_basic_div(k, below);
            }
        }
        lemma_mul_basics(count(src.skip(1)) as int);
        assert(spread_position(src, dst, k) == spread_position(src.skip(1), rest, k % below));
        assert(below == n * m) by (nonlinear_arith)
            requires
                below == m * n,
        ;
        lemma_mod_mod(k, n as int, m);
    }
}

/// Spreading over a first axis repeats everything behind it.
pub proof fn lemma_spread_first(t: usize, rest: Seq<usize>, o: int, k: int)
    requires
        0 <= o < t,
        0 <= k < count(rest),
    ensures
        spread_position(seq![1usize] + rest, seq![t] + rest, o * count(rest) + k) == k,
        0 <= o * count(rest) + k < count(seq![t] + rest),
{
    let (src, dst) = (seq![1usize] + rest, seq![t] + rest);
    assert(src.skip(1) =~= rest);
    assert(dst.skip(1) =~= rest);
    let (ti, w) = (t as int, count(rest) as int);
    assert(count(dst) == ti * w);
    let p = o * w + k;
    assert(p == w * o + k && 0 <= p < ti * w) by (nonlinear_arith)
        requires
            p == o * w + k,
            0 <= o < ti,
            0 <= k < w,
    ;
    lemma_fundamental_div_mod_converse(p, w, o, k);
    lemma_spread_same(rest, k);
    lemma_mul_basics(w);
}

} // verus!
