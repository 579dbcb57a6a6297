//! Piecewise-linear curves given by sample points `(x, y)` in ascending `x`.
use vstd::prelude::*;
use crate::fixed::{in_range, quot, abs, lemma_quot_exact};
use vstd::arithmetic::div_mod::lemma_div_is_ordered;
use vstd::arithmetic::mul::lemma_mul_inequality;

verus! {

/// At least two points, strictly ascending in `x`, every coordinate in range.
pub open spec fn curve_wf(c: Seq<(i64, i64)>) -> bool {
    &&& c.len() >= 2
    &&& forall|i: int, j: int| 0 <= i < j < c.len() ==> #[trigger] c[i].0 < #[trigger] c[j].0
    &&& forall|i: int| 0 <= i < c.len() ==> in_range(#[trigger] c[i].0 as int) && in_range(c[i].1 as int)
}

/// The point on the straight line through `p` and `q` at `x` (`p.0 < q.0`), rounded toward `p.1`.
pub open spec fn interp(p: (i64, i64), q: (i64, i64), x: int) -> int {
    p.1 + quot((q.1 - p.1) * (x - p.0), q.0 - p.0)
}

/// Index of the segment `(c[i].0, c[i+1].0]` that holds `x`.
pub open spec fn segment_of(c: Seq<(i64, i64)>, x: int) -> int {
    choose|i: int| 0 <= i < c.len() - 1 && c[i].0 < x <= #[trigger] c[i + 1].0
}

/// The curve's value at `x`: the first or last `y` outside the sampled span,
/// the straight line between the two neighbouring points inside it.
pub open spec fn sample_spec(c: Seq<(i64, i64)>, x: int) -> int {
    if x <= c[0].0 {
        c[0].1 as int
    } else if x >= c.last().0 {
        c.last().1 as int
    } else {
        let i = segment_of(c, x);
        interp(c[i], c[i + 1], x)
    }
}

/// A value on a segment lies between the segment's end values.
pub proof fn lemma_interp_between(p: (i64, i64), q: (i64, i64), x: int)
    requires
        p.0 < q.0,
        p.0 <= x <= q.0,
    ensures
        p.1 <= q.1 ==> p.1 <= interp(p, q, x) <= q.1,
        q.1 <= p.1 ==> q.1 <= interp(p, q, x) <= p.1,
{
    let d = q.1 - p.1;
    let u = x - p.0;
    let w = q.0 - p.0;
    assert(abs(d * u) == abs(d) * u) by (nonlinear_arith)
        requires
            u >= 0,
    ;
    lemma_mul_inequality(u, w, abs(d));
    assert(abs(d) * u <= abs(d) * w) by (nonlinear_arith)
        requires
            u * abs(d) <= w * abs(d),
    ;
    lemma_div_is_ordered(0, abs(d) * u, w);
    lemma_div_is_ordered(abs(d) * u, abs(d) * w, w);
    lemma_quot_exact(abs(d), w);
    if d >= 0 {
        assert(d * u >= 0) by (nonlinear_arith)
            requires
                d >= 0,
                u >= 0,
        ;
    } else {
        assert(d * u <= 0) by (nonlinear_arith)
            requires
                d < 0,
                u >= 0,
        ;
    }
}

/// A segment's line passes through both of its end points.
pub proof fn lemma_interp_ends(p: (i64, i64), q: (i64, i64))
    requires
        p.0 < q.0,
    ensures
        interp(p, q, p.0 as int) == p.1,
        interp(p, q, q.0 as int) == q.1,
{
    lemma_quot_exact(q.1 - p.1, q.0 - p.0);
    assert((q.1 - p.1) * (p.0 - p.0) == 0);
}

/// Only one segment holds a point strictly inside the sampled span.
proof fn lemma_segment_unique(c: Seq<(i64, i64)>, x: int, i: int)
    requires
        curve_wf(c),
        0 <= i < c.len() - 1,
        c[i].0 < x <= c[i + 1].0,
    ensures
        segment_of(c, x) == i,
{
    let j = segment_of(c, x);
    assert(0 <= j < c.len() - 1 && c[j].0 < x <= c[j + 1].0);
    if j < i {
        assert(c[j + 1].0 <= c[i].0);
    } else if j > i {
        assert(c[i + 1].0 <= c[j].0);
    }
}

/// Whether the segment from point `i` to point `i + 1` encloses `x`, its ends included.
pub open spec fn brackets(c: Seq<(i64, i64)>, i: int, x: int) -> bool {
    c[i].0 <= x <= c[i + 1].0
}

/// The two adjacent sample points that enclose `x` (the first such pair where
/// `x` is a sample shared by two of them); the first point twice below the
/// sampled span, the last point twice above it.
pub fn closest_points(c: &Vec<(i64, i64)>, x: i64) -> (r: ((i64, i64), (i64, i64)))
    requires
        curve_wf(c@),
    ensures
        x < c@[0].0 ==> r == (c@[0], c@[0]),
        x > c@.last().0 ==> r == (c@.last(), c@.last()),
        c@[0].0 <= x <= c@.last().0 ==> exists|i: int|
            {
                &&& 0 <= i < c@.len() - 1
                &&& #[trigger] brackets(c@, i, x as int)
                &&& r == (c@[i], c@[i + 1])
                &&& forall|j: int| 0 <= j < i ==> !brackets(c@, j, x as int)
            },
{
    let n = c.len();
    if x < c[0].0 {
        return (c[0], c[0]);
    }
    if x > c[n - 1].0 {
        return (c[n - 1], c[n - 1]);
    }
    let mut i: usize = 0;
    while x > c[i + 1].0
        invariant
            curve_wf(c@),
            n == c@.len(),
            0 <= i < n - 1,
            c@[i as int].0 <= x,
            x <= c@[n - 1].0,
            forall|j: int| 0 <= j < i ==> !brackets(c@, j, x as int),
        decreases n - i,
    {
        proof {
            if i + 1 == n - 1 {
                assert(false);
            }
        }
        i = i + 1;
    }
    proof {
        assert(brackets(c@, i as int, x as int));
    }
    (c[i], c[i + 1])
}

/// The value of a piecewise-linear curve at `x`.
pub fn sample_curve(c: &Vec<(i64, i64)>, x: i64) -> (r: i64)
    requires
        curve_wf(c@),
    ensures
        r == sample_spec(c@, x as int),
        in_range(r as int),
{
    let (lo, hi) = closest_points(c, x);
    proof {
        assert(in_range(c@[0].0 as int));
        assert(in_range(c@[c@.len() - 1].0 as int));
        assert(c@[0].0 < c@[c@.len() - 1].0);
        lemma_sample_interpolates(c@, x as int);
    }
    if x < c[0].0 || x > c[c.len() - 1].0 {
        return lo.1;
    }
    let ghost i = choose|i: int|
        {
            &&& 0 <= i < c@.len() - 1
            &&& #[trigger] brackets(c@, i, x as int)
            &&& (lo, hi) == (c@[i], c@[i + 1])
            &&& forall|j: int| 0 <= j < i ==> !brackets(c@, j, x as int)
        };
    proof {
        assert(in_range(c@[i].0 as int) && in_range(c@[i + 1].0 as int));
        assert(c@[i].0 < c@[i + 1].0);
        assert(sample_spec(c@, x as int) == interp(c@[i], c@[i + 1], x as int));
        lemma_interp_between(lo, hi, x as int);
    }
    let d: i128 = hi.1 as i128 - lo.1 as i128;
    let u: i128 = x as i128 - lo.0 as i128;
    let w: i128 = hi.0 as i128 - lo.0 as i128;
    proof {
        assert(-0x1_0000_0000_0000_0000_0000_0000_0000 < d * u < 0x1_0000_0000_0000_0000_0000_0000_0000) by (nonlinear_arith)
            requires
                -0x10_0000_0000_0000 < d < 0x10_0000_0000_0000,
                0 <= u < 0x10_0000_0000_0000,
        ;
    }
    let p: i128 = d * u;
    let q: i128 = if p < 0 { -((-p) / w) } else { p / w };
    proof {
        assert(q == quot(p as int, w as int));
    }
    (lo.1 as i128 + q) as i64
}

/// Exact interpolation on every segment, and constant continuation outside the
/// sampled span: at or below the first point the curve is the first `y`, at or
/// above the last point it is the last `y`, and on any segment whose end points
/// enclose `x` (the ends included) it is that segment's straight line.
pub proof fn lemma_sample_interpolates(c: Seq<(i64, i64)>, x: int)
    requires
        curve_wf(c),
    ensures
        x <= c[0].0 ==> sample_spec(c, x) == c[0].1,
        x >= c.last().0 ==> sample_spec(c, x) == c.last().1,
        forall|i: int|
            0 <= i < c.len() - 1 && c[i].0 <= x <= #[trigger] c[i + 1].0 ==> sample_spec(c, x)
                == interp(c[i], c[i + 1], x),
{
    assert(c[0].0 < c[c.len() - 1].0);
    assert forall|i: int|
        0 <= i < c.len() - 1 && c[i].0 <= x <= #[trigger] c[i + 1].0 implies sample_spec(c, x)
        == interp(c[i], c[i + 1], x) by {
        assert(c[i].0 < c[i + 1].0);
        lemma_interp_ends(c[i], c[i + 1]);
        if x == c[i].0 {
            if i == 0 {
            } else {
                assert(c[i - 1].0 < c[i].0);
                lemma_segment_unique(c, x, i - 1);
                lemma_interp_ends(c[i - 1], c[i]);
            }
        } else if x == c[i + 1].0 && i + 1 == c.len() - 1 {
        } else {
            if i + 1 < c.len() - 1 {
                assert(c[i + 1].0 < c[c.len() - 1].0);
            }
            lemma_segment_unique(c, x, i);
        }
    }
}

proof fn lemma_segment_from(c: Seq<(i64, i64)>, x: int, k: int)
    requires
        curve_wf(c),
        0 <= k < c.len() - 1,
        c[k].0 < x < c.last().0,
    ensures
        0 <= segment_of(c, x) < c.len() - 1,
        c[segment_of(c, x)].0 < x <= c[segment_of(c, x) + 1].0,
    decreases c.len() - k,
{
    if x <= c[k + 1].0 {
        lemma_segment_unique(c, x, k);
    } else {
        lemma_segment_from(c, x, k + 1);
    }
}

/// A curve whose sampled values are all non-negative is non-negative everywhere.
pub proof fn lemma_sample_nonneg(c: Seq<(i64, i64)>, x: int)
    requires
        curve_wf(c),
        forall|i: int| 0 <= i < c.len() ==> 0 <= #[trigger] c[i].1,
    ensures
        0 <= sample_spec(c, x),
{
    if c[0].0 < x < c.last().0 {
        lemma_segment_from(c, x, 0);
        let i = segment_of(c, x);
        assert(0 <= c[i].1 && 0 <= c[i + 1].1);
        assert(c[i].0 < c[i + 1].0);
        lemma_interp_between(c[i], c[i + 1], x);
    }
}

} // verus!
