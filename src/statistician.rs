//! Constant-memory accumulator of nanosecond timings.
//!
//! The accumulator keeps the count, the sum and the sum of squares of the
//! observations, all in exact integer arithmetic, together with the extrema.
//! From these it answers the mean and the population and sample variances as
//! exact fractions; `scaled_m2` is `n` times Welford's running sum of squared
//! deviations, and `lemma_welford_step` shows that it follows Welford's update.
use vstd::prelude::*;

verus! {

/// Sum of the observations.
pub open spec fn sum_of(s: Seq<u64>) -> int
    decreases s.len(),
{
    if s.len() == 0 {
        0
    } else {
        sum_of(s.drop_last()) + s.last()
    }
}

/// Sum of the squares of the observations.
pub open spec fn sum_sq_of(s: Seq<u64>) -> int
    decreases s.len(),
{
    if s.len() == 0 {
        0
    } else {
        sum_sq_of(s.drop_last()) + s.last() * s.last()
    }
}

/// Sum of the squared distances of the observations from `c`.
pub open spec fn dev_sum(s: Seq<u64>, c: int) -> int
    decreases s.len(),
{
    if s.len() == 0 {
        0
    } else {
        dev_sum(s.drop_last(), c) + (s.last() - c) * (s.last() - c)
    }
}

/// `n * m2`, where `m2` is the sum of squared deviations from the mean:
/// `n * Σx² - (Σx)²`.
pub open spec fn scaled_m2(s: Seq<u64>) -> int {
    s.len() * sum_sq_of(s) - sum_of(s) * sum_of(s)
}

/// `m` is the largest observation of a non-empty `s`.
pub open spec fn is_max_of(m: u64, s: Seq<u64>) -> bool {
    s.contains(m) && forall|i: int| 0 <= i < s.len() ==> s[i] <= m
}

/// `m` is the smallest observation of a non-empty `s`.
pub open spec fn is_min_of(m: u64, s: Seq<u64>) -> bool {
    s.contains(m) && forall|i: int| 0 <= i < s.len() ==> m <= s[i]
}

/// The observations fit the accumulator's integer fields: the count in a
/// `u64`, the sum and `n * Σx²` in a `u128`.
pub open spec fn fits(s: Seq<u64>) -> bool {
    s.len() <= u64::MAX && sum_of(s) <= u128::MAX && s.len() * sum_sq_of(s) <= u128::MAX
}

/// An exact fraction `num / den`.
#[derive(Clone, Copy, Debug, PartialEq, Eq)]
pub struct Ratio {
    pub num: u128,
    pub den: u128,
}

/// Online accumulator of observations.
pub struct Statistician {
    size: u64,
    sum: u128,
    sum_sq: u128,
    max: u64,
    min: u64,
    obs: Ghost<Seq<u64>>,
}

impl View for Statistician {
    type V = Seq<u64>;

    /// The observations fed so far, in order.
    closed spec fn view(&self) -> Seq<u64> {
        self.obs@
    }
}

impl Statistician {
    pub closed spec fn wf(&self) -> bool {
        &&& fits(self.obs@)
        &&& self.size == self.obs@.len()
        &&& self.sum == sum_of(self.obs@)
        &&& self.sum_sq == sum_sq_of(self.obs@)
        &&& self.obs@.len() == 0 ==> self.max == u64::MIN && self.min == u64::MAX
        &&& self.obs@.len() > 0 ==> is_max_of(self.max, self.obs@) && is_min_of(self.min, self.obs@)
    }

    /// An accumulator with no observations; the extrema hold their sentinels.
    pub fn new() -> (r: Statistician)
        ensures
            r.wf(),
            r@ == Seq::<u64>::empty(),
    {
        Statistician {
            size: 0,
            sum: 0,
            sum_sq: 0,
            max: u64::MIN,
            min: u64::MAX,
            obs: Ghost(Seq::empty()),
        }
    }

    /// Whether `update(x)` keeps every field within its integer type.
    pub fn can_update(&self, x: u64) -> (r: bool)
        requires
            self.wf(),
        ensures
            r == fits(self@.push(x)),
    {
        proof {
            lemma_push(self@, x);
        }
        if self.size == u64::MAX {
            return false;
        }
        let n: u128 = self.size as u128 + 1;
        proof {
            assert((x as u128) * (x as u128) <= u64::MAX * u64::MAX) by (nonlinear_arith)
                requires x <= u64::MAX;
        }
        let xx: u128 = (x as u128) * (x as u128);
        match self.sum.checked_add(x as u128) {
            None => false,
            Some(_) => match self.sum_sq.checked_add(xx) {
                None => {
                    proof {
                        assert(n * (self.sum_sq + xx) >= self.sum_sq + xx) by (nonlinear_arith)
                            requires n >= 1, self.sum_sq + xx >= 0;
                    }
                    false
                },
                Some(q) => n.checked_mul(q).is_some(),
            },
        }
    }

    /// Feeds one observation.
    pub fn update(&mut self, x: u64)
        requires
            old(self).wf(),
            fits(old(self)@.push(x)),
        ensures
            final(self).wf(),
            final(self)@ == old(self)@.push(x),
    {
        let ghost s = self.obs@;
        let ghost t = s.push(x);
        proof {
            lemma_push(s, x);
            let n = t.len() as int;
            let q = sum_sq_of(t);
            assert(n * q >= q) by (nonlinear_arith)
                requires n >= 1, q >= 0;
        }
        let first = self.size == 0;
        self.size = self.size + 1;
        self.sum = self.sum + x as u128;
        self.sum_sq = self.sum_sq + (x as u128) * (x as u128);
        self.max = if first || x > self.max { x } else { self.max };
        self.min = if first || x < self.min { x } else { self.min };
        self.obs = Ghost(t);
        proof {
            assert(t[t.len() - 1] == x);
            if s.len() > 0 {
                assert(t.contains(self.max) && t.contains(self.min)) by {
                    if self.max != x {
                        let i = choose|i: int| 0 <= i < s.len() && s[i] == self.max;
                        assert(t[i] == self.max);
                    }
                    if self.min != x {
                        let i = choose|i: int| 0 <= i < s.len() && s[i] == self.min;
                        assert(t[i] == self.min);
                    }
                }
            }
        }
    }

    /// Number of observations.
    pub fn size(&self) -> (r: u64)
        requires
            self.wf(),
        ensures
            r == self@.len(),
    {
        self.size
    }

    /// Sum of the observations.
    pub fn sum(&self) -> (r: u128)
        requires
            self.wf(),
        ensures
            r == sum_of(self@),
    {
        self.sum
    }

    /// Largest observation; `u64::MIN` before the first one.
    pub fn max(&self) -> (r: u64)
        requires
            self.wf(),
        ensures
            self@.len() > 0 ==> is_max_of(r, self@),
            self@.len() == 0 ==> r == u64::MIN,
    {
        self.max
    }

    /// Smallest observation; `u64::MAX` before the first one.
    pub fn min(&self) -> (r: u64)
        requires
            self.wf(),
        ensures
            self@.len() > 0 ==> is_min_of(r, self@),
            self@.len() == 0 ==> r == u64::MAX,
    {
        self.min
    }

    /// Arithmetic mean as `Σx / n`; `0 / 1` with no observations.
    pub fn mean(&self) -> (r: Ratio)
        requires
            self.wf(),
        ensures
            self@.len() > 0 ==> r.num == sum_of(self@) && r.den == self@.len(),
            self@.len() == 0 ==> r.num == 0 && r.den == 1,
    {
        if self.size == 0 {
            Ratio { num: 0, den: 1 }
        } else {
            Ratio { num: self.sum, den: self.size as u128 }
        }
    }

    /// `n * m2`, computed exactly.
    fn scaled_m2(&self) -> (r: u128)
        requires
            self.wf(),
        ensures
            r == scaled_m2(self@),
    {
        proof {
            lemma_scaled_m2_nonneg(self@);
        }
        let n: u128 = self.size as u128;
        let nq: u128 = n * self.sum_sq;
        let ss: u128 = self.sum * self.sum;
        nq - ss
    }

    /// Population variance `m2 / n` as `(n·Σx² - (Σx)²) / n²`; `0 / 1` with
    /// fewer than two observations.
    pub fn pvariance(&self) -> (r: Ratio)
        requires
            self.wf(),
        ensures
            self@.len() > 1 ==> r.num == scaled_m2(self@) && r.den == self@.len()
                * self@.len(),
            self@.len() <= 1 ==> r.num == 0 && r.den == 1,
    {
        if self.size <= 1 {
            Ratio { num: 0, den: 1 }
        } else {
            let n: u128 = self.size as u128;
            proof {
                assert(n * n <= u64::MAX * u64::MAX) by (nonlinear_arith)
                    requires n <= u64::MAX;
            }
            Ratio { num: self.scaled_m2(), den: n * n }
        }
    }

    /// Sample variance `m2 / (n - 1)` as `(n·Σx² - (Σx)²) / (n·(n - 1))`;
    /// `0 / 1` with fewer than two observations.
    pub fn svariance(&self) -> (r: Ratio)
        requires
            self.wf(),
        ensures
            self@.len() > 1 ==> r.num == scaled_m2(self@) && r.den == self@.len() * (
            self@.len() - 1),
            self@.len() <= 1 ==> r.num == 0 && r.den == 1,
    {
        if self.size <= 1 {
            Ratio { num: 0, den: 1 }
        } else {
            let n: u128 = self.size as u128;
            proof {
                assert(n * (n - 1) <= u64::MAX * u64::MAX) by (nonlinear_arith)
                    requires 1 < n <= u64::MAX;
            }
            Ratio { num: self.scaled_m2(), den: n * (n - 1) }
        }
    }
}

impl Default for Statistician {
    fn default() -> (r: Statistician)
        ensures
            r.wf(),
            r@ == Seq::<u64>::empty(),
    {
        Statistician::new()
    }
}

/// Welford's update, in exact arithmetic: with `n` earlier observations of
/// sum `S`, feeding `x` turns `m2` into `m2 + δ·(x - mean')`, where
/// `δ = x - S/n` and `mean' = (S + x)/(n + 1)`. Scaled by `n·(n + 1)`, with
/// `W = n·m2` and `W' = (n + 1)·m2'`, this reads `n·W' = (n + 1)·W + (n·x - S)²`.
pub proof fn lemma_welford_step(s: Seq<u64>, x: u64)
    ensures
        s.len() * scaled_m2(s.push(x)) == (s.len() + 1) * scaled_m2(s) + (s.len() * x - sum_of(
            s,
        )) * (s.len() * x - sum_of(s)),
{
    lemma_push(s, x);
    lemma_dev_sum(s, x as int);
    lemma_scaled_m2_push(s, x);
    let n = s.len() as int;
    let q = sum_sq_of(s);
    let t = sum_of(s);
    let xi = x as int;
    let w = scaled_m2(s);
    let xt = xi * t;
    let xx = xi * xi;
    let r = q - 2 * xt + n * xx;
    assert(n * (w + r) == n * w + n * r) by (nonlinear_arith);
    assert(n * r == n * q - 2 * (n * xt) + n * (n * xx)) by (nonlinear_arith)
        requires
            r == q - 2 * xt + n * xx,
    ;
    assert(2 * xi * t == 2 * xt && n * xi * xi == n * xx) by (nonlinear_arith)
        requires
            xt == xi * t,
            xx == xi * xi,
    ;
    assert((n + 1) * w == n * w + w) by (nonlinear_arith);
    assert((n * xi - t) * (n * xi - t) == n * (n * xx) - 2 * (n * xt) + t * t) by (nonlinear_arith)
        requires
            xt == xi * t,
            xx == xi * xi,
    ;
    assert(w == n * q - t * t);
}

/// After a single observation `v` the mean is `v`, both extrema are `v` and
/// the sum of squared deviations is zero, so both variances are zero.
pub proof fn lemma_single_observation(v: u64)
    ensures
        seq![v].len() == 1,
        sum_of(seq![v]) == v,
        is_max_of(v, seq![v]),
        is_min_of(v, seq![v]),
        scaled_m2(seq![v]) == 0,
{
    let s = seq![v];
    assert(s =~= Seq::<u64>::empty().push(v));
    lemma_push(Seq::<u64>::empty(), v);
    assert(s[0] == v);
    assert(s.contains(v));
}

/// With no observations the sum, the sum of squares and the sum of squared
/// deviations are all zero.
pub proof fn lemma_no_observations()
    ensures
        sum_of(Seq::<u64>::empty()) == 0,
        sum_sq_of(Seq::<u64>::empty()) == 0,
        scaled_m2(Seq::<u64>::empty()) == 0,
{
}

/// Removing the observation at `k` takes it off the running sums.
pub proof fn lemma_remove(s: Seq<u64>, k: int)
    requires
        0 <= k < s.len(),
    ensures
        sum_of(s) == sum_of(s.remove(k)) + s[k],
        sum_sq_of(s) == sum_sq_of(s.remove(k)) + s[k] * s[k],
    decreases s.len(),
{
    if k == s.len() - 1 {
        assert(s.remove(k) =~= s.drop_last());
    } else {
        let p = s.drop_last();
        lemma_remove(p, k);
        assert(s.remove(k) =~= p.remove(k).push(s.last()));
        lemma_push(p.remove(k), s.last());
    }
}

/// Feeding the same multiset of observations in any order gives the same
/// count, sum and sum of squares, hence the same mean and variances.
pub proof fn lemma_order_independent(a: Seq<u64>, b: Seq<u64>)
    requires
        a.to_multiset() == b.to_multiset(),
    ensures
        a.len() == b.len(),
        sum_of(a) == sum_of(b),
        sum_sq_of(a) == sum_sq_of(b),
        scaled_m2(a) == scaled_m2(b),
    decreases a.len(),
{
    broadcast use vstd::seq_lib::group_to_multiset_ensures;
    broadcast use vstd::multiset::group_multiset_axioms;

    if a.len() > 0 {
        let p = a.drop_last();
        let x = a.last();
        assert(p.push(x) =~= a);
        assert(b.to_multiset().count(x) > 0);
        assert(b.contains(x));
        let k = choose|k: int| 0 <= k < b.len() && b[k] == x;
        let c = b.remove(k);
        assert(p.to_multiset() =~= c.to_multiset());
        lemma_order_independent(p, c);
        lemma_push(p, x);
        lemma_remove(b, k);
    } else {
        assert(a.to_multiset().len() == a.len());
        assert(b.to_multiset().len() == b.len());
    }
}

/// The running sums after one more observation.
pub proof fn lemma_push(s: Seq<u64>, x: u64)
    ensures
        s.push(x).drop_last() == s,
        s.push(x).last() == x,
        sum_of(s.push(x)) == sum_of(s) + x,
        sum_sq_of(s.push(x)) == sum_sq_of(s) + x * x,
{
    assert(s.push(x).drop_last() =~= s);
}

/// `Σ(x - c)² = Σx² - 2c·Σx + n·c²`, and it is never negative.
pub proof fn lemma_dev_sum(s: Seq<u64>, c: int)
    ensures
        dev_sum(s, c) == sum_sq_of(s) - 2 * c * sum_of(s) + s.len() * c * c,
        dev_sum(s, c) >= 0,
    decreases s.len(),
{
    if s.len() > 0 {
        let p = s.drop_last();
        let x = s.last() as int;
        lemma_dev_sum(p, c);
        let n = p.len() as int;
        let dp = dev_sum(p, c);
        let qp = sum_sq_of(p);
        let sp = sum_of(p);
        assert((x - c) * (x - c) >= 0) by (nonlinear_arith);
        assert(dp + (x - c) * (x - c) == (qp + x * x) - 2 * c * (sp + x) + (n + 1) * c * c)
            by (nonlinear_arith)
            requires
                dp == qp - 2 * c * sp + n * c * c,
        ;
    }
}

/// How `n * m2` grows when `x` is fed: by `Σ(xᵢ - x)²` over the earlier ones.
pub proof fn lemma_scaled_m2_push(s: Seq<u64>, x: u64)
    ensures
        scaled_m2(s.push(x)) == scaled_m2(s) + dev_sum(s, x as int),
{
    lemma_push(s, x);
    lemma_dev_sum(s, x as int);
    let n = s.len() as int;
    let q = sum_sq_of(s);
    let t = sum_of(s);
    let xi = x as int;
    assert((n + 1) * (q + xi * xi) - (t + xi) * (t + xi) == n * q - t * t + (q - 2 * xi * t + n
        * xi * xi)) by (nonlinear_arith);
}

/// `n * m2` is never negative, so `(Σx)² <= n·Σx²`.
pub proof fn lemma_scaled_m2_nonneg(s: Seq<u64>)
    ensures
        scaled_m2(s) >= 0,
    decreases s.len(),
{
    if s.len() > 0 {
        let p = s.drop_last();
        assert(p.push(s.last()) =~= s);
        lemma_scaled_m2_nonneg(p);
        lemma_scaled_m2_push(p, s.last());
        lemma_dev_sum(p, s.last() as int);
    }
}

} // verus!
