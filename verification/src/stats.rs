//! Incremental mean / standard-deviation / z-score estimator.
//!
//! `Statistics` folds one value at a time into a cumulative sum and sum of
//! squares and recomputes the derived quantities. It is an unbounded-history
//! estimator: nothing is ever forgotten, so the z-score of a value is taken
//! against the whole stream seen so far. Until two values have been observed
//! the standard deviation and z-score stay 0, which avoids a division by
//! zero in the degenerate case.

use vstd::prelude::*;

use crate::fixed::{div_trunc, isqrt_u128, tdiv, SCALE};

verus! {

/// Largest amplitude (in micro-units) the pipeline stores: 1e6 real units.
pub const VALUE_LIMIT: i64 = 1_000_000_000_000;

/// Largest number of observations the estimator accepts. The cap is what
/// keeps every cumulative sum inside 128-bit arithmetic.
pub const COUNT_LIMIT: u64 = 10_000_000_000_000;

/// Sum of a sequence of integers.
pub open spec fn seq_sum(s: Seq<int>) -> int
    decreases s.len(),
{
    if s.len() == 0 {
        0
    } else {
        seq_sum(s.drop_last()) + s.last()
    }
}

/// Sum of the squares of a sequence of integers.
pub open spec fn seq_sum_sq(s: Seq<int>) -> int
    decreases s.len(),
{
    if s.len() == 0 {
        0
    } else {
        seq_sum_sq(s.drop_last()) + s.last() * s.last()
    }
}

/// The count-scaled variance of any integer sequence is nonnegative:
/// `n * (sum of squares) >= (sum)^2`. This is what makes the standard
/// deviation of the estimator well defined — the quantity under the square
/// root cannot go negative, whatever values the stream carries.
pub proof fn lemma_variance_nonneg(s: Seq<int>)
    ensures
        s.len() * seq_sum_sq(s) >= seq_sum(s) * seq_sum(s),
    decreases s.len(),
{
    if s.len() == 0 {
    } else {
        let t = s.drop_last();
        let x = s.last();
        let n = t.len() as int;
        let s1 = seq_sum(t);
        let s2 = seq_sum_sq(t);
        lemma_variance_nonneg(t);
        if n == 0 {
            assert(s1 == 0 && s2 == 0);
        } else {
            assert(n * (n * (x * x) - 2 * (s1 * x) + s2) >= (n * x - s1) * (n * x - s1))
                by (nonlinear_arith)
                requires
                    n * s2 >= s1 * s1,
            {
            }
            assert((n * x - s1) * (n * x - s1) >= 0) by (nonlinear_arith);
            assert(n * (x * x) - 2 * (s1 * x) + s2 >= 0) by (nonlinear_arith)
                requires
                    n >= 1,
                    n * (n * (x * x) - 2 * (s1 * x) + s2) >= 0,
            {
            }
            assert((n + 1) * (s2 + x * x) >= (s1 + x) * (s1 + x)) by (nonlinear_arith)
                requires
                    n * s2 >= s1 * s1,
                    n * (x * x) - 2 * (s1 * x) + s2 >= 0,
            {
            }
        }
    }
}

/// Mathematical model of a `Statistics` value: the exec fields as plain
/// integers plus the full history of observed values.
pub struct StatsModel {
    pub sum: int,
    pub sum_of_squares: int,
    pub count: nat,
    pub mean: int,
    pub std_dev: int,
    pub z_score: int,
    pub history: Seq<int>,
}

impl StatsModel {
    /// Structural well-formedness: the cumulative fields really are the
    /// sums over the recorded history, every recorded value is in range,
    /// and the derived fields sit in their proven bounds.
    pub open spec fn wf(self) -> bool {
        &&& self.count == self.history.len()
        &&& self.count <= COUNT_LIMIT
        &&& forall|i: int|
            0 <= i < self.history.len() ==> -(VALUE_LIMIT as int) <= #[trigger] self.history[i]
                <= VALUE_LIMIT as int
        &&& self.sum == seq_sum(self.history)
        &&& self.sum_of_squares == seq_sum_sq(self.history)
        &&& -(VALUE_LIMIT as int) <= self.mean <= VALUE_LIMIT as int
        &&& 0 <= self.std_dev <= VALUE_LIMIT as int
        &&& -2 * (VALUE_LIMIT as int) * (SCALE as int) <= self.z_score <= 2 * (VALUE_LIMIT as int)
            * (SCALE as int)
    }

    /// Mean after folding in one more value: truncating division of the new
    /// sum by the new count.
    pub open spec fn next_mean(self, v: int) -> int {
        tdiv(self.sum + v, self.count as int + 1)
    }

    /// Variance (clamped at zero) after folding in one more value.
    pub open spec fn next_variance(self, v: int) -> int {
        let ssq = self.sum_of_squares + v * v;
        let n = self.count as int + 1;
        let m = self.next_mean(v);
        if ssq / n >= m * m {
            ssq / n - m * m
        } else {
            0
        }
    }

    /// Standard deviation after folding in one more value: 0 until two
    /// values have been seen, else the integer square root of the variance.
    pub open spec fn next_std_dev(self, v: int) -> int {
        if self.count + 1 > 1 {
            sqrt_floor(self.next_variance(v) as nat) as int
        } else {
            0
        }
    }

    /// Z-score of the value just folded in, against the statistics that
    /// include it; 0 while the standard deviation is 0.
    pub open spec fn next_z_score(self, v: int) -> int {
        let sd = self.next_std_dev(v);
        if self.count + 1 > 1 && sd != 0 {
            tdiv((v - self.next_mean(v)) * SCALE as int, sd)
        } else {
            0
        }
    }

    /// The whole estimator state after folding in one more value.
    pub open spec fn step(self, v: int) -> StatsModel {
        StatsModel {
            sum: self.sum + v,
            sum_of_squares: self.sum_of_squares + v * v,
            count: self.count + 1,
            mean: self.next_mean(v),
            std_dev: self.next_std_dev(v),
            z_score: self.next_z_score(v),
            history: self.history.push(v),
        }
    }
}

/// Floor of the square root of a natural number.
pub open spec fn sqrt_floor(x: nat) -> nat {
    choose|r: nat| #[trigger] (r * r) <= x && x < (r + 1) * (r + 1)
}

/// The square-root floor exists and is unique; `isqrt_u128` witnesses it.
pub proof fn lemma_sqrt_floor_unique(x: nat, r: nat)
    requires
        r * r <= x,
        x < (r + 1) * (r + 1),
    ensures
        sqrt_floor(x) == r,
{
    let c = sqrt_floor(x);
    assert(c * c <= x && x < (c + 1) * (c + 1));
    assert(c == r) by (nonlinear_arith)
        requires
            r * r <= x,
            x < (r + 1) * (r + 1),
            c * c <= x,
            x < (c + 1) * (c + 1),
            r >= 0,
            c >= 0,
    {
    }
}

/// Streaming mean / standard deviation / z-score over a filter's output.
pub struct Statistics {
    sum: i128,
    sum_of_squares: u128,
    count: u64,
    mean: i64,
    std_dev: i64,
    z_score: i64,
    history: Ghost<Seq<int>>,
}

impl View for Statistics {
    type V = StatsModel;

    closed spec fn view(&self) -> StatsModel {
        StatsModel {
            sum: self.sum as int,
            sum_of_squares: self.sum_of_squares as int,
            count: self.count as nat,
            mean: self.mean as int,
            std_dev: self.std_dev as int,
            z_score: self.z_score as int,
            history: self.history@,
        }
    }
}

impl Statistics {
    /// Fresh estimator: no observations, every derived quantity 0.
    pub fn new() -> (r: Statistics)
        ensures
            r@.wf(),
            r@.count == 0,
            r@.sum == 0,
            r@.sum_of_squares == 0,
            r@.mean == 0,
            r@.std_dev == 0,
            r@.z_score == 0,
            r@.history == Seq::<int>::empty(),
    {
        Statistics {
            sum: 0,
            sum_of_squares: 0,
            count: 0,
            mean: 0,
            std_dev: 0,
            z_score: 0,
            history: Ghost(Seq::empty()),
        }
    }

    /// Current mean in micro-units.
    pub fn mean(&self) -> (r: i64)
        ensures
            r == self@.mean,
    {
        self.mean
    }

    /// Current standard deviation in micro-units (never negative).
    pub fn std_dev(&self) -> (r: i64)
        ensures
            r == self@.std_dev,
    {
        self.std_dev
    }

    /// Z-score of the most recently observed value, scaled by `SCALE`.
    pub fn z_score(&self) -> (r: i64)
        ensures
            r == self@.z_score,
    {
        self.z_score
    }

    /// Number of observations folded in so far.
    pub fn count(&self) -> (r: u64)
        ensures
            r == self@.count,
    {
        self.count
    }

    /// Fold one value into the estimator and recompute mean, standard
    /// deviation, and the z-score of that value against the updated
    /// statistics.
    pub fn update(&mut self, v: i64)
        requires
            old(self)@.wf(),
            old(self)@.count < COUNT_LIMIT,
            -VALUE_LIMIT <= v <= VALUE_LIMIT,
        ensures
            final(self)@.wf(),
            final(self)@ == old(self)@.step(v as int),
    {
        let ghost old_hist = self.history@;
        let ghost new_hist = old_hist.push(v as int);
        proof {
            assert forall|i: int| 0 <= i < new_hist.len() implies -(VALUE_LIMIT as int)
                <= #[trigger] new_hist[i] <= VALUE_LIMIT as int by {
                if i < old_hist.len() {
                    assert(old_hist[i] == new_hist[i]);
                }
            }
            lemma_sum_bounds(new_hist, VALUE_LIMIT as int);
            lemma_sum_sq_bounds(new_hist, VALUE_LIMIT as int);
            assert(new_hist.drop_last() == old_hist);
            assert((v as int) * (v as int) <= (VALUE_LIMIT as int) * (VALUE_LIMIT as int)
                && 0 <= (v as int) * (v as int)) by (nonlinear_arith)
                requires
                    -VALUE_LIMIT <= v <= VALUE_LIMIT,
            {
            }
            assert((new_hist.len() as int) * (VALUE_LIMIT as int) <= (COUNT_LIMIT as int) * (
            VALUE_LIMIT as int)) by (nonlinear_arith)
                requires
                    0 <= new_hist.len() <= COUNT_LIMIT,
            {
            }
            assert((new_hist.len() as int) * ((VALUE_LIMIT as int) * (VALUE_LIMIT as int)) <= (
            COUNT_LIMIT as int) * ((VALUE_LIMIT as int) * (VALUE_LIMIT as int)))
                by (nonlinear_arith)
                requires
                    0 <= new_hist.len() <= COUNT_LIMIT,
            {
            }
        }
        let sq: u128 = ((v as i128) * (v as i128)) as u128;
        self.sum = self.sum + v as i128;
        self.sum_of_squares = self.sum_of_squares + sq;
        self.count = self.count + 1;
        self.history = Ghost(new_hist);
        let m: i64 = self.compute_mean();
        self.mean = m;
        if self.count > 1 {
            proof {
                lemma_mean_sq_bound(self.sum_of_squares as int, self.count as int,
                    VALUE_LIMIT as int);
                assert(0 <= (m as int) * (m as int) <= (VALUE_LIMIT as int) * (VALUE_LIMIT as int))
                    by (nonlinear_arith)
                    requires
                        -VALUE_LIMIT <= m <= VALUE_LIMIT,
                {
                }
            }
            let msq: u128 = self.sum_of_squares / (self.count as u128);
            let mm: u128 = ((m as i128) * (m as i128)) as u128;
            let variance: u128 = if msq >= mm {
                msq - mm
            } else {
                0
            };
            let sd: u128 = isqrt_u128(variance);
            proof {
                assert(sd <= VALUE_LIMIT) by (nonlinear_arith)
                    requires
                        (sd as int) * (sd as int) <= variance as int,
                        variance as int <= (VALUE_LIMIT as int) * (VALUE_LIMIT as int),
                        sd >= 0,
                {
                }
                lemma_sqrt_floor_unique(variance as nat, sd as nat);
            }
            self.std_dev = sd as i64;
            if self.std_dev != 0 {
                proof {
                    assert(-2_000_000_000_000_000_000 <= (v as int - m as int) * (SCALE as int)
                        <= 2_000_000_000_000_000_000) by (nonlinear_arith)
                        requires
                            -2_000_000_000_000 <= v as int - m as int <= 2_000_000_000_000,
                            SCALE == 1_000_000,
                    {
                    }
                }
                let num: i128 = (v as i128 - m as i128) * (SCALE as i128);
                let z: i128 = div_trunc(num, self.std_dev as i128);
                proof {
                    crate::fixed::lemma_tdiv_magnitude(num as int, self.std_dev as int);
                }
                self.z_score = z as i64;
            } else {
                self.z_score = 0;
            }
        } else {
            self.std_dev = 0;
            self.z_score = 0;
        }
    }

    /// Truncating mean of the current sums.
    fn compute_mean(&self) -> (r: i64)
        requires
            self@.count >= 1,
            self@.count <= COUNT_LIMIT,
            -((self@.count as int) * (VALUE_LIMIT as int)) <= self@.sum,
            self@.sum <= (self@.count as int) * (VALUE_LIMIT as int),
        ensures
            r == tdiv(self@.sum, self@.count as int),
            -VALUE_LIMIT <= r <= VALUE_LIMIT,
    {
        proof {
            assert((self@.count as int) * (VALUE_LIMIT as int) <= (COUNT_LIMIT as int) * (
            VALUE_LIMIT as int)) by (nonlinear_arith)
                requires
                    0 <= self@.count <= COUNT_LIMIT,
            {
            }
        }
        let m: i128 = div_trunc(self.sum, self.count as i128);
        proof {
            lemma_tdiv_mean_bound(self@.sum, self@.count as int, VALUE_LIMIT as int);
        }
        m as i64
    }
}

/// A sum of `n` values each bounded by `limit` is bounded by `n * limit`.
pub proof fn lemma_sum_bounds(s: Seq<int>, limit: int)
    requires
        limit >= 0,
        forall|i: int| 0 <= i < s.len() ==> -limit <= #[trigger] s[i] <= limit,
    ensures
        -((s.len() as int) * limit) <= seq_sum(s) <= (s.len() as int) * limit,
    decreases s.len(),
{
    if s.len() == 0 {
    } else {
        let t = s.drop_last();
        assert(forall|i: int| 0 <= i < t.len() ==> -limit <= #[trigger] t[i] <= limit);
        lemma_sum_bounds(t, limit);
        assert(-((s.len() as int) * limit) <= seq_sum(s) <= (s.len() as int) * limit)
            by (nonlinear_arith)
            requires
                seq_sum(s) == seq_sum(t) + s.last(),
                -((t.len() as int) * limit) <= seq_sum(t) <= (t.len() as int) * limit,
                -limit <= s.last() <= limit,
                s.len() == t.len() + 1,
        {
        }
    }
}

/// A sum of `n` squares of values each bounded by `limit` lies between 0 and
/// `n * limit^2`.
pub proof fn lemma_sum_sq_bounds(s: Seq<int>, limit: int)
    requires
        limit >= 0,
        forall|i: int| 0 <= i < s.len() ==> -limit <= #[trigger] s[i] <= limit,
    ensures
        0 <= seq_sum_sq(s) <= (s.len() as int) * (limit * limit),
    decreases s.len(),
{
    if s.len() == 0 {
    } else {
        let t = s.drop_last();
        assert(forall|i: int| 0 <= i < t.len() ==> -limit <= #[trigger] t[i] <= limit);
        lemma_sum_sq_bounds(t, limit);
        assert(0 <= seq_sum_sq(s) <= (s.len() as int) * (limit * limit)) by (nonlinear_arith)
            requires
                seq_sum_sq(s) == seq_sum_sq(t) + s.last() * s.last(),
                0 <= seq_sum_sq(t) <= (t.len() as int) * (limit * limit),
                -limit <= s.last() <= limit,
                s.len() == t.len() + 1,
                limit >= 0,
        {
        }
    }
}

/// Dividing a sum of at most `n * limit^2` by `n` leaves at most `limit^2`.
pub proof fn lemma_mean_sq_bound(ssq: int, n: int, limit: int)
    requires
        n >= 1,
        limit >= 0,
        0 <= ssq <= n * (limit * limit),
    ensures
        0 <= ssq / n <= limit * limit,
{
    assert(ssq / n >= 0) by {
        vstd::arithmetic::div_mod::lemma_div_pos_is_pos(ssq, n);
    }
    assert(ssq / n <= limit * limit) by {
        vstd::arithmetic::div_mod::lemma_div_is_ordered(ssq, n * (limit * limit), n);
        vstd::arithmetic::div_mod::lemma_div_multiples_vanish(limit * limit, n);
    }
}

/// Truncating division of a sum bounded by `n * limit` by `n` stays within
/// `[-limit, limit]`.
pub proof fn lemma_tdiv_mean_bound(sum: int, n: int, limit: int)
    requires
        n >= 1,
        limit >= 0,
        -(n * limit) <= sum <= n * limit,
    ensures
        -limit <= tdiv(sum, n) <= limit,
{
    if sum >= 0 {
        vstd::arithmetic::div_mod::lemma_div_is_ordered(sum, n * limit, n);
        vstd::arithmetic::div_mod::lemma_div_multiples_vanish(limit, n);
        vstd::arithmetic::div_mod::lemma_div_pos_is_pos(sum, n);
    } else {
        vstd::arithmetic::div_mod::lemma_div_is_ordered(-sum, n * limit, n);
        vstd::arithmetic::div_mod::lemma_div_multiples_vanish(limit, n);
        vstd::arithmetic::div_mod::lemma_div_pos_is_pos(-sum, n);
    }
}

} // verus!
