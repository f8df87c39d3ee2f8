//! Sums, inner products and edges over fixed-point vectors.

use vstd::prelude::*;
use vstd::arithmetic::div_mod::lemma_fundamental_div_mod;
use crate::common::fixed::ceil_quot;
use crate::common::fixed::div_floor;
use crate::common::fixed::lemma_ceil_quot_is_least;
use crate::common::fixed::SCALE;

verus! {

/// The sum of the first `k` entries of `s`.
pub open spec fn prefix_sum(s: Seq<i64>, k: int) -> int
    decreases k,
{
    if k <= 0 {
        0
    } else {
        prefix_sum(s, k - 1) + s[k - 1]
    }
}

/// The sum of all entries of `s`.
pub open spec fn total(s: Seq<i64>) -> int {
    prefix_sum(s, s.len() as int)
}

/// The inner product of the first `k` entries of `d` and `m`.
pub open spec fn prefix_dot(d: Seq<i64>, m: Seq<i64>, k: int) -> int
    decreases k,
{
    if k <= 0 {
        0
    } else {
        prefix_dot(d, m, k - 1) + d[k - 1] * m[k - 1]
    }
}

/// The inner product of `d` and `m`, in units of `1 / SCALE^2`.
pub open spec fn inner_product(d: Seq<i64>, m: Seq<i64>) -> int {
    prefix_dot(d, m, d.len() as int)
}

/// Every entry of `s` is at least zero.
pub open spec fn non_negative(s: Seq<i64>) -> bool {
    forall|i: int| 0 <= i < s.len() ==> s[i] >= 0
}

/// `d` is a probability distribution: at least one weight, none negative,
/// and their sum is exactly one.
pub open spec fn on_simplex(d: Seq<i64>) -> bool {
    &&& d.len() >= 1
    &&& non_negative(d)
    &&& total(d) == SCALE
}

/// No weight of `d` exceeds `cap`.
pub open spec fn capped(d: Seq<i64>, cap: int) -> bool {
    forall|i: int| 0 <= i < d.len() ==> d[i] <= cap
}

/// `m` holds one margin per example, each between minus one and one.
pub open spec fn is_margin_column(m: Seq<i64>, n: int) -> bool {
    &&& m.len() == n
    &&& forall|i: int| 0 <= i < m.len() ==> -SCALE <= #[trigger] m[i] <= SCALE
}

/// The edge of a hypothesis with margins `m` under the distribution `d`, in
/// units: the inner product brought back to units, rounded down.
pub open spec fn edge(d: Seq<i64>, m: Seq<i64>) -> int {
    inner_product(d, m) / (SCALE as int)
}

/// Prefix sums of non-negative entries are non-negative and grow with the prefix.
pub proof fn lemma_prefix_sum_monotone(s: Seq<i64>, j: int, k: int)
    requires
        non_negative(s),
        0 <= j <= k <= s.len(),
    ensures
        0 <= prefix_sum(s, j) <= prefix_sum(s, k),
    decreases k,
{
    if j == k {
        if j > 0 {
            lemma_prefix_sum_monotone(s, j - 1, j - 1);
        }
    } else {
        lemma_prefix_sum_monotone(s, j, k - 1);
    }
}

/// Each weight of a non-negative vector is at most the sum of all of them.
pub proof fn lemma_entry_at_most_total(s: Seq<i64>, i: int)
    requires
        non_negative(s),
        0 <= i < s.len(),
    ensures
        s[i] <= total(s),
{
    lemma_prefix_sum_monotone(s, 0, i);
    lemma_prefix_sum_monotone(s, i + 1, s.len() as int);
}

/// A prefix sum reads only the entries below its bound.
pub proof fn lemma_prefix_sum_agrees(a: Seq<i64>, b: Seq<i64>, k: int)
    requires
        0 <= k <= a.len(),
        k <= b.len(),
        forall|i: int| 0 <= i < k ==> a[i] == b[i],
    ensures
        prefix_sum(a, k) == prefix_sum(b, k),
    decreases k,
{
    if k > 0 {
        lemma_prefix_sum_agrees(a, b, k - 1);
    }
}

/// Appending an entry adds it to the sum.
pub proof fn lemma_prefix_sum_of_push(s: Seq<i64>, x: i64)
    ensures
        total(s.push(x)) == total(s) + x,
{
    lemma_prefix_sum_agrees(s, s.push(x), s.len() as int);
}

/// An inner product with margins between minus one and one is bounded by the
/// sum of the weights.
pub proof fn lemma_prefix_dot_bound(d: Seq<i64>, m: Seq<i64>, k: int)
    requires
        non_negative(d),
        is_margin_column(m, d.len() as int),
        0 <= k <= d.len(),
    ensures
        -SCALE * prefix_sum(d, k) <= prefix_dot(d, m, k) <= SCALE * prefix_sum(d, k),
    decreases k,
{
    if k > 0 {
        lemma_prefix_dot_bound(d, m, k - 1);
        let w = d[k - 1] as int;
        let y = m[k - 1] as int;
        assert(-SCALE * w <= w * y <= SCALE * w) by (nonlinear_arith)
            requires
                0 <= w,
                -SCALE <= y <= SCALE,
        ;
        assert(SCALE * (prefix_sum(d, k - 1) + w) == SCALE * prefix_sum(d, k - 1) + SCALE * w)
            by (nonlinear_arith);
    }
}

/// The edge of any margin column under a distribution lies between minus one
/// and one.
pub proof fn lemma_edge_bound(d: Seq<i64>, m: Seq<i64>)
    requires
        on_simplex(d),
        is_margin_column(m, d.len() as int),
    ensures
        -SCALE * SCALE <= inner_product(d, m) <= SCALE * SCALE,
        -SCALE <= edge(d, m) <= SCALE,
{
    let p = inner_product(d, m);
    lemma_prefix_dot_bound(d, m, d.len() as int);
    lemma_fundamental_div_mod(p, SCALE as int);
    assert(-SCALE <= p / (SCALE as int) <= SCALE) by (nonlinear_arith)
        requires
            -SCALE * SCALE <= p <= SCALE * SCALE,
            p == SCALE * (p / (SCALE as int)) + p % (SCALE as int),
            0 <= p % (SCALE as int) < SCALE,
    ;
}

/// The `i`-th weight of the uniform distribution over `n` examples: one over
/// `n` in units, rounded down, and one unit more for the first examples, as
/// many as the division leaves over, so that the weights sum to exactly one.
pub open spec fn uniform_weight(n: int, i: int) -> int {
    (SCALE as int) / n + if i < (SCALE as int) % n {
        1int
    } else {
        0int
    }
}

/// The uniform distribution over `n` examples.
pub open spec fn uniform(n: nat) -> Seq<i64> {
    Seq::new(n, |i: int| uniform_weight(n as int, i) as i64)
}

/// The quotient and the remainder of one by `n`, as the uniform weights use them.
proof fn lemma_uniform_parts(n: int)
    requires
        n >= 1,
    ensures
        0 <= (SCALE as int) / n <= SCALE,
        0 <= (SCALE as int) % n < n,
        (SCALE as int) % n <= SCALE,
        n * ((SCALE as int) / n) + (SCALE as int) % n == SCALE,
        (SCALE as int) / n + 1 <= SCALE || (SCALE as int) % n == 0,
{
    let q = (SCALE as int) / n;
    let r = (SCALE as int) % n;
    lemma_fundamental_div_mod(SCALE as int, n);
    assert(0 <= q <= SCALE && r <= SCALE && (q + 1 <= SCALE || r == 0)) by (nonlinear_arith)
        requires
            SCALE == n * q + r,
            0 <= r < n,
            n >= 1,
            SCALE == 1_000_000_000,
    ;
}

/// The first `k` uniform weights sum to `k` times the rounded-down weight plus
/// one unit for each of them that is rounded up.
proof fn lemma_uniform_prefix(n: nat, k: int)
    requires
        n >= 1,
        0 <= k <= n,
    ensures
        prefix_sum(uniform(n), k) == k * ((SCALE as int) / (n as int)) + if k < (SCALE as int) % (
        n as int) {
            k
        } else {
            (SCALE as int) % (n as int)
        },
    decreases k,
{
    let q = (SCALE as int) / (n as int);
    lemma_uniform_parts(n as int);
    if k > 0 {
        lemma_uniform_prefix(n, k - 1);
        assert(k * q == (k - 1) * q + q) by (nonlinear_arith);
    } else {
        assert(0 * q == 0);
    }
}

/// The uniform distribution is a probability distribution, and each of its
/// weights is one over `n`, rounded down or up.
pub proof fn lemma_uniform_on_simplex(n: nat)
    requires
        n >= 1,
    ensures
        on_simplex(uniform(n)),
        uniform(n).len() == n,
        forall|i: int|
            0 <= i < n ==> (SCALE as int) / (n as int) <= (#[trigger] uniform(n)[i])
                <= ceil_quot(SCALE as int, n as int),
{
    let q = (SCALE as int) / (n as int);
    let r = (SCALE as int) % (n as int);
    lemma_uniform_parts(n as int);
    lemma_uniform_prefix(n, n as int);
    assert forall|i: int| 0 <= i < n implies q <= (#[trigger] uniform(n)[i]) <= ceil_quot(
        SCALE as int,
        n as int,
    ) by {
        let c = ceil_quot(SCALE as int, n as int);
        lemma_ceil_quot_is_least(SCALE as int, n as int, q);
        assert(c >= q && (r > 0 ==> c >= q + 1)) by (nonlinear_arith)
            requires
                c * n >= SCALE,
                n * q + r == SCALE,
                0 <= r < n,
        ;
    }
}

/// Builds the uniform distribution over `n` examples.
pub fn uniform_distribution(n: usize) -> (dist: Vec<i64>)
    requires
        n >= 1,
    ensures
        dist@ == uniform(n as nat),
        on_simplex(dist@),
{
    let base: i64 = (SCALE as u64 / n as u64) as i64;
    let extra: u64 = SCALE as u64 % n as u64;
    let mut dist: Vec<i64> = Vec::new();
    let mut k: usize = 0;
    proof {
        lemma_uniform_parts(n as int);
    }
    while k < n
        invariant
            k <= n,
            n >= 1,
            dist@.len() == k,
            base == (SCALE as int) / (n as int),
            extra == (SCALE as int) % (n as int),
            base + 1 <= SCALE || extra == 0,
            0 <= base,
            forall|i: int| 0 <= i < k ==> dist@[i] == uniform_weight(n as int, i),
        decreases n - k,
    {
        let w: i64 = if (k as u64) < extra {
            base + 1
        } else {
            base
        };
        dist.push(w);
        k = k + 1;
    }
    proof {
        lemma_uniform_on_simplex(n as nat);
    }
    dist
}

/// The sum of a vector of weights.
pub fn sum_of(v: &[i64]) -> (s: i128)
    ensures
        s == total(v@),
{
    let mut acc: i128 = 0;
    let mut k: usize = 0;
    while k < v.len()
        invariant
            k <= v.len(),
            acc == prefix_sum(v@, k as int),
            -(k as int) * 0x8000_0000_0000_0000 <= acc <= (k as int) * 0x8000_0000_0000_0000,
        decreases v.len() - k,
    {
        acc = acc + v[k] as i128;
        k = k + 1;
    }
    acc
}

/// Whether `v` is a probability distribution.
pub fn is_distribution(v: &[i64]) -> (b: bool)
    ensures
        b == on_simplex(v@),
{
    let n = v.len();
    if n == 0 {
        return false;
    }
    let mut k: usize = 0;
    while k < n
        invariant
            k <= n,
            n == v.len(),
            forall|i: int| 0 <= i < k ==> v@[i] >= 0,
        decreases n - k,
    {
        if v[k] < 0 {
            return false;
        }
        k = k + 1;
    }
    sum_of(v) == SCALE as i128
}

/// Whether no weight of `v` exceeds `cap`.
pub fn is_capped(v: &[i64], cap: i64) -> (b: bool)
    ensures
        b == capped(v@, cap as int),
{
    let mut k: usize = 0;
    while k < v.len()
        invariant
            k <= v.len(),
            forall|i: int| 0 <= i < k ==> v@[i] <= cap,
        decreases v.len() - k,
    {
        if v[k] > cap {
            return false;
        }
        k = k + 1;
    }
    true
}

/// Whether `m` holds `n` margins between minus one and one.
pub fn is_column(m: &[i64], n: usize) -> (b: bool)
    ensures
        b == is_margin_column(m@, n as int),
{
    if m.len() != n {
        return false;
    }
    let mut k: usize = 0;
    while k < m.len()
        invariant
            k <= m.len(),
            forall|i: int| 0 <= i < k ==> -SCALE <= #[trigger] m@[i] <= SCALE,
        decreases m.len() - k,
    {
        if m[k] < -SCALE || m[k] > SCALE {
            return false;
        }
        k = k + 1;
    }
    true
}

/// The edge of a hypothesis under `dist`, given the margins of the hypothesis
/// on the examples.
pub fn edge_of_hypothesis(dist: &[i64], margins: &[i64]) -> (e: i64)
    requires
        on_simplex(dist@),
        is_margin_column(margins@, dist@.len() as int),
    ensures
        e == edge(dist@, margins@),
        -SCALE <= e <= SCALE,
{
    let n = dist.len();
    let mut acc: i128 = 0;
    let mut k: usize = 0;
    while k < n
        invariant
            k <= n,
            n == dist.len(),
            on_simplex(dist@),
            is_margin_column(margins@, dist@.len() as int),
            acc == prefix_dot(dist@, margins@, k as int),
        decreases n - k,
    {
        proof {
            lemma_prefix_dot_bound(dist@, margins@, k as int);
            lemma_prefix_dot_bound(dist@, margins@, k + 1);
            lemma_prefix_sum_monotone(dist@, k as int, n as int);
            lemma_prefix_sum_monotone(dist@, k + 1, n as int);
            lemma_entry_at_most_total(dist@, k as int);
            let w = dist@[k as int] as int;
            let y = margins@[k as int] as int;
            assert(-SCALE * SCALE <= w * y <= SCALE * SCALE) by (nonlinear_arith)
                requires
                    0 <= w <= SCALE,
                    -SCALE <= y <= SCALE,
            ;
            let t0 = prefix_sum(dist@, k as int);
            assert(-SCALE * SCALE <= SCALE * t0 <= SCALE * SCALE) by (nonlinear_arith)
                requires
                    0 <= t0 <= SCALE,
            ;
        }
        let term: i128 = dist[k] as i128 * margins[k] as i128;
        acc = acc + term;
        k = k + 1;
    }
    proof {
        lemma_edge_bound(dist@, margins@);
    }
    let q = div_floor(acc, SCALE as i128);
    q as i64
}

/// The number of entries of `w` below position `k` that are below `cap`.
pub open spec fn count_below(w: Seq<i64>, cap: int, k: int) -> int
    decreases k,
{
    if k <= 0 {
        0
    } else {
        count_below(w, cap, k - 1) + if w[k - 1] < cap {
            1int
        } else {
            0int
        }
    }
}

/// What `weights` lack of summing to one.
pub open spec fn missing_units(w: Seq<i64>) -> int {
    SCALE - total(w)
}

/// Whether `w` can be topped up to a distribution within `cap`: there is at
/// least one weight, each lies between zero and `cap`, and what they lack of
/// summing to one is at most one unit for each weight below the cap.
pub open spec fn can_top_up(w: Seq<i64>, cap: int) -> bool {
    &&& w.len() >= 1
    &&& forall|i: int| 0 <= i < w.len() ==> 0 <= #[trigger] w[i] <= cap
    &&& 0 <= missing_units(w) <= count_below(w, cap, w.len() as int)
}

/// The weights `w` topped up to a distribution: the first weights below the
/// cap, as many as units are missing, get one unit more each.
pub open spec fn topped_up(w: Seq<i64>, cap: int) -> Seq<i64> {
    Seq::new(
        w.len(),
        |i: int|
            if w[i] < cap && count_below(w, cap, i) < missing_units(w) {
                (w[i] + 1) as i64
            } else {
                w[i]
            },
    )
}

/// The count of weights below the cap grows by at most one per weight.
proof fn lemma_count_below(w: Seq<i64>, cap: int, j: int, k: int)
    requires
        0 <= j <= k,
    ensures
        0 <= count_below(w, cap, j) <= count_below(w, cap, k) <= count_below(w, cap, j) + (k - j),
        count_below(w, cap, j) <= j,
    decreases k,
{
    if j < k {
        lemma_count_below(w, cap, j, k - 1);
    } else if j > 0 {
        lemma_count_below(w, cap, j - 1, j - 1);
    }
}

/// The first `k` weights after topping up sum to what they summed to before
/// plus one unit for each of them that got one.
proof fn lemma_topped_up_prefix(w: Seq<i64>, cap: int, k: int)
    requires
        0 <= k <= w.len(),
        forall|i: int| 0 <= i < w.len() ==> 0 <= #[trigger] w[i] <= cap,
        cap <= i64::MAX,
        0 <= missing_units(w),
    ensures
        prefix_sum(topped_up(w, cap), k) == prefix_sum(w, k) + if count_below(w, cap, k)
            < missing_units(w) {
            count_below(w, cap, k)
        } else {
            missing_units(w)
        },
    decreases k,
{
    if k > 0 {
        lemma_topped_up_prefix(w, cap, k - 1);
        lemma_count_below(w, cap, k - 1, k);
        assert(topped_up(w, cap)[k - 1] == if w[k - 1] < cap && count_below(w, cap, k - 1)
            < missing_units(w) {
            w[k - 1] + 1
        } else {
            w[k - 1] as int
        });
    }
}

/// Topping up gives a probability distribution within the cap in which no
/// weight is less than it was or more than one unit above.
pub proof fn lemma_topped_up(w: Seq<i64>, cap: int)
    requires
        can_top_up(w, cap),
        cap <= i64::MAX,
    ensures
        on_simplex(topped_up(w, cap)),
        capped(topped_up(w, cap), cap),
        topped_up(w, cap).len() == w.len(),
        forall|i: int| 0 <= i < w.len() ==> w[i] <= (#[trigger] topped_up(w, cap)[i]) <= w[i] + 1,
        missing_units(w) == 0 ==> topped_up(w, cap) == w,
{
    lemma_topped_up_prefix(w, cap, w.len() as int);
    if missing_units(w) == 0 {
        assert forall|i: int| 0 <= i < w.len() implies topped_up(w, cap)[i] == w[i] by {
            lemma_count_below(w, cap, i, i);
        }
    }
}

/// Tops weights up to a probability distribution within `cap`: the units
/// that the weights lack of summing to one go, one each, to the first
/// weights below the cap. `None` where that cannot be done.
///
/// This is how weights that were rounded down to units are brought back
/// onto the simplex.
pub fn top_up(weights: &[i64], cap: i64) -> (topped: Option<Vec<i64>>)
    ensures
        topped is Some == can_top_up(weights@, cap as int),
        topped is Some ==> topped->0@ == topped_up(weights@, cap as int),
        topped is Some ==> on_simplex(topped->0@) && capped(topped->0@, cap as int),
{
    let n = weights.len();
    if n == 0 {
        return None;
    }
    let mut below: usize = 0;
    let mut k: usize = 0;
    while k < n
        invariant
            k <= n,
            n == weights@.len(),
            below == count_below(weights@, cap as int, k as int),
            below <= k,
            forall|i: int| 0 <= i < k ==> 0 <= #[trigger] weights@[i] <= cap,
        decreases n - k,
    {
        if weights[k] < 0 || weights[k] > cap {
            return None;
        }
        if weights[k] < cap {
            below = below + 1;
        }
        k = k + 1;
    }
    proof {
        lemma_prefix_sum_monotone(weights@, 0, n as int);
    }
    let missing: i128 = SCALE as i128 - sum_of(weights);
    if missing < 0 || missing > below as i128 {
        return None;
    }
    let mut topped: Vec<i64> = Vec::new();
    let mut given: i128 = 0;
    let mut i: usize = 0;
    while i < n
        invariant
            i <= n,
            n == weights@.len(),
            can_top_up(weights@, cap as int),
            missing == missing_units(weights@),
            topped@.len() == i,
            0 <= given <= missing,
            given == if count_below(weights@, cap as int, i as int) < missing {
                count_below(weights@, cap as int, i as int)
            } else {
                missing as int
            },
            forall|j: int| 0 <= j < i ==> topped@[j] == topped_up(weights@, cap as int)[j],
        decreases n - i,
    {
        proof {
            lemma_count_below(weights@, cap as int, i as int, i + 1);
        }
        let w = weights[i];
        if w < cap && given < missing {
            topped.push(w + 1);
            given = given + 1;
        } else {
            topped.push(w);
        }
        i = i + 1;
    }
    proof {
        assert(topped@ =~= topped_up(weights@, cap as int));
        lemma_topped_up(weights@, cap as int);
    }
    Some(topped)
}

} // verus!
