use crate::criteria::{num_rows, valid, Criteria, CriteriaView};
use vstd::prelude::*;

verus! {

/// The interval class of row `r`: the row spans `interval_class + 1` scale steps.
pub open spec fn interval_class(n: nat, r: int) -> int {
    r / (n as int)
}

/// The key (root pitch) of row `r`.
pub open spec fn key_of(n: nat, r: int) -> int {
    r % (n as int)
}

/// The unknown entering row `r` with coefficient -1 (the root pitch); the value
/// -1 stands for the reference pitch, which is no unknown.
pub open spec fn neg_column(n: nat, r: int) -> int {
    key_of(n, r) - 1
}

/// The unknown entering row `r` with coefficient +1 (the upper pitch); the value
/// `n - 1` stands for the reference pitch of the next cycle, which is no unknown.
pub open spec fn pos_column(n: nat, r: int) -> int {
    (key_of(n, r) + interval_class(n, r)) % (n as int)
}

/// The entry of the design matrix at row `r` and column `c`.
pub open spec fn coefficient(n: nat, r: int, c: int) -> int {
    if c == pos_column(n, r) {
        1
    } else if c == neg_column(n, r) {
        -1
    } else {
        0
    }
}

/// Whether the interval of row `r` reaches past the end of the cycle, so that
/// its target is reduced by one cycle.
pub open spec fn crosses_cycle(n: nat, r: int) -> bool {
    interval_class(n, r) + key_of(n, r) >= n - 1
}

/// `m` is the design matrix of a system over `n` pitches.
pub open spec fn is_design_matrix(n: nat, m: Seq<Vec<i8>>) -> bool {
    &&& m.len() == num_rows(n)
    &&& forall|r: int| 0 <= r < m.len() ==> #[trigger] m[r]@.len() == n - 1
    &&& forall|r: int, c: int|
        0 <= r < m.len() && 0 <= c < n - 1 ==> #[trigger] m[r]@[c] as int == coefficient(n, r, c)
}

/// `b` is the target vector of the criteria `c`, where `subtract` reduces an
/// ideal size by one cycle.
pub open spec fn is_target_vector<T, F: Fn(T, T) -> T>(
    c: CriteriaView<T>,
    subtract: F,
    b: Seq<T>,
) -> bool {
    &&& b.len() == num_rows(c.num_pitches)
    &&& forall|r: int|
        0 <= r < b.len() ==> {
            let ideal = c.ideal_intervals[interval_class(c.num_pitches, r)];
            if crosses_cycle(c.num_pitches, r) {
                subtract.ensures((ideal, c.repeat_factor), #[trigger] b[r])
            } else {
                b[r] == ideal
            }
        }
}

/// `w` is the weight vector of the criteria `c`, where `multiply` combines an
/// interval weight with a key weight.
pub open spec fn is_weight_vector<T, F: Fn(T, T) -> T>(
    c: CriteriaView<T>,
    multiply: F,
    w: Seq<T>,
) -> bool {
    &&& w.len() == num_rows(c.num_pitches)
    &&& forall|r: int|
        0 <= r < w.len() ==> multiply.ensures(
            (
                c.interval_weights[interval_class(c.num_pitches, r)],
                c.key_weights[key_of(c.num_pitches, r)],
            ),
            #[trigger] w[r],
        )
}

/// `f` returns one result for each pair of operands.
pub open spec fn is_functional<T, F: Fn(T, T) -> T>(f: F) -> bool {
    forall|x: T, y: T, a: T, b: T|
        #[trigger] f.ensures((x, y), a) && #[trigger] f.ensures((x, y), b) ==> a == b
}

/// The columns in which row `r` of the design matrix is nonzero.
pub open spec fn nonzero_columns(n: nat, r: int) -> Set<int> {
    Set::new(|c: int| 0 <= c < n - 1 && coefficient(n, r, c) != 0)
}

proof fn lemma_row_indices(n: nat, r: int)
    requires
        n >= 2,
        0 <= r < num_rows(n),
    ensures
        0 <= interval_class(n, r) < n - 1,
        0 <= key_of(n, r) < n,
        interval_class(n, r) + key_of(n, r) <= num_rows(n),
        r == interval_class(n, r) * n + key_of(n, r),
{
    let ni = n as int;
    vstd::arithmetic::div_mod::lemma_fundamental_div_mod(r, ni);
    vstd::arithmetic::div_mod::lemma_mod_bound(r, ni);
    vstd::arithmetic::div_mod::lemma_div_pos_is_pos(r, ni);
    let q = r / ni;
    let k = r % ni;
    assert(q < ni - 1) by (nonlinear_arith)
        requires
            r == ni * q + k,
            0 <= k,
            r < ni * (ni - 1),
            ni >= 2,
    ;
    assert(q + k <= ni * (ni - 1)) by (nonlinear_arith)
        requires
            0 <= q < ni - 1,
            0 <= k < ni,
            ni >= 2,
    ;
}

/// Each row of the design matrix holds at most two nonzero entries, each -1 or
/// +1, and never both in the same column: -1 for the root pitch of the interval
/// and +1 for its upper pitch.
pub proof fn lemma_design_row_shape(n: nat, r: int)
    requires
        n >= 2,
        0 <= r < num_rows(n),
    ensures
        neg_column(n, r) != pos_column(n, r),
        forall|c: int|
            0 <= c < n - 1 ==> {
                let e = #[trigger] coefficient(n, r, c);
                ||| e == 0
                ||| e == 1 && c == pos_column(n, r)
                ||| e == -1 && c == neg_column(n, r)
            },
        nonzero_columns(n, r).finite(),
        nonzero_columns(n, r).len() <= 2,
{
    lemma_row_indices(n, r);
    let ni = n as int;
    let q = interval_class(n, r);
    let k = key_of(n, r);
    vstd::arithmetic::div_mod::lemma_fundamental_div_mod(k + q, ni);
    vstd::arithmetic::div_mod::lemma_mod_bound(k + q, ni);
    let d = (k + q) / ni;
    assert(d == 0 || d == 1) by (nonlinear_arith)
        requires
            k + q == ni * d + (k + q) % ni,
            0 <= (k + q) % ni < ni,
            0 <= k + q < 2 * ni,
    ;
    if d == 0 {
        assert(ni * d == 0) by (nonlinear_arith)
            requires
                d == 0,
        ;
        assert(pos_column(n, r) == k + q);
    } else {
        assert(ni * d == ni) by (nonlinear_arith)
            requires
                d == 1,
        ;
        assert(pos_column(n, r) == k + q - ni);
    }
    let both = set![neg_column(n, r), pos_column(n, r)];
    assert(nonzero_columns(n, r).subset_of(both));
    vstd::set_lib::lemma_len_subset(nonzero_columns(n, r), both);
}

/// Every interval class touches every unknown: for class `q` and unknown `j`,
/// the row of that class whose root is pitch `j + 1` has coefficient -1 in
/// column `j`, and its weight has the weight of class `q` as a factor.
pub proof fn lemma_every_class_touches_every_unknown(n: nat, q: int, j: int)
    requires
        n >= 2,
        0 <= q < n - 1,
        0 <= j < n - 1,
    ensures
        0 <= q * n + j + 1 < num_rows(n),
        interval_class(n, q * n + j + 1) == q,
        key_of(n, q * n + j + 1) == j + 1,
        coefficient(n, q * n + j + 1, j) == -1,
{
    let ni = n as int;
    let r = q * ni + j + 1;
    assert(0 <= r < ni * (ni - 1)) by (nonlinear_arith)
        requires
            r == q * ni + j + 1,
            0 <= q < ni - 1,
            0 <= j < ni - 1,
    ;
    vstd::arithmetic::div_mod::lemma_fundamental_div_mod_converse(r, ni, q, j + 1);
    lemma_design_row_shape(n, r);
}

/// Building the observation system twice from the same criteria, with
/// arithmetic that gives one result per pair of operands, yields the same
/// design matrix, the same targets and the same weights.
pub proof fn lemma_observation_system_repeatable<T, F: Fn(T, T) -> T, G: Fn(T, T) -> T>(
    c: CriteriaView<T>,
    subtract: F,
    multiply: G,
    m1: Seq<Vec<i8>>,
    m2: Seq<Vec<i8>>,
    b1: Seq<T>,
    b2: Seq<T>,
    w1: Seq<T>,
    w2: Seq<T>,
)
    requires
        valid(c),
        is_functional(subtract),
        is_functional(multiply),
        is_design_matrix(c.num_pitches, m1),
        is_design_matrix(c.num_pitches, m2),
        is_target_vector(c, subtract, b1),
        is_target_vector(c, subtract, b2),
        is_weight_vector(c, multiply, w1),
        is_weight_vector(c, multiply, w2),
    ensures
        m1.len() == m2.len(),
        forall|r: int| 0 <= r < m1.len() ==> #[trigger] m1[r]@ == m2[r]@,
        b1 == b2,
        w1 == w2,
{
    assert forall|r: int| 0 <= r < m1.len() implies #[trigger] m1[r]@ == m2[r]@ by {
        assert(m1[r]@ =~= m2[r]@);
    }
    assert forall|r: int| 0 <= r < b1.len() implies b1[r] == b2[r] by {
        lemma_row_indices(c.num_pitches, r);
    }
    assert(b1 =~= b2);
    assert forall|r: int| 0 <= r < w1.len() implies w1[r] == w2[r] by {
        lemma_row_indices(c.num_pitches, r);
    }
    assert(w1 =~= w2);
}

impl<T: Copy> Criteria<T> {
    /// The design matrix A: for a tuning x, `A x` lists the interval implied by x
    /// for every (interval class, key) pair, row `interval_class * n + key`, with
    /// one column per non-reference pitch.
    pub fn populate_source_matrix(&self) -> (m: Vec<Vec<i8>>)
        ensures
            is_design_matrix(self@.num_pitches, m@),
    {
        let n = self.num_pitches();
        let nrows = n * (n - 1);
        let mut m: Vec<Vec<i8>> = Vec::new();
        for r in 0..nrows
            invariant
                n == self@.num_pitches,
                valid(self@),
                nrows == num_rows(self@.num_pitches),
                m@.len() == r,
                forall|i: int| 0 <= i < r ==> #[trigger] m@[i]@.len() == n - 1,
                forall|i: int, c: int|
                    0 <= i < r && 0 <= c < n - 1 ==> #[trigger] m@[i]@[c] as int == coefficient(
                        n as nat,
                        i,
                        c,
                    ),
        {
            proof {
                lemma_row_indices(n as nat, r as int);
            }
            let key = r % n;
            let class = r / n;
            let pos = (key + class) % n;
            let mut row: Vec<i8> = Vec::new();
            for c in 0..n - 1
                invariant
                    n >= 2,
                    key as int == key_of(n as nat, r as int),
                    pos as int == pos_column(n as nat, r as int),
                    row@.len() == c,
                    forall|j: int| 0 <= j < c ==> #[trigger] row@[j] as int == coefficient(n as nat, r as int, j),
            {
                let e: i8 = if c == pos {
                    1
                } else if key >= 1 && c == key - 1 {
                    -1
                } else {
                    0
                };
                row.push(e);
            }
            m.push(row);
        }
        m
    }

    /// The target vector b: row `r` holds the ideal size of its interval class,
    /// reduced by one cycle (`subtract(ideal, repeat_factor)`) exactly when the
    /// interval reaches past the end of the cycle.
    pub fn populate_ideal_interval_vector<F: Fn(T, T) -> T>(&self, subtract: F) -> (b: Vec<T>)
        requires
            forall|x: T, y: T| #[trigger] subtract.requires((x, y)),
        ensures
            is_target_vector(self@, subtract, b@),
    {
        let n = self.num_pitches();
        let nrows = n * (n - 1);
        let ideal_intervals = self.ideal_intervals();
        let repeat_factor = self.repeat_factor();
        let mut b: Vec<T> = Vec::new();
        for r in 0..nrows
            invariant
                n == self@.num_pitches,
                valid(self@),
                nrows == num_rows(self@.num_pitches),
                ideal_intervals@ == self@.ideal_intervals,
                repeat_factor == self@.repeat_factor,
                forall|x: T, y: T| #[trigger] subtract.requires((x, y)),
                b@.len() == r,
                forall|i: int|
                    0 <= i < r ==> {
                        let ideal = self@.ideal_intervals[interval_class(n as nat, i)];
                        if crosses_cycle(n as nat, i) {
                            subtract.ensures((ideal, repeat_factor), #[trigger] b@[i])
                        } else {
                            b@[i] == ideal
                        }
                    },
        {
            proof {
                lemma_row_indices(n as nat, r as int);
            }
            let class = r / n;
            let key = r % n;
            let ideal = ideal_intervals[class];
            let target = if class + key < n - 1 {
                ideal
            } else {
                subtract(ideal, repeat_factor)
            };
            b.push(target);
        }
        b
    }

    /// The weight vector w: row `r` weighs `multiply(interval_weight, key_weight)` for
    /// its interval class and its key.
    pub fn populate_weights_vector<F: Fn(T, T) -> T>(&self, multiply: F) -> (w: Vec<T>)
        requires
            forall|x: T, y: T| #[trigger] multiply.requires((x, y)),
        ensures
            is_weight_vector(self@, multiply, w@),
    {
        let n = self.num_pitches();
        let nrows = n * (n - 1);
        let interval_weights = self.interval_weights();
        let key_weights = self.key_weights();
        let mut w: Vec<T> = Vec::new();
        for r in 0..nrows
            invariant
                n == self@.num_pitches,
                valid(self@),
                nrows == num_rows(self@.num_pitches),
                interval_weights@ == self@.interval_weights,
                key_weights@ == self@.key_weights,
                forall|x: T, y: T| #[trigger] multiply.requires((x, y)),
                w@.len() == r,
                forall|i: int|
                    0 <= i < r ==> multiply.ensures(
                        (
                            self@.interval_weights[interval_class(n as nat, i)],
                            self@.key_weights[key_of(n as nat, i)],
                        ),
                        #[trigger] w@[i],
                    ),
        {
            proof {
                lemma_row_indices(n as nat, r as int);
            }
            let class = r / n;
            let key = r % n;
            w.push(multiply(interval_weights[class], key_weights[key]));
        }
        w
    }

    /// The size of the system: one row per (interval class, key) pair, one
    /// column per non-reference pitch.
    pub fn observation_shape(&self) -> (r: (usize, usize))
        ensures
            r.0 == num_rows(self@.num_pitches),
            r.1 == self@.num_pitches - 1,
    {
        let n = self.num_pitches();
        (n * (n - 1), n - 1)
    }
}

} // verus!
