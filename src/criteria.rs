use vstd::prelude::*;

verus! {

/// What a `Criteria` holds, as mathematical values.
pub struct CriteriaView<T> {
    pub num_pitches: nat,
    pub repeat_factor: T,
    pub ideal_intervals: Seq<T>,
    pub interval_weights: Seq<T>,
    pub key_weights: Seq<T>,
}

/// Why a set of criteria was rejected; each variant names the malformed field.
#[derive(Debug, Clone, Copy, PartialEq, Eq, Structural)]
pub enum CriteriaError {
    /// Fewer than two pitches per cycle.
    TooFewPitches { found: usize },
    /// `ideal_intervals` does not hold one entry per non-reference pitch.
    IdealIntervalsLength { expected: usize, found: usize },
    /// `interval_weights` does not hold one entry per interval class.
    IntervalWeightsLength { expected: usize, found: usize },
    /// `key_weights` does not hold one entry per key.
    KeyWeightsLength { expected: usize, found: usize },
}

/// The weighted normal equations have no unique solution.
#[derive(Debug, Clone, Copy, PartialEq, Eq, Structural)]
pub struct SingularSystem {
    /// Number of equations of the system.
    pub rows: usize,
    /// Number of unknowns of the system.
    pub cols: usize,
}

/// The number of equations of a system over `n` pitches.
pub open spec fn num_rows(n: nat) -> nat {
    n * (n - 1) as nat
}

/// The first rule that a set of criteria with these sizes breaks, if any.
pub open spec fn criteria_error(n: usize, n_ideal: usize, n_interval: usize, n_key: usize) -> Option<
    CriteriaError,
> {
    if n < 2 {
        Some(CriteriaError::TooFewPitches { found: n })
    } else if n_ideal != n - 1 {
        Some(CriteriaError::IdealIntervalsLength { expected: (n - 1) as usize, found: n_ideal })
    } else if n_interval != n - 1 {
        Some(CriteriaError::IntervalWeightsLength { expected: (n - 1) as usize, found: n_interval })
    } else if n_key != n {
        Some(CriteriaError::KeyWeightsLength { expected: n, found: n_key })
    } else {
        None
    }
}

/// Well-formed criteria: at least two pitches, one ideal size and one weight per
/// interval class, one weight per key, and a system whose size fits in memory.
pub open spec fn valid<T>(c: CriteriaView<T>) -> bool {
    &&& c.num_pitches >= 2
    &&& c.ideal_intervals.len() == c.num_pitches - 1
    &&& c.interval_weights.len() == c.num_pitches - 1
    &&& c.key_weights.len() == c.num_pitches
    &&& num_rows(c.num_pitches) <= usize::MAX
}

/// The input of a temperament fit, always well formed.
pub struct Criteria<T> {
    num_pitches: usize,
    repeat_factor: T,
    ideal_intervals: Vec<T>,
    interval_weights: Vec<T>,
    key_weights: Vec<T>,
}

impl<T> View for Criteria<T> {
    type V = CriteriaView<T>;

    closed spec fn view(&self) -> CriteriaView<T> {
        CriteriaView {
            num_pitches: self.num_pitches as nat,
            repeat_factor: self.repeat_factor,
            ideal_intervals: self.ideal_intervals@,
            interval_weights: self.interval_weights@,
            key_weights: self.key_weights@,
        }
    }
}

impl<T> Criteria<T> {
    #[verifier::type_invariant]
    spec fn inv(&self) -> bool {
        valid(self@)
    }
}

impl<T: Copy> Criteria<T> {
    /// Checks the sizes of the criteria and builds them; the error names the
    /// first malformed field, in the order of the fields.
    pub fn new(
        num_pitches: usize,
        repeat_factor: T,
        ideal_intervals: Vec<T>,
        interval_weights: Vec<T>,
        key_weights: Vec<T>,
    ) -> (r: Result<Criteria<T>, CriteriaError>)
        requires
            num_pitches * num_pitches <= usize::MAX,
        ensures
            match r {
                Ok(c) => criteria_error(
                    num_pitches,
                    ideal_intervals.len(),
                    interval_weights.len(),
                    key_weights.len(),
                ) is None && c@ == (CriteriaView {
                    num_pitches: num_pitches as nat,
                    repeat_factor,
                    ideal_intervals: ideal_intervals@,
                    interval_weights: interval_weights@,
                    key_weights: key_weights@,
                }),
                Err(e) => criteria_error(
                    num_pitches,
                    ideal_intervals.len(),
                    interval_weights.len(),
                    key_weights.len(),
                ) == Some(e),
            },
    {
        let n_ideal = ideal_intervals.len();
        let n_interval = interval_weights.len();
        let n_key = key_weights.len();
        if num_pitches < 2 {
            return Err(CriteriaError::TooFewPitches { found: num_pitches });
        }
        if n_ideal != num_pitches - 1 {
            return Err(CriteriaError::IdealIntervalsLength { expected: num_pitches - 1, found: n_ideal });
        }
        if n_interval != num_pitches - 1 {
            return Err(
                CriteriaError::IntervalWeightsLength { expected: num_pitches - 1, found: n_interval },
            );
        }
        if n_key != num_pitches {
            return Err(CriteriaError::KeyWeightsLength { expected: num_pitches, found: n_key });
        }
        assert(num_rows(num_pitches as nat) <= usize::MAX) by (nonlinear_arith)
            requires
                num_pitches * num_pitches <= usize::MAX,
                num_pitches >= 2,
        ;
        Ok(Criteria { num_pitches, repeat_factor, ideal_intervals, interval_weights, key_weights })
    }

    /// Number of pitches per cycle; criteria are always well formed.
    pub fn num_pitches(&self) -> (r: usize)
        ensures
            r == self@.num_pitches,
            valid(self@),
    {
        proof {
            use_type_invariant(self);
        }
        self.num_pitches
    }

    /// Size of one full cycle.
    pub fn repeat_factor(&self) -> (r: T)
        ensures
            r == self@.repeat_factor,
    {
        self.repeat_factor
    }

    /// Ideal size of each interval class, measured from the reference pitch.
    pub fn ideal_intervals(&self) -> (r: &Vec<T>)
        ensures
            r@ == self@.ideal_intervals,
    {
        &self.ideal_intervals
    }

    /// Importance of each interval class.
    pub fn interval_weights(&self) -> (r: &Vec<T>)
        ensures
            r@ == self@.interval_weights,
    {
        &self.interval_weights
    }

    /// Importance of each key.
    pub fn key_weights(&self) -> (r: &Vec<T>)
        ensures
            r@ == self@.key_weights,
    {
        &self.key_weights
    }
}

} // verus!
