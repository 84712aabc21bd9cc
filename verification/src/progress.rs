//! Progress of an operation: how far it has come, and what it is doing.

use vstd::prelude::*;

verus! {

/// A progress ratio, kept as the integers it was formed from.
///
/// `num / den` is the ratio. A denominator of zero says that the total is not
/// known, so that there is no ratio to speak of.
#[derive(Clone, Copy, Debug, PartialEq, Eq, Structural)]
pub struct Ratio {
    pub num: u64,
    pub den: u64,
}

impl Ratio {
    /// The ratio is between 0 and 1.
    pub open spec fn wf(self) -> bool {
        self.num <= self.den
    }

    /// The total is known.
    pub open spec fn is_known(self) -> bool {
        self.den > 0
    }

    /// The ratio is exactly 1.
    pub open spec fn is_one(self) -> bool {
        self.den > 0 && self.num == self.den
    }

    /// The ratio is exactly 0.
    pub open spec fn is_zero(self) -> bool {
        self.den > 0 && self.num == 0
    }

    /// `self` is no larger than `other`, as fractions.
    pub open spec fn le(self, other: Ratio) -> bool {
        self.num * other.den <= other.num * self.den
    }

    /// The ratio of `done` to `total`, with `done` held down to `total`.
    pub open spec fn spec_of(done: int, total: int) -> Ratio {
        Ratio { num: (if done <= total { done } else { total }) as u64, den: total as u64 }
    }

    /// Nothing done yet.
    pub fn zero() -> (r: Ratio)
        ensures
            r == (Ratio { num: 0, den: 1 }),
            r.is_zero(),
            r.wf(),
    {
        Ratio { num: 0, den: 1 }
    }

    /// All done.
    pub fn one() -> (r: Ratio)
        ensures
            r == (Ratio { num: 1, den: 1 }),
            r.is_one(),
            r.wf(),
    {
        Ratio { num: 1, den: 1 }
    }

    /// The ratio of `done` to `total`. A `done` beyond `total` counts as `total`,
    /// so the ratio never exceeds 1; with a `total` of zero the result is the
    /// unknown ratio.
    pub fn of(done: u64, total: u64) -> (r: Ratio)
        ensures
            r == Ratio::spec_of(done as int, total as int),
            r.wf(),
            r.den == total,
            done >= total && total > 0 ==> r.is_one(),
    {
        if done <= total {
            Ratio { num: done, den: total }
        } else {
            Ratio { num: total, den: total }
        }
    }

    /// Whether the total is known.
    pub fn known(&self) -> (b: bool)
        ensures
            b == self.is_known(),
    {
        self.den > 0
    }

    /// Whether the ratio is 1.
    pub fn complete(&self) -> (b: bool)
        ensures
            b == self.is_one(),
    {
        self.den > 0 && self.num == self.den
    }
}

/// One progress report: a ratio and a status text.
#[derive(Debug)]
pub struct ProgressEvent {
    pub ratio: Ratio,
    pub message: String,
}

/// What a progress report says.
pub struct ProgressView {
    pub ratio: Ratio,
    pub message: Seq<char>,
}

impl View for ProgressEvent {
    type V = ProgressView;

    open spec fn view(&self) -> ProgressView {
        ProgressView { ratio: self.ratio, message: self.message@ }
    }
}

/// Of two ratios over one total, the one with the smaller count is the smaller.
pub proof fn lemma_same_total_le(a: Ratio, b: Ratio)
    requires
        a.den == b.den,
        a.num <= b.num,
    ensures
        a.le(b),
{
    vstd::arithmetic::mul::lemma_mul_inequality(a.num as int, b.num as int, a.den as int);
}

/// Nothing is below the zero ratio, and every well-formed ratio is at most 1.
pub proof fn lemma_zero_least_one_greatest(r: Ratio)
    requires
        r.wf(),
    ensures
        (Ratio { num: 0, den: 1 }).le(r),
        r.le(Ratio { num: 1, den: 1 }),
{
}

} // verus!
