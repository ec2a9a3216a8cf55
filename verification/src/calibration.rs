//! The calibration engine: selecting the relevant window of the calibration
//! curve for a measurement, evaluating a Gaussian likelihood across it, and
//! normalizing the result into a discrete probability mass function.

use vstd::prelude::*;
use vstd::arithmetic::div_mod::{
    lemma_div_is_ordered, lemma_div_multiples_vanish, lemma_fundamental_div_mod,
    lemma_mod_division_less_than_divisor,
};
use crate::calendar::bp_to_bcad;
use crate::density::{point_density, spec_point_density, FIX_ONE};

verus! {

/// The computation-level failures of the engine, signalled to the caller
/// rather than raised.
#[derive(Debug, Clone, Copy, PartialEq, Eq)]
pub enum CalibrationError {
    /// The measurement's uncertainty is negative.
    InvalidMeasurement,
    /// No calendar point of the table lies in the plausible window.
    EmptySegment,
    /// A combined standard deviation of zero at some curve point.
    NonFiniteDensity,
    /// The raw likelihoods sum to zero, so no distribution exists.
    DegenerateNormalization,
}

/// An uncalibrated radiocarbon measurement.
#[derive(Debug, Clone, Copy, PartialEq, Eq)]
pub struct UncalibratedRadioCarbonDate {
    /// C14 age in years BP.
    pub c14_age: u32,
    /// Measurement uncertainty in years, a standard deviation; must be >= 0.
    pub c14_range: i32,
}

/// The calibration curve table: three index-aligned columns of equal length,
/// ordered from oldest to youngest along historical time, so both BP axes
/// are non-increasing with the index. Constructed once, then only read.
pub struct CalibrationCurve {
    /// Calendar position of each point, in years BP.
    bp: Vec<u32>,
    /// Expected radiocarbon age at each point, in years BP.
    uncalibrated_bp: Vec<u32>,
    /// Curve uncertainty at each point, in years.
    sigma_bp: Vec<i32>,
}

/// Well-formedness of the three columns of a curve table: equal lengths,
/// both BP axes non-increasing, and every BP value within calendar range.
pub open spec fn curve_columns_wf(bp: Seq<u32>, uncalibrated_bp: Seq<u32>, sigma_bp: Seq<i32>) -> bool {
    &&& bp.len() == uncalibrated_bp.len()
    &&& bp.len() == sigma_bp.len()
    &&& forall|i: int| 0 <= i < bp.len() ==> bp[i] <= i32::MAX
    &&& forall|i: int| 0 <= i < uncalibrated_bp.len() ==> uncalibrated_bp[i] <= i32::MAX
    &&& forall|i: int| 0 <= i && i + 1 < bp.len() ==> #[trigger] bp[i] >= bp[i + 1]
    &&& forall|i: int|
        0 <= i && i + 1 < uncalibrated_bp.len() ==> #[trigger] uncalibrated_bp[i]
            >= uncalibrated_bp[i + 1]
}

impl CalibrationCurve {
    /// The calendar axis, in years BP.
    pub closed spec fn cal_bp(&self) -> Seq<u32> {
        self.bp@
    }

    /// The radiocarbon-age axis, in years BP.
    pub closed spec fn c14_bp(&self) -> Seq<u32> {
        self.uncalibrated_bp@
    }

    /// The curve uncertainty, in years.
    pub closed spec fn sigma(&self) -> Seq<i32> {
        self.sigma_bp@
    }

    pub open spec fn wf(&self) -> bool {
        curve_columns_wf(self.cal_bp(), self.c14_bp(), self.sigma())
    }

    /// Validates the three columns once, at load time, and builds the table;
    /// rejects columns of unequal length, out-of-range values, or a
    /// radiocarbon axis that is not ordered oldest first.
    pub fn new(bp: Vec<u32>, uncalibrated_bp: Vec<u32>, sigma_bp: Vec<i32>) -> (r: Option<Self>)
        ensures
            match r {
                Some(c) => {
                    &&& c.wf()
                    &&& c.cal_bp() == bp@
                    &&& c.c14_bp() == uncalibrated_bp@
                    &&& c.sigma() == sigma_bp@
                },
                None => !curve_columns_wf(bp@, uncalibrated_bp@, sigma_bp@),
            },
    {
        if bp.len() != uncalibrated_bp.len() || bp.len() != sigma_bp.len() {
            return None;
        }
        let n = bp.len();
        let mut i: usize = 0;
        while i < n
            invariant
                n == bp@.len() == uncalibrated_bp@.len() == sigma_bp@.len(),
                i <= n,
                forall|k: int| 0 <= k < i ==> bp@[k] <= i32::MAX,
                forall|k: int| 0 <= k < i ==> uncalibrated_bp@[k] <= i32::MAX,
                forall|k: int|
                    0 <= k && k + 1 <= i && k + 1 < n ==> #[trigger] bp@[k] >= bp@[k + 1],
                forall|k: int|
                    0 <= k && k + 1 <= i && k + 1 < n ==> #[trigger] uncalibrated_bp@[k]
                        >= uncalibrated_bp@[k + 1],
            decreases n - i,
        {
            if bp[i] > i32::MAX as u32 || uncalibrated_bp[i] > i32::MAX as u32 {
                return None;
            }
            if i + 1 < n {
                if bp[i] < bp[i + 1] || uncalibrated_bp[i] < uncalibrated_bp[i + 1] {
                    return None;
                }
            }
            i = i + 1;
        }
        Some(CalibrationCurve { bp, uncalibrated_bp, sigma_bp })
    }

    /// Number of points in the table.
    pub fn len(&self) -> (n: usize)
        ensures
            n == self.cal_bp().len(),
    {
        self.bp.len()
    }
}

/// A borrowed, read-only view of a contiguous run of the curve table:
/// the half-open index range `[start, end)` over all three columns at once,
/// so that one index always refers to the same calendar point in each.
pub struct CalibratedCurveInBP<'a> {
    curve: &'a CalibrationCurve,
    start: usize,
    end: usize,
}

impl<'a> CalibratedCurveInBP<'a> {
    pub closed spec fn spec_curve(&self) -> &'a CalibrationCurve {
        self.curve
    }

    pub closed spec fn spec_start(&self) -> int {
        self.start as int
    }

    pub closed spec fn spec_end(&self) -> int {
        self.end as int
    }

    pub open spec fn wf(&self) -> bool {
        &&& self.spec_curve().wf()
        &&& 0 <= self.spec_start() <= self.spec_end() <= self.spec_curve().cal_bp().len()
    }

    /// First table index of the segment.
    pub fn start_index(&self) -> (s: usize)
        ensures
            s == self.spec_start(),
    {
        self.start
    }

    /// Table index one past the last point of the segment.
    pub fn end_index(&self) -> (e: usize)
        ensures
            e == self.spec_end(),
    {
        self.end
    }

    /// Number of points in the segment.
    pub fn len(&self) -> (n: usize)
        requires
            self.wf(),
        ensures
            n == self.spec_end() - self.spec_start(),
    {
        self.end - self.start
    }

    /// Calendar position of segment point `i`, in years BP.
    pub fn bp(&self, i: usize) -> (v: u32)
        requires
            self.wf(),
            i < self.spec_end() - self.spec_start(),
        ensures
            v == self.spec_curve().cal_bp()[self.spec_start() + i],
    {
        self.curve.bp[self.start + i]
    }

    /// Expected radiocarbon age of segment point `i`, in years BP.
    pub fn uncalibrated_bp(&self, i: usize) -> (v: u32)
        requires
            self.wf(),
            i < self.spec_end() - self.spec_start(),
        ensures
            v == self.spec_curve().c14_bp()[self.spec_start() + i],
    {
        self.curve.uncalibrated_bp[self.start + i]
    }

    /// Curve uncertainty of segment point `i`, in years.
    pub fn sigma_bp(&self, i: usize) -> (v: i32)
        requires
            self.wf(),
            i < self.spec_end() - self.spec_start(),
        ensures
            v == self.spec_curve().sigma()[self.spec_start() + i],
    {
        self.curve.sigma_bp[self.start + i]
    }
}

/// Upper edge of the plausible radiocarbon window: six standard deviations
/// above the measured age.
pub open spec fn spec_window_high(d: UncalibratedRadioCarbonDate) -> int {
    d.c14_age + 6 * d.c14_range
}

/// Lower edge of the plausible radiocarbon window: six standard deviations
/// below the measured age.
pub open spec fn spec_window_low(d: UncalibratedRadioCarbonDate) -> int {
    d.c14_age - 6 * d.c14_range
}

/// The first index at or after `i` whose value is at or below `hi`.
pub open spec fn spec_first_at_or_below(s: Seq<u32>, hi: int, i: nat) -> Option<nat>
    decreases s.len() - i,
{
    if i >= s.len() {
        None
    } else if s[i as int] <= hi {
        Some(i)
    } else {
        spec_first_at_or_below(s, hi, (i + 1) as nat)
    }
}

/// The last index below `i` whose value is at or above `lo`.
pub open spec fn spec_last_at_or_above(s: Seq<u32>, lo: int, i: nat) -> Option<nat>
    decreases i,
{
    if i == 0 || i > s.len() {
        None
    } else if s[i - 1] >= lo {
        Some((i - 1) as nat)
    } else {
        spec_last_at_or_above(s, lo, (i - 1) as nat)
    }
}

/// The index pair `(start, end)` of the curve segment for a measurement:
/// `start` is the first index with radiocarbon age at or below the window's
/// upper edge (0 if there is none), the candidate `end` is the last index
/// with radiocarbon age at or above the window's lower edge (the last table
/// index if there is none), and a crossed pair collapses to an empty segment.
pub open spec fn spec_segment_bounds(curve: CalibrationCurve, d: UncalibratedRadioCarbonDate) -> (
    int,
    int,
) {
    let n = curve.c14_bp().len() as int;
    if n == 0 {
        (0, 0)
    } else {
        let s = match spec_first_at_or_below(curve.c14_bp(), spec_window_high(d), 0) {
            Some(k) => k as int,
            None => 0,
        };
        let t = match spec_last_at_or_above(curve.c14_bp(), spec_window_low(d), n as nat) {
            Some(k) => k as int,
            None => n - 1,
        };
        if s <= t {
            (s, t)
        } else {
            (s, s)
        }
    }
}

/// Grabs the sub-range of the table plausibly consistent with the
/// measurement: a window of six standard deviations on either side of the
/// measured radiocarbon age, with safe defaults when a scan finds nothing,
/// so every lookup stays in range.
pub fn calibrated_curve_segment<'a>(
    curve: &'a CalibrationCurve,
    uncal: UncalibratedRadioCarbonDate,
) -> (seg: CalibratedCurveInBP<'a>)
    requires
        curve.wf(),
        uncal.c14_range >= 0,
    ensures
        seg.wf(),
        seg.spec_curve() == curve,
        (seg.spec_start(), seg.spec_end()) == spec_segment_bounds(*curve, uncal),
{
    let n = curve.len();
    if n == 0 {
        return CalibratedCurveInBP { curve, start: 0, end: 0 };
    }
    let high: i64 = uncal.c14_age as i64 + 6 * (uncal.c14_range as i64);
    let low: i64 = uncal.c14_age as i64 - 6 * (uncal.c14_range as i64);

    let mut start: usize = 0;
    let mut found_start = false;
    let mut i: usize = 0;
    while i < n && !found_start
        invariant
            n == curve.c14_bp().len(),
            i <= n,
            high == spec_window_high(uncal),
            found_start ==> i < n && start == i && spec_first_at_or_below(
                curve.c14_bp(),
                high as int,
                0,
            ) == Some(i as nat),
            !found_start ==> start == 0 && spec_first_at_or_below(curve.c14_bp(), high as int, 0)
                == spec_first_at_or_below(curve.c14_bp(), high as int, i as nat),
        decreases n - i + (if found_start { 0int } else { 1int }),
    {
        if (curve.uncalibrated_bp[i] as i64) <= high {
            start = i;
            found_start = true;
        } else {
            i = i + 1;
        }
    }

    let mut stop: usize = n - 1;
    let mut found_stop = false;
    let mut j: usize = n;
    while j > 0 && !found_stop
        invariant
            n == curve.c14_bp().len(),
            j <= n,
            low == spec_window_low(uncal),
            found_stop ==> 0 < j <= n && stop == j - 1 && spec_last_at_or_above(
                curve.c14_bp(),
                low as int,
                n as nat,
            ) == Some((j - 1) as nat),
            !found_stop ==> stop == n - 1 && spec_last_at_or_above(curve.c14_bp(), low as int, n as nat)
                == spec_last_at_or_above(curve.c14_bp(), low as int, j as nat),
        decreases j + (if found_stop { 0int } else { 1int }),
    {
        if (curve.uncalibrated_bp[j - 1] as i64) >= low {
            stop = j - 1;
            found_stop = true;
        } else {
            j = j - 1;
        }
    }

    if start <= stop {
        CalibratedCurveInBP { curve, start, end: stop }
    } else {
        CalibratedCurveInBP { curve, start, end: start }
    }
}

/// Sum of a sequence of integers.
pub open spec fn sum_int(s: Seq<int>) -> int
    decreases s.len(),
{
    if s.len() == 0 {
        0
    } else {
        sum_int(s.drop_last()) + s.last()
    }
}

/// Extending a prefix sum by one element.
pub proof fn lemma_sum_take_step(s: Seq<int>, i: int)
    requires
        0 <= i < s.len(),
    ensures
        sum_int(s.take(i + 1)) == sum_int(s.take(i)) + s[i],
{
    assert(s.take(i + 1).drop_last() =~= s.take(i));
    assert(s.take(i + 1).last() == s[i]);
}

/// A sum of non-negative integers is non-negative.
pub proof fn lemma_sum_nonneg(s: Seq<int>)
    requires
        forall|k: int| 0 <= k < s.len() ==> s[k] >= 0,
    ensures
        sum_int(s) >= 0,
    decreases s.len(),
{
    if s.len() > 0 {
        lemma_sum_nonneg(s.drop_last());
    }
}

/// Every element of a sequence of non-negative integers is at most the sum.
pub proof fn lemma_element_le_sum(s: Seq<int>, i: int)
    requires
        0 <= i < s.len(),
        forall|k: int| 0 <= k < s.len() ==> s[k] >= 0,
    ensures
        s[i] <= sum_int(s),
    decreases s.len(),
{
    if i + 1 == s.len() {
        lemma_sum_nonneg(s.drop_last());
    } else {
        lemma_element_le_sum(s.drop_last(), i);
    }
}

/// Calendar offset between the measurement and the mean of curve point `i`:
/// both are converted to the calendar scale before they are compared.
pub open spec fn spec_cal_diff(
    curve: CalibrationCurve,
    d: UncalibratedRadioCarbonDate,
    i: int,
) -> int {
    (1950 - d.c14_age) - (1950 - curve.c14_bp()[i])
}

/// Combined variance at curve point `i`: measurement variance plus the
/// square of the curve's own uncertainty there.
pub open spec fn spec_combined_var(
    curve: CalibrationCurve,
    d: UncalibratedRadioCarbonDate,
    i: int,
) -> int {
    d.c14_range * d.c14_range + curve.sigma()[i] * curve.sigma()[i]
}

/// Calendar years of the table points in `[s, t)`.
pub open spec fn spec_years_in(curve: CalibrationCurve, s: int, t: int) -> Seq<int> {
    Seq::new((t - s) as nat, |i: int| 1950 - curve.cal_bp()[s + i])
}

/// Raw scaled likelihoods of the table points in `[s, t)`.
pub open spec fn spec_densities_in(
    curve: CalibrationCurve,
    d: UncalibratedRadioCarbonDate,
    s: int,
    t: int,
) -> Seq<int> {
    Seq::new(
        (t - s) as nat,
        |i: int| spec_point_density(spec_cal_diff(curve, d, s + i), spec_combined_var(curve, d, s + i)),
    )
}

/// The whole engine as a function of its inputs: validation, segment
/// selection, density evaluation and normalization, with each failure
/// condition signalled exactly where it arises.
pub open spec fn spec_calibrate(curve: CalibrationCurve, d: UncalibratedRadioCarbonDate) -> Result<
    (Seq<int>, Seq<int>),
    CalibrationError,
> {
    if d.c14_range < 0 {
        Err(CalibrationError::InvalidMeasurement)
    } else {
        let st = spec_segment_bounds(curve, d);
        if st.0 == st.1 {
            Err(CalibrationError::EmptySegment)
        } else if exists|i: int|
            st.0 <= i < st.1 && #[trigger] spec_combined_var(curve, d, i) == 0 {
            Err(CalibrationError::NonFiniteDensity)
        } else {
            let dens = spec_densities_in(curve, d, st.0, st.1);
            let total = sum_int(dens);
            if total == 0 {
                Err(CalibrationError::DegenerateNormalization)
            } else {
                Ok(
                    (
                        spec_years_in(curve, st.0, st.1),
                        Seq::new(dens.len(), |i: int| dens[i] * (FIX_ONE as int) / total),
                    ),
                )
            }
        }
    }
}

/// `pdf` stands for probability density function: an ordered sequence of
/// calendar years and a parallel sequence of scaled probability masses.
#[derive(Debug, PartialEq, Eq)]
pub struct CalibratedPDF {
    /// Calendar year of each point; negative years are BC.
    pub pdf: Vec<i32>,
    /// Mass at each year. Raw likelihoods before normalization, a
    /// probability scaled by `FIX_ONE` after it.
    pub pdf_density: Vec<u64>,
}

/// Rescales raw likelihoods into a discrete probability mass function:
/// each entry becomes its share of the total, in fixed point, paired with
/// the unchanged calendar years. A zero total is reported as
/// `DegenerateNormalization`, never divided by.
pub fn normalise_calibrated_pdf(pdf: CalibratedPDF) -> (r: Result<
    CalibratedPDF,
    CalibrationError,
>)
    requires
        pdf.pdf@.len() == pdf.pdf_density@.len(),
        forall|i: int| 0 <= i < pdf.pdf_density@.len() ==> pdf.pdf_density@[i] <= FIX_ONE,
    ensures
        ({
            let dens = pdf.pdf_density@.map_values(|x: u64| x as int);
            let total = sum_int(dens);
            match r {
                Ok(q) => {
                    &&& total > 0
                    &&& q.pdf@ == pdf.pdf@
                    &&& q.pdf_density@.len() == dens.len()
                    &&& forall|i: int|
                        0 <= i < dens.len() ==> #[trigger] q.pdf_density@[i] == dens[i] * (
                        FIX_ONE as int) / total
                    &&& sum_int(q.pdf_density@.map_values(|x: u64| x as int)) <= FIX_ONE
                    &&& FIX_ONE <= sum_int(q.pdf_density@.map_values(|x: u64| x as int))
                        + dens.len()
                },
                Err(e) => e == CalibrationError::DegenerateNormalization && total == 0,
            }
        }),
{
    let ghost dens = pdf.pdf_density@.map_values(|x: u64| x as int);
    proof {
        lemma_sum_nonneg(dens);
    }
    let n = pdf.pdf_density.len();
    let mut total: u128 = 0;
    let mut i: usize = 0;
    while i < n
        invariant
            n == dens.len(),
            dens == pdf.pdf_density@.map_values(|x: u64| x as int),
            forall|k: int| 0 <= k < n ==> dens[k] == pdf.pdf_density@[k] && 0 <= dens[k] <= FIX_ONE,
            i <= n,
            total == sum_int(dens.take(i as int)),
            total <= (i as int) * (FIX_ONE as int),
        decreases n - i,
    {
        proof {
            lemma_sum_take_step(dens, i as int);
            assert((i as int) * (FIX_ONE as int) + (FIX_ONE as int) == ((i + 1) as int) * (
            FIX_ONE as int)) by (nonlinear_arith);
            assert(((i + 1) as int) * (FIX_ONE as int) <= 0x1_0000_0000_0000_0000 * (
            FIX_ONE as int)) by (nonlinear_arith)
                requires
                    i + 1 <= 0x1_0000_0000_0000_0000,
            ;
        }
        total = total + (pdf.pdf_density[i] as u128);
        i = i + 1;
    }
    proof {
        assert(dens.take(n as int) =~= dens);
    }
    if total == 0 {
        return Err(CalibrationError::DegenerateNormalization);
    }
    let ghost t = sum_int(dens);
    let mut out: Vec<u64> = Vec::new();
    let mut j: usize = 0;
    while j < n
        invariant
            n == dens.len() == pdf.pdf_density@.len(),
            dens == pdf.pdf_density@.map_values(|x: u64| x as int),
            forall|k: int| 0 <= k < n ==> dens[k] == pdf.pdf_density@[k] && 0 <= dens[k] <= FIX_ONE,
            j <= n,
            t == sum_int(dens) == total,
            t > 0,
            out@.len() == j,
            forall|k: int|
                0 <= k < j ==> #[trigger] out@[k] == dens[k] * (FIX_ONE as int) / t,
            sum_int(out@.map_values(|x: u64| x as int).take(j as int)) * t <= sum_int(
                dens.take(j as int),
            ) * (FIX_ONE as int),
            sum_int(dens.take(j as int)) * (FIX_ONE as int) <= (sum_int(
                out@.map_values(|x: u64| x as int).take(j as int),
            ) + j) * t,
        decreases n - j,
    {
        let ghost outm = out@.map_values(|x: u64| x as int);
        let ghost a = sum_int(outm.take(j as int));
        let ghost dsum = sum_int(dens.take(j as int));
        let d = pdf.pdf_density[j];
        proof {
            lemma_element_le_sum(dens, j as int);
            lemma_fundamental_div_mod((d as int) * (FIX_ONE as int), t);
            lemma_mod_division_less_than_divisor((d as int) * (FIX_ONE as int), t);
            assert((d as int) * (FIX_ONE as int) <= t * (FIX_ONE as int)) by (nonlinear_arith)
                requires
                    d as int <= t,
                    FIX_ONE as int > 0,
            ;
            lemma_div_is_ordered((d as int) * (FIX_ONE as int), t * (FIX_ONE as int), t);
            lemma_div_multiples_vanish(FIX_ONE as int, t);
        }
        let p: u64 = (((d as u128) * (FIX_ONE as u128)) / total) as u64;
        let ghost q = (d as int) * (FIX_ONE as int) / t;
        proof {
            assert(p == q);
            assert(q * t <= (d as int) * (FIX_ONE as int) < (q + 1) * t) by {
                lemma_fundamental_div_mod((d as int) * (FIX_ONE as int), t);
                lemma_mod_division_less_than_divisor((d as int) * (FIX_ONE as int), t);
                assert((q + 1) * t == q * t + t) by (nonlinear_arith);
                assert(t * q == q * t) by (nonlinear_arith);
            };
        }
        out.push(p);
        j = j + 1;
        proof {
            let outm2 = out@.map_values(|x: u64| x as int);
            assert(outm2.take(j as int).drop_last() =~= outm.take(j - 1 as int));
            lemma_sum_take_step(outm2, j - 1 as int);
            assert(outm2.take(j - 1 as int) =~= outm.take(j - 1 as int));
            lemma_sum_take_step(dens, j - 1 as int);
            let a2 = sum_int(outm2.take(j as int));
            let dsum2 = sum_int(dens.take(j as int));
            assert(a2 == a + q);
            assert(dsum2 == dsum + d as int);
            assert(a2 * t == a * t + q * t) by (nonlinear_arith)
                requires
                    a2 == a + q,
            ;
            assert(dsum2 * (FIX_ONE as int) == dsum * (FIX_ONE as int) + (d as int) * (
            FIX_ONE as int)) by (nonlinear_arith)
                requires
                    dsum2 == dsum + d as int,
            ;
            assert((a2 + j as int) * t == (a + j as int - 1) * t + (q + 1) * t)
                by (nonlinear_arith)
                requires
                    a2 == a + q,
            ;
        }
    }
    proof {
        let outm = out@.map_values(|x: u64| x as int);
        assert(outm.take(n as int) =~= outm);
        assert(dens.take(n as int) =~= dens);
        let a = sum_int(outm);
        assert(a * t <= t * (FIX_ONE as int)) by (nonlinear_arith)
            requires
                a * t <= sum_int(dens) * (FIX_ONE as int),
                t == sum_int(dens),
        ;
        assert(a <= FIX_ONE as int) by (nonlinear_arith)
            requires
                a * t <= t * (FIX_ONE as int),
                t > 0,
        ;
        assert(t * (FIX_ONE as int) <= (a + n as int) * t) by (nonlinear_arith)
            requires
                sum_int(dens) * (FIX_ONE as int) <= (a + n as int) * t,
                t == sum_int(dens),
        ;
        assert(FIX_ONE <= a + n as int) by (nonlinear_arith)
            requires
                t * (FIX_ONE as int) <= (a + n as int) * t,
                t > 0,
        ;
    }
    Ok(CalibratedPDF { pdf: pdf.pdf, pdf_density: out })
}

/// The Density Evaluator: for every point of the segment, the calendar year
/// of the point and the Gaussian likelihood that the measurement matches it.
/// The mean at a point comes from the radiocarbon-age column and the spread
/// from the sigma column — the curve supplies an expected radiocarbon age
/// together with its own uncertainty — and both the measurement and the mean
/// are converted to the calendar scale before they are compared. A combined
/// variance of zero at any point is reported as `NonFiniteDensity`, never
/// divided by.
pub fn evaluate_densities(seg: &CalibratedCurveInBP, uncal: UncalibratedRadioCarbonDate) -> (r:
    Result<CalibratedPDF, CalibrationError>)
    requires
        seg.wf(),
        uncal.c14_age <= i32::MAX,
        uncal.c14_range >= 0,
    ensures
        ({
            let curve = *seg.spec_curve();
            let s = seg.spec_start();
            let t = seg.spec_end();
            match r {
                Ok(p) => {
                    &&& forall|i: int|
                        s <= i < t ==> #[trigger] spec_combined_var(curve, uncal, i) != 0
                    &&& p.pdf@.map_values(|y: i32| y as int) == spec_years_in(curve, s, t)
                    &&& p.pdf_density@.map_values(|x: u64| x as int) == spec_densities_in(
                        curve,
                        uncal,
                        s,
                        t,
                    )
                    &&& p.pdf@.len() == p.pdf_density@.len()
                    &&& forall|k: int|
                        0 <= k < p.pdf_density@.len() ==> #[trigger] p.pdf_density@[k] <= FIX_ONE
                },
                Err(e) => {
                    &&& e == CalibrationError::NonFiniteDensity
                    &&& exists|i: int|
                        s <= i < t && #[trigger] spec_combined_var(curve, uncal, i) == 0
                },
            }
        }),
{
    let n = seg.len();
    let age = bp_to_bcad(uncal.c14_age);
    let mut years: Vec<i32> = Vec::new();
    let mut dens: Vec<u64> = Vec::new();
    let mut i: usize = 0;
    while i < n
        invariant
            seg.wf(),
            uncal.c14_age <= i32::MAX,
            uncal.c14_range >= 0,
            n == seg.spec_end() - seg.spec_start(),
            age.0 == 1950 - uncal.c14_age,
            i <= n,
            years@.len() == i,
            dens@.len() == i,
            forall|k: int|
                0 <= k < i ==> #[trigger] years@[k] == 1950 - seg.spec_curve().cal_bp()[
                    seg.spec_start() + k],
            forall|k: int|
                0 <= k < i ==> #[trigger] dens@[k] as int == spec_point_density(
                    spec_cal_diff(*seg.spec_curve(), uncal, seg.spec_start() + k),
                    spec_combined_var(*seg.spec_curve(), uncal, seg.spec_start() + k),
                ),
            forall|k: int| 0 <= k < i ==> #[trigger] dens@[k] <= FIX_ONE,
            forall|k: int|
                seg.spec_start() <= k < seg.spec_start() + i ==> #[trigger] spec_combined_var(
                    *seg.spec_curve(),
                    uncal,
                    k,
                ) != 0,
        decreases n - i,
    {
        let y = bp_to_bcad(seg.bp(i));
        let mu = bp_to_bcad(seg.uncalibrated_bp(i));
        let sg = seg.sigma_bp(i);
        let rng64 = uncal.c14_range as u64;
        proof {
            assert(rng64 * rng64 <= 0x7fffffff * 0x7fffffff) by (nonlinear_arith)
                requires
                    0 <= rng64 <= 0x7fffffff,
            ;
            assert(0 <= (sg as i64) * (sg as i64) <= 0x8000_0000 * 0x8000_0000)
                by (nonlinear_arith)
                requires
                    -0x8000_0000 <= sg as i64 <= 0x7fffffff,
            ;
        }
        let sg2: u64 = ((sg as i64) * (sg as i64)) as u64;
        let var: u64 = rng64 * rng64 + sg2;
        if var == 0 {
            proof {
                assert(seg.spec_start() <= seg.spec_start() + i < seg.spec_end());
                assert(spec_combined_var(*seg.spec_curve(), uncal, seg.spec_start() + i as int)
                    == 0);
            }
            return Err(CalibrationError::NonFiniteDensity);
        }
        let diff: i64 = (age.0 as i64) - (mu.0 as i64);
        let d = point_density(diff, var);
        years.push(y.0);
        dens.push(d);
        i = i + 1;
    }
    proof {
        let curve = *seg.spec_curve();
        let s = seg.spec_start();
        let t = seg.spec_end();
        assert(years@.map_values(|y: i32| y as int) =~= spec_years_in(curve, s, t));
        assert(dens@.map_values(|x: u64| x as int) =~= spec_densities_in(curve, uncal, s, t));
    }
    Ok(CalibratedPDF { pdf: years, pdf_density: dens })
}

/// Calibrates a radiocarbon measurement against the curve: rejects a
/// negative uncertainty, selects the plausible curve segment, evaluates the
/// Gaussian likelihood at each of its points, and normalizes the result
/// into a discrete probability mass function over calendar years. The
/// result is exactly `spec_calibrate`; on success the probabilities are
/// non-negative, miss a total of `FIX_ONE` by at most one part per point,
/// and the calendar years keep the table's historical order.
pub fn carbon_date_density_bchron(
    curve: &CalibrationCurve,
    uncal: UncalibratedRadioCarbonDate,
) -> (r: Result<CalibratedPDF, CalibrationError>)
    requires
        curve.wf(),
        uncal.c14_age <= i32::MAX,
    ensures
        ({
            match (r, spec_calibrate(*curve, uncal)) {
                (Ok(p), Ok(pair)) => {
                    &&& p.pdf@.map_values(|y: i32| y as int) == pair.0
                    &&& p.pdf_density@.map_values(|x: u64| x as int) == pair.1
                    &&& p.pdf@.len() == p.pdf_density@.len()
                    &&& sum_int(p.pdf_density@.map_values(|x: u64| x as int)) <= FIX_ONE
                    &&& FIX_ONE <= sum_int(p.pdf_density@.map_values(|x: u64| x as int))
                        + p.pdf_density@.len()
                    &&& forall|k: int|
                        0 <= k < p.pdf@.len() - 1 ==> #[trigger] p.pdf@[k] <= p.pdf@[k + 1]
                },
                (Err(e), Err(se)) => e == se,
                _ => false,
            }
        }),
{
    if uncal.c14_range < 0 {
        return Err(CalibrationError::InvalidMeasurement);
    }
    let seg = calibrated_curve_segment(curve, uncal);
    let ghost st = spec_segment_bounds(*curve, uncal);
    if seg.len() == 0 {
        return Err(CalibrationError::EmptySegment);
    }
    let raw = match evaluate_densities(&seg, uncal) {
        Ok(p) => p,
        Err(e) => {
            return Err(e);
        },
    };
    match normalise_calibrated_pdf(raw) {
        Ok(q) => {
            proof {
                let pair = (spec_years_in(*curve, st.0, st.1), Seq::new(
                    spec_densities_in(*curve, uncal, st.0, st.1).len(),
                    |i: int|
                        spec_densities_in(*curve, uncal, st.0, st.1)[i] * (FIX_ONE as int)
                            / sum_int(spec_densities_in(*curve, uncal, st.0, st.1)),
                ));
                assert(q.pdf_density@.map_values(|x: u64| x as int) =~= pair.1);
                assert forall|k: int| 0 <= k < q.pdf@.len() - 1 implies #[trigger] q.pdf@[k]
                    <= q.pdf@[k + 1] by {
                    assert(curve.cal_bp()[st.0 + k] >= curve.cal_bp()[st.0 + k + 1]);
                    assert(q.pdf@.map_values(|y: i32| y as int)[k] == q.pdf@[k] as int);
                    assert(q.pdf@.map_values(|y: i32| y as int)[k + 1] == q.pdf@[k + 1] as int);
                }
            }
            Ok(q)
        },
        Err(e) => Err(e),
    }
}

/// What the forward scan's answer means: a found index holds a value at or
/// below the bound and every index before it lies above it; no answer means
/// every scanned value lies above the bound.
proof fn lemma_first_at_or_below_characterizes(s: Seq<u32>, hi: int, i: nat)
    requires
        i <= s.len(),
    ensures
        match spec_first_at_or_below(s, hi, i) {
            Some(k) => i <= k < s.len() && s[k as int] <= hi && forall|j: int|
                i <= j < k ==> s[j] > hi,
            None => forall|j: int| i <= j < s.len() ==> s[j] > hi,
        },
    decreases s.len() - i,
{
    if i < s.len() && s[i as int] > hi {
        lemma_first_at_or_below_characterizes(s, hi, (i + 1) as nat);
    }
}

/// What the backward scan's answer means: a found index holds a value at or
/// above the bound and every index after it (below `i`) lies below it; no
/// answer means every scanned value lies below the bound.
proof fn lemma_last_at_or_above_characterizes(s: Seq<u32>, lo: int, i: nat)
    requires
        i <= s.len(),
    ensures
        match spec_last_at_or_above(s, lo, i) {
            Some(k) => k < i && s[k as int] >= lo && forall|j: int| k < j < i ==> s[j] < lo,
            None => forall|j: int| 0 <= j < i ==> s[j] < lo,
        },
    decreases i,
{
    if i > 0 && s[i - 1] < lo {
        lemma_last_at_or_above_characterizes(s, lo, (i - 1) as nat);
    }
}

/// The selected segment covers the plausible window: every table point
/// whose radiocarbon age lies within six standard deviations of the
/// measurement sits between the segment's bounds. Only the point at the
/// half-open end can fall outside the segment itself.
pub proof fn lemma_segment_covers_window(
    curve: CalibrationCurve,
    d: UncalibratedRadioCarbonDate,
    i: int,
)
    requires
        curve.wf(),
        0 <= i < curve.c14_bp().len(),
        spec_window_low(d) <= curve.c14_bp()[i] <= spec_window_high(d),
    ensures
        spec_segment_bounds(curve, d).0 <= i <= spec_segment_bounds(curve, d).1,
{
    lemma_first_at_or_below_characterizes(curve.c14_bp(), spec_window_high(d), 0);
    lemma_last_at_or_above_characterizes(
        curve.c14_bp(),
        spec_window_low(d),
        curve.c14_bp().len(),
    );
}

/// The engine is deterministic: the calibrated distribution is a function
/// of the curve and the measurement alone, so running the pipeline twice on
/// identical input yields identical output.
pub proof fn lemma_calibration_deterministic(
    curve: CalibrationCurve,
    d: UncalibratedRadioCarbonDate,
    r1: Result<(Seq<int>, Seq<int>), CalibrationError>,
    r2: Result<(Seq<int>, Seq<int>), CalibrationError>,
)
    requires
        r1 == spec_calibrate(curve, d),
        r2 == spec_calibrate(curve, d),
    ensures
        r1 == r2,
{
}

} // verus!
