use radiocarbon::{
    bp_to_bcad, calibrated_curve_segment, carbon_date_density_bchron, normalise_calibrated_pdf,
    point_density, CalibratedPDF, CalibrationCurve, CalibrationError, UncalibratedRadioCarbonDate,
    YearInBCOrAD, FIX_ONE,
};

/// A synthetic calibration curve whose radiocarbon age equals its calendar
/// position: `hi`, `hi - 1`, ..., `lo` on both BP axes, with a constant
/// curve uncertainty.
fn linear_curve(hi: u32, lo: u32, sigma: i32) -> CalibrationCurve {
    let mut bp: Vec<u32> = Vec::new();
    let mut c14: Vec<u32> = Vec::new();
    let mut sg: Vec<i32> = Vec::new();
    let mut v = hi;
    loop {
        bp.push(v);
        c14.push(v);
        sg.push(sigma);
        if v == lo {
            break;
        }
        v -= 1;
    }
    CalibrationCurve::new(bp, c14, sg).expect("columns are well formed")
}

fn curve_from(bp: Vec<u32>, c14: Vec<u32>, sg: Vec<i32>) -> CalibrationCurve {
    CalibrationCurve::new(bp, c14, sg).expect("columns are well formed")
}

#[test]
fn bp_conversion() {
    assert_eq!(bp_to_bcad(3000).to_display_string(), "BC 1050");
}

#[test]
fn density_of_normal_dist() {
    // The density at a zero deviate is 1/sqrt(2*pi).
    assert_eq!((point_density(0, 1) as f64 / FIX_ONE as f64) as f32, 0.3989423);
}

#[test]
fn get_curve() {
    let curve = linear_curve(3500, 2500, 20);
    println!(
        "{:?}",
        carbon_date_density_bchron(
            &curve,
            UncalibratedRadioCarbonDate { c14_age: 3000, c14_range: 30 }
        )
    )
}

#[test]
fn calendar_year_value() {
    assert_eq!(bp_to_bcad(3000).0, -1050);
    assert_eq!(bp_to_bcad(1000).0, 950);
    assert_eq!(bp_to_bcad(1950).0, 0);
}

#[test]
fn display_ad_year() {
    assert_eq!(bp_to_bcad(1000).to_display_string(), "AD 950");
    assert_eq!(bp_to_bcad(1950).to_display_string(), "AD 0");
}

#[test]
fn pdf_mass_sums_to_one() {
    let curve = linear_curve(3500, 2500, 20);
    let pdf = carbon_date_density_bchron(
        &curve,
        UncalibratedRadioCarbonDate { c14_age: 3000, c14_range: 30 },
    )
    .expect("calibration succeeds");
    let mut sum = 0.0f64;
    for &p in pdf.pdf_density.iter() {
        assert!(p <= FIX_ONE);
        sum += p as f64 / FIX_ONE as f64;
    }
    assert!((sum - 1.0).abs() < 1e-9);
}

#[test]
fn pdf_years_follow_table_order() {
    let curve = linear_curve(3500, 2500, 20);
    let pdf = carbon_date_density_bchron(
        &curve,
        UncalibratedRadioCarbonDate { c14_age: 3000, c14_range: 30 },
    )
    .expect("calibration succeeds");
    for w in pdf.pdf.windows(2) {
        assert!(w[0] <= w[1]);
    }
}

#[test]
fn curve_segment_window() {
    let curve = linear_curve(3500, 2500, 20);
    let date = UncalibratedRadioCarbonDate { c14_age: 3000, c14_range: 30 };
    let seg = calibrated_curve_segment(&curve, date);
    let (s, e) = (seg.start_index(), seg.end_index());
    assert!(s < e, "segment must not be empty");
    // The window is [2820, 3180]; the segment is half-open, so it spans
    // every table point from 3180 down to one step above the lower edge.
    assert_eq!(seg.uncalibrated_bp(0), 3180);
    assert_eq!(seg.uncalibrated_bp(e - s - 1), 2821);

    // The most probable calendar year of the calibrated distribution falls
    // on the measurement itself: year -1050.
    let pdf = carbon_date_density_bchron(&curve, date).expect("calibration succeeds");
    let mut best = 0usize;
    for i in 0..pdf.pdf_density.len() {
        if pdf.pdf_density[i] > pdf.pdf_density[best] {
            best = i;
        }
    }
    assert!((pdf.pdf[best] - (-1050)).abs() <= 30);
    assert_eq!(pdf.pdf[best], -1050);
}

#[test]
fn calibration_idempotent() {
    let curve = linear_curve(3500, 2500, 20);
    let date = UncalibratedRadioCarbonDate { c14_age: 3000, c14_range: 30 };
    let first = carbon_date_density_bchron(&curve, date);
    let second = carbon_date_density_bchron(&curve, date);
    assert_eq!(first, second);
}

#[test]
fn zero_uncertainty_uses_curve_variance() {
    // With a measurement uncertainty of zero the density falls back to the
    // curve's own variance; two equally plausible points share the mass.
    let curve = curve_from(vec![3002, 3001, 3000], vec![3000, 3000, 3000], vec![20, 20, 20]);
    let pdf = carbon_date_density_bchron(
        &curve,
        UncalibratedRadioCarbonDate { c14_age: 3000, c14_range: 0 },
    )
    .expect("zero uncertainty is valid");
    assert_eq!(pdf.pdf_density.len(), 2);
    assert_eq!(pdf.pdf_density[0], FIX_ONE / 2);
    assert_eq!(pdf.pdf_density[1], FIX_ONE / 2);
}

#[test]
fn zero_combined_variance_rejected() {
    let curve = curve_from(vec![3002, 3001, 3000], vec![3000, 3000, 3000], vec![0, 0, 0]);
    let r = carbon_date_density_bchron(
        &curve,
        UncalibratedRadioCarbonDate { c14_age: 3000, c14_range: 0 },
    );
    assert_eq!(r, Err(CalibrationError::NonFiniteDensity));
}

#[test]
fn negative_uncertainty_rejected() {
    let curve = linear_curve(3500, 2500, 20);
    let r = carbon_date_density_bchron(
        &curve,
        UncalibratedRadioCarbonDate { c14_age: 3000, c14_range: -1 },
    );
    assert_eq!(r, Err(CalibrationError::InvalidMeasurement));
}

#[test]
fn empty_segment_reported() {
    // The measurement falls in a gap of the table: the two scans cross and
    // the segment collapses to an empty one.
    let curve = curve_from(vec![5000, 4000, 3000], vec![5000, 4000, 3000], vec![10, 10, 10]);
    let r = carbon_date_density_bchron(
        &curve,
        UncalibratedRadioCarbonDate { c14_age: 3500, c14_range: 10 },
    );
    assert_eq!(r, Err(CalibrationError::EmptySegment));
}

#[test]
fn degenerate_normalization_reported() {
    // The defaulted segment lies thousands of years from the measurement:
    // every likelihood underflows to zero and no distribution exists.
    let curve = curve_from(vec![1000, 999], vec![1000, 999], vec![0, 0]);
    let r = carbon_date_density_bchron(
        &curve,
        UncalibratedRadioCarbonDate { c14_age: 5000, c14_range: 1 },
    );
    assert_eq!(r, Err(CalibrationError::DegenerateNormalization));
}

#[test]
fn normal_density_approximation() {
    // diff^2 / var = 1, so the density is exp(-1/2) / sqrt(2*pi).
    let v = point_density(30, 900) as f64 / FIX_ONE as f64;
    assert!((v - 0.241970724519).abs() < 1e-5);
}

#[test]
fn display_extreme_year() {
    assert_eq!(YearInBCOrAD(i32::MIN).to_display_string(), "BC 2147483648");
    assert_eq!(YearInBCOrAD(i32::MAX).to_display_string(), "AD 2147483647");
}

#[test]
fn normalisation_exact_shares() {
    let raw = CalibratedPDF { pdf: vec![-3, -2], pdf_density: vec![100, 300] };
    let pdf = normalise_calibrated_pdf(raw).expect("total is positive");
    assert_eq!(pdf.pdf, vec![-3, -2]);
    assert_eq!(pdf.pdf_density, vec![FIX_ONE / 4, 3 * (FIX_ONE / 4)]);
}

#[test]
fn normalisation_of_zero_total_fails() {
    let raw = CalibratedPDF { pdf: vec![-3, -2], pdf_density: vec![0, 0] };
    assert_eq!(
        normalise_calibrated_pdf(raw),
        Err(CalibrationError::DegenerateNormalization)
    );
}

#[test]
fn curve_rejects_unordered() {
    assert!(CalibrationCurve::new(vec![1, 2], vec![2, 1], vec![0, 0]).is_none());
    assert!(CalibrationCurve::new(vec![2, 1], vec![1, 2], vec![0, 0]).is_none());
}

#[test]
fn curve_rejects_unequal_lengths() {
    assert!(CalibrationCurve::new(vec![2, 1], vec![2], vec![0, 0]).is_none());
    assert!(CalibrationCurve::new(vec![2, 1], vec![2, 1], vec![0]).is_none());
}
