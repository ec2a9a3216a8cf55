//! Radiocarbon calibration: converts a radiocarbon measurement (an age in
//! years before present with a measurement uncertainty) into a discrete
//! probability distribution over calendar years, using a calibration curve
//! supplied by the caller as three index-aligned sequences.

pub mod calendar;
pub mod density;
pub mod calibration;

pub use calendar::{bp_to_bcad, YearInBCOrAD};
pub use calibration::{
    calibrated_curve_segment, carbon_date_density_bchron, evaluate_densities,
    normalise_calibrated_pdf, CalibratedCurveInBP, CalibratedPDF, CalibrationCurve,
    CalibrationError, UncalibratedRadioCarbonDate,
};
pub use density::{point_density, FIX_ONE, INV_SQRT_2PI};
