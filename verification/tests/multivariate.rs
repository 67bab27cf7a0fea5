//! The design of a joint fit: which rows carry signal, and how many are needed.

use aub::calibration::fitter::FitRejection;
use aub::calibration::multivariate::{select_design, TokenObservation};
use aub::domain::{KnownTokenVector, TokenKind};
use aub::ids::EvidenceId;

fn kinds() -> Vec<TokenKind> {
    vec![TokenKind::Input, TokenKind::CacheRead]
}

fn observation(id: &str, input: u64, cache: u64) -> TokenObservation {
    TokenObservation {
        evidence_id: EvidenceId::new(id),
        tokens: KnownTokenVector::new(input, 0, cache, 0),
    }
}

fn varied_observations() -> Vec<TokenObservation> {
    let rows: [(u64, u64); 6] = [
        (1000, 100),
        (2000, 150),
        (1500, 120),
        (150, 1200),
        (200, 2400),
        (120, 1800),
    ];
    rows.iter()
        .enumerate()
        .map(|(i, (input, cache))| observation(&format!("ev-varied-{i}"), *input, *cache))
        .collect()
}

/// A fit with fewer usable observations than the configured minimum is
/// rejected with that reason; rows with no usage in the fitted kinds do
/// not count toward the minimum.
#[test]
fn fewer_usable_observations_than_minimum_rejected() {
    let mut observations: Vec<TokenObservation> = varied_observations();
    observations.truncate(3);
    observations.push(observation("ev-empty", 0, 0));
    let rejection = select_design(&observations, &kinds(), 5)
        .expect_err("3 usable observations against a minimum of 5 must be rejected");

    match rejection {
        FitRejection::InsufficientObservations { found, required } => {
            assert_eq!(found, 3);
            assert_eq!(required, 5);
        }
        ref other => {
            panic!("expected insufficient-observations rejection, got {other}", other = other.message())
        }
    }
    let message = rejection.message();
    assert!(
        message.contains("found 3"),
        "message states the count: {message}"
    );
    assert!(
        message.contains('5'),
        "message states the minimum: {message}"
    );
}

/// Rows outside the design are reported; every other row is kept in order.
#[test]
fn rows_without_signal_are_reported() {
    let mut observations = varied_observations();
    observations.insert(1, observation("ev-empty", 0, 0));
    let design = select_design(&observations, &kinds(), 4).unwrap();
    assert_eq!(design.kinds, kinds());
    assert_eq!(design.usable, vec![0, 2, 3, 4, 5, 6]);
    assert_eq!(design.excluded_samples.len(), 1);
    assert_eq!(design.excluded_samples[0].sample_ref, "ev-empty");
}

/// As many rows as kinds leave nothing to judge the fit by.
#[test]
fn as_many_rows_as_kinds_are_underidentified() {
    let mut observations = varied_observations();
    observations.truncate(2);
    assert_eq!(
        select_design(&observations, &kinds(), 1),
        Err(FitRejection::Underidentified { usable: 2 })
    );
}
