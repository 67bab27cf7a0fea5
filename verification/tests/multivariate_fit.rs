//! Blocks of spend, the usage of one account, and the path a premise selects.

use aub::attribution::{AccountMarkerBoundary, SessionMarkers};
use aub::calibration::account_usage::retain_account_usage;
use aub::calibration::fitter::FitObservation;
use aub::calibration::multivariate_fit::{
    fit_path_for_premise, settled_blocks, DatedTokens, FitPath,
};
use aub::domain::{Credits, KnownTokenVector, QuantizationSemantics, TokenKind, UtcTimestamp};
use aub::ids::EvidenceId;
use aub::records::StoredUsageEvent;

fn kinds(labels: &[TokenKind]) -> Vec<TokenKind> {
    labels.to_vec()
}

/// The dispatch follows the premise and nothing else: zero or one kind
/// keeps the univariate path, two or four go joint, and a premise that
/// repeats one kind counts it once.
#[test]
fn fit_path_follows_the_premise_over_zero_one_two_and_four_kinds() {
    assert_eq!(fit_path_for_premise(None), FitPath::Univariate);
    assert_eq!(fit_path_for_premise(Some(&kinds(&[]))), FitPath::Univariate);
    assert_eq!(
        fit_path_for_premise(Some(&kinds(&[TokenKind::Output]))),
        FitPath::Univariate
    );
    assert_eq!(
        fit_path_for_premise(Some(&kinds(&[TokenKind::Output, TokenKind::Output]))),
        FitPath::Univariate
    );
    assert_eq!(
        fit_path_for_premise(Some(&kinds(&[TokenKind::Input, TokenKind::CacheRead]))),
        FitPath::Multivariate
    );
    assert_eq!(
        fit_path_for_premise(Some(&[
            TokenKind::Input,
            TokenKind::Output,
            TokenKind::CacheRead,
            TokenKind::CacheWrite,
        ])),
        FitPath::Multivariate
    );
}

fn reading(id: &str, at: i64, ppm: i64) -> FitObservation {
    FitObservation::new(
        EvidenceId::new(id),
        UtcTimestamp::from_unix_nanos(at),
        ppm,
        10_000,
        QuantizationSemantics::Exact,
        Credits::from_micros(0),
    )
}

fn spend(at: i64, output: u64) -> DatedTokens {
    DatedTokens {
        at: UtcTimestamp::from_unix_nanos(at),
        tokens: KnownTokenVector::new(0, output, 0, 0),
    }
}

/// Two blocks of spend, each followed by a lagging reading and then two
/// settled ones. The block's delta is the settled movement, measured at
/// the last reading before the next spend, never at the lagging one.
#[test]
fn a_block_closes_at_the_last_reading_before_the_next_spend() {
    let usable = vec![
        reading("r0", 0, 100_000),
        reading("r1", 20, 100_000),
        reading("r2", 30, 120_000),
        reading("r3", 40, 120_000),
        reading("r4", 60, 125_000),
        reading("r5", 70, 130_000),
        reading("r6", 80, 130_000),
    ];
    let events = vec![spend(10, 2_000), spend(50, 1_000)];
    let blocks = settled_blocks(&usable, &events).unwrap();
    assert_eq!(blocks.len(), 2);
    assert_eq!(blocks[0].tokens.output, 2_000);
    assert_eq!(blocks[0].twice_delta_ppm as f64 / 2.0, 20_000.0);
    assert_eq!(blocks[0].evidence_id.as_str(), "r3");
    assert_eq!(blocks[1].tokens.output, 1_000);
    assert_eq!(blocks[1].twice_delta_ppm as f64 / 2.0, 10_000.0);
    assert_eq!(blocks[1].evidence_id.as_str(), "r6");
}

fn usage_row(id: &str, session: &str, at: i64, cache_read: u64) -> StoredUsageEvent {
    StoredUsageEvent {
        canonical_event_id: id.to_string(),
        timestamp: UtcTimestamp::from_unix_nanos(at),
        model_id: None,
        token_class: "cache_read".to_string(),
        count: cache_read,
        session: Some(("agent-a".to_string(), session.to_string())),
    }
}

/// A session that switches accounts mid-way contributes only its events
/// after the switch to the new account; a session on another account
/// contributes nothing; a session with no marker is reported, not kept.
#[test]
fn only_usage_placed_on_the_run_account_is_kept() {
    let boundary = |account: &str, at: i64| {
        AccountMarkerBoundary::new(account, UtcTimestamp::from_unix_nanos(at))
    };
    let markers = vec![
        SessionMarkers {
            source: "agent-a".to_string(),
            native: "switching".to_string(),
            boundaries: vec![boundary("other", 0), boundary("bianca", 100)],
        },
        SessionMarkers {
            source: "agent-a".to_string(),
            native: "foreign".to_string(),
            boundaries: vec![boundary("other", 0)],
        },
    ];
    let usage = vec![
        usage_row("before-switch", "switching", 50, 1),
        usage_row("after-switch", "switching", 150, 2),
        usage_row("foreign-turn", "foreign", 150, 4),
        usage_row("orphan-turn", "orphan", 150, 8),
    ];

    let (kept, excluded) = retain_account_usage(&usage, &markers, "bianca");

    let kept_ids: Vec<&str> = kept
        .iter()
        .map(|row| row.canonical_event_id.as_str())
        .collect();
    assert_eq!(kept_ids, vec!["after-switch"]);
    assert_eq!(excluded.len(), 1);
    assert_eq!(excluded[0].sample_ref, "session:agent-a/orphan");
}

/// Readings with no spend between them open no block at all.
#[test]
fn readings_without_spend_yield_no_block() {
    let usable = vec![reading("r0", 0, 100_000), reading("r1", 10, 100_000)];
    assert!(settled_blocks(&usable, &vec![]).unwrap().is_empty());
}
