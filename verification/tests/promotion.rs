//! From a candidate to a recorded result, for the scalar and the joint fit.

use aub::attribution::{
    account_in_force, account_of_session, AccountMarkerBoundary, SessionMarkers,
};
use aub::calibration::account_usage::{
    account_event_tokens, settlement_bound, settlement_grace_end,
};
use aub::calibration::contamination::ContaminationThresholds;
use aub::calibration::fitter::{
    conclude_fit, prepare_fit, FitObservation, FitResult, SlopeEstimate,
};
use aub::calibration::multivariate_fit::{
    account_blocks, carries_usage, controlled_blocks, controlled_design, joint_candidate,
    phase_design, still_running_refusal, tokens_between, without_spend, ControlledExperimentRun,
    DatedTokens, JointEstimate, MultivariateCandidate, SettledBlock, StoredKindCoefficient,
};
use aub::calibration::multivariate_promotion::{
    block_residual, held_out_block_residual, promote_multivariate_candidate, validation_span,
    MultivariatePromotionEvidence, ValidationUsage,
};
use aub::calibration::promotion::{
    check_promotion_candidate, check_promotion_evidence, check_reproduced, check_validation_held,
    missing_candidate_error, promote_candidate, promoted_summary, validation_residual,
    validation_until, CandidatePromotion, PromotionEvidence,
};
use aub::calibration::settlement::SettlementPolicy;
use aub::calibration::usage::Spend;
use aub::domain::{
    Credits, CreditsPerPercentagePoint, KnownTokenVector, QuantizationSemantics,
    QuotaFractionPpm, ReportedResolution, TokenKind, UtcTimestamp,
};
use aub::error::Error;
use aub::ids::{
    BillingSemanticsId, CandidateId, CostModelId, EvidenceId, ExperimentId, MeterSemanticsId,
    PlanTier, ProviderKey, WindowCalibrationId, WindowSemanticKey,
};
use aub::records::{
    CalibrationExperiment, ConditionNumber, EvidenceDigest, EvidenceFingerprint,
    StoredFitObservation, StoredUsageEvent, ValidityInterval,
};
use aub::sets::TextSet;

fn at(nanos: i64) -> UtcTimestamp {
    UtcTimestamp::from_unix_nanos(nanos)
}

fn set(items: &[&str]) -> TextSet {
    TextSet::from_items(&items.iter().map(|item| item.to_string()).collect())
}

fn stored(id: &str, nanos: i64, used: i64) -> StoredFitObservation {
    StoredFitObservation {
        evidence_id: EvidenceId::new(id),
        at: at(nanos),
        quota_used_ppm: used,
        reported_resolution_ppm: 10,
        quantization: QuantizationSemantics::Exact,
    }
}

fn observed(id: &str, nanos: i64, used: i64, credits: i64) -> FitObservation {
    FitObservation::new(
        EvidenceId::new(id),
        at(nanos),
        used,
        10,
        QuantizationSemantics::Exact,
        Credits::from_micros(credits),
    )
}

fn experiment() -> CalibrationExperiment {
    let resolution = ReportedResolution::new(QuotaFractionPpm::new(10).unwrap()).unwrap();
    CalibrationExperiment {
        id: ExperimentId::new("exp-1"),
        provider: ProviderKey::new("anthropic"),
        plan_tier: PlanTier::new("pro"),
        window_semantic_key: WindowSemanticKey::new("five_hour"),
        meter_semantics_id: MeterSemanticsId::new("meter-v1"),
        billing_semantics_id: BillingSemanticsId::new("billing-v1"),
        settlement_policy: SettlementPolicy::conservative_default(resolution),
        validity: ValidityInterval::new(at(1), at(100)).unwrap(),
        knowledge_time: at(90),
    }
}

fn fitted() -> FitResult {
    let rows = vec![observed("t-1", 10, 100, 0), observed("t-2", 20, 102, 1_000_000)];
    let frame = prepare_fit(&rows).unwrap();
    let estimate = SlopeEstimate {
        micros_per_point: 500_000,
        uncertainty_low_micros: 490_000,
        uncertainty_high_micros: 510_000,
        fit_residual_micros: 0,
        intercept_ppm: 0,
        huber_delta_ppm: "100.0".to_string(),
    };
    conclude_fit(frame, &rows, &estimate, &experiment())
}

fn spend_of(micros: i64) -> Vec<Spend> {
    vec![Spend { at: at(205), credits: Credits::from_micros(micros) }]
}

fn evidence() -> PromotionEvidence {
    PromotionEvidence {
        candidate: Some(fitted().candidate),
        joint_candidate: false,
        result_id: WindowCalibrationId::new("wc-1"),
        already_promoted: false,
        experiment: Some(experiment()),
        cost_model_id: Some(CostModelId::new("cm-1")),
        refit: Ok(fitted()),
        validation_readings: vec![stored("v-1", 200, 104), stored("v-2", 210, 106)],
        series: Ok(spend_of(1_000_140)),
        now: at(500),
        aub_version: "0.1.0".to_string(),
        source_revision: "abc".to_string(),
    }
}

#[test]
fn a_candidate_is_promoted_with_its_evidence() {
    let (training, validation) = (set(&["t-1", "t-2"]), set(&["v-1", "v-2"]));
    let id = fitted().candidate.id;
    let promotion = CandidatePromotion {
        candidate_id: &id,
        training: &training,
        validation: &validation,
        activation_policy_version: "promote-v1",
    };
    let given = evidence();
    let result = promote_candidate(&promotion, &given).unwrap().unwrap();
    assert_eq!(result.id.as_str(), "wc-1");
    assert_eq!(result.fitting_evidence, EvidenceFingerprint::from_inputs(&training));
    assert_eq!(result.validation_evidence, EvidenceFingerprint::from_inputs(&validation));
    assert_eq!(result.out_of_sample_residual, Some(Credits::from_micros(70)));
    assert_eq!(result.cost_model_id.as_str(), "cm-1");
    assert_eq!(result.validation_method, "held-out-interval-residual");
    assert_eq!(result.condition_number, None);
    assert_eq!(
        result.observation_coverage_requirement,
        "held-out validation over 2 observations disjoint from the fit"
    );
    assert_eq!(result.knowledge_time, at(500));
    let candidate = fitted().candidate;
    let summary = promoted_summary(&result, &candidate, Credits::from_micros(70), 2).unwrap();
    assert_eq!(summary.result_id, "wc-1");
    assert_eq!(summary.held_out_residual_micros, 70);
    assert_eq!(summary.validation_observations, 2);
    assert_eq!(
        summary.fitting_evidence_digest_hex,
        format!("{:016x}", result.fitting_evidence.as_u64())
    );
    assert_eq!(summary.uncertainty_low_micros_per_point, 490_000);
}

#[test]
fn a_promotion_is_refused_for_the_first_thing_that_is_wrong() {
    let (training, validation) = (set(&["t-1", "t-2"]), set(&["v-1", "v-2"]));
    let id = fitted().candidate.id;
    let name = id.as_str().to_string();
    let promotion = CandidatePromotion {
        candidate_id: &id,
        training: &training,
        validation: &validation,
        activation_policy_version: "promote-v1",
    };
    let message = |given: PromotionEvidence| match promote_candidate(&promotion, &given) {
        Some(Err(error)) => error.message().to_string(),
        _ => panic!("expected a refusal"),
    };
    assert_eq!(
        message(PromotionEvidence { candidate: None, ..evidence() }),
        format!("no calibration candidate '{name}'; fit one with `aub calibrate fit`")
    );
    assert!(message(PromotionEvidence {
        candidate: None,
        joint_candidate: true,
        ..evidence()
    })
    .starts_with(&format!("promote '{name}': a joint candidate has no scalar result shape yet")));
    assert_eq!(
        message(PromotionEvidence { already_promoted: true, ..evidence() }),
        format!(
            "promote '{name}': already promoted as result 'wc-1'; a result is immutable, and a second row would be a second identity for one fit"
        )
    );
    assert_eq!(
        message(PromotionEvidence { experiment: None, ..evidence() }),
        format!("no calibration experiment 'exp-1' behind candidate '{name}'")
    );
    assert_eq!(
        message(PromotionEvidence { cost_model_id: None, ..evidence() }),
        "no active cost model found for experiment 'exp-1'"
    );
    assert_eq!(
        message(PromotionEvidence { refit: Err(Error::Store("gone".to_string())), ..evidence() }),
        "gone"
    );
    assert_eq!(check_reproduced(&fitted().candidate, &fitted().candidate), Ok(()));
    let mut other = fitted();
    other.candidate.fitted = CreditsPerPercentagePoint::from_micros_per_point(7);
    assert_eq!(
        message(PromotionEvidence { refit: Ok(other), ..evidence() }),
        format!(
            "promote '{name}': the recorded candidate fits 500000 micros/point over 2 observations, and the evidence in the ledger now fits 7 over 2"
        )
    );
    assert_eq!(
        message(PromotionEvidence {
            validation_readings: vec![stored("v-2", 210, 106)],
            ..evidence()
        }),
        format!(
            "promote '{name}': the ledger holds no observation of provider 'anthropic' window 'five_hour' for validation evidence [v-1]"
        )
    );
    assert_eq!(
        message(PromotionEvidence {
            series: Err(Error::InsufficientEvidence("few".to_string())),
            ..evidence()
        }),
        "few"
    );
}

/// The residual is that of the validation readings and the spend up to each: half a
/// credit a part per million, over readings two apart.
#[test]
fn a_promoted_residual_is_measured_over_its_validation() {
    let (training, validation) = (set(&["t-1", "t-2"]), set(&["v-1", "v-2"]));
    let id = fitted().candidate.id;
    let promotion = CandidatePromotion {
        candidate_id: &id,
        training: &training,
        validation: &validation,
        activation_policy_version: "promote-v1",
    };
    let residual = |micros: i64| {
        let given = PromotionEvidence { series: Ok(spend_of(micros)), ..evidence() };
        promote_candidate(&promotion, &given).unwrap().unwrap().out_of_sample_residual
    };
    assert_eq!(residual(1_000_000), Some(Credits::from_micros(0)));
    assert_eq!(residual(1_000_140), Some(Credits::from_micros(70)));
    assert_eq!(residual(999_000), Some(Credits::from_micros(500)));
    let one = set(&["v-1"]);
    let short = CandidatePromotion { validation: &one, ..promotion.clone() };
    let given = PromotionEvidence {
        validation_readings: vec![stored("v-1", 200, 104)],
        ..evidence()
    };
    match promote_candidate(&short, &given) {
        Some(Err(Error::InsufficientEvidence(message))) => assert_eq!(
            message,
            "held-out validation needs at least 2 observations, found 1"
        ),
        other => panic!("{other:?}"),
    }
    let beyond = PromotionEvidence {
        series: Ok(vec![
            Spend { at: at(150), credits: Credits::from_micros(i64::MAX) },
            Spend { at: at(151), credits: Credits::from_micros(1) },
        ]),
        ..evidence()
    };
    assert!(promote_candidate(&promotion, &beyond).is_none());
}

#[test]
fn training_must_be_what_the_candidate_was_fitted_from() {
    let id = CandidateId::new("cand-x");
    let inputs = EvidenceDigest::from_inputs(&set(&["t-1", "t-2"]));
    assert_eq!(check_promotion_candidate("cand-x", &set(&["t-2", "t-1"]), inputs, None), Ok(()));
    let refused = check_promotion_candidate("cand-x", &set(&["t-1"]), inputs, None);
    match refused {
        Err(Error::Usage(message)) => {
            assert!(message.starts_with("promote 'cand-x': --training names 1 evidence ids"));
            assert!(message.contains("and the candidate was fitted from 2 digesting to"));
        }
        other => panic!("{other:?}"),
    }
    let recorded = WindowCalibrationId::new("wc-9");
    assert!(check_promotion_candidate("cand-x", &set(&["t-1", "t-2"]), inputs, Some(&recorded))
        .is_err());
    for (training, validation, part) in [
        (set(&[]), set(&["v"]), "--training names no evidence"),
        (set(&["t"]), set(&[]), "--validation names no evidence"),
        (set(&["t", "v"]), set(&["v"]), "promote 'cand-x': "),
    ] {
        let promotion = CandidatePromotion {
            candidate_id: &id,
            training: &training,
            validation: &validation,
            activation_policy_version: "promote-v1",
        };
        match check_promotion_evidence(&promotion) {
            Err(Error::Usage(message)) => assert!(message.contains(part), "{message}"),
            other => panic!("{other:?}"),
        }
    }
    assert_eq!(
        missing_candidate_error(&id, false),
        Error::Usage(
            "no calibration candidate 'cand-x'; fit one with `aub calibrate fit`".to_string()
        )
    );
    let provider = ProviderKey::new("p");
    let window = WindowSemanticKey::new("w");
    let readings = vec![stored("a", 1, 1)];
    assert_eq!(check_validation_held("c", &provider, &window, &set(&["a"]), &readings), Ok(()));
    assert!(check_validation_held("c", &provider, &window, &set(&["a", "b"]), &readings).is_err());
}

#[test]
fn validation_reaches_beyond_the_experiment() {
    let readings = vec![stored("v-1", 200, 104), stored("v-2", 150, 106)];
    assert_eq!(validation_until(&readings, &experiment()), at(200));
    assert_eq!(validation_until(&vec![], &experiment()), at(100));
    let series = vec![Spend { at: at(160), credits: Credits::from_micros(1_000_000) }];
    let coefficient = CreditsPerPercentagePoint::from_micros_per_point(500_000);
    let exact = vec![stored("v-1", 150, 100), stored("v-2", 200, 102)];
    assert_eq!(
        validation_residual(coefficient, &exact, &series),
        Some(Ok(Credits::from_micros(0)))
    );
    match validation_residual(coefficient, &vec![stored("v-1", 150, 100)], &series) {
        Some(Err(Error::InsufficientEvidence(message))) => assert_eq!(
            message,
            "held-out validation needs at least 2 observations, found 1"
        ),
        other => panic!("{other:?}"),
    }
}

fn thresholds() -> ContaminationThresholds {
    ContaminationThresholds::conservative_default()
}

fn run() -> ControlledExperimentRun {
    ControlledExperimentRun {
        id: ExperimentId::new("run-1"),
        account: "work".to_string(),
        provider: ProviderKey::new("anthropic"),
        plan_tier: PlanTier::new("pro"),
        window_semantic_key: WindowSemanticKey::new("five_hour"),
        expected_token_kinds: vec![TokenKind::Output],
        started_at: at(0),
        ended_at: Some(at(100)),
        contamination_thresholds: thresholds(),
    }
}

fn row(event: &str, nanos: i64, session: &str, class: &str, count: u64) -> StoredUsageEvent {
    StoredUsageEvent {
        canonical_event_id: event.to_string(),
        timestamp: at(nanos),
        model_id: None,
        token_class: class.to_string(),
        count,
        session: Some(("cli".to_string(), session.to_string())),
    }
}

fn markers() -> Vec<SessionMarkers> {
    vec![SessionMarkers {
        source: "cli".to_string(),
        native: "mine".to_string(),
        boundaries: vec![AccountMarkerBoundary::new("work", at(0))],
    }]
}

#[test]
fn an_account_is_in_force_from_its_boundary_on() {
    let boundaries = vec![
        AccountMarkerBoundary::new("home", at(10)),
        AccountMarkerBoundary::new("work", at(20)),
    ];
    assert_eq!(account_in_force(&boundaries, at(9)), None);
    assert_eq!(account_in_force(&boundaries, at(10)), Some("home"));
    assert_eq!(account_in_force(&boundaries, at(20)), Some("work"));
    let session = Some(("cli".to_string(), "mine".to_string()));
    assert_eq!(account_of_session(&markers(), &session, at(5)), Some("work"));
    assert_eq!(account_of_session(&markers(), &None, at(5)), None);
}

#[test]
fn own_usage_after_the_end_cuts_the_bound() {
    let grace_end = settlement_grace_end(at(100), &thresholds());
    assert_eq!(grace_end.unix_nanos(), 100 + 3_600_000_000_000);
    let bound = |usage: Vec<StoredUsageEvent>| {
        settlement_bound(&usage, &markers(), "work", at(100), &thresholds())
    };
    assert_eq!(bound(vec![]), grace_end);
    assert_eq!(bound(vec![row("e", 500, "mine", "input", 1)]), at(499));
    assert_eq!(bound(vec![row("e", 500, "other", "input", 1)]), grace_end);
    assert_eq!(bound(vec![row("e", 100, "mine", "input", 1)]), grace_end);
}

#[test]
fn blocks_hold_the_spend_and_movement_of_the_run() {
    let readings = vec![
        stored("r0", 1, 100),
        stored("r1", 20, 100),
        stored("r2", 30, 120),
        stored("r3", 60, 130),
    ];
    let usage = vec![
        row("e1", 10, "mine", "output", 5),
        row("e2", 40, "mine", "output", 7),
        row("e3", 50, "stray", "output", 99),
    ];
    let found = controlled_blocks(&run(), &readings, &usage, &markers()).unwrap().unwrap();
    assert_eq!(found.blocks.len(), 2);
    let tokens: u64 = found.blocks.iter().map(|block| block.tokens.output).sum();
    assert_eq!(tokens, 12);
    let moved: i128 = found.blocks.iter().map(|block| block.twice_delta_ppm).sum();
    assert_eq!(moved, 2 * (130 - 100));
    assert_eq!(found.blocks[0].evidence_id.as_str(), "r2");
    assert_eq!(found.excluded_samples.len(), 1);
    assert_eq!(found.excluded_samples[0].sample_ref, "session:cli/stray");
    let usable = without_spend(&readings);
    assert_eq!(
        account_blocks("work", &usable, &usage, &markers()).unwrap().unwrap().blocks,
        found.blocks
    );
    assert_eq!(
        controlled_blocks(&run(), &vec![], &usage, &markers()),
        Some(Err(Error::InsufficientEvidence(
            "no meter observations found for controlled experiment 'run-1'".to_string()
        )))
    );
}

#[test]
fn usage_of_an_unknown_class_is_refused_and_not_dropped() {
    let readings = vec![stored("r0", 1, 100), stored("r1", 20, 110)];
    let mut usage = vec![row("e1", 10, "mine", "output", 5), row("e2", 11, "mine", "tool", 7)];
    let refusal = Error::InsufficientEvidence("unknown token class 'tool' in usage event".to_string());
    assert_eq!(
        controlled_blocks(&run(), &readings, &usage, &markers()),
        Some(Err(refusal.clone()))
    );
    assert_eq!(
        account_event_tokens(&usage, &markers(), "work"),
        Some(Err(refusal.clone()))
    );
    assert_eq!(
        held_out_block_residual(&run(), &vec![coefficient()], &readings, &usage, &markers()),
        Some(Err(refusal))
    );
    usage[1] = row("e2", 11, "stray", "tool", 7);
    assert!(matches!(
        controlled_blocks(&run(), &readings, &usage, &markers()),
        Some(Ok(_))
    ));
}

/// What both fits price is the usage of one account.
#[test]
fn usage_is_folded_for_one_account() {
    let usage = vec![
        row("e2", 40, "mine", "output", 7),
        row("e1", 10, "mine", "output", 5),
        row("e3", 50, "stray", "output", 99),
        row("e1", 10, "mine", "input", 2),
    ];
    let entries = account_event_tokens(&usage, &markers(), "work").unwrap().unwrap();
    assert_eq!(entries.len(), 2);
    assert_eq!(entries[0].event_id, "e1");
    assert_eq!(entries[0].tokens, KnownTokenVector::new(2, 5, 0, 0));
    assert_eq!(entries[1].tokens, KnownTokenVector::new(0, 7, 0, 0));
    assert_eq!(account_event_tokens(&usage, &markers(), "home"), Some(Ok(vec![])));
    let beyond = vec![
        row("e", 1, "mine", "input", u64::MAX),
        row("e", 1, "mine", "input", 1),
    ];
    assert_eq!(account_event_tokens(&beyond, &markers(), "work"), None);
}

#[test]
fn tokens_are_counted_after_one_moment_and_up_to_another() {
    let events = vec![
        DatedTokens { at: at(10), tokens: KnownTokenVector::new(1, 0, 0, 0) },
        DatedTokens { at: at(20), tokens: KnownTokenVector::new(2, 0, 0, 4) },
    ];
    assert_eq!(tokens_between(&events, at(10), at(20)), Some(KnownTokenVector::new(2, 0, 0, 4)));
    assert_eq!(tokens_between(&events, at(9), at(10)), Some(KnownTokenVector::new(1, 0, 0, 0)));
    let full = vec![
        DatedTokens { at: at(1), tokens: KnownTokenVector::new(u64::MAX, 0, 0, 0) },
        DatedTokens { at: at(1), tokens: KnownTokenVector::new(1, 0, 0, 0) },
    ];
    assert_eq!(tokens_between(&full, at(0), at(1)), None);
    assert!(carries_usage(KnownTokenVector::new(0, 0, 0, 1)));
    assert!(!carries_usage(KnownTokenVector::new(0, 0, 0, 0)));
}

fn block(id: &str, output: u64, twice: i128) -> SettledBlock {
    SettledBlock {
        evidence_id: EvidenceId::new(id),
        tokens: KnownTokenVector::new(0, output, 0, 0),
        twice_delta_ppm: twice,
    }
}

#[test]
fn a_controlled_design_needs_two_blocks_for_each_kind() {
    assert!(controlled_design(&run(), &vec![block("a", 1, 2), block("b", 2, 4)]).is_ok());
    match controlled_design(&run(), &vec![block("a", 1, 2)]) {
        Err(Error::InsufficientEvidence(message)) => assert_eq!(
            message,
            "fit rejected: insufficient observations: found 1, required at least 2"
        ),
        other => panic!("{other:?}"),
    }
    let premiseless = ControlledExperimentRun { expected_token_kinds: vec![], ..run() };
    assert_eq!(
        controlled_design(&premiseless, &vec![]),
        Err(Error::Internal(
            "multivariate fit configuration: multivariate fit minimum observations must be at least 1"
                .to_string()
        ))
    );
    assert_eq!(phase_design(&run()), "controlled-run=run-1;kinds=output;frame=settled-blocks");
    assert!(still_running_refusal("run-1").message().contains("'run-1'"));
}

fn coefficient() -> StoredKindCoefficient {
    StoredKindCoefficient {
        kind: TokenKind::Output,
        estimate_micro_ppm_per_token: 2_000_000,
        std_error_micro_ppm_per_token: 0,
        interval_low_micro_ppm_per_token: 1_900_000,
        interval_high_micro_ppm_per_token: 2_100_000,
    }
}

fn joint() -> MultivariateCandidate {
    let estimate = JointEstimate {
        coefficients: vec![coefficient()],
        condition_number: ConditionNumber::from_micros(1_000_000),
        condition_number_threshold: ConditionNumber::from_micros(30_000_000),
        residual_ppm: 2_000_000,
        usable_observations: 4,
        statistical_method: "multivariate-ols-through-origin".to_string(),
        statistical_parameters: "p".to_string(),
    };
    let readings = vec![stored("t-1", 1, 100), stored("t-2", 20, 110)];
    joint_candidate(&run(), &readings, at(100), estimate, at(300)).unwrap()
}

#[test]
fn a_joint_candidate_records_its_run() {
    let candidate = joint();
    assert!(candidate.id.as_str().starts_with("mvcand-run-1-"));
    assert_eq!(candidate.fit_residual_ppm, 1_000_000);
    assert_eq!(candidate.sample_count, 4);
    assert_eq!(candidate.inputs, EvidenceDigest::from_inputs(&set(&["t-1", "t-2"])));
    assert_eq!(candidate.validity.valid_from(), at(0));
    assert_eq!(candidate.validity.valid_until(), at(100));
    assert_eq!(candidate.knowledge_time, at(300));
}

/// Two ppm a token: blocks predicted exactly miss nothing, a block off by three misses
/// three, and the mean is rounded to the nearest.
#[test]
fn a_block_residual_is_the_mean_miss() {
    let residual = |blocks: &Vec<SettledBlock>| {
        block_residual("work", &vec![coefficient()], blocks)
            .unwrap()
            .map(QuotaFractionPpm::get)
    };
    assert_eq!(residual(&vec![block("a", 10, 40), block("b", 5, 20)]), Ok(0));
    assert_eq!(residual(&vec![block("a", 10, 46), block("b", 5, 20)]), Ok(2));
    assert_eq!(residual(&vec![block("a", 10, 34)]), Ok(3));
    match residual(&vec![block("a", 0, 34)]) {
        Err(Error::InsufficientEvidence(message)) => assert!(message.contains("'work'")),
        other => panic!("{other:?}"),
    }
    match residual(&vec![block("a", 10_000_000, 0)]) {
        Err(Error::InsufficientEvidence(message)) => assert_eq!(
            message,
            "held-out residual 20000000 ppm is not a fraction of the quota; the coefficients do not describe this window"
        ),
        other => panic!("{other:?}"),
    }
}

#[test]
fn a_miss_is_measured_as_far_as_an_integer_reaches() {
    let steep = |estimate: i64| StoredKindCoefficient {
        estimate_micro_ppm_per_token: estimate,
        ..coefficient()
    };
    let far = vec![block("a", 10_000_000_000_000_000_000, 0)];
    match block_residual("work", &vec![steep(1_000_000_000_000_000_000)], &far) {
        Some(Err(Error::InsufficientEvidence(message))) => assert_eq!(
            message,
            "held-out residual 10000000000000000000000000000000 ppm is not a fraction of the quota; the coefficients do not describe this window"
        ),
        other => panic!("{other:?}"),
    }
    let farthest = vec![block("a", u64::MAX, 0)];
    assert!(block_residual("work", &vec![steep(i64::MAX)], &farthest).is_none());
    let moved = vec![block("a", 1, i128::MAX)];
    assert!(block_residual("work", &vec![coefficient()], &moved).is_none());
}

#[test]
fn a_joint_candidate_is_judged_on_held_out_blocks() {
    let validation = vec![stored("v-1", 200, 100), stored("v-2", 220, 120)];
    assert_eq!(validation_span(&validation), Ok((at(200), at(220))));
    assert_eq!(
        validation_span(&vec![]),
        Err(Error::InsufficientEvidence(
            "held-out validation holds no usable reading".to_string()
        ))
    );
    let usage = vec![row("e", 210, "mine", "output", 10)];
    let (residual, readings) = held_out_block_residual(
        &run(),
        &vec![coefficient()],
        &validation,
        &usage,
        &markers(),
    )
    .unwrap()
    .unwrap();
    assert_eq!(residual.get(), 0);
    assert_eq!(readings, 2);
}

#[test]
fn a_joint_candidate_is_promoted_once() {
    let (training, validation) = (set(&["t-1", "t-2"]), set(&["v-1", "v-2"]));
    let id = joint().id;
    let promotion = CandidatePromotion {
        candidate_id: &id,
        training: &training,
        validation: &validation,
        activation_policy_version: "promote-v1",
    };
    let given = |residual_ppm: i64, recorded: Option<&str>| {
        let mut candidate = joint();
        candidate.fit_residual_ppm = residual_ppm;
        MultivariatePromotionEvidence {
            candidate: Some(candidate),
            result_id: WindowCalibrationId::new("wc-j"),
            recorded_as: recorded.map(WindowCalibrationId::new),
            run: Some(run()),
            validation_readings: vec![stored("v-1", 200, 100), stored("v-2", 220, 129)],
            spent: Ok(ValidationUsage {
                usage: vec![row("e", 210, "mine", "output", 10)],
                markers: markers(),
            }),
            now: at(500),
            aub_version: "0.1.0".to_string(),
            source_revision: "abc".to_string(),
        }
    };
    let result = promote_multivariate_candidate(&promotion, &given(8, None)).unwrap().unwrap();
    assert_eq!(result.id.as_str(), "wc-j");
    assert_eq!(result.fit_residual.get(), 8);
    assert_eq!(result.held_out_residual.get(), 9);
    assert_eq!(result.validation_observations, 2);
    assert_eq!(result.coefficients, vec![coefficient()]);
    assert_eq!(result.validation_method, "held-out-block-residual");
    assert!(matches!(
        promote_multivariate_candidate(&promotion, &given(8, Some("wc-j"))),
        Some(Err(Error::Usage(_)))
    ));
    let unread = MultivariatePromotionEvidence {
        spent: Err(Error::Store("gone".to_string())),
        ..given(8, None)
    };
    assert!(matches!(
        promote_multivariate_candidate(&promotion, &unread),
        Some(Err(Error::Store(_)))
    ));
    let idle = MultivariatePromotionEvidence {
        spent: Ok(ValidationUsage { usage: vec![], markers: vec![] }),
        ..given(8, None)
    };
    match promote_multivariate_candidate(&promotion, &idle) {
        Some(Err(Error::InsufficientEvidence(message))) => {
            assert!(message.ends_with("so there is no movement to predict"), "{message}");
        }
        other => panic!("{other:?}"),
    }
    match promote_multivariate_candidate(&promotion, &given(-1, None)) {
        Some(Err(Error::Store(message))) => assert!(
            message.ends_with("records fit residual -1 ppm, outside a quota fraction"),
            "{message}"
        ),
        other => panic!("{other:?}"),
    }
}
