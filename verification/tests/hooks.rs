//! The hidden hooks: their stages and what they print.

use aub::cli::hooks::{
    attempt_crash_stage, cost_model_choice, cost_model_line, exit_class, is_ledger_stage,
    projection_crash_stage, projection_hook_line, render_crash_hook, CrashHookOutcome,
    CrashHookStage, ProjectionHookOutcome, ProjectionHookStage, SampledAttempt,
};
use aub::error::Error;

fn words(items: &[&str]) -> Vec<String> {
    items.iter().map(|item| item.to_string()).collect()
}

fn refusal<T: std::fmt::Debug>(result: Result<T, Error>) -> String {
    match result {
        Err(Error::Usage(message)) => message,
        other => panic!("expected a usage error, got {other:?}"),
    }
}

#[test]
fn every_stage_goes_by_its_names() {
    for (names, stage) in [
        (vec!["before-start-commit", "point-1", "1"], CrashHookStage::BeforeStartCommit),
        (
            vec!["after-start-commit-before-request", "point-2", "2", "start"],
            CrashHookStage::AfterStartCommitBeforeRequest,
        ),
        (
            vec!["after-parse-before-spool-write", "point-3", "3"],
            CrashHookStage::AfterParseBeforeSpoolWrite,
        ),
        (
            vec!["after-spool-write-before-sqlite-commit", "point-4", "4"],
            CrashHookStage::AfterSpoolWriteBeforeSqliteCommit,
        ),
        (
            vec!["after-sqlite-commit-before-pending-deletion", "point-5", "5"],
            CrashHookStage::AfterSqliteCommitBeforePendingDeletion,
        ),
        (vec!["complete"], CrashHookStage::Complete),
        (vec!["read-back"], CrashHookStage::ReadBack),
        (vec!["commit-observation"], CrashHookStage::CommitObservation),
        (vec!["spool-pending"], CrashHookStage::SpoolPending),
        (vec!["drain"], CrashHookStage::Drain),
        (vec!["freshness"], CrashHookStage::Freshness),
        (vec!["sample-crash"], CrashHookStage::SampleCrash),
    ] {
        for name in names {
            assert_eq!(attempt_crash_stage(&words(&[name])), Ok(stage), "{name}");
        }
    }
}

#[test]
fn stages_with_arguments_read_them() {
    assert_eq!(
        attempt_crash_stage(&words(&["spool-orphan", "-7"])),
        Ok(CrashHookStage::SpoolOrphan { attempt_id: -7 })
    );
    assert_eq!(
        refusal(attempt_crash_stage(&words(&["spool-orphan"]))),
        "spool-orphan requires the orphan attempt id"
    );
    assert_eq!(
        refusal(attempt_crash_stage(&words(&["spool-orphan", "x"]))),
        "orphan attempt id must be an integer, got \"x\""
    );
    assert_eq!(
        attempt_crash_stage(&words(&["sample"])),
        Ok(CrashHookStage::Sample { attempts: 1 })
    );
    assert_eq!(
        attempt_crash_stage(&words(&["sample", "--attempts=2", "--attempts", "5"])),
        Ok(CrashHookStage::Sample { attempts: 5 })
    );
    assert_eq!(
        refusal(attempt_crash_stage(&words(&["sample", "--attempts"]))),
        "--attempts requires a count"
    );
    assert_eq!(
        refusal(attempt_crash_stage(&words(&["sample", "--attempts=0"]))),
        "--attempts: must be at least 1"
    );
    assert_eq!(
        refusal(attempt_crash_stage(&words(&["sample", "--attempts=many"]))),
        "--attempts: \"many\" is not a positive integer"
    );
    assert_eq!(
        refusal(attempt_crash_stage(&words(&["sample", "--loud"]))),
        "unknown __attempt-crash-hook sample argument: --loud"
    );
    let unknown = refusal(attempt_crash_stage(&words(&["tab\there"])));
    assert!(unknown.ends_with("sample | sample-crash), got Some(\"tab\\there\")"), "{unknown}");
    let missing = refusal(attempt_crash_stage(&vec![]));
    assert!(missing.ends_with("got None"), "{missing}");
}

#[test]
fn seeding_and_sampling_stages_use_the_ledger() {
    assert!(is_ledger_stage(CrashHookStage::CommitObservation));
    assert!(is_ledger_stage(CrashHookStage::SpoolOrphan { attempt_id: 1 }));
    assert!(is_ledger_stage(CrashHookStage::Sample { attempts: 1 }));
    assert!(!is_ledger_stage(CrashHookStage::Complete));
    assert!(!is_ledger_stage(CrashHookStage::Drain));
}

#[test]
fn outcomes_of_the_attempt_hook_are_printed() {
    let one = |outcome: CrashHookOutcome| render_crash_hook(&outcome);
    assert_eq!(
        one(CrashHookOutcome::Completed { attempt_row_id: 9 }),
        words(&["attempt 9 start and result written"])
    );
    assert_eq!(
        one(CrashHookOutcome::Counts { starts: 1, results: 2, observations: 3, pending: 4 }),
        words(&["starts=1 results=2 observations=3 pending=4"])
    );
    assert_eq!(
        one(CrashHookOutcome::DrainReport { applied: 1, already_applied: 2, quarantined: 3 }),
        words(&["drain: applied=1 already_applied=2 quarantined=3"])
    );
    assert_eq!(
        one(CrashHookOutcome::FreshnessOutcome { kind: "stale".to_string(), reason: None }),
        words(&["freshness: stale"])
    );
    assert_eq!(
        one(CrashHookOutcome::FreshnessOutcome {
            kind: "stale".to_string(),
            reason: Some("old".to_string()),
        }),
        words(&["freshness: stale reason=old"])
    );
    assert_eq!(
        one(CrashHookOutcome::Seeded { label: "orphan".to_string(), attempt_id: 5 }),
        words(&["orphan=5"])
    );
    assert_eq!(
        one(CrashHookOutcome::Sampled {
            drain_applied: 1,
            drain_already_applied: 0,
            drain_quarantined: 2,
            attempts: vec![
                SampledAttempt { attempt_id: 1, committed: true, commit_wait_nanos: 7 },
                SampledAttempt { attempt_id: 2, committed: false, commit_wait_nanos: 0 },
            ],
        }),
        words(&[
            "drain applied=1 already-applied=0 quarantined=2",
            "sample attempts=2 committed=1 spooled=1",
            "  attempt 1 committed busy_wait_ns=7",
            "  attempt 2 spooled: the writer slot stayed held; the record remains durable",
        ])
    );
}

#[test]
fn the_projection_hook_has_three_stages() {
    assert_eq!(
        projection_crash_stage(&words(&["publish"])),
        Ok(ProjectionHookStage::Publish)
    );
    assert_eq!(
        projection_crash_stage(&words(&["kill-before-publish"])),
        Ok(ProjectionHookStage::KillBeforePublish)
    );
    assert_eq!(
        projection_crash_stage(&words(&["read-back"])),
        Ok(ProjectionHookStage::ReadBack)
    );
    assert_eq!(
        refusal(projection_crash_stage(&words(&["later"]))),
        "__projection-crash-hook requires a stage (publish | kill-before-publish | read-back), got Some(\"later\")"
    );
    assert_eq!(
        projection_hook_line(ProjectionHookOutcome::Published),
        "projection published from committed fixture state"
    );
    assert_eq!(
        projection_hook_line(ProjectionHookOutcome::Counts {
            results: 1,
            generation: 2,
            projection_generation: None,
        }),
        "results=1 generation=2 projection_generation=absent"
    );
    assert_eq!(
        projection_hook_line(ProjectionHookOutcome::Counts {
            results: 1,
            generation: 2,
            projection_generation: Some(3),
        }),
        "results=1 generation=2 projection_generation=3"
    );
}

#[test]
fn exit_classes_are_small_numbers() {
    assert_eq!(exit_class(&words(&["8"])), Ok(8));
    assert_eq!(exit_class(&words(&["255"])), Ok(255));
    for bad in [words(&[]), words(&["256"]), words(&["-1"]), words(&["x"])] {
        assert_eq!(refusal(exit_class(&bad)), "__exit-class requires a class 0..=8");
    }
}

#[test]
fn a_cost_model_is_activated_once() {
    assert_eq!(cost_model_choice(&words(&["complete"])), Ok(true));
    assert_eq!(cost_model_choice(&words(&["incomplete"])), Ok(false));
    assert_eq!(
        refusal(cost_model_choice(&vec![])),
        "__cost-model-fixture requires complete or incomplete, got None"
    );
    assert_eq!(
        cost_model_line("m1", Some("m1")),
        (false, "cost model m1 already active".to_string())
    );
    assert_eq!(cost_model_line("m1", Some("m0")), (true, "cost model m1 active".to_string()));
    assert_eq!(cost_model_line("m1", None), (true, "cost model m1 active".to_string()));
}
