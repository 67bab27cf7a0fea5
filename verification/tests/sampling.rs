//! What a run of sampling prints and how it ends.

use aub::cli::sampling::{
    empty_sample_json, render_sample, required_success, sample_ending, sample_json,
    sampling_disposition_error, AccountDisposition, AccountReport, AttemptOutcome,
};
use aub::domain::UtcTimestamp;
use aub::error::Error;

fn report(name: &str, disposition: AccountDisposition) -> AccountReport {
    AccountReport { name: name.to_string(), disposition }
}

fn sampled(outcome: AttemptOutcome) -> AccountDisposition {
    AccountDisposition::Sampled { attempt_id: 7, outcome }
}

fn unreachable_class() -> AttemptOutcome {
    AttemptOutcome::Unreachable { class: "Timeout".to_string() }
}

fn everything() -> Vec<AccountReport> {
    vec![
        report("a", sampled(AttemptOutcome::Success)),
        report("b", sampled(AttemptOutcome::AuthRequired)),
        report("c", sampled(unreachable_class())),
        report(
            "d",
            AccountDisposition::NotYet { next_due_at: UtcTimestamp::from_unix_nanos(-5) },
        ),
        report("e", AccountDisposition::LeaseHeld { holder: "pid-1".to_string() }),
        report("f", AccountDisposition::DueLookupFailed { reason: "x".to_string() }),
        report("g", AccountDisposition::EligibilityFailed { reason: "y".to_string() }),
        report(
            "h",
            AccountDisposition::PersistFailed {
                attempt_id: 9,
                outcome: unreachable_class(),
                reason: "z".to_string(),
            },
        ),
    ]
}

#[test]
fn every_disposition_has_its_line() {
    let expected = [
        "sample: account=a outcome=success attempt=7",
        "sample: account=b outcome=auth_required attempt=7",
        "sample: account=c outcome=unreachable attempt=7",
        "sample: account=d not-due next_due_at=-5",
        "sample: account=e lease-held holder=pid-1",
        "sample: account=f due-lookup-failed reason=x",
        "sample: account=g eligibility-failed reason=y",
        "sample: account=h persist-failed attempt=9 outcome=unreachable reason=z",
    ];
    assert_eq!(render_sample(&everything()), expected);
    assert!(render_sample(&vec![]).is_empty());
}

#[test]
fn the_report_is_json_with_sorted_names() {
    let accounts = vec![
        report("a \"one\"", sampled(AttemptOutcome::Success)),
        report("b", AccountDisposition::LeaseHeld { holder: "pid-1".to_string() }),
    ];
    let expected = r#"{
  "accounts": [
    {
      "account": "a \"one\"",
      "details": {
        "attempt_id": 7,
        "outcome": "success"
      },
      "disposition": "sampled"
    },
    {
      "account": "b",
      "details": {
        "holder": "pid-1"
      },
      "disposition": "lease_held"
    }
  ],
  "command": "sample",
  "run_id": "run-1",
  "sample_run_id": -3,
  "schema_version": 1
}"#;
    assert_eq!(sample_json("run-1", -3, &accounts), expected);
}

#[test]
fn every_disposition_is_reported_as_json() {
    let text = sample_json("run-1", 1, &everything());
    let read: serde_json::Value = serde_json::from_str(&text).unwrap();
    let listed = read["accounts"].as_array().unwrap();
    let words: Vec<&str> = listed
        .iter()
        .map(|account| account["disposition"].as_str().unwrap())
        .collect();
    assert_eq!(
        words,
        vec![
            "sampled",
            "sampled",
            "sampled",
            "not_yet",
            "lease_held",
            "due_lookup_failed",
            "eligibility_failed",
            "persist_failed",
        ]
    );
    assert_eq!(listed[2]["details"]["outcome"].as_str(), Some("unreachable"));
    assert_eq!(listed[3]["details"]["next_due_at_nanos"].as_i64(), Some(-5));
    assert_eq!(listed[5]["details"]["reason"].as_str(), Some("x"));
    assert_eq!(listed[7]["details"]["attempt_id"].as_i64(), Some(9));
    assert_eq!(listed[7]["details"]["outcome"].as_str(), None);
}

#[test]
fn a_run_without_accounts_is_reported_as_such() {
    assert_eq!(
        empty_sample_json("run-1"),
        "{\"schema_version\":1,\"command\":\"sample\",\"run_id\":\"run-1\",\"accounts\":[]}"
    );
}

#[test]
fn the_first_failure_to_record_ends_a_run() {
    assert_eq!(
        sampling_disposition_error(&everything()),
        Err(Error::Store("sampling due lookup failed: x".to_string()))
    );
    let eligibility = vec![report(
        "g",
        AccountDisposition::EligibilityFailed { reason: "y".to_string() },
    )];
    assert_eq!(
        sampling_disposition_error(&eligibility),
        Err(Error::Store("sampling eligibility failed: y".to_string()))
    );
    assert_eq!(sample_ending(&eligibility, false).map_err(|e| e.message().to_string()), Err(
        "sampling eligibility failed: y".to_string()
    ));
}

#[test]
fn success_is_required_only_where_asked() {
    let refused = vec![
        report("a", sampled(AttemptOutcome::Success)),
        report("b", sampled(AttemptOutcome::AuthRequired)),
    ];
    assert_eq!(sample_ending(&refused, false), Ok(()));
    assert_eq!(
        sample_ending(&refused, true),
        Err(Error::AuthRequired("account 'b': authentication required".to_string()))
    );
    let away = vec![report("c", sampled(unreachable_class()))];
    assert_eq!(
        required_success(&away),
        Err(Error::RemoteUnavailable(
            "account 'c': remote source unavailable: Timeout".to_string()
        ))
    );
    let held = vec![report("e", AccountDisposition::LeaseHeld { holder: "p".to_string() })];
    assert_eq!(sample_ending(&held, true), Ok(()));
}
