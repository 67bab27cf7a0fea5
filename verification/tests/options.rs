//! The readers of options: what they accept, and what they name where they refuse.

use aub::cli::maintenance::{
    clear_diagnostics_options, config_options, ingest_flags, rebuild_target, RebuildGroup,
};
use aub::cli::options::{
    coverage_window, doctor_options, reject_positionals, sample_options, unknown_argument,
    DoctorRequest,
};
use aub::cli::window::{
    credit_reporting, refresh_failure, refresh_plan, spend_options, spend_outcome,
    task_overhead_window, CreditReporting, RefreshOutcome, RefreshPolicy, SpendValuationMode,
    SpendWindow,
};
use aub::calendar::UtcDate;
use aub::domain::UtcTimestamp;
use aub::error::Error;

fn words(items: &[&str]) -> Vec<String> {
    items.iter().map(|item| item.to_string()).collect()
}

fn refusal<T>(result: Result<T, Error>) -> String {
    match result {
        Err(Error::Usage(message)) => message,
        Err(other) => panic!("expected a usage error, got {other:?}"),
        Ok(_) => panic!("expected a usage error"),
    }
}

#[test]
fn stray_arguments_are_named() {
    assert_eq!(reject_positionals(&vec![]), Ok(()));
    assert_eq!(
        refusal(reject_positionals(&words(&["x", "y"]))),
        "unknown argument: x; run aub --help for command usage"
    );
    assert_eq!(unknown_argument("--x"), Error::Usage("unknown argument: --x".to_string()));
}

#[test]
fn sampling_options_are_read_in_both_spellings() {
    let read = sample_options(
        &words(&["--due", "--if-due", "--require-success", "--session-id", "s", "--run-id=r"]),
        true,
    )
    .unwrap();
    assert!(read.due && read.if_due && read.require_success);
    assert_eq!(read.session_id.as_deref(), Some("s"));
    assert_eq!(read.run_id.as_deref(), Some("r"));
    for (rest, account, message) in [
        (words(&["--session-id"]), true, "--session-id requires a value"),
        (words(&["--session-id="]), true, "--session-id requires a value"),
        (words(&["--run-id"]), true, "--run-id requires a value"),
        (words(&["--run-id="]), true, "--run-id requires a value"),
        (words(&["--session-id", "s"]), false, "--session-id requires --account NAME"),
        (words(&["--run-id", "r"]), true, "--run-id requires --session-id"),
        (words(&["--x"]), true, "unknown argument: --x; run aub sample --help for options"),
    ] {
        assert_eq!(refusal(sample_options(&rest, account)), message);
    }
}

#[test]
fn the_doctor_shows_drift_or_repairs_but_not_both() {
    assert_eq!(doctor_options(&vec![]), Ok(DoctorRequest::Checks));
    assert_eq!(
        doctor_options(&words(&["--rate-card-staleness"])),
        Ok(DoctorRequest::DriftView)
    );
    assert_eq!(doctor_options(&words(&["--fix", "--fix"])), Ok(DoctorRequest::Fix));
    assert_eq!(
        refusal(doctor_options(&words(&["--fix", "--transcript-format-drift"]))),
        "--fix cannot be combined with --transcript-format-drift or --rate-card-staleness"
    );
    assert_eq!(
        refusal(doctor_options(&words(&["--fix", "--x", "--rate-card-staleness"]))),
        "unknown argument: --x"
    );
}

#[test]
fn coverage_defaults_to_a_day() {
    let window = coverage_window(&vec![]).unwrap();
    assert_eq!(window.since.as_nanos(), 86_400_000_000_000);
    assert_eq!(window.description, "24h");
    assert!(!window.severe_only);
    assert!(refusal(coverage_window(&words(&["--x"]))).contains("--x"));
    assert!(refusal(coverage_window(&words(&["--since"]))).contains("--since"));
}

#[test]
fn configuration_is_overridden_key_by_key() {
    let read = config_options(&words(&["--set", "a=1", "--set=b=c=d", "--config-file", "/f"]))
        .unwrap();
    assert_eq!(read.overrides.keys, words(&["a", "b"]));
    assert_eq!(read.overrides.values, words(&["1", "c=d"]));
    assert_eq!(read.config_file.as_deref(), Some("/f"));
    for (rest, message) in [
        (words(&["--set"]), "--set requires an argument"),
        (words(&["--config-file"]), "--config-file requires an argument"),
        (words(&["--set", "a"]), "--set requires key=value, got \"a\""),
        (words(&["x"]), "unknown argument: x"),
    ] {
        assert_eq!(refusal(config_options(&rest)), message);
    }
}

#[test]
fn ingest_reads_transcripts() {
    let read = ingest_flags(&words(&["transcripts", "--source=one", "--changed-only"])).unwrap();
    assert_eq!(read.source.as_deref(), Some("one"));
    assert!(read.changed_only);
    for (rest, message) in [
        (words(&[]), "ingest requires a target: ingest transcripts"),
        (words(&["mail"]), "unknown ingest target: mail; ingest reads transcripts"),
        (words(&["transcripts", "--source"]), "--source requires a source name"),
        (
            words(&["transcripts", "--source", "a", "--source=b"]),
            "--source was given more than once",
        ),
        (words(&["transcripts", "--x"]), "unknown argument: --x"),
    ] {
        assert_eq!(refusal(ingest_flags(&rest)), message);
    }
}

#[test]
fn a_rebuild_has_one_target() {
    assert_eq!(rebuild_target(&words(&["transcripts"])), Ok(RebuildGroup::Transcripts));
    assert_eq!(
        refusal(rebuild_target(&vec![])),
        "rebuild requires a target: transcripts | attribution"
    );
    assert_eq!(
        refusal(rebuild_target(&words(&["meter"]))),
        "unknown rebuild target meter; rebuildable targets are: transcripts | attribution"
    );
    assert_eq!(
        refusal(rebuild_target(&words(&["transcripts", "x"]))),
        "unknown argument: x"
    );
}

#[test]
fn clearing_names_one_provider_or_all() {
    let named = clear_diagnostics_options(&words(&["anthropic"])).unwrap();
    assert_eq!(named.provider.as_deref(), Some("anthropic"));
    assert!(!named.all);
    assert!(clear_diagnostics_options(&words(&["--all"])).unwrap().all);
    for (rest, message) in [
        (words(&["--provider"]), "--provider requires a provider name"),
        (words(&["--provider", ""]), "--provider requires a non-empty name"),
        (words(&["--provider="]), "--provider requires a non-empty name"),
        (words(&["--provider=a", "--provider", "b"]), "--provider specified more than once"),
        (words(&["--provider=a", "b"]), "unexpected positional argument: b"),
        (words(&["--all", "a"]), "--all cannot be combined with --provider"),
        (words(&["--x"]), "unknown argument: --x"),
    ] {
        assert_eq!(refusal(clear_diagnostics_options(&rest)), message);
    }
}

fn noon() -> UtcTimestamp {
    UtcTimestamp::parse_rfc3339("2026-08-30T12:00:00Z").unwrap()
}

#[test]
fn spend_values_and_credits_are_asked_for() {
    let read = spend_options(&words(&["--value", "api-list", "--credits"]), noon());
    match read {
        Ok(options) => {
            assert_eq!(options.value, Some(SpendValuationMode::ApiList));
            assert!(options.credits);
        }
        Err(error) => panic!("{error:?}"),
    }
}

#[test]
fn windows_hold_at_least_a_day() {
    let since = UtcDate::parse("2026-08-25").unwrap();
    let window = SpendWindow::starting(since, 3).unwrap();
    assert_eq!(window.since.iso(), "2026-08-25");
    assert_eq!(window.until.iso(), "2026-08-28");
    assert!(SpendWindow::starting(since, 0).is_err());
    assert!(SpendWindow::starting(since, i64::MAX).is_err());
    let last = UtcDate::parse("9999-12-31").unwrap();
    assert!(SpendWindow::starting(last, 1).is_err());
}

#[test]
fn overhead_takes_the_window_of_spend() {
    let read = |items: &[&str]| task_overhead_window(&words(items), 1, noon());
    let today = read(&["overhead"]).unwrap();
    assert_eq!(today.since.iso(), "2026-08-30");
    assert_eq!(today.until.iso(), "2026-08-31");
    let week = read(&["overhead", "--since=2026-08-01", "--days", "7"]).unwrap();
    assert_eq!(week.until.iso(), "2026-08-08");
    assert_eq!(refusal(read(&["overhead", "--days=x"])), "--days must be a number, got x");
    assert_eq!(refusal(read(&["overhead", "--days"])), "--days requires a number");
    assert_eq!(refusal(read(&["overhead", "--since"])), "--since requires YYYY-MM-DD");
    assert_eq!(refusal(read(&["overhead", "--x"])), "unknown argument: --x");
}

#[test]
fn a_failed_refresh_keeps_the_prior_subtotal() {
    assert_eq!(refresh_plan(RefreshPolicy::Never), None);
    assert_eq!(refresh_plan(RefreshPolicy::Auto), Some(true));
    assert_eq!(refresh_plan(RefreshPolicy::Force), Some(false));
    let failed = RefreshOutcome::Failed { error: "locked".to_string() };
    let message = "refresh failed: locked; retained the prior canonical subtotal";
    assert_eq!(refresh_failure(&failed).as_deref(), Some(message));
    assert_eq!(
        spend_outcome(&failed, 0),
        Err(Error::IngestIncomplete(message.to_string()))
    );
    let partial = RefreshOutcome::Ran { unreadable: 2 };
    assert_eq!(
        refresh_failure(&partial).as_deref(),
        Some("refresh could not read 2 file(s); retained the prior canonical subtotal")
    );
    assert_eq!(refresh_failure(&RefreshOutcome::Ran { unreadable: 0 }), None);
    assert_eq!(spend_outcome(&RefreshOutcome::NotRun, 0), Ok(()));
    assert_eq!(
        spend_outcome(&RefreshOutcome::NotRun, 3),
        Err(Error::IngestIncomplete(
            "3 file(s) could not be read; the counts above exclude them".to_string()
        ))
    );
}

#[test]
fn credits_are_reported_only_under_a_model() {
    assert_eq!(credit_reporting(true, true), CreditReporting::Active);
    assert_eq!(credit_reporting(true, false), CreditReporting::NoActiveModel);
    assert_eq!(credit_reporting(false, false), CreditReporting::NotRequested);
}
