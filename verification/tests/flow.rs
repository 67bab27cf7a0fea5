//! The order of a run of sampling, and what a batch is handed.

use aub::cli::accounts::{
    attribution_since, check_account, coverage_since, is_forced, parse_task_id,
    projection_accounts, sample_trigger, sampling_policy, sourced_id, target_accounts,
    unreadable_projection, AccountConfig, Config, SamplingConfig, Trigger,
};
use aub::cli::batch::{
    batch_settings, doctor_plan, session_mark, short_busy_policy, tick_outcome, DoctorPlan,
    TickOutcome,
};
use aub::cli::flow::{next_phase, SamplingFacts, SamplingPhase};
use aub::cli::options::DoctorRequest;
use aub::domain::{MonotonicDuration, UtcTimestamp};
use aub::error::Error;

fn facts(live: bool, session: bool, targets: usize) -> SamplingFacts {
    SamplingFacts {
        live,
        options_accepted: true,
        account_known: true,
        session,
        targets,
        recorded: true,
    }
}

fn phases(facts: SamplingFacts, failing: Option<SamplingPhase>) -> Vec<SamplingPhase> {
    let mut phase = SamplingPhase::Starting;
    let mut seen = vec![phase];
    while phase != SamplingPhase::Finished && phase != SamplingPhase::Stopped {
        phase = next_phase(facts, phase, Some(phase) != failing);
        seen.push(phase);
    }
    seen
}

#[test]
fn a_session_is_marked_before_anything_is_sampled() {
    assert_eq!(
        phases(facts(false, true, 2), None),
        vec![
            SamplingPhase::Starting,
            SamplingPhase::Configuring,
            SamplingPhase::Readying,
            SamplingPhase::Opening,
            SamplingPhase::Draining,
            SamplingPhase::Naming,
            SamplingPhase::Marking,
            SamplingPhase::Requesting,
            SamplingPhase::Crediting { at: 0 },
            SamplingPhase::Crediting { at: 1 },
            SamplingPhase::Batching,
            SamplingPhase::Ticking { ran: true },
            SamplingPhase::Rendering,
            SamplingPhase::Finished,
        ]
    );
}

#[test]
fn a_live_run_reads_back_what_it_published() {
    let seen = phases(facts(true, false, 1), None);
    assert!(seen.contains(&SamplingPhase::Projecting));
    assert!(!seen.contains(&SamplingPhase::Ticking { ran: true }));
    assert_eq!(seen.last(), Some(&SamplingPhase::Finished));
    let unrecorded = SamplingFacts { recorded: false, ..facts(true, false, 1) };
    let stopped = phases(unrecorded, None);
    assert!(!stopped.contains(&SamplingPhase::Rendering));
    assert_eq!(stopped.last(), Some(&SamplingPhase::Stopped));
}

#[test]
fn a_batch_that_fails_still_leaves_its_tick() {
    let seen = phases(facts(false, false, 1), Some(SamplingPhase::Batching));
    assert!(seen.contains(&SamplingPhase::Ticking { ran: false }));
    assert_eq!(seen.last(), Some(&SamplingPhase::Stopped));
}

#[test]
fn nobody_is_asked_before_the_state_is_ready() {
    let seen = phases(facts(false, false, 1), Some(SamplingPhase::Readying));
    assert_eq!(
        seen,
        vec![
            SamplingPhase::Starting,
            SamplingPhase::Configuring,
            SamplingPhase::Readying,
            SamplingPhase::Stopped,
        ]
    );
    let empty = phases(facts(false, false, 0), None);
    assert!(!empty.contains(&SamplingPhase::Requesting));
    assert_eq!(empty.last(), Some(&SamplingPhase::Finished));
}

fn seconds(count: u64) -> MonotonicDuration {
    MonotonicDuration::from_nanos(count * 1_000_000_000)
}

fn account(name: &str, provider: &str) -> AccountConfig {
    AccountConfig { name: name.to_string(), provider: provider.to_string() }
}

fn config() -> Config {
    Config {
        sampling: SamplingConfig {
            default_interval: seconds(300),
            reset_edge_lead: seconds(90),
            command_budget: seconds(45),
            request_timeout: seconds(3),
            busy_timeout: seconds(17),
            max_concurrent_requests: 4,
        },
        meter_freshness: seconds(600),
        accounts: vec![account("work", "anthropic"), account("home", "other")],
    }
}

#[test]
fn a_batch_runs_under_the_configuration() {
    let settings = batch_settings(&config(), Trigger::Timer, 4711);
    assert_eq!(settings.trigger, Trigger::Timer);
    assert_eq!(settings.configuration_fingerprint, "aub-v1");
    assert_eq!(settings.holder, "pid-4711");
    assert_eq!(settings.lease_ttl, seconds(60));
    assert_eq!(settings.command_budget, seconds(45));
    assert_eq!(settings.max_concurrent_requests, 4);
    assert_eq!(short_busy_policy().busy_timeout.as_nanos(), 500_000_000);
}

#[test]
fn sessions_and_runs_carry_their_source() {
    let at = UtcTimestamp::from_unix_nanos(7);
    let mark = session_mark("hook:s:1", Some("r1"), "work", 9, at);
    assert_eq!((mark.session.source.as_str(), mark.session.native.as_str()), ("hook", "s:1"));
    let run = mark.run.unwrap();
    assert_eq!((run.source.as_str(), run.native.as_str()), ("cli", "r1"));
    assert_eq!(mark.observed_at, at);
    assert_eq!(mark.logical_account, "work");
    assert_eq!(mark.resolved_account, 9);
    assert_eq!(mark.marker_source, "hook");
    assert_eq!(session_mark("s", None, "work", 9, at).run, None);
    assert_eq!(sourced_id(":x").source, "");
}

#[test]
fn a_tick_names_why_it_failed() {
    assert_eq!(tick_outcome(None), TickOutcome::Success);
    assert_eq!(
        tick_outcome(Some(&Error::Store("locked".to_string()))),
        TickOutcome::Failed { reason: "locked".to_string() }
    );
}

#[test]
fn the_doctor_checks_even_without_a_configuration() {
    assert_eq!(doctor_plan(DoctorRequest::Checks, true), DoctorPlan::Check);
    assert_eq!(doctor_plan(DoctorRequest::Checks, false), DoctorPlan::ReportConfiguration);
    assert_eq!(doctor_plan(DoctorRequest::Fix, true), DoctorPlan::Repair);
    assert_eq!(doctor_plan(DoctorRequest::Fix, false), DoctorPlan::Refuse);
    assert_eq!(doctor_plan(DoctorRequest::DriftView, true), DoctorPlan::ShowDrift);
    assert_eq!(doctor_plan(DoctorRequest::DriftView, false), DoctorPlan::Refuse);
}

#[test]
fn accounts_are_selected_by_name() {
    let accounts = config().accounts;
    assert_eq!(check_account("now", None, &accounts), Ok(()));
    assert_eq!(check_account("now", Some("home"), &accounts), Ok(()));
    assert_eq!(
        check_account("now", Some("hom"), &accounts),
        Err(Error::Usage(
            "unknown account 'hom': now --account names a configured account".to_string()
        ))
    );
    assert_eq!(target_accounts(&accounts, None), vec![0, 1]);
    assert_eq!(target_accounts(&accounts, Some("home")), vec![1]);
    assert_eq!(target_accounts(&accounts, Some("hom")), Vec::<usize>::new());
    let projected = vec!["home".to_string(), "gone".to_string()];
    assert_eq!(
        projection_accounts(&accounts, None, &projected),
        vec![(0, None), (1, Some(0))]
    );
    assert_eq!(projection_accounts(&accounts, Some("work"), &projected), vec![(0, None)]);
    assert_eq!(
        unreadable_projection("torn"),
        Error::Store(
            "sampled accounts but the published projection could not be read: torn".to_string()
        )
    );
}

#[test]
fn accounts_are_sampled_under_a_policy() {
    let config = config();
    let policy = sampling_policy(&config, &config.accounts[0]).unwrap();
    assert_eq!(policy.ordinary_cadence, seconds(300));
    assert_eq!(policy.freshness_horizon, seconds(600));
    assert_eq!(policy.reset_edge_policy, "lead-90s");
    assert_eq!(policy.retry_backoff_policy, "none");
    assert_eq!(policy.command_budget, seconds(45));
    assert_eq!(policy.policy_algorithm_version, "v1");
    assert_eq!(
        sampling_policy(&config, &config.accounts[1]),
        Err(Error::Usage(
            "unsupported provider 'other' for account 'home' (supported: anthropic)".to_string()
        ))
    );
}

#[test]
fn triggers_follow_who_asked() {
    assert_eq!(sample_trigger(true, true), Trigger::Hook);
    assert_eq!(sample_trigger(false, true), Trigger::Timer);
    assert_eq!(sample_trigger(false, false), Trigger::Manual);
    assert!(is_forced(false, false));
    assert!(!is_forced(true, false));
    assert!(!is_forced(false, true));
}

#[test]
fn tasks_are_named_by_source_and_identifier() {
    let task = parse_task_id("tracker:a:1").unwrap();
    assert_eq!((task.source.as_str(), task.native.as_str()), ("tracker", "a:1"));
    for bad in ["a1", ":a1", "tracker:"] {
        assert_eq!(
            parse_task_id(bad),
            Err(Error::Usage(format!("TASK-ID must be SOURCE:NATIVE, got {bad}")))
        );
    }
}

#[test]
fn windows_reach_back_without_wrapping_round() {
    let now = UtcTimestamp::from_unix_nanos(1_000);
    assert_eq!(coverage_since(now, MonotonicDuration::from_nanos(400)).unix_nanos(), 600);
    assert_eq!(attribution_since(now, MonotonicDuration::from_nanos(400)).unix_nanos(), 600);
    let early = UtcTimestamp::from_unix_nanos(i64::MIN + 5);
    assert_eq!(coverage_since(early, seconds(1)).unix_nanos(), i64::MIN);
    assert_eq!(
        coverage_since(now, MonotonicDuration::from_nanos(u64::MAX)).unix_nanos(),
        1_000 - i64::MAX
    );
    assert_eq!(
        attribution_since(early, MonotonicDuration::from_nanos(u64::MAX)).unix_nanos(),
        i64::MIN
    );
}
