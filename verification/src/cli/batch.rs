//! What a batch of sampling is handed, and the traces it leaves: the mark of a session,
//! the tick, and how the ledger is waited for.

use crate::cli::accounts::{sourced, sourced_id, Config, PragmaPolicy, SourcedId, Trigger};
use crate::cli::options::DoctorRequest;
use crate::domain::{MonotonicDuration, UtcTimestamp};
use crate::error::Error;
use crate::text::{decimal, decimal_text};
use vstd::prelude::*;
use vstd::string::*;

verus! {

/// How long the ledger is waited for by commands that do not sample on a schedule.
pub const SHORT_BUSY_NANOS: u64 = 500_000_000;

/// How long a lease on an account is held for.
pub const LEASE_NANOS: u64 = 60_000_000_000;

/// How far clocks may differ before a reading counts as one from the future.
pub const CLOCK_SKEW_NANOS: u64 = 60_000_000_000;

/// How commands that do not sample on a schedule open the ledger.
pub fn short_busy_policy() -> (policy: PragmaPolicy)
    ensures
        policy.busy_timeout.nanos == SHORT_BUSY_NANOS,
{
    PragmaPolicy { busy_timeout: MonotonicDuration::from_nanos(SHORT_BUSY_NANOS) }
}

/// What all accounts of a batch are sampled under.
#[derive(Debug, PartialEq, Eq)]
pub struct BatchSettings {
    pub trigger: Trigger,
    pub configuration_fingerprint: String,
    /// Who holds the leases of the batch.
    pub holder: String,
    pub lease_ttl: MonotonicDuration,
    pub command_budget: MonotonicDuration,
    pub max_concurrent_requests: usize,
}

/// What the accounts of a batch are sampled under, by a process.
pub fn batch_settings(config: &Config, trigger: Trigger, process: u32) -> (settings: BatchSettings)
    ensures
        settings.trigger == trigger,
        settings.configuration_fingerprint@ == "aub-v1"@,
        settings.holder@ == "pid-"@ + decimal(process as nat),
        settings.lease_ttl.nanos == LEASE_NANOS,
        settings.command_budget == config.sampling.command_budget,
        settings.max_concurrent_requests == config.sampling.max_concurrent_requests,
{
    let mut holder: String = "pid-".to_owned();
    holder.append(decimal_text(process as u128).as_str());
    BatchSettings {
        trigger,
        configuration_fingerprint: "aub-v1".to_owned(),
        holder,
        lease_ttl: MonotonicDuration::from_nanos(LEASE_NANOS),
        command_budget: config.sampling.command_budget,
        max_concurrent_requests: config.sampling.max_concurrent_requests,
    }
}

/// The mark that a session is on an account, as a launcher or a hook leaves it.
#[derive(Debug, PartialEq, Eq)]
pub struct SessionMark {
    pub session: SourcedId,
    pub run: Option<SourcedId>,
    pub observed_at: UtcTimestamp,
    pub logical_account: String,
    pub resolved_account: i64,
    pub marker_source: String,
}

/// The mark that a session, perhaps of a run, is on an account from a moment on.
pub fn session_mark(
    session: &str,
    run: Option<&str>,
    account: &str,
    resolved_account: i64,
    at: UtcTimestamp,
) -> (mark: SessionMark)
    ensures
        (mark.session.source@, mark.session.native@) == sourced(session@),
        match (run, mark.run) {
            (Some(text), Some(id)) => (id.source@, id.native@) == sourced(text@),
            (None, None) => true,
            _ => false,
        },
        mark.observed_at == at,
        mark.logical_account@ == account@,
        mark.resolved_account == resolved_account,
        mark.marker_source@ == "hook"@,
{
    let run: Option<SourcedId> = match run {
        Some(text) => Some(sourced_id(text)),
        None => None,
    };
    SessionMark {
        session: sourced_id(session),
        run,
        observed_at: at,
        logical_account: account.to_owned(),
        resolved_account,
        marker_source: "hook".to_owned(),
    }
}

/// How a tick of the sampler ended.
#[derive(Debug, PartialEq, Eq)]
pub enum TickOutcome {
    Success,
    Failed { reason: String },
}

/// How a tick ended whose batch ran, or failed with an error.
pub fn tick_outcome(failure: Option<&Error>) -> (outcome: TickOutcome)
    ensures
        match failure {
            Some(error) => outcome matches TickOutcome::Failed { reason } && reason@
                == error@.text(),
            None => outcome is Success,
        },
{
    match failure {
        Some(error) => TickOutcome::Failed { reason: error.message().to_owned() },
        None => TickOutcome::Success,
    }
}

/// What the doctor does.
#[derive(Debug, Clone, Copy, PartialEq, Eq, Structural)]
pub enum DoctorPlan {
    /// It ends with the error of the configuration.
    Refuse,
    /// It shows the drift of transcripts and the stale rate cards.
    ShowDrift,
    /// It repairs what may be repaired.
    Repair,
    /// It runs its checks.
    Check,
    /// It reports the configuration as the check that failed.
    ReportConfiguration,
}

/// What the doctor does, where the configuration can be read or cannot. Only the checks
/// go ahead without one: that it cannot be read is then what they find.
pub open spec fn doctor_does(request: DoctorRequest, configured: bool) -> DoctorPlan {
    match request {
        DoctorRequest::Checks => if configured {
            DoctorPlan::Check
        } else {
            DoctorPlan::ReportConfiguration
        },
        DoctorRequest::DriftView => if configured {
            DoctorPlan::ShowDrift
        } else {
            DoctorPlan::Refuse
        },
        DoctorRequest::Fix => if configured {
            DoctorPlan::Repair
        } else {
            DoctorPlan::Refuse
        },
    }
}

/// What the doctor does, where the configuration can be read or cannot.
pub fn doctor_plan(request: DoctorRequest, configured: bool) -> (plan: DoctorPlan)
    ensures
        plan == doctor_does(request, configured),
{
    match request {
        DoctorRequest::Checks => if configured {
            DoctorPlan::Check
        } else {
            DoctorPlan::ReportConfiguration
        },
        DoctorRequest::DriftView => if configured {
            DoctorPlan::ShowDrift
        } else {
            DoctorPlan::Refuse
        },
        DoctorRequest::Fix => if configured {
            DoctorPlan::Repair
        } else {
            DoctorPlan::Refuse
        },
    }
}

/// The checks report whatever the state of the configuration, and nothing is repaired
/// without one.
pub proof fn law_checks_always_report(request: DoctorRequest, configured: bool)
    ensures
        request is Checks ==> doctor_does(request, configured) !is Refuse,
        doctor_does(request, configured) is Repair ==> configured && request is Fix,
        doctor_does(request, configured) is Refuse ==> !configured,
{
}

} // verus!
