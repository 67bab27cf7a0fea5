//! Sampling: which accounts are sampled and why, what is said of each, and which errors
//! end a run.
//!
//! An observation that was not recorded is never shown as though it were durable: any
//! failure to record ends the run with the class of the store.

use crate::cli::json::{
    distinct_names, field, holds, list_value, members, object_value, print_value, printed,
    text_value, whole_value, Json,
};
use crate::domain::UtcTimestamp;
use crate::error::{Error, ErrorView};
use crate::sets::texts;
use crate::text::{signed_decimal, signed_decimal_text};
use vstd::prelude::*;
use vstd::string::*;

verus! {

/// How an attempt to observe an account ended.
#[derive(Debug, Clone, PartialEq, Eq)]
pub enum AttemptOutcome {
    Success,
    AuthRequired,
    /// The provider could not be reached, for a reason of some class.
    Unreachable { class: String },
}

impl AttemptOutcome {
    /// The word for an outcome.
    pub open spec fn word(self) -> Seq<char> {
        match self {
            AttemptOutcome::Success => "success"@,
            AttemptOutcome::AuthRequired => "auth_required"@,
            AttemptOutcome::Unreachable { .. } => "unreachable"@,
        }
    }

    /// The word for this outcome.
    pub fn label(&self) -> (label: &'static str)
        ensures
            label@ == self.word(),
    {
        match self {
            AttemptOutcome::Success => "success",
            AttemptOutcome::AuthRequired => "auth_required",
            AttemptOutcome::Unreachable { .. } => "unreachable",
        }
    }
}

/// What a run did with an account.
#[derive(Debug, Clone, PartialEq, Eq)]
pub enum AccountDisposition {
    Sampled { attempt_id: i64, outcome: AttemptOutcome },
    NotYet { next_due_at: UtcTimestamp },
    LeaseHeld { holder: String },
    DueLookupFailed { reason: String },
    EligibilityFailed { reason: String },
    PersistFailed { attempt_id: i64, outcome: AttemptOutcome, reason: String },
}

/// What a run did with one account.
#[derive(Debug, Clone, PartialEq, Eq)]
pub struct AccountReport {
    pub name: String,
    pub disposition: AccountDisposition,
}

/// The failure to record that a disposition is, if it is one.
pub open spec fn recording_failure(disposition: AccountDisposition) -> Option<ErrorView> {
    match disposition {
        AccountDisposition::PersistFailed { reason, .. } => Some(
            ErrorView::Store("evidence could not be durably preserved: "@ + reason@),
        ),
        AccountDisposition::DueLookupFailed { reason } => Some(
            ErrorView::Store("sampling due lookup failed: "@ + reason@),
        ),
        AccountDisposition::EligibilityFailed { reason } => Some(
            ErrorView::Store("sampling eligibility failed: "@ + reason@),
        ),
        _ => None,
    }
}

/// The first failure to record, from a position on.
pub open spec fn first_failure(accounts: Seq<AccountReport>, from: int) -> Option<ErrorView>
    decreases accounts.len() - from,
{
    if from >= accounts.len() {
        None
    } else if recording_failure(accounts[from].disposition) is Some {
        recording_failure(accounts[from].disposition)
    } else {
        first_failure(accounts, from + 1)
    }
}

/// The error of the first account whose attempt or result was not recorded.
pub fn sampling_disposition_error(accounts: &Vec<AccountReport>) -> (verdict: Result<(), Error>)
    ensures
        match verdict {
            Ok(()) => first_failure(accounts@, 0) is None,
            Err(error) => first_failure(accounts@, 0) == Some(error@),
        },
{
    let mut i: usize = 0;
    while i < accounts.len()
        invariant
            i <= accounts@.len(),
            first_failure(accounts@, 0) == first_failure(accounts@, i as int),
        decreases accounts@.len() - i,
    {
        match &accounts[i].disposition {
            AccountDisposition::PersistFailed { attempt_id: _, outcome: _, reason } => {
                let mut message: String = "evidence could not be durably preserved: ".to_owned();
                message.append(reason.as_str());
                return Err(Error::Store(message));
            },
            AccountDisposition::DueLookupFailed { reason } => {
                let mut message: String = "sampling due lookup failed: ".to_owned();
                message.append(reason.as_str());
                return Err(Error::Store(message));
            },
            AccountDisposition::EligibilityFailed { reason } => {
                let mut message: String = "sampling eligibility failed: ".to_owned();
                message.append(reason.as_str());
                return Err(Error::Store(message));
            },
            AccountDisposition::NotYet { .. } => {},
            AccountDisposition::LeaseHeld { .. } => {},
            AccountDisposition::Sampled { .. } => {},
        }
        i = i + 1;
    }
    Ok(())
}

/// A failure to record is an error, whatever else was recorded.
pub proof fn law_unrecorded_is_an_error(accounts: Seq<AccountReport>, at: int)
    requires
        0 <= at < accounts.len(),
        recording_failure(accounts[at].disposition) is Some,
    ensures
        first_failure(accounts, 0) is Some,
{
    lemma_failure_found(accounts, 0, at);
}

proof fn lemma_failure_found(accounts: Seq<AccountReport>, from: int, at: int)
    requires
        0 <= from <= at < accounts.len(),
        recording_failure(accounts[at].disposition) is Some,
    ensures
        first_failure(accounts, from) is Some,
    decreases at - from,
{
    if recording_failure(accounts[from].disposition) is None {
        lemma_failure_found(accounts, from + 1, at);
    }
}

/// Where success is required, why an account fell short of it.
pub open spec fn shortfall(report: AccountReport) -> Option<ErrorView> {
    match report.disposition {
        AccountDisposition::Sampled { outcome, .. } => match outcome {
            AttemptOutcome::Success => None,
            AttemptOutcome::AuthRequired => Some(
                ErrorView::AuthRequired(
                    "account '"@ + report.name@ + "': authentication required"@,
                ),
            ),
            AttemptOutcome::Unreachable { class } => Some(
                ErrorView::RemoteUnavailable(
                    "account '"@ + report.name@ + "': remote source unavailable: "@ + class@,
                ),
            ),
        },
        _ => None,
    }
}

/// The first account, from a position on, that fell short of success.
pub open spec fn first_shortfall(accounts: Seq<AccountReport>, from: int) -> Option<ErrorView>
    decreases accounts.len() - from,
{
    if from >= accounts.len() {
        None
    } else if shortfall(accounts[from]) is Some {
        shortfall(accounts[from])
    } else {
        first_shortfall(accounts, from + 1)
    }
}

/// The error of the first account that was sampled without success.
pub fn required_success(accounts: &Vec<AccountReport>) -> (verdict: Result<(), Error>)
    ensures
        match verdict {
            Ok(()) => first_shortfall(accounts@, 0) is None,
            Err(error) => first_shortfall(accounts@, 0) == Some(error@),
        },
{
    let mut i: usize = 0;
    while i < accounts.len()
        invariant
            i <= accounts@.len(),
            first_shortfall(accounts@, 0) == first_shortfall(accounts@, i as int),
        decreases accounts@.len() - i,
    {
        match &accounts[i].disposition {
            AccountDisposition::Sampled { attempt_id: _, outcome } => match outcome {
                AttemptOutcome::Success => {},
                AttemptOutcome::AuthRequired => {
                    let mut message: String = "account '".to_owned();
                    message.append(accounts[i].name.as_str());
                    message.append("': authentication required");
                    return Err(Error::AuthRequired(message));
                },
                AttemptOutcome::Unreachable { class } => {
                    let mut message: String = "account '".to_owned();
                    message.append(accounts[i].name.as_str());
                    message.append("': remote source unavailable: ");
                    message.append(class.as_str());
                    return Err(Error::RemoteUnavailable(message));
                },
            },
            _ => {},
        }
        i = i + 1;
    }
    Ok(())
}

/// How a run of sampling ends once it is reported: a failure to record comes first, and
/// where success is required each account must have had it.
pub fn sample_ending(accounts: &Vec<AccountReport>, require_success: bool) -> (ending: Result<
    (),
    Error,
>)
    ensures
        ({
            let failure = match first_failure(accounts@, 0) {
                Some(error) => Some(error),
                None => if require_success {
                    first_shortfall(accounts@, 0)
                } else {
                    None
                },
            };
            match ending {
                Ok(()) => failure is None,
                Err(error) => failure == Some(error@),
            }
        }),
{
    match sampling_disposition_error(accounts) {
        Ok(()) => {},
        Err(error) => {
            return Err(error);
        },
    }
    if require_success {
        required_success(accounts)
    } else {
        Ok(())
    }
}

/// The line of one account.
pub open spec fn account_text(report: AccountReport) -> Seq<char> {
    "sample: account="@ + report.name@ + match report.disposition {
        AccountDisposition::Sampled { attempt_id, outcome } => " outcome="@ + outcome.word()
            + " attempt="@ + signed_decimal(attempt_id as int),
        AccountDisposition::NotYet { next_due_at } => " not-due next_due_at="@ + signed_decimal(
            next_due_at.nanos as int,
        ),
        AccountDisposition::LeaseHeld { holder } => " lease-held holder="@ + holder@,
        AccountDisposition::DueLookupFailed { reason } => " due-lookup-failed reason="@ + reason@,
        AccountDisposition::EligibilityFailed { reason } => " eligibility-failed reason="@
            + reason@,
        AccountDisposition::PersistFailed { attempt_id, outcome, reason } =>
            " persist-failed attempt="@ + signed_decimal(attempt_id as int) + " outcome="@
            + outcome.word() + " reason="@ + reason@,
    }
}

fn disposition_line(disposition: &AccountDisposition) -> (text: String)
    ensures
        text@ == match *disposition {
            AccountDisposition::Sampled { attempt_id, outcome } => " outcome="@ + outcome.word()
                + " attempt="@ + signed_decimal(attempt_id as int),
            AccountDisposition::NotYet { next_due_at } => " not-due next_due_at="@
                + signed_decimal(next_due_at.nanos as int),
            AccountDisposition::LeaseHeld { holder } => " lease-held holder="@ + holder@,
            AccountDisposition::DueLookupFailed { reason } => " due-lookup-failed reason="@
                + reason@,
            AccountDisposition::EligibilityFailed { reason } => " eligibility-failed reason="@
                + reason@,
            AccountDisposition::PersistFailed { attempt_id, outcome, reason } =>
                " persist-failed attempt="@ + signed_decimal(attempt_id as int) + " outcome="@
                + outcome.word() + " reason="@ + reason@,
        },
{
    match disposition {
        AccountDisposition::Sampled { attempt_id, outcome } => {
            let mut text: String = " outcome=".to_owned();
            text.append(outcome.label());
            text.append(" attempt=");
            text.append(signed_decimal_text(*attempt_id).as_str());
            text
        },
        AccountDisposition::NotYet { next_due_at } => {
            let mut text: String = " not-due next_due_at=".to_owned();
            text.append(signed_decimal_text(next_due_at.unix_nanos()).as_str());
            text
        },
        AccountDisposition::LeaseHeld { holder } => {
            let mut text: String = " lease-held holder=".to_owned();
            text.append(holder.as_str());
            text
        },
        AccountDisposition::DueLookupFailed { reason } => {
            let mut text: String = " due-lookup-failed reason=".to_owned();
            text.append(reason.as_str());
            text
        },
        AccountDisposition::EligibilityFailed { reason } => {
            let mut text: String = " eligibility-failed reason=".to_owned();
            text.append(reason.as_str());
            text
        },
        AccountDisposition::PersistFailed { attempt_id, outcome, reason } => {
            let mut text: String = " persist-failed attempt=".to_owned();
            text.append(signed_decimal_text(*attempt_id).as_str());
            text.append(" outcome=");
            text.append(outcome.label());
            text.append(" reason=");
            text.append(reason.as_str());
            text
        },
    }
}

/// The lines that report a run, one for each account.
pub fn render_sample(accounts: &Vec<AccountReport>) -> (lines: Vec<String>)
    ensures
        texts(lines@) == accounts@.map_values(|report: AccountReport| account_text(report)),
{
    let ghost all = accounts@.map_values(|report: AccountReport| account_text(report));
    let mut lines: Vec<String> = Vec::new();
    let mut i: usize = 0;
    assert(texts(lines@) =~= all.take(0));
    while i < accounts.len()
        invariant
            i <= accounts@.len(),
            all == accounts@.map_values(|report: AccountReport| account_text(report)),
            texts(lines@) == all.take(i as int),
        decreases accounts@.len() - i,
    {
        let mut line: String = "sample: account=".to_owned();
        line.append(accounts[i].name.as_str());
        line.append(disposition_line(&accounts[i].disposition).as_str());
        assert(all[i as int] == line@);
        let ghost before = lines@;
        lines.push(line);
        assert(texts(lines@) =~= texts(before).push(line@));
        assert(texts(lines@) =~= all.take(i + 1));
        i = i + 1;
    }
    assert(all.take(accounts@.len() as int) =~= all);
    lines
}

/// The word for a disposition in JSON.
pub open spec fn disposition_word(disposition: AccountDisposition) -> Seq<char> {
    match disposition {
        AccountDisposition::Sampled { .. } => "sampled"@,
        AccountDisposition::NotYet { .. } => "not_yet"@,
        AccountDisposition::LeaseHeld { .. } => "lease_held"@,
        AccountDisposition::DueLookupFailed { .. } => "due_lookup_failed"@,
        AccountDisposition::EligibilityFailed { .. } => "eligibility_failed"@,
        AccountDisposition::PersistFailed { .. } => "persist_failed"@,
    }
}

/// The details of a disposition in JSON.
pub open spec fn details_json(disposition: AccountDisposition) -> Json {
    Json::Object(
        match disposition {
            AccountDisposition::Sampled { attempt_id, outcome } => map![
                "attempt_id"@ => Json::Whole(attempt_id as int),
                "outcome"@ => Json::Text(outcome.word()),
            ],
            AccountDisposition::NotYet { next_due_at } => map![
                "next_due_at_nanos"@ => Json::Whole(next_due_at.nanos as int),
            ],
            AccountDisposition::LeaseHeld { holder } => map![
                "holder"@ => Json::Text(holder@),
            ],
            AccountDisposition::DueLookupFailed { reason } => map![
                "reason"@ => Json::Text(reason@),
            ],
            AccountDisposition::EligibilityFailed { reason } => map![
                "reason"@ => Json::Text(reason@),
            ],
            AccountDisposition::PersistFailed { attempt_id, outcome, reason } => map![
                "attempt_id"@ => Json::Whole(attempt_id as int),
                "reason"@ => Json::Text(reason@),
            ],
        },
    )
}

/// What is said of one account in JSON.
pub open spec fn account_json(report: AccountReport) -> Json {
    Json::Object(
        map![
            "account"@ => Json::Text(report.name@),
            "disposition"@ => Json::Text(disposition_word(report.disposition)),
            "details"@ => details_json(report.disposition),
        ],
    )
}

/// The report of a run in JSON.
pub open spec fn sample_report_json(
    run_id: Seq<char>,
    sample_run_id: i64,
    accounts: Seq<AccountReport>,
) -> Json {
    Json::Object(
        map![
            "schema_version"@ => Json::Whole(1),
            "command"@ => Json::Text("sample"@),
            "run_id"@ => Json::Text(run_id),
            "sample_run_id"@ => Json::Whole(sample_run_id as int),
            "accounts"@ => Json::List(accounts.map_values(|r: AccountReport| account_json(r))),
        ],
    )
}

proof fn lemma_members_of_two(fields: Seq<(String, serde_json::Value)>)
    requires
        fields.len() == 2,
    ensures
        members(fields) == Map::<Seq<char>, Json>::empty().insert(
            fields[0].0@,
            holds(fields[0].1),
        ).insert(fields[1].0@, holds(fields[1].1)),
{
    assert(fields.drop_last().drop_last() =~= Seq::empty());
    reveal_with_fuel(members, 3);
}

proof fn lemma_members_of_one(fields: Seq<(String, serde_json::Value)>)
    requires
        fields.len() == 1,
    ensures
        members(fields) == Map::<Seq<char>, Json>::empty().insert(
            fields[0].0@,
            holds(fields[0].1),
        ),
{
    assert(fields.drop_last() =~= Seq::empty());
    reveal_with_fuel(members, 2);
}

fn one_member(name: &str, value: serde_json::Value) -> (object: serde_json::Value)
    ensures
        holds(object) == Json::Object(map![name@ => holds(value)]),
{
    let mut fields: Vec<(String, serde_json::Value)> = Vec::new();
    fields.push(field(name, value));
    proof {
        lemma_members_of_one(fields@);
    }
    object_value(fields)
}

fn two_members(
    first: &str,
    first_value: serde_json::Value,
    second: &str,
    second_value: serde_json::Value,
) -> (object: serde_json::Value)
    requires
        first@ != second@,
    ensures
        holds(object) == Json::Object(
            map![first@ => holds(first_value), second@ => holds(second_value)],
        ),
{
    let mut fields: Vec<(String, serde_json::Value)> = Vec::new();
    fields.push(field(first, first_value));
    fields.push(field(second, second_value));
    proof {
        lemma_members_of_two(fields@);
    }
    object_value(fields)
}

fn details_value(disposition: &AccountDisposition) -> (value: serde_json::Value)
    ensures
        holds(value) == details_json(*disposition),
{
    proof {
        reveal_strlit("attempt_id");
        reveal_strlit("outcome");
        reveal_strlit("reason");
        assert("attempt_id"@.len() == 10 && "outcome"@.len() == 7 && "reason"@.len() == 6);
    }
    match disposition {
        AccountDisposition::Sampled { attempt_id, outcome } => two_members(
            "attempt_id",
            whole_value(*attempt_id),
            "outcome",
            text_value(outcome.label()),
        ),
        AccountDisposition::NotYet { next_due_at } => one_member(
            "next_due_at_nanos",
            whole_value(next_due_at.unix_nanos()),
        ),
        AccountDisposition::LeaseHeld { holder } => one_member(
            "holder",
            text_value(holder.as_str()),
        ),
        AccountDisposition::DueLookupFailed { reason } => one_member(
            "reason",
            text_value(reason.as_str()),
        ),
        AccountDisposition::EligibilityFailed { reason } => one_member(
            "reason",
            text_value(reason.as_str()),
        ),
        AccountDisposition::PersistFailed { attempt_id, outcome: _, reason } => two_members(
            "attempt_id",
            whole_value(*attempt_id),
            "reason",
            text_value(reason.as_str()),
        ),
    }
}

fn disposition_label(disposition: &AccountDisposition) -> (word: &'static str)
    ensures
        word@ == disposition_word(*disposition),
{
    match disposition {
        AccountDisposition::Sampled { .. } => "sampled",
        AccountDisposition::NotYet { .. } => "not_yet",
        AccountDisposition::LeaseHeld { .. } => "lease_held",
        AccountDisposition::DueLookupFailed { .. } => "due_lookup_failed",
        AccountDisposition::EligibilityFailed { .. } => "eligibility_failed",
        AccountDisposition::PersistFailed { .. } => "persist_failed",
    }
}

fn account_value(report: &AccountReport) -> (value: serde_json::Value)
    ensures
        holds(value) == account_json(*report),
{
    let mut fields: Vec<(String, serde_json::Value)> = Vec::new();
    fields.push(field("account", text_value(report.name.as_str())));
    fields.push(field("disposition", text_value(disposition_label(&report.disposition))));
    fields.push(field("details", details_value(&report.disposition)));
    proof {
        reveal_strlit("account");
        reveal_strlit("disposition");
        reveal_strlit("details");
        assert("account"@.len() == 7 && "disposition"@.len() == 11 && "details"@.len() == 7);
        assert("account"@[0] == 'a' && "details"@[0] == 'd');
        assert(fields@.drop_last().drop_last().drop_last() =~= Seq::empty());
        reveal_with_fuel(members, 4);
        assert(members(fields@) =~= account_json(*report)->Object_0);
    }
    object_value(fields)
}

/// The report of a run in JSON, indented.
pub fn sample_json(run_id: &str, sample_run_id: i64, accounts: &Vec<AccountReport>) -> (text:
    String)
    ensures
        text@ == printed(sample_report_json(run_id@, sample_run_id, accounts@)),
{
    let ghost all = accounts@.map_values(|r: AccountReport| account_json(r));
    let mut items: Vec<serde_json::Value> = Vec::new();
    let mut i: usize = 0;
    while i < accounts.len()
        invariant
            i <= accounts@.len(),
            items@.len() == i,
            all == accounts@.map_values(|r: AccountReport| account_json(r)),
            forall|k: int| 0 <= k < i ==> holds(#[trigger] items@[k]) == all[k],
        decreases accounts@.len() - i,
    {
        items.push(account_value(&accounts[i]));
        i = i + 1;
    }
    assert(items@.map_values(|item: serde_json::Value| holds(item)) =~= all);
    let mut fields: Vec<(String, serde_json::Value)> = Vec::new();
    fields.push(field("schema_version", whole_value(1)));
    fields.push(field("command", text_value("sample")));
    fields.push(field("run_id", text_value(run_id)));
    fields.push(field("sample_run_id", whole_value(sample_run_id)));
    fields.push(field("accounts", list_value(items)));
    proof {
        reveal_strlit("schema_version");
        reveal_strlit("command");
        reveal_strlit("run_id");
        reveal_strlit("sample_run_id");
        reveal_strlit("accounts");
        assert("schema_version"@.len() == 14 && "command"@.len() == 7 && "run_id"@.len() == 6
            && "sample_run_id"@.len() == 13 && "accounts"@.len() == 8);
        assert(distinct_names(fields@));
        assert(fields@.drop_last().drop_last().drop_last().drop_last().drop_last()
            =~= Seq::empty());
        reveal_with_fuel(members, 6);
        assert(members(fields@) =~= sample_report_json(
            run_id@,
            sample_run_id,
            accounts@,
        )->Object_0);
    }
    let root: serde_json::Value = object_value(fields);
    print_value(&root)
}

/// The report of a run without accounts in JSON, on one line.
pub fn empty_sample_json(run_id: &str) -> (text: String)
    ensures
        text@ == "{\"schema_version\":1,\"command\":\"sample\",\"run_id\":\""@ + run_id@
            + "\",\"accounts\":[]}"@,
{
    let mut text: String =
        "{\"schema_version\":1,\"command\":\"sample\",\"run_id\":\"".to_owned();
    text.append(run_id);
    text.append("\",\"accounts\":[]}");
    text
}

/// Sampling fails for an account exactly where its evidence could not be kept, or it could
/// not be told whether it is due or may be sampled; and it says which.
pub proof fn law_unkept_evidence_is_a_failure(disposition: AccountDisposition)
    ensures
        recording_failure(disposition) == match disposition {
            AccountDisposition::PersistFailed { reason, .. } => Some(
                ErrorView::Store("evidence could not be durably preserved: "@ + reason@),
            ),
            AccountDisposition::DueLookupFailed { reason } => Some(
                ErrorView::Store("sampling due lookup failed: "@ + reason@),
            ),
            AccountDisposition::EligibilityFailed { reason } => Some(
                ErrorView::Store("sampling eligibility failed: "@ + reason@),
            ),
            AccountDisposition::Sampled { .. } => None,
            AccountDisposition::NotYet { .. } => None,
            AccountDisposition::LeaseHeld { .. } => None,
        },
{
}

/// Of several failures the first account's is reported, and none where there is none.
pub proof fn law_the_first_failure_is_reported(accounts: Seq<AccountReport>, from: int)
    requires
        0 <= from <= accounts.len(),
    ensures
        match first_failure(accounts, from) {
            Some(error) => exists|at: int|
                from <= at < accounts.len() && recording_failure(
                    (#[trigger] accounts[at]).disposition,
                ) == Some(error) && forall|i: int|
                    from <= i < at ==> recording_failure(
                        (#[trigger] accounts[i]).disposition,
                    ) is None,
            None => forall|i: int|
                from <= i < accounts.len() ==> recording_failure(
                    (#[trigger] accounts[i]).disposition,
                ) is None,
        },
    decreases accounts.len() - from,
{
    if from < accounts.len() {
        if recording_failure(accounts[from].disposition) is Some {
            assert(recording_failure(accounts[from].disposition) == first_failure(accounts, from));
        } else {
            law_the_first_failure_is_reported(accounts, from + 1);
            if first_failure(accounts, from) is Some {
                let error = first_failure(accounts, from)->0;
                let at = choose|at: int|
                    from + 1 <= at < accounts.len() && recording_failure(
                        (#[trigger] accounts[at]).disposition,
                    ) == Some(error) && forall|i: int|
                        from + 1 <= i < at ==> recording_failure(
                            (#[trigger] accounts[i]).disposition,
                        ) is None;
                assert(recording_failure(accounts[at].disposition) == Some(error));
            }
        }
    }
}

/// Where success is required, the first sampled account that did not succeed is reported:
/// as needing authentication, or as unavailable with its class. Accounts that were not
/// sampled are not.
pub proof fn law_the_first_shortfall_is_reported(accounts: Seq<AccountReport>, from: int)
    requires
        0 <= from <= accounts.len(),
    ensures
        match first_shortfall(accounts, from) {
            Some(error) => exists|at: int|
                from <= at < accounts.len() && shortfall(#[trigger] accounts[at]) == Some(error)
                    && forall|i: int| from <= i < at ==> shortfall(#[trigger] accounts[i]) is None,
            None => forall|i: int|
                from <= i < accounts.len() ==> shortfall(#[trigger] accounts[i]) is None,
        },
        from < accounts.len() ==> shortfall(accounts[from]) == match accounts[from].disposition {
            AccountDisposition::Sampled { outcome: AttemptOutcome::AuthRequired, .. } => Some(
                ErrorView::AuthRequired(
                    "account '"@ + accounts[from].name@ + "': authentication required"@,
                ),
            ),
            AccountDisposition::Sampled { outcome: AttemptOutcome::Unreachable { class }, .. } =>
                Some(
                ErrorView::RemoteUnavailable(
                    "account '"@ + accounts[from].name@ + "': remote source unavailable: "@
                        + class@,
                ),
            ),
            _ => None,
        },
    decreases accounts.len() - from,
{
    if from < accounts.len() {
        if shortfall(accounts[from]) is Some {
            assert(shortfall(accounts[from]) == first_shortfall(accounts, from));
        } else {
            law_the_first_shortfall_is_reported(accounts, from + 1);
            if first_shortfall(accounts, from) is Some {
                let error = first_shortfall(accounts, from)->0;
                let at = choose|at: int|
                    from + 1 <= at < accounts.len() && shortfall(#[trigger] accounts[at]) == Some(
                        error,
                    ) && forall|i: int|
                        from + 1 <= i < at ==> shortfall(#[trigger] accounts[i]) is None;
                assert(shortfall(accounts[at]) == Some(error));
            }
        }
    }
}

/// What an account came to is told from everything else it could have come to, in one
/// word, and an outcome too.
pub proof fn law_dispositions_have_their_own_words(
    a: AccountDisposition,
    b: AccountDisposition,
    c: AttemptOutcome,
    d: AttemptOutcome,
)
    ensures
        disposition_word(a) == disposition_word(b) ==> (a is Sampled <==> b is Sampled) && (
        a is NotYet <==> b is NotYet) && (a is LeaseHeld <==> b is LeaseHeld) && (
        a is DueLookupFailed <==> b is DueLookupFailed) && (a is EligibilityFailed
            <==> b is EligibilityFailed) && (a is PersistFailed <==> b is PersistFailed),
        c.word() == d.word() ==> (c is Success <==> d is Success) && (c is AuthRequired
            <==> d is AuthRequired),
        a is Sampled ==> disposition_word(a) == "sampled"@,
        a is NotYet ==> disposition_word(a) == "not_yet"@,
        c is Success ==> c.word() == "success"@,
{
    reveal_strlit("sampled");
    reveal_strlit("not_yet");
    reveal_strlit("lease_held");
    reveal_strlit("due_lookup_failed");
    reveal_strlit("eligibility_failed");
    reveal_strlit("persist_failed");
    reveal_strlit("success");
    reveal_strlit("auth_required");
    reveal_strlit("unreachable");
    assert("sampled"@.len() == 7 && "sampled"@[0] == 's');
    assert("not_yet"@.len() == 7 && "not_yet"@[0] == 'n');
    assert("lease_held"@.len() == 10 && "due_lookup_failed"@.len() == 17);
    assert("eligibility_failed"@.len() == 18 && "persist_failed"@.len() == 14);
    assert("success"@.len() == 7 && "auth_required"@.len() == 13 && "unreachable"@.len() == 11);
}

/// A report holds every account in order, under its own name, with its own disposition and
/// the figures that come with it.
pub proof fn law_reports_hold_every_account(
    run_id: Seq<char>,
    sample_run_id: i64,
    accounts: Seq<AccountReport>,
    i: int,
)
    requires
        0 <= i < accounts.len(),
    ensures
        sample_report_json(run_id, sample_run_id, accounts) matches Json::Object(report)
            && report["run_id"@] == Json::Text(run_id) && report["sample_run_id"@] == Json::Whole(
            sample_run_id as int,
        ) && report["schema_version"@] == Json::Whole(1) && report["command"@] == Json::Text(
            "sample"@,
        ) && (report["accounts"@] matches Json::List(list) && list.len() == accounts.len()
            && list[i] == account_json(accounts[i])),
        account_json(accounts[i]) matches Json::Object(account) && account["account"@]
            == Json::Text(accounts[i].name@) && account["disposition"@] == Json::Text(
            disposition_word(accounts[i].disposition),
        ) && account["details"@] == details_json(accounts[i].disposition),
        accounts[i].disposition matches AccountDisposition::Sampled { attempt_id, outcome } ==> (
        details_json(accounts[i].disposition) matches Json::Object(details)
            && details["attempt_id"@] == Json::Whole(attempt_id as int) && details["outcome"@]
            == Json::Text(outcome.word())),
        accounts[i].disposition matches AccountDisposition::NotYet { next_due_at } ==> (
        details_json(accounts[i].disposition) matches Json::Object(details)
            && details["next_due_at_nanos"@] == Json::Whole(next_due_at.nanos as int)),
        accounts[i].disposition matches AccountDisposition::LeaseHeld { holder } ==> (details_json(
            accounts[i].disposition,
        ) matches Json::Object(details) && details["holder"@] == Json::Text(holder@)),
{
    reveal_strlit("schema_version");
    reveal_strlit("command");
    reveal_strlit("run_id");
    reveal_strlit("sample_run_id");
    reveal_strlit("accounts");
    reveal_strlit("account");
    reveal_strlit("disposition");
    reveal_strlit("details");
    reveal_strlit("attempt_id");
    reveal_strlit("outcome");
    assert("schema_version"@.len() == 14 && "command"@.len() == 7 && "run_id"@.len() == 6
        && "sample_run_id"@.len() == 13 && "accounts"@.len() == 8);
    assert("account"@.len() == 7 && "disposition"@.len() == 11 && "details"@.len() == 7
        && "account"@[0] == 'a' && "details"@[0] == 'd');
    assert("attempt_id"@.len() == 10 && "outcome"@.len() == 7);
}

} // verus!
