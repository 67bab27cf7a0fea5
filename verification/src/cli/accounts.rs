//! The configured accounts: which of them a command is about, how each is sampled, and
//! how long the ledger is waited for.

use crate::domain::{MonotonicDuration, UtcTimestamp};
use crate::error::{Error, ErrorView};
use crate::text::{
    contains_text, decimal, decimal_text, law_text_is_split_at_the_first, lemma_within_between,
    same_text, split_around, split_once, within,
};
use vstd::prelude::*;
use vstd::string::*;

verus! {

/// An account, by the name it is configured under.
#[derive(Debug, Clone, PartialEq, Eq)]
pub struct AccountConfig {
    pub name: String,
    pub provider: String,
}

/// How accounts are sampled.
#[derive(Debug, Clone, Copy, PartialEq, Eq, Structural)]
pub struct SamplingConfig {
    pub default_interval: MonotonicDuration,
    pub reset_edge_lead: MonotonicDuration,
    pub command_budget: MonotonicDuration,
    /// How long a request to a provider may take.
    pub request_timeout: MonotonicDuration,
    /// How long the ledger is waited for.
    pub busy_timeout: MonotonicDuration,
    /// How many requests may be under way at once.
    pub max_concurrent_requests: usize,
}

/// What commands read of the configuration.
#[derive(Debug, PartialEq, Eq)]
pub struct Config {
    pub sampling: SamplingConfig,
    pub meter_freshness: MonotonicDuration,
    pub accounts: Vec<AccountConfig>,
}

/// How a connection to the ledger is opened.
#[derive(Debug, Clone, Copy, PartialEq, Eq, Structural)]
pub struct PragmaPolicy {
    pub busy_timeout: MonotonicDuration,
}

/// How sampling opens the ledger: it waits as long as it is configured to wait for the
/// ledger, whatever the patience with providers.
pub fn sample_busy_policy(config: &Config) -> (policy: PragmaPolicy)
    ensures
        policy.busy_timeout == config.sampling.busy_timeout,
{
    PragmaPolicy { busy_timeout: config.sampling.busy_timeout }
}

/// An error with how long a locked ledger was waited for; any other error as it is.
pub open spec fn with_wait(error: ErrorView, busy_timeout: MonotonicDuration) -> ErrorView {
    match error {
        ErrorView::Store(message) => if within(message, "database is locked"@) {
            ErrorView::Store(
                message + " (waited up to "@ + decimal((busy_timeout.nanos / 1_000_000) as nat)
                    + "ms)"@,
            )
        } else {
            error
        },
        _ => error,
    }
}

/// Names how long a locked ledger was waited for, so that a refusal after the wait is
/// not taken for one at once. Every other error stays as it is.
pub fn name_busy_wait(error: Error, busy_timeout: MonotonicDuration) -> (named: Error)
    ensures
        named@ == with_wait(error@, busy_timeout),
        !(error is Store) ==> named == error,
{
    match error {
        Error::Store(message) => {
            if !contains_text(message.as_str(), "database is locked") {
                return Error::Store(message);
            }
            let mut named: String = message;
            named.append(" (waited up to ");
            named.append(decimal_text((busy_timeout.as_nanos() / 1_000_000) as u128).as_str());
            named.append("ms)");
            Error::Store(named)
        },
        other => other,
    }
}

/// Whether some account goes by a name.
pub open spec fn is_configured(accounts: Seq<AccountConfig>, name: Seq<char>) -> bool {
    exists|i: int| 0 <= i < accounts.len() && (#[trigger] accounts[i]).name@ == name
}

/// Checks that the account a command was given is a configured one.
pub fn check_account(command: &str, account: Option<&str>, accounts: &Vec<AccountConfig>) -> (verdict:
    Result<(), Error>)
    ensures
        match verdict {
            Ok(()) => account matches Some(name) ==> is_configured(accounts@, name@),
            Err(error) => account matches Some(name) && !is_configured(accounts@, name@) && error@
                == ErrorView::Usage(
                "unknown account '"@ + name@ + "': "@ + command@
                    + " --account names a configured account"@,
            ),
        },
{
    let name: &str = match account {
        Some(name) => name,
        None => {
            return Ok(());
        },
    };
    let mut i: usize = 0;
    while i < accounts.len()
        invariant
            i <= accounts@.len(),
            account == Some(name),
            forall|k: int| 0 <= k < i ==> (#[trigger] accounts@[k]).name@ != name@,
        decreases accounts@.len() - i,
    {
        if same_text(accounts[i].name.as_str(), name) {
            assert(accounts@[i as int].name@ == name@);
            return Ok(());
        }
        i = i + 1;
    }
    let mut message: String = "unknown account '".to_owned();
    message.append(name);
    message.append("': ");
    message.append(command);
    message.append(" --account names a configured account");
    Err(Error::Usage(message))
}

/// The positions of the first `n` accounts that a command is about: all, or those of the
/// name it was given.
pub open spec fn selected(
    accounts: Seq<AccountConfig>,
    account: Option<Seq<char>>,
    n: int,
) -> Seq<usize>
    decreases n,
{
    if n <= 0 {
        Seq::empty()
    } else {
        let before = selected(accounts, account, n - 1);
        if account is None || accounts[n - 1].name@ == account->0 {
            before.push((n - 1) as usize)
        } else {
            before
        }
    }
}

/// The positions of the accounts that a command is about.
pub fn target_accounts(accounts: &Vec<AccountConfig>, account: Option<&str>) -> (targets: Vec<
    usize,
>)
    ensures
        targets@ == selected(
            accounts@,
            match account {
                Some(name) => Some(name@),
                None => None,
            },
            accounts@.len() as int,
        ),
{
    let ghost wanted: Option<Seq<char>> = match account {
        Some(name) => Some(name@),
        None => None,
    };
    let mut targets: Vec<usize> = Vec::new();
    let mut i: usize = 0;
    while i < accounts.len()
        invariant
            i <= accounts@.len(),
            wanted == (match account {
                Some(name) => Some(name@),
                None => None,
            }),
            targets@ == selected(accounts@, wanted, i as int),
        decreases accounts@.len() - i,
    {
        let is_target: bool = match account {
            Some(name) => same_text(accounts[i].name.as_str(), name),
            None => true,
        };
        if is_target {
            targets.push(i);
        }
        i = i + 1;
    }
    targets
}

/// A command without an account is about every configured account, each once and in
/// order.
pub proof fn law_no_account_means_all(accounts: Seq<AccountConfig>, n: int)
    requires
        0 <= n <= accounts.len(),
        accounts.len() <= usize::MAX,
    ensures
        selected(accounts, None, n).len() == n,
        forall|i: int| 0 <= i < n ==> #[trigger] selected(accounts, None, n)[i] == i,
    decreases n,
{
    if n > 0 {
        law_no_account_means_all(accounts, n - 1);
    }
}

/// An identifier of a source: where it comes from, and what it is called there.
#[derive(Debug, Clone, PartialEq, Eq)]
pub struct SourcedId {
    pub source: String,
    pub native: String,
}

/// The source and the name in `SOURCE:NATIVE`; without a colon the source is the command
/// line itself.
pub open spec fn sourced(text: Seq<char>) -> (Seq<char>, Seq<char>) {
    match split_around(text, ':') {
        Some(pieces) => pieces,
        None => ("cli"@, text),
    }
}

/// Reads an identifier in the form `SOURCE:NATIVE`, or without a source.
pub fn sourced_id(text: &str) -> (id: SourcedId)
    ensures
        (id.source@, id.native@) == sourced(text@),
{
    match split_once(text, ':') {
        Some((source, native)) => SourcedId { source, native },
        None => SourcedId { source: "cli".to_owned(), native: text.to_owned() },
    }
}

/// The task that text in the form `SOURCE:NATIVE` names; neither may be empty.
pub open spec fn task_named(text: Seq<char>) -> Result<(Seq<char>, Seq<char>), ErrorView> {
    let refused = ErrorView::Usage("TASK-ID must be SOURCE:NATIVE, got "@ + text);
    match split_around(text, ':') {
        Some((source, native)) => if source.len() == 0 || native.len() == 0 {
            Err(refused)
        } else {
            Ok((source, native))
        },
        None => Err(refused),
    }
}

/// Reads the name of a task.
pub fn parse_task_id(value: &str) -> (id: Result<SourcedId, Error>)
    ensures
        match id {
            Ok(i) => task_named(value@) == Ok::<(Seq<char>, Seq<char>), ErrorView>(
                (i.source@, i.native@),
            ),
            Err(e) => task_named(value@) == Err::<(Seq<char>, Seq<char>), ErrorView>(e@),
        },
{
    match split_once(value, ':') {
        Some((source, native)) => {
            if source.as_str().unicode_len() > 0 && native.as_str().unicode_len() > 0 {
                return Ok(SourcedId { source, native });
            }
        },
        None => {},
    }
    let mut message: String = "TASK-ID must be SOURCE:NATIVE, got ".to_owned();
    message.append(value);
    Err(Error::Usage(message))
}

/// Why a run of sampling began.
#[derive(Debug, Clone, Copy, PartialEq, Eq, Structural)]
pub enum Trigger {
    Hook,
    Timer,
    Manual,
    Live,
}

/// Why a run of sampling began: a session asked for it, or a timer, or somebody.
pub fn sample_trigger(session: bool, due: bool) -> (trigger: Trigger)
    ensures
        trigger == if session {
            Trigger::Hook
        } else if due {
            Trigger::Timer
        } else {
            Trigger::Manual
        },
{
    if session {
        Trigger::Hook
    } else if due {
        Trigger::Timer
    } else {
        Trigger::Manual
    }
}

/// Whether accounts are sampled before they are due.
pub fn is_forced(due: bool, if_due: bool) -> (forced: bool)
    ensures
        forced == (!due && !if_due),
{
    !due && !if_due
}

/// The policy an account is sampled under, as it is recorded with each attempt.
#[derive(Debug, Clone, PartialEq, Eq)]
pub struct ResolvedSamplingPolicy {
    pub ordinary_cadence: MonotonicDuration,
    pub freshness_horizon: MonotonicDuration,
    pub reset_edge_policy: String,
    pub retry_backoff_policy: String,
    pub command_budget: MonotonicDuration,
    pub policy_algorithm_version: String,
}

/// The policy an account is sampled under. Accounts of one provider alone are supported.
pub fn sampling_policy(config: &Config, account: &AccountConfig) -> (policy: Result<
    ResolvedSamplingPolicy,
    Error,
>)
    ensures
        match policy {
            Ok(p) => {
                &&& account.provider@ == "anthropic"@
                &&& p.ordinary_cadence == config.sampling.default_interval
                &&& p.freshness_horizon == config.meter_freshness
                &&& p.reset_edge_policy@ == "lead-"@ + decimal(
                    (config.sampling.reset_edge_lead.nanos / 1_000_000_000) as nat,
                ) + "s"@
                &&& p.retry_backoff_policy@ == "none"@
                &&& p.command_budget == config.sampling.command_budget
                &&& p.policy_algorithm_version@ == "v1"@
            },
            Err(error) => account.provider@ != "anthropic"@ && error@ == ErrorView::Usage(
                "unsupported provider '"@ + account.provider@ + "' for account '"@
                    + account.name@ + "' (supported: anthropic)"@,
            ),
        },
{
    if !same_text(account.provider.as_str(), "anthropic") {
        let mut message: String = "unsupported provider '".to_owned();
        message.append(account.provider.as_str());
        message.append("' for account '");
        message.append(account.name.as_str());
        message.append("' (supported: anthropic)");
        return Err(Error::Usage(message));
    }
    let mut reset_edge_policy: String = "lead-".to_owned();
    reset_edge_policy.append(
        decimal_text((config.sampling.reset_edge_lead.as_nanos() / 1_000_000_000) as u128).as_str(),
    );
    reset_edge_policy.append("s");
    Ok(
        ResolvedSamplingPolicy {
            ordinary_cadence: config.sampling.default_interval,
            freshness_horizon: config.meter_freshness,
            reset_edge_policy,
            retry_backoff_policy: "none".to_owned(),
            command_budget: config.sampling.command_budget,
            policy_algorithm_version: "v1".to_owned(),
        },
    )
}

/// The position of the first projected account, from a position on, of a name; nothing
/// where there is none.
pub open spec fn projected(names: Seq<String>, name: Seq<char>, from: int) -> Option<usize>
    decreases names.len() - from,
{
    if from >= names.len() {
        None
    } else if names[from]@ == name {
        Some(from as usize)
    } else {
        projected(names, name, from + 1)
    }
}

fn find_name(names: &Vec<String>, name: &str) -> (at: Option<usize>)
    ensures
        at == projected(names@, name@, 0),
{
    let mut i: usize = 0;
    while i < names.len()
        invariant
            i <= names@.len(),
            projected(names@, name@, 0) == projected(names@, name@, i as int),
        decreases names@.len() - i,
    {
        if same_text(names[i].as_str(), name) {
            return Some(i);
        }
        i = i + 1;
    }
    None
}

/// Pairs each account that a report is about with what the projection says of it. An
/// account the projection says nothing of has no reading, rather than a made-up one.
pub fn projection_accounts(
    accounts: &Vec<AccountConfig>,
    account: Option<&str>,
    projected_names: &Vec<String>,
) -> (pairs: Vec<(usize, Option<usize>)>)
    ensures
        ({
            let targets = selected(
                accounts@,
                match account {
                    Some(name) => Some(name@),
                    None => None,
                },
                accounts@.len() as int,
            );
            &&& pairs@.len() == targets.len()
            &&& forall|i: int|
                0 <= i < targets.len() ==> (#[trigger] pairs@[i]).0 == targets[i] && pairs@[i].1
                    == projected(projected_names@, accounts@[targets[i] as int].name@, 0)
        }),
{
    let total: usize = accounts.len();
    let targets: Vec<usize> = target_accounts(accounts, account);
    let ghost wanted: Option<Seq<char>> = match account {
        Some(name) => Some(name@),
        None => None,
    };
    proof {
        lemma_selected_in_range(accounts@, wanted, total as int);
    }
    let mut pairs: Vec<(usize, Option<usize>)> = Vec::new();
    let mut i: usize = 0;
    while i < targets.len()
        invariant
            i <= targets@.len(),
            forall|k: int| 0 <= k < targets@.len() ==> #[trigger] targets@[k] < accounts@.len(),
            pairs@.len() == i,
            forall|k: int|
                0 <= k < i ==> (#[trigger] pairs@[k]).0 == targets@[k] && pairs@[k].1 == projected(
                    projected_names@,
                    accounts@[targets@[k] as int].name@,
                    0,
                ),
        decreases targets@.len() - i,
    {
        let at: usize = targets[i];
        pairs.push((at, find_name(projected_names, accounts[at].name.as_str())));
        i = i + 1;
    }
    pairs
}

proof fn lemma_selected_in_range(
    accounts: Seq<AccountConfig>,
    account: Option<Seq<char>>,
    n: int,
)
    requires
        0 <= n <= accounts.len(),
        accounts.len() <= usize::MAX,
    ensures
        forall|i: int|
            0 <= i < selected(accounts, account, n).len() ==> #[trigger] selected(
                accounts,
                account,
                n,
            )[i] < n,
    decreases n,
{
    if n > 0 {
        lemma_selected_in_range(accounts, account, n - 1);
        let before = selected(accounts, account, n - 1);
        let after = selected(accounts, account, n);
        assert forall|i: int| 0 <= i < after.len() implies #[trigger] after[i] < n by {
            if i < before.len() {
                assert(after[i] == before[i]);
            }
        }
    }
}

/// The error where accounts were sampled and what was published cannot be read: an empty
/// answer would look as though nothing were configured.
pub fn unreadable_projection(reason: &str) -> (error: Error)
    ensures
        error@ == ErrorView::Store(
            "sampled accounts but the published projection could not be read: "@ + reason@,
        ),
{
    let mut message: String =
        "sampled accounts but the published projection could not be read: ".to_owned();
    message.append(reason);
    Error::Store(message)
}

/// A moment brought into the range of moments.
pub open spec fn clamped(nanos: int) -> int {
    if nanos < i64::MIN {
        i64::MIN as int
    } else if nanos > i64::MAX {
        i64::MAX as int
    } else {
        nanos
    }
}

/// The moment from which coverage is reported: a window always reaches back.
pub fn coverage_since(now: UtcTimestamp, since: MonotonicDuration) -> (from: UtcTimestamp)
    ensures
        from.nanos == clamped(now.nanos - clamped(since.nanos as int)),
        from.nanos <= now.nanos,
{
    reaching_back(now, since)
}

fn reaching_back(now: UtcTimestamp, duration: MonotonicDuration) -> (from: UtcTimestamp)
    ensures
        from.nanos == clamped(now.nanos - clamped(duration.nanos as int)),
        from.nanos <= now.nanos,
{
    let back: i128 = if duration.as_nanos() > 0x7FFF_FFFF_FFFF_FFFF {
        0x7FFF_FFFF_FFFF_FFFF
    } else {
        duration.as_nanos() as i128
    };
    saturated(now.unix_nanos() as i128 - back)
}

fn saturated(nanos: i128) -> (at: UtcTimestamp)
    ensures
        at.nanos == clamped(nanos as int),
{
    if nanos < i64::MIN as i128 {
        UtcTimestamp::from_unix_nanos(i64::MIN)
    } else if nanos > i64::MAX as i128 {
        UtcTimestamp::from_unix_nanos(i64::MAX)
    } else {
        UtcTimestamp::from_unix_nanos(nanos as i64)
    }
}

/// The moment from which attribution is recent.
pub fn attribution_since(now: UtcTimestamp, window: MonotonicDuration) -> (from: UtcTimestamp)
    ensures
        from.nanos == clamped(now.nanos - clamped(window.nanos as int)),
        from.nanos <= now.nanos,
{
    reaching_back(now, window)
}

/// A named account is meant wherever it is configured under that name, and no other is;
/// without a name all are. They keep their order.
pub proof fn law_only_named_accounts_are_meant(
    accounts: Seq<AccountConfig>,
    account: Option<Seq<char>>,
    n: int,
)
    requires
        0 <= n < accounts.len() <= usize::MAX,
    ensures
        selected(accounts, account, 0).len() == 0,
        selected(accounts, account, n + 1) == if account matches Some(name) && accounts[n].name@
            != name {
            selected(accounts, account, n)
        } else {
            selected(accounts, account, n).push(n as usize)
        },
{
}

/// What is named with its source is known by both, split at the first colon; what is named
/// without one comes from the command line.
pub proof fn law_names_carry_their_source(source: Seq<char>, native: Seq<char>)
    requires
        !source.contains(':'),
    ensures
        sourced(source + seq![':'] + native) == (source, native),
        sourced(source) == ("cli"@, source),
        source.len() > 0 && native.len() > 0 ==> task_named(source + seq![':'] + native) == Ok::<
            (Seq<char>, Seq<char>),
            ErrorView,
        >((source, native)),
        source.len() == 0 || native.len() == 0 ==> task_named(source + seq![':'] + native) is Err,
        task_named(source) is Err,
{
    let s = source + seq![':'] + native;
    law_text_is_split_at_the_first(source, ':');
    law_text_is_split_at_the_first(s, ':');
    assert(s[source.len() as int] == ':');
    let (left, right) = split_around(s, ':')->0;
    assert(left.len() == source.len()) by {
        if left.len() < source.len() {
            assert((left + seq![':'] + right)[left.len() as int] == ':');
            assert(source[left.len() as int] == ':');
        }
        if left.len() > source.len() {
            assert(left[source.len() as int] == (left + seq![':'] + right)[source.len() as int]);
            assert(left.contains(':'));
        }
    }
    assert(left =~= s.take(source.len() as int));
    assert(left =~= source);
    assert(right =~= s.skip(source.len() as int + 1));
    assert(right =~= native);
}

/// An account is shown from the first projection of its name, and from none where there is
/// no such projection.
pub proof fn law_the_first_projection_of_a_name_is_shown(
    names: Seq<String>,
    name: Seq<char>,
    from: int,
)
    requires
        0 <= from <= names.len() <= usize::MAX,
    ensures
        match projected(names, name, from) {
            Some(at) => from <= at < names.len() && names[at as int]@ == name && forall|i: int|
                from <= i < at ==> (#[trigger] names[i])@ != name,
            None => forall|i: int| from <= i < names.len() ==> (#[trigger] names[i])@ != name,
        },
    decreases names.len() - from,
{
    if from < names.len() && names[from]@ != name {
        law_the_first_projection_of_a_name_is_shown(names, name, from + 1);
    }
}

/// A wait is named where the store says that it is locked, in whole milliseconds behind
/// what it says; every other error stays as it is.
pub proof fn law_waits_are_named_for_locks(
    before: Seq<char>,
    after: Seq<char>,
    error: ErrorView,
    busy_timeout: MonotonicDuration,
)
    ensures
        ({
            let message = before + "database is locked"@ + after;
            with_wait(ErrorView::Store(message), busy_timeout) == ErrorView::Store(
                message + " (waited up to "@ + decimal(
                    (busy_timeout.nanos / 1_000_000) as nat,
                ) + "ms)"@,
            )
        }),
        error !is Store ==> with_wait(error, busy_timeout) == error,
        error matches ErrorView::Store(message) && message.len() < 18 ==> with_wait(
            error,
            busy_timeout,
        ) == error,
{
    lemma_within_between(before, "database is locked"@, after);
    reveal_strlit("database is locked");
    assert("database is locked"@.len() == 18);
}

/// Reaching back stops at the earliest moment there is.
pub proof fn law_moments_are_brought_into_range(nanos: int)
    ensures
        i64::MIN <= clamped(nanos) <= i64::MAX,
        i64::MIN <= nanos <= i64::MAX ==> clamped(nanos) == nanos,
        nanos < i64::MIN ==> clamped(nanos) == i64::MIN,
        nanos > i64::MAX ==> clamped(nanos) == i64::MAX,
{
}

/// An account is known by its name once it is configured, and by no name before one is.
pub proof fn law_configured_accounts_are_known(
    accounts: Seq<AccountConfig>,
    more: AccountConfig,
    name: Seq<char>,
)
    ensures
        !is_configured(Seq::empty(), name),
        is_configured(accounts.push(more), more.name@),
        more.name@ != name ==> is_configured(accounts.push(more), name) == is_configured(
            accounts,
            name,
        ),
{
    let longer = accounts.push(more);
    assert(longer[accounts.len() as int] == more);
    if is_configured(accounts, name) {
        let i = choose|i: int| 0 <= i < accounts.len() && (#[trigger] accounts[i]).name@ == name;
        assert(longer[i].name@ == name);
    }
    if is_configured(longer, name) && more.name@ != name {
        let i = choose|i: int| 0 <= i < longer.len() && (#[trigger] longer[i]).name@ == name;
        assert(accounts[i].name@ == name);
    }
}

} // verus!
