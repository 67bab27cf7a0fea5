//! The hooks for tests: the stages at which they stop, and the lines that report what
//! they did. They belong to no shipping command.

use crate::cli::archives::push_number;
use crate::cli::quoting::{quote, quote_option, quoted, quoted_option};
use crate::error::{Error, ErrorView};
use crate::sets::texts;
use crate::text::{
    behind, decimal, decimal_text, law_behind_a_prefix_stands_the_rest, law_numbers_read_back,
    law_signed_numbers_read_back, parse_i64, parse_u64, same_text, signed_decimal,
    signed_decimal_text, signed_value, strip_prefix, unsigned_value,
};
use vstd::prelude::*;
use vstd::string::*;

verus! {

/// The first of some arguments.
pub open spec fn first_of(args: Seq<Seq<char>>) -> Option<Seq<char>> {
    if args.len() > 0 {
        Some(args[0])
    } else {
        None
    }
}

/// The first of some arguments, quoted.
pub(crate) fn quote_first(rest: &Vec<String>) -> (out: String)
    ensures
        out@ == quoted_option(first_of(texts(rest@))),
{
    if rest.len() > 0 {
        quote_option(Some(&rest[0]))
    } else {
        quote_option(None)
    }
}

pub(crate) fn first_is(rest: &Vec<String>, word: &str) -> (is: bool)
    ensures
        is == (first_of(texts(rest@)) == Some(word@)),
{
    rest.len() > 0 && same_text(rest[0].as_str(), word)
}

/// Where the write path of an attempt is stopped, or what is done with what is left.
#[derive(Debug, Clone, Copy, PartialEq, Eq, Structural)]
pub enum CrashHookStage {
    BeforeStartCommit,
    AfterStartCommitBeforeRequest,
    AfterParseBeforeSpoolWrite,
    AfterSpoolWriteBeforeSqliteCommit,
    AfterSqliteCommitBeforePendingDeletion,
    Complete,
    ReadBack,
    CommitObservation,
    SpoolPending,
    SpoolOrphan { attempt_id: i64 },
    Drain,
    Freshness,
    Sample { attempts: u32 },
    SampleCrash,
}

/// The stages that need no more than their name, each under all of its names.
pub open spec fn plain_stage(word: Seq<char>) -> Option<CrashHookStage> {
    if word == "before-start-commit"@ || word == "point-1"@ || word == "1"@ {
        Some(CrashHookStage::BeforeStartCommit)
    } else if word == "after-start-commit-before-request"@ || word == "point-2"@ || word == "2"@
        || word == "start"@ {
        Some(CrashHookStage::AfterStartCommitBeforeRequest)
    } else if word == "after-parse-before-spool-write"@ || word == "point-3"@ || word == "3"@ {
        Some(CrashHookStage::AfterParseBeforeSpoolWrite)
    } else if word == "after-spool-write-before-sqlite-commit"@ || word == "point-4"@ || word
        == "4"@ {
        Some(CrashHookStage::AfterSpoolWriteBeforeSqliteCommit)
    } else if word == "after-sqlite-commit-before-pending-deletion"@ || word == "point-5"@ || word
        == "5"@ {
        Some(CrashHookStage::AfterSqliteCommitBeforePendingDeletion)
    } else if word == "complete"@ {
        Some(CrashHookStage::Complete)
    } else if word == "read-back"@ {
        Some(CrashHookStage::ReadBack)
    } else if word == "commit-observation"@ {
        Some(CrashHookStage::CommitObservation)
    } else if word == "spool-pending"@ {
        Some(CrashHookStage::SpoolPending)
    } else if word == "drain"@ {
        Some(CrashHookStage::Drain)
    } else if word == "freshness"@ {
        Some(CrashHookStage::Freshness)
    } else if word == "sample-crash"@ {
        Some(CrashHookStage::SampleCrash)
    } else {
        None
    }
}

fn is_one_of(word: &str, a: &str, b: &str, c: &str) -> (is: bool)
    ensures
        is == (word@ == a@ || word@ == b@ || word@ == c@),
{
    same_text(word, a) || same_text(word, b) || same_text(word, c)
}

fn stage_named(word: &str) -> (stage: Option<CrashHookStage>)
    ensures
        stage == plain_stage(word@),
{
    if is_one_of(word, "before-start-commit", "point-1", "1") {
        Some(CrashHookStage::BeforeStartCommit)
    } else if is_one_of(word, "after-start-commit-before-request", "point-2", "2") || same_text(
        word,
        "start",
    ) {
        Some(CrashHookStage::AfterStartCommitBeforeRequest)
    } else if is_one_of(word, "after-parse-before-spool-write", "point-3", "3") {
        Some(CrashHookStage::AfterParseBeforeSpoolWrite)
    } else if is_one_of(word, "after-spool-write-before-sqlite-commit", "point-4", "4") {
        Some(CrashHookStage::AfterSpoolWriteBeforeSqliteCommit)
    } else if is_one_of(word, "after-sqlite-commit-before-pending-deletion", "point-5", "5") {
        Some(CrashHookStage::AfterSqliteCommitBeforePendingDeletion)
    } else if same_text(word, "complete") {
        Some(CrashHookStage::Complete)
    } else if same_text(word, "read-back") {
        Some(CrashHookStage::ReadBack)
    } else if same_text(word, "commit-observation") {
        Some(CrashHookStage::CommitObservation)
    } else if same_text(word, "spool-pending") {
        Some(CrashHookStage::SpoolPending)
    } else if same_text(word, "drain") {
        Some(CrashHookStage::Drain)
    } else if same_text(word, "freshness") {
        Some(CrashHookStage::Freshness)
    } else if same_text(word, "sample-crash") {
        Some(CrashHookStage::SampleCrash)
    } else {
        None
    }
}

/// A positive number of attempts: a stage that samples nothing would report about work
/// it did not do.
pub open spec fn attempts_asked(value: Seq<char>) -> Result<u32, ErrorView> {
    match unsigned_value(value) {
        Some(n) => if n > u32::MAX {
            Err(
                ErrorView::Usage(
                    "--attempts: "@ + quoted(value) + " is not a positive integer"@,
                ),
            )
        } else if n == 0 {
            Err(ErrorView::Usage("--attempts: must be at least 1"@))
        } else {
            Ok(n as u32)
        },
        None => Err(
            ErrorView::Usage("--attempts: "@ + quoted(value) + " is not a positive integer"@),
        ),
    }
}

fn parse_attempts(value: &str) -> (attempts: Result<u32, Error>)
    ensures
        match attempts {
            Ok(n) => attempts_asked(value@) == Ok::<u32, ErrorView>(n),
            Err(e) => attempts_asked(value@) == Err::<u32, ErrorView>(e@),
        },
{
    match parse_u64(value) {
        Some(n) => {
            if n == 0 {
                return Err(Error::Usage("--attempts: must be at least 1".to_owned()));
            }
            if n <= 0xFFFF_FFFF {
                return Ok(n as u32);
            }
        },
        None => {},
    }
    let mut message: String = "--attempts: ".to_owned();
    message.append(quote(value).as_str());
    message.append(" is not a positive integer");
    Err(Error::Usage(message))
}

/// How many attempts the arguments from a position on ask for.
pub open spec fn attempts_from(args: Seq<Seq<char>>, i: int, sofar: u32) -> Result<u32, ErrorView>
    decreases args.len() - i,
{
    if i >= args.len() {
        Ok(sofar)
    } else {
        match behind(args[i], "--attempts="@) {
            Some(value) => match attempts_asked(value) {
                Ok(n) => attempts_from(args, i + 1, n),
                Err(error) => Err(error),
            },
            None => if args[i] != "--attempts"@ {
                Err(
                    ErrorView::Usage(
                        "unknown __attempt-crash-hook sample argument: "@ + args[i],
                    ),
                )
            } else if i + 1 >= args.len() {
                Err(ErrorView::Usage("--attempts requires a count"@))
            } else {
                match attempts_asked(args[i + 1]) {
                    Ok(n) => attempts_from(args, i + 2, n),
                    Err(error) => Err(error),
                }
            },
        }
    }
}

/// The refusal of a stage nobody knows.
pub open spec fn unknown_stage(first: Option<Seq<char>>) -> ErrorView {
    ErrorView::Usage(
        "__attempt-crash-hook requires a stage (before-start-commit | after-start-commit-before-request | after-parse-before-spool-write | after-spool-write-before-sqlite-commit | after-sqlite-commit-before-pending-deletion | complete | read-back | commit-observation | spool-pending | spool-orphan ID | drain | freshness | sample | sample-crash), got "@
            + quoted_option(first),
    )
}

/// The stage that some arguments ask for.
pub open spec fn stage_asked(args: Seq<Seq<char>>) -> Result<CrashHookStage, ErrorView> {
    if args.len() == 0 {
        Err(unknown_stage(None))
    } else if plain_stage(args[0]) is Some {
        Ok(plain_stage(args[0])->0)
    } else if args[0] == "spool-orphan"@ {
        if args.len() < 2 {
            Err(ErrorView::Usage("spool-orphan requires the orphan attempt id"@))
        } else {
            match signed_value(args[1]) {
                Some(id) => if i64::MIN <= id <= i64::MAX {
                    Ok(CrashHookStage::SpoolOrphan { attempt_id: id as i64 })
                } else {
                    Err(
                        ErrorView::Usage(
                            "orphan attempt id must be an integer, got "@ + quoted(args[1]),
                        ),
                    )
                },
                None => Err(
                    ErrorView::Usage(
                        "orphan attempt id must be an integer, got "@ + quoted(args[1]),
                    ),
                ),
            }
        }
    } else if args[0] == "sample"@ {
        match attempts_from(args, 1, 1) {
            Ok(attempts) => Ok(CrashHookStage::Sample { attempts }),
            Err(error) => Err(error),
        }
    } else {
        Err(unknown_stage(Some(args[0])))
    }
}

/// Reads the stage at which the write path is stopped.
pub fn attempt_crash_stage(rest: &Vec<String>) -> (stage: Result<CrashHookStage, Error>)
    ensures
        match stage {
            Ok(s) => stage_asked(texts(rest@)) == Ok::<CrashHookStage, ErrorView>(s),
            Err(e) => stage_asked(texts(rest@)) == Err::<CrashHookStage, ErrorView>(e@),
        },
{
    let total: usize = rest.len();
    let ghost args = texts(rest@);
    if total > 0 {
        let word: &str = rest[0].as_str();
        assert(args[0] == word@);
        match stage_named(word) {
            Some(stage) => {
                return Ok(stage);
            },
            None => {},
        }
        if same_text(word, "spool-orphan") {
            if total < 2 {
                return Err(
                    Error::Usage("spool-orphan requires the orphan attempt id".to_owned()),
                );
            }
            assert(args[1] == rest@[1]@);
            return match parse_i64(rest[1].as_str()) {
                Some(attempt_id) => Ok(CrashHookStage::SpoolOrphan { attempt_id }),
                None => {
                    let mut message: String =
                        "orphan attempt id must be an integer, got ".to_owned();
                    message.append(quote(rest[1].as_str()).as_str());
                    Err(Error::Usage(message))
                },
            };
        }
        if same_text(word, "sample") {
            let mut attempts: u32 = 1;
            let mut i: usize = 1;
            while i < total
                invariant
                    0 < total,
                    total == rest@.len(),
                    args == texts(rest@),
                    plain_stage(args[0]) is None,
                    args[0] == "sample"@,
                    args[0] != "spool-orphan"@,
                    attempts_from(args, 1, 1) == attempts_from(args, i as int, attempts),
                decreases total - i,
            {
                let arg: &str = rest[i].as_str();
                assert(args[i as int] == arg@);
                match strip_prefix(arg, "--attempts=") {
                    Some(value) => match parse_attempts(value.as_str()) {
                        Ok(n) => {
                            attempts = n;
                            i = i + 1;
                        },
                        Err(error) => {
                            return Err(error);
                        },
                    },
                    None => {
                        if !same_text(arg, "--attempts") {
                            let mut message: String =
                                "unknown __attempt-crash-hook sample argument: ".to_owned();
                            message.append(arg);
                            return Err(Error::Usage(message));
                        }
                        if total - i < 2 {
                            return Err(Error::Usage("--attempts requires a count".to_owned()));
                        }
                        assert(args[i + 1] == rest@[i + 1]@);
                        match parse_attempts(rest[i + 1].as_str()) {
                            Ok(n) => {
                                attempts = n;
                                i = i + 2;
                            },
                            Err(error) => {
                                return Err(error);
                            },
                        }
                    },
                }
            }
            return Ok(CrashHookStage::Sample { attempts });
        }
    }
    let mut message: String =
        "__attempt-crash-hook requires a stage (before-start-commit | after-start-commit-before-request | after-parse-before-spool-write | after-spool-write-before-sqlite-commit | after-sqlite-commit-before-pending-deletion | complete | read-back | commit-observation | spool-pending | spool-orphan ID | drain | freshness | sample | sample-crash), got ".to_owned();
    message.append(quote_first(rest).as_str());
    Err(Error::Usage(message))
}

/// Whether a stage works on the ledger itself: those that seed what a drill replays and
/// those that sample. The others keep a database of their own.
pub open spec fn on_ledger(stage: CrashHookStage) -> bool {
    stage is CommitObservation || stage is SpoolPending || stage is SpoolOrphan || stage is Sample
        || stage is SampleCrash
}

/// Whether a stage works on the ledger itself.
pub fn is_ledger_stage(stage: CrashHookStage) -> (ledger: bool)
    ensures
        ledger == on_ledger(stage),
{
    match stage {
        CrashHookStage::CommitObservation => true,
        CrashHookStage::SpoolPending => true,
        CrashHookStage::SpoolOrphan { .. } => true,
        CrashHookStage::Sample { .. } => true,
        CrashHookStage::SampleCrash => true,
        _ => false,
    }
}

/// One sampled attempt.
#[derive(Debug, Clone, Copy, PartialEq, Eq, Structural)]
pub struct SampledAttempt {
    pub attempt_id: i64,
    pub committed: bool,
    pub commit_wait_nanos: u64,
}

/// What a stage of the write path came to.
#[derive(Debug, PartialEq, Eq)]
pub enum CrashHookOutcome {
    Completed { attempt_row_id: i64 },
    Counts { starts: u64, results: u64, observations: u64, pending: u64 },
    DrainReport { applied: u64, already_applied: u64, quarantined: u64 },
    FreshnessOutcome { kind: String, reason: Option<String> },
    Sampled {
        drain_applied: u64,
        drain_already_applied: u64,
        drain_quarantined: u64,
        attempts: Vec<SampledAttempt>,
    },
    Seeded { label: String, attempt_id: i64 },
}

/// How many of the first `n` attempts were committed.
pub open spec fn committed_count(attempts: Seq<SampledAttempt>, n: int) -> nat
    decreases n,
{
    if n <= 0 {
        0
    } else {
        committed_count(attempts, n - 1) + if attempts[n - 1].committed {
            1nat
        } else {
            0nat
        }
    }
}

/// The line of one attempt.
pub open spec fn attempt_text(attempt: SampledAttempt) -> Seq<char> {
    if attempt.committed {
        "  attempt "@ + signed_decimal(attempt.attempt_id as int) + " committed busy_wait_ns="@
            + decimal(attempt.commit_wait_nanos as nat)
    } else {
        "  attempt "@ + signed_decimal(attempt.attempt_id as int)
            + " spooled: the writer slot stayed held; the record remains durable"@
    }
}

/// The lines that report what a stage came to.
pub open spec fn crash_hook_lines(outcome: CrashHookOutcome) -> Seq<Seq<char>> {
    match outcome {
        CrashHookOutcome::Completed { attempt_row_id } => seq![
            "attempt "@ + signed_decimal(attempt_row_id as int) + " start and result written"@,
        ],
        CrashHookOutcome::Counts { starts, results, observations, pending } => seq![
            "starts="@ + decimal(starts as nat) + " results="@ + decimal(results as nat)
                + " observations="@ + decimal(observations as nat) + " pending="@ + decimal(
                pending as nat,
            ),
        ],
        CrashHookOutcome::DrainReport { applied, already_applied, quarantined } => seq![
            "drain: applied="@ + decimal(applied as nat) + " already_applied="@ + decimal(
                already_applied as nat,
            ) + " quarantined="@ + decimal(quarantined as nat),
        ],
        CrashHookOutcome::FreshnessOutcome { kind, reason } => match reason {
            Some(r) => seq!["freshness: "@ + kind@ + " reason="@ + r@],
            None => seq!["freshness: "@ + kind@],
        },
        CrashHookOutcome::Sampled {
            drain_applied,
            drain_already_applied,
            drain_quarantined,
            attempts,
        } => {
            let all = attempts@.len();
            let committed = committed_count(attempts@, all as int);
            seq![
                "drain applied="@ + decimal(drain_applied as nat) + " already-applied="@
                    + decimal(drain_already_applied as nat) + " quarantined="@ + decimal(
                    drain_quarantined as nat,
                ),
                "sample attempts="@ + decimal(all) + " committed="@ + decimal(committed)
                    + " spooled="@ + decimal((all - committed) as nat),
            ] + attempts@.map_values(|attempt: SampledAttempt| attempt_text(attempt))
        },
        CrashHookOutcome::Seeded { label, attempt_id } => seq![
            label@ + "="@ + signed_decimal(attempt_id as int),
        ],
    }
}

fn one_line(line: String) -> (lines: Vec<String>)
    ensures
        texts(lines@) == seq![line@],
{
    let mut lines: Vec<String> = Vec::new();
    lines.push(line);
    assert(texts(lines@) =~= seq![line@]);
    lines
}

fn attempt_line(attempt: SampledAttempt) -> (line: String)
    ensures
        line@ == attempt_text(attempt),
{
    let mut line: String = "  attempt ".to_owned();
    line.append(signed_decimal_text(attempt.attempt_id).as_str());
    if attempt.committed {
        line.append(" committed busy_wait_ns=");
        push_number(&mut line, attempt.commit_wait_nanos);
    } else {
        line.append(" spooled: the writer slot stayed held; the record remains durable");
    }
    line
}

fn count_committed(attempts: &Vec<SampledAttempt>) -> (count: usize)
    ensures
        count == committed_count(attempts@, attempts@.len() as int),
        count <= attempts@.len(),
{
    let total: usize = attempts.len();
    let mut count: usize = 0;
    let mut i: usize = 0;
    while i < total
        invariant
            i <= total,
            total == attempts@.len(),
            count == committed_count(attempts@, i as int),
            count <= i,
        decreases total - i,
    {
        if attempts[i].committed {
            count = count + 1;
        }
        i = i + 1;
    }
    count
}

/// The lines that report what a stage of the write path came to.
pub fn render_crash_hook(outcome: &CrashHookOutcome) -> (lines: Vec<String>)
    ensures
        texts(lines@) == crash_hook_lines(*outcome),
{
    match outcome {
        CrashHookOutcome::Completed { attempt_row_id } => {
            let mut line: String = "attempt ".to_owned();
            line.append(signed_decimal_text(*attempt_row_id).as_str());
            line.append(" start and result written");
            one_line(line)
        },
        CrashHookOutcome::Counts { starts, results, observations, pending } => {
            let mut line: String = "starts=".to_owned();
            push_number(&mut line, *starts);
            line.append(" results=");
            push_number(&mut line, *results);
            line.append(" observations=");
            push_number(&mut line, *observations);
            line.append(" pending=");
            push_number(&mut line, *pending);
            one_line(line)
        },
        CrashHookOutcome::DrainReport { applied, already_applied, quarantined } => {
            let mut line: String = "drain: applied=".to_owned();
            push_number(&mut line, *applied);
            line.append(" already_applied=");
            push_number(&mut line, *already_applied);
            line.append(" quarantined=");
            push_number(&mut line, *quarantined);
            one_line(line)
        },
        CrashHookOutcome::FreshnessOutcome { kind, reason } => {
            let mut line: String = "freshness: ".to_owned();
            line.append(kind.as_str());
            match reason {
                Some(r) => {
                    line.append(" reason=");
                    line.append(r.as_str());
                },
                None => {},
            }
            one_line(line)
        },
        CrashHookOutcome::Sampled {
            drain_applied,
            drain_already_applied,
            drain_quarantined,
            attempts,
        } => {
            let total: usize = attempts.len();
            let committed: usize = count_committed(attempts);
            let mut drain: String = "drain applied=".to_owned();
            push_number(&mut drain, *drain_applied);
            drain.append(" already-applied=");
            push_number(&mut drain, *drain_already_applied);
            drain.append(" quarantined=");
            push_number(&mut drain, *drain_quarantined);
            let mut sample: String = "sample attempts=".to_owned();
            sample.append(decimal_text(total as u128).as_str());
            sample.append(" committed=");
            sample.append(decimal_text(committed as u128).as_str());
            sample.append(" spooled=");
            sample.append(decimal_text((total - committed) as u128).as_str());
            let ghost head = seq![drain@, sample@];
            let ghost tail = attempts@.map_values(|attempt: SampledAttempt| attempt_text(attempt));
            let mut lines: Vec<String> = one_line(drain);
            let ghost first = lines@;
            lines.push(sample);
            assert(texts(lines@) =~= texts(first).push(sample@));
            assert(texts(lines@) =~= head + tail.take(0));
            let mut i: usize = 0;
            while i < total
                invariant
                    i <= total,
                    total == attempts@.len(),
                    tail == attempts@.map_values(
                        |attempt: SampledAttempt| attempt_text(attempt),
                    ),
                    texts(lines@) == head + tail.take(i as int),
                decreases total - i,
            {
                let ghost before = lines@;
                lines.push(attempt_line(attempts[i]));
                assert(texts(lines@) =~= texts(before).push(lines@.last()@));
                assert(tail[i as int] == lines@.last()@);
                assert(texts(lines@) =~= head + tail.take(i + 1));
                i = i + 1;
            }
            assert(tail.take(total as int) =~= tail);
            lines
        },
        CrashHookOutcome::Seeded { label, attempt_id } => {
            let mut line: String = label.clone();
            line.append("=");
            line.append(signed_decimal_text(*attempt_id).as_str());
            one_line(line)
        },
    }
}

/// A stage of publishing a projection.
#[derive(Debug, Clone, Copy, PartialEq, Eq, Structural)]
pub enum ProjectionHookStage {
    Publish,
    KillBeforePublish,
    ReadBack,
}

/// Reads the stage of publishing at which the hook stops.
pub fn projection_crash_stage(rest: &Vec<String>) -> (stage: Result<ProjectionHookStage, Error>)
    ensures
        ({
            let first = first_of(texts(rest@));
            match stage {
                Ok(s) => first == Some(
                    match s {
                        ProjectionHookStage::Publish => "publish"@,
                        ProjectionHookStage::KillBeforePublish => "kill-before-publish"@,
                        ProjectionHookStage::ReadBack => "read-back"@,
                    },
                ),
                Err(e) => {
                    &&& first != Some("publish"@)
                    &&& first != Some("kill-before-publish"@)
                    &&& first != Some("read-back"@)
                    &&& e@ == ErrorView::Usage(
                        "__projection-crash-hook requires a stage (publish | kill-before-publish | read-back), got "@
                            + quoted_option(first),
                    )
                },
            }
        }),
{
    if first_is(rest, "publish") {
        return Ok(ProjectionHookStage::Publish);
    }
    if first_is(rest, "kill-before-publish") {
        return Ok(ProjectionHookStage::KillBeforePublish);
    }
    if first_is(rest, "read-back") {
        return Ok(ProjectionHookStage::ReadBack);
    }
    let mut message: String =
        "__projection-crash-hook requires a stage (publish | kill-before-publish | read-back), got ".to_owned();
    message.append(quote_first(rest).as_str());
    Err(Error::Usage(message))
}

/// What a stage of publishing came to.
#[derive(Debug, Clone, Copy, PartialEq, Eq, Structural)]
pub enum ProjectionHookOutcome {
    Published,
    Counts { results: u64, generation: u64, projection_generation: Option<u64> },
}

/// The line that reports what a stage of publishing came to.
pub fn projection_hook_line(outcome: ProjectionHookOutcome) -> (line: String)
    ensures
        line@ == match outcome {
            ProjectionHookOutcome::Published =>
                "projection published from committed fixture state"@,
            ProjectionHookOutcome::Counts { results, generation, projection_generation } =>
                "results="@ + decimal(results as nat) + " generation="@ + decimal(
                generation as nat,
            ) + " projection_generation="@ + match projection_generation {
                Some(recorded) => decimal(recorded as nat),
                None => "absent"@,
            },
        },
{
    match outcome {
        ProjectionHookOutcome::Published =>
            "projection published from committed fixture state".to_owned(),
        ProjectionHookOutcome::Counts { results, generation, projection_generation } => {
            let mut line: String = "results=".to_owned();
            push_number(&mut line, results);
            line.append(" generation=");
            push_number(&mut line, generation);
            line.append(" projection_generation=");
            match projection_generation {
                Some(recorded) => {
                    push_number(&mut line, recorded);
                },
                None => {
                    line.append("absent");
                },
            }
            line
        },
    }
}

/// Reads the exit class a hook ends with: a byte.
pub fn exit_class(rest: &Vec<String>) -> (class: Result<u8, Error>)
    ensures
        ({
            let named = match first_of(texts(rest@)) {
                Some(word) => unsigned_value(word),
                None => None,
            };
            match class {
                Ok(n) => named == Some(n as nat),
                Err(e) => (named matches Some(n) ==> n > u8::MAX) && e@ == ErrorView::Usage(
                    "__exit-class requires a class 0..=8"@,
                ),
            }
        }),
{
    if rest.len() > 0 {
        match parse_u64(rest[0].as_str()) {
            Some(n) => {
                if n <= 255 {
                    return Ok(n as u8);
                }
            },
            None => {},
        }
    }
    Err(Error::Usage("__exit-class requires a class 0..=8".to_owned()))
}

/// Which published cost model a hook activates: the complete one, or the incomplete.
pub fn cost_model_choice(rest: &Vec<String>) -> (complete: Result<bool, Error>)
    ensures
        ({
            let first = first_of(texts(rest@));
            match complete {
                Ok(c) => first == Some(
                    if c {
                        "complete"@
                    } else {
                        "incomplete"@
                    },
                ),
                Err(e) => {
                    &&& first != Some("complete"@)
                    &&& first != Some("incomplete"@)
                    &&& e@ == ErrorView::Usage(
                        "__cost-model-fixture requires complete or incomplete, got "@
                            + quoted_option(first),
                    )
                },
            }
        }),
{
    if first_is(rest, "complete") {
        return Ok(true);
    }
    if first_is(rest, "incomplete") {
        return Ok(false);
    }
    let mut message: String =
        "__cost-model-fixture requires complete or incomplete, got ".to_owned();
    message.append(quote_first(rest).as_str());
    Err(Error::Usage(message))
}

/// Whether a cost model has to be activated, and the line that says how it stands.
pub fn cost_model_line(model: &str, active: Option<&str>) -> (line: (bool, String))
    ensures
        ({
            let already = active matches Some(a) && a@ == model@;
            line.0 == !already && line.1@ == "cost model "@ + model@ + if already {
                " already active"@
            } else {
                " active"@
            }
        }),
{
    let already: bool = match active {
        Some(current) => same_text(current, model),
        None => false,
    };
    let mut text: String = "cost model ".to_owned();
    text.append(model);
    if already {
        text.append(" already active");
    } else {
        text.append(" active");
    }
    (!already, text)
}

proof fn lemma_stage_names_differ()
    ensures
        "before-start-commit"@.len() == 19,
        "after-start-commit-before-request"@.len() == 33,
        "after-parse-before-spool-write"@.len() == 30,
        "after-spool-write-before-sqlite-commit"@.len() == 38,
        "after-sqlite-commit-before-pending-deletion"@.len() == 43,
        "point-1"@.len() == 7 && "point-1"@[6] == '1',
        "point-2"@.len() == 7 && "point-2"@[6] == '2',
        "point-3"@.len() == 7 && "point-3"@[6] == '3',
        "point-4"@.len() == 7 && "point-4"@[6] == '4',
        "point-5"@.len() == 7 && "point-5"@[6] == '5',
        "1"@.len() == 1 && "1"@[0] == '1',
        "2"@.len() == 1 && "2"@[0] == '2',
        "3"@.len() == 1 && "3"@[0] == '3',
        "4"@.len() == 1 && "4"@[0] == '4',
        "5"@.len() == 1 && "5"@[0] == '5',
        "start"@.len() == 5 && "start"@[0] == 's',
        "complete"@.len() == 8,
        "read-back"@.len() == 9 && "read-back"@[0] == 'r',
        "commit-observation"@.len() == 18,
        "spool-pending"@.len() == 13,
        "drain"@.len() == 5 && "drain"@[0] == 'd',
        "freshness"@.len() == 9 && "freshness"@[0] == 'f',
        "sample-crash"@.len() == 12 && "sample-crash"@[1] == 'a',
        "spool-orphan"@.len() == 12 && "spool-orphan"@[1] == 'p',
        "sample"@.len() == 6,
{
    reveal_strlit("before-start-commit");
    reveal_strlit("after-start-commit-before-request");
    reveal_strlit("after-parse-before-spool-write");
    reveal_strlit("after-spool-write-before-sqlite-commit");
    reveal_strlit("after-sqlite-commit-before-pending-deletion");
    reveal_strlit("point-1");
    reveal_strlit("point-2");
    reveal_strlit("point-3");
    reveal_strlit("point-4");
    reveal_strlit("point-5");
    reveal_strlit("1");
    reveal_strlit("2");
    reveal_strlit("3");
    reveal_strlit("4");
    reveal_strlit("5");
    reveal_strlit("start");
    reveal_strlit("complete");
    reveal_strlit("read-back");
    reveal_strlit("commit-observation");
    reveal_strlit("spool-pending");
    reveal_strlit("drain");
    reveal_strlit("freshness");
    reveal_strlit("sample-crash");
    reveal_strlit("spool-orphan");
    reveal_strlit("sample");
}

/// Every stage is asked for by its own words: the five points at which a crash is staged
/// by name, by point and by number, and each of the others by name; whatever follows.
pub proof fn law_stages_have_their_own_words(args: Seq<Seq<char>>, stage: CrashHookStage)
    requires
        args.len() > 0,
        stage !is Sample,
        stage !is SpoolOrphan,
    ensures
        stage_asked(args) == Ok::<CrashHookStage, ErrorView>(stage) <==> match stage {
            CrashHookStage::BeforeStartCommit => args[0] == "before-start-commit"@ || args[0]
                == "point-1"@ || args[0] == "1"@,
            CrashHookStage::AfterStartCommitBeforeRequest => args[0]
                == "after-start-commit-before-request"@ || args[0] == "point-2"@ || args[0] == "2"@
                || args[0] == "start"@,
            CrashHookStage::AfterParseBeforeSpoolWrite => args[0]
                == "after-parse-before-spool-write"@ || args[0] == "point-3"@ || args[0] == "3"@,
            CrashHookStage::AfterSpoolWriteBeforeSqliteCommit => args[0]
                == "after-spool-write-before-sqlite-commit"@ || args[0] == "point-4"@ || args[0]
                == "4"@,
            CrashHookStage::AfterSqliteCommitBeforePendingDeletion => args[0]
                == "after-sqlite-commit-before-pending-deletion"@ || args[0] == "point-5"@
                || args[0] == "5"@,
            CrashHookStage::Complete => args[0] == "complete"@,
            CrashHookStage::ReadBack => args[0] == "read-back"@,
            CrashHookStage::CommitObservation => args[0] == "commit-observation"@,
            CrashHookStage::SpoolPending => args[0] == "spool-pending"@,
            CrashHookStage::Drain => args[0] == "drain"@,
            CrashHookStage::Freshness => args[0] == "freshness"@,
            CrashHookStage::SampleCrash => args[0] == "sample-crash"@,
            _ => false,
        },
{
    lemma_stage_names_differ();
}

/// An orphan is staged under the identifier that is named, whatever its sign, and samples
/// are made as often as asked, once where nothing is.
pub proof fn law_orphans_and_samples_take_their_numbers(id: i64, attempts: u32)
    requires
        attempts > 0,
    ensures
        stage_asked(seq!["spool-orphan"@, signed_decimal(id as int)]) == Ok::<
            CrashHookStage,
            ErrorView,
        >(CrashHookStage::SpoolOrphan { attempt_id: id }),
        stage_asked(seq!["sample"@]) == Ok::<CrashHookStage, ErrorView>(
            CrashHookStage::Sample { attempts: 1 },
        ),
        stage_asked(seq!["sample"@, "--attempts"@, decimal(attempts as nat)]) == Ok::<
            CrashHookStage,
            ErrorView,
        >(CrashHookStage::Sample { attempts }),
        stage_asked(seq!["sample"@, "--attempts="@ + decimal(attempts as nat)]) == Ok::<
            CrashHookStage,
            ErrorView,
        >(CrashHookStage::Sample { attempts }),
        stage_asked(seq!["sample"@, "--attempts"@, decimal(0)]) is Err,
{
    lemma_stage_names_differ();
    law_signed_numbers_read_back(id as int);
    law_numbers_read_back(attempts as nat);
    law_numbers_read_back(0);
    reveal_strlit("--attempts=");
    reveal_strlit("--attempts");
    assert("--attempts="@.len() == 11 && "--attempts"@.len() == 10);
    law_behind_a_prefix_stands_the_rest(
        "--attempts="@ + decimal(attempts as nat),
        "--attempts="@,
        decimal(attempts as nat),
    );
    reveal_with_fuel(attempts_from, 3);
}

/// Only stages that seed or write attempts go through the ledger.
pub proof fn law_ledger_stages_write_attempts(stage: CrashHookStage)
    ensures
        on_ledger(stage) <==> match stage {
            CrashHookStage::CommitObservation => true,
            CrashHookStage::SpoolPending => true,
            CrashHookStage::SpoolOrphan { .. } => true,
            CrashHookStage::Sample { .. } => true,
            CrashHookStage::SampleCrash => true,
            _ => false,
        },
{
}

proof fn lemma_committed_prefix(
    shorter: Seq<SampledAttempt>,
    longer: Seq<SampledAttempt>,
    n: int,
)
    requires
        n <= shorter.len(),
        n <= longer.len(),
        forall|i: int| 0 <= i < n ==> shorter[i] == #[trigger] longer[i],
    ensures
        committed_count(shorter, n) == committed_count(longer, n),
    decreases n,
{
    if n > 0 {
        lemma_committed_prefix(shorter, longer, n - 1);
        assert(shorter[n - 1] == longer[n - 1]);
    }
}

/// Each attempt is committed or spooled, and counted once.
pub proof fn law_each_attempt_is_counted_once(
    attempts: Seq<SampledAttempt>,
    last: SampledAttempt,
)
    ensures
        committed_count(Seq::empty(), 0) == 0,
        committed_count(attempts.push(last), attempts.len() as int + 1) == committed_count(
            attempts,
            attempts.len() as int,
        ) + if last.committed {
            1nat
        } else {
            0nat
        },
{
    lemma_committed_prefix(attempts, attempts.push(last), attempts.len() as int);
}

} // verus!
