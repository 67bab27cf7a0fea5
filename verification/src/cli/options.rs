//! The options of single commands, read from what the shared flags left over.
//!
//! Whatever a command does not know is refused by name, so that a mistyped flag never
//! narrows what the command does.

use crate::calendar::{duration_written, parse_duration};
use crate::domain::MonotonicDuration;
use crate::error::{Error, ErrorView};
use crate::sets::texts;
use crate::text::{
    behind, law_behind_a_prefix_stands_the_rest, optional, same_text, strip_prefix,
};
use vstd::prelude::*;
use vstd::string::*;

verus! {

/// A message with an argument in it.
pub(crate) fn usage_about(before: &str, arg: &str, after: &str) -> (error: Error)
    ensures
        error@ == ErrorView::Usage(before@ + arg@ + after@),
{
    let mut message: String = before.to_owned();
    message.append(arg);
    message.append(after);
    Error::Usage(message)
}

/// The refusal of an argument nobody knows.
pub open spec fn unknown(arg: Seq<char>) -> ErrorView {
    ErrorView::Usage("unknown argument: "@ + arg)
}

/// The refusal of an argument nobody knows.
pub fn unknown_argument(arg: &str) -> (error: Error)
    ensures
        error@ == unknown(arg@),
{
    let mut message: String = "unknown argument: ".to_owned();
    message.append(arg);
    Error::Usage(message)
}

/// Refuses arguments to a command that takes none.
pub fn reject_positionals(rest: &Vec<String>) -> (verdict: Result<(), Error>)
    ensures
        match verdict {
            Ok(()) => rest@.len() == 0,
            Err(error) => rest@.len() > 0 && error@ == ErrorView::Usage(
                "unknown argument: "@ + rest@[0]@ + "; run aub --help for command usage"@,
            ),
        },
{
    if rest.len() > 0 {
        return Err(
            usage_about("unknown argument: ", rest[0].as_str(), "; run aub --help for command usage"),
        );
    }
    Ok(())
}

/// What sampling was asked for.
#[derive(Debug, Clone, PartialEq, Eq)]
pub struct SampleOptions {
    pub due: bool,
    pub if_due: bool,
    pub require_success: bool,
    pub session_id: Option<String>,
    pub run_id: Option<String>,
}

/// What the options of sampling hold.
pub struct SampleView {
    pub due: bool,
    pub if_due: bool,
    pub require_success: bool,
    pub session_id: Option<Seq<char>>,
    pub run_id: Option<Seq<char>>,
}

impl View for SampleOptions {
    type V = SampleView;

    open spec fn view(&self) -> SampleView {
        SampleView {
            due: self.due,
            if_due: self.if_due,
            require_success: self.require_success,
            session_id: optional(self.session_id),
            run_id: optional(self.run_id),
        }
    }
}

/// What the arguments of sampling from a position on make of what was read before.
pub open spec fn sample_from(args: Seq<Seq<char>>, i: int, sofar: SampleView) -> Result<
    SampleView,
    ErrorView,
>
    decreases args.len() - i,
{
    if i >= args.len() {
        Ok(sofar)
    } else {
        let arg = args[i];
        if arg == "--due"@ {
            sample_from(args, i + 1, SampleView { due: true, ..sofar })
        } else if arg == "--all"@ {
            Err(ErrorView::Usage("unknown argument: --all; run aub sample alone"@))
        } else if arg == "--if-due"@ {
            sample_from(args, i + 1, SampleView { if_due: true, ..sofar })
        } else if arg == "--require-success"@ {
            sample_from(args, i + 1, SampleView { require_success: true, ..sofar })
        } else if arg == "--session-id"@ {
            if i + 1 < args.len() {
                sample_from(args, i + 2, SampleView { session_id: Some(args[i + 1]), ..sofar })
            } else {
                Err(ErrorView::Usage("--session-id requires a value"@))
            }
        } else if arg == "--run-id"@ {
            if i + 1 < args.len() {
                sample_from(args, i + 2, SampleView { run_id: Some(args[i + 1]), ..sofar })
            } else {
                Err(ErrorView::Usage("--run-id requires a value"@))
            }
        } else {
            match (behind(arg, "--session-id="@), behind(arg, "--run-id="@)) {
                (Some(value), _) => if value.len() == 0 {
                    Err(ErrorView::Usage("--session-id requires a value"@))
                } else {
                    sample_from(args, i + 1, SampleView { session_id: Some(value), ..sofar })
                },
                (None, Some(value)) => if value.len() == 0 {
                    Err(ErrorView::Usage("--run-id requires a value"@))
                } else {
                    sample_from(args, i + 1, SampleView { run_id: Some(value), ..sofar })
                },
                (None, None) => Err(
                    ErrorView::Usage(
                        "unknown argument: "@ + arg + "; run aub sample --help for options"@,
                    ),
                ),
            }
        }
    }
}

/// What sampling was asked for, with the account that was named: a session needs an
/// account, and a run needs a session.
pub open spec fn sample_asked(args: Seq<Seq<char>>, account: bool) -> Result<
    SampleView,
    ErrorView,
> {
    let none = SampleView {
        due: false,
        if_due: false,
        require_success: false,
        session_id: None,
        run_id: None,
    };
    match sample_from(args, 0, none) {
        Ok(read) => if read.session_id is Some && !account {
            Err(ErrorView::Usage("--session-id requires --account NAME"@))
        } else if read.run_id is Some && read.session_id is None {
            Err(ErrorView::Usage("--run-id requires --session-id"@))
        } else {
            Ok(read)
        },
        Err(error) => Err(error),
    }
}

/// Reads the options of sampling. `account` says whether one was named.
pub fn sample_options(rest: &Vec<String>, account: bool) -> (options: Result<SampleOptions, Error>)
    ensures
        match options {
            Ok(o) => sample_asked(texts(rest@), account) == Ok::<SampleView, ErrorView>(o@),
            Err(e) => sample_asked(texts(rest@), account) == Err::<SampleView, ErrorView>(e@),
        },
{
    let total: usize = rest.len();
    let ghost args = texts(rest@);
    let mut read: SampleOptions = SampleOptions {
        due: false,
        if_due: false,
        require_success: false,
        session_id: None,
        run_id: None,
    };
    let ghost none = read@;
    let mut i: usize = 0;
    while i < total
        invariant
            total == rest@.len(),
            args == texts(rest@),
            none == (SampleView {
                due: false,
                if_due: false,
                require_success: false,
                session_id: None,
                run_id: None,
            }),
            sample_from(args, 0, none) == sample_from(args, i as int, read@),
        decreases total - i,
    {
        let arg: &str = rest[i].as_str();
        assert(args[i as int] == arg@);
        if same_text(arg, "--due") {
            read.due = true;
            i = i + 1;
        } else if same_text(arg, "--all") {
            return Err(
                Error::Usage("unknown argument: --all; run aub sample alone".to_owned()),
            );
        } else if same_text(arg, "--if-due") {
            read.if_due = true;
            i = i + 1;
        } else if same_text(arg, "--require-success") {
            read.require_success = true;
            i = i + 1;
        } else if same_text(arg, "--session-id") {
            if total - i < 2 {
                return Err(Error::Usage("--session-id requires a value".to_owned()));
            }
            read.session_id = Some(rest[i + 1].clone());
            i = i + 2;
        } else if same_text(arg, "--run-id") {
            if total - i < 2 {
                return Err(Error::Usage("--run-id requires a value".to_owned()));
            }
            read.run_id = Some(rest[i + 1].clone());
            i = i + 2;
        } else {
            match (strip_prefix(arg, "--session-id="), strip_prefix(arg, "--run-id=")) {
                (Some(value), _) => {
                    if value.as_str().unicode_len() == 0 {
                        return Err(Error::Usage("--session-id requires a value".to_owned()));
                    }
                    read.session_id = Some(value);
                    i = i + 1;
                },
                (None, Some(value)) => {
                    if value.as_str().unicode_len() == 0 {
                        return Err(Error::Usage("--run-id requires a value".to_owned()));
                    }
                    read.run_id = Some(value);
                    i = i + 1;
                },
                (None, None) => {
                    return Err(
                        usage_about(
                            "unknown argument: ",
                            arg,
                            "; run aub sample --help for options",
                        ),
                    );
                },
            }
        }
    }
    if read.session_id.is_some() && !account {
        return Err(Error::Usage("--session-id requires --account NAME".to_owned()));
    }
    if read.run_id.is_some() && read.session_id.is_none() {
        return Err(Error::Usage("--run-id requires --session-id".to_owned()));
    }
    Ok(read)
}

/// What the doctor was asked for.
#[derive(Debug, Clone, Copy, PartialEq, Eq, Structural)]
pub enum DoctorRequest {
    /// All checks.
    Checks,
    /// The view of transcript drift and stale rate cards.
    DriftView,
    /// The permitted repairs.
    Fix,
}

/// Whether an argument asks for the drift view.
pub open spec fn asks_for_drift(arg: Seq<char>) -> bool {
    arg == "--transcript-format-drift"@ || arg == "--rate-card-staleness"@
}

/// How many arguments come before the first the doctor does not know.
pub open spec fn doctor_known(args: Seq<Seq<char>>, i: int) -> int
    decreases args.len() - i,
{
    if i < args.len() && (asks_for_drift(args[i]) || args[i] == "--fix"@) {
        doctor_known(args, i + 1)
    } else {
        i
    }
}

/// What the doctor was asked for. Repairing and the drift view exclude each other.
pub open spec fn doctor_asked(args: Seq<Seq<char>>) -> Result<DoctorRequest, ErrorView> {
    let drift = exists|i: int| 0 <= i < args.len() && asks_for_drift(#[trigger] args[i]);
    let fix = exists|i: int| 0 <= i < args.len() && #[trigger] args[i] == "--fix"@;
    let known = doctor_known(args, 0);
    if known < args.len() {
        Err(unknown(args[known]))
    } else if drift && fix {
        Err(
            ErrorView::Usage(
                "--fix cannot be combined with --transcript-format-drift or --rate-card-staleness"@,
            ),
        )
    } else if drift {
        Ok(DoctorRequest::DriftView)
    } else if fix {
        Ok(DoctorRequest::Fix)
    } else {
        Ok(DoctorRequest::Checks)
    }
}

/// Reads the options of the doctor.
pub fn doctor_options(rest: &Vec<String>) -> (request: Result<DoctorRequest, Error>)
    ensures
        match request {
            Ok(r) => doctor_asked(texts(rest@)) == Ok::<DoctorRequest, ErrorView>(r),
            Err(e) => doctor_asked(texts(rest@)) == Err::<DoctorRequest, ErrorView>(e@),
        },
{
    let total: usize = rest.len();
    let ghost args = texts(rest@);
    let mut drift: bool = false;
    let mut fix: bool = false;
    let mut i: usize = 0;
    while i < total
        invariant
            i <= total,
            total == rest@.len(),
            args == texts(rest@),
            doctor_known(args, 0) == doctor_known(args, i as int),
            drift == exists|k: int| 0 <= k < i && asks_for_drift(#[trigger] args[k]),
            fix == exists|k: int| 0 <= k < i && #[trigger] args[k] == "--fix"@,
        decreases total - i,
    {
        let arg: &str = rest[i].as_str();
        assert(args[i as int] == arg@);
        if same_text(arg, "--transcript-format-drift") || same_text(arg, "--rate-card-staleness") {
            drift = true;
            assert(asks_for_drift(args[i as int]));
        } else if same_text(arg, "--fix") {
            fix = true;
        } else {
            return Err(unknown_argument(arg));
        }
        i = i + 1;
        assert("--fix"@ != "--transcript-format-drift"@ && "--fix"@ != "--rate-card-staleness"@) by {
            reveal_strlit("--fix");
            reveal_strlit("--transcript-format-drift");
            reveal_strlit("--rate-card-staleness");
            assert("--fix"@.len() != "--transcript-format-drift"@.len());
            assert("--fix"@.len() != "--rate-card-staleness"@.len());
        }
    }
    if drift && fix {
        return Err(
            Error::Usage(
                "--fix cannot be combined with --transcript-format-drift or --rate-card-staleness".to_owned(),
            ),
        );
    }
    if drift {
        Ok(DoctorRequest::DriftView)
    } else if fix {
        Ok(DoctorRequest::Fix)
    } else {
        Ok(DoctorRequest::Checks)
    }
}

/// The window of coverage where none is named: a day.
pub const DEFAULT_COVERAGE_NANOS: u64 = 86_400_000_000_000;

/// The window coverage was asked for, in the words it was asked for in.
#[derive(Debug, Clone, PartialEq, Eq)]
pub struct CoverageWindow {
    pub since: MonotonicDuration,
    pub description: String,
    pub severe_only: bool,
}

/// What a window of coverage holds.
pub struct CoverageView {
    pub since: nat,
    pub description: Seq<char>,
    pub severe_only: bool,
}

impl View for CoverageWindow {
    type V = CoverageView;

    open spec fn view(&self) -> CoverageView {
        CoverageView {
            since: self.since.nanos as nat,
            description: self.description@,
            severe_only: self.severe_only,
        }
    }
}

/// A window with another length.
pub open spec fn since_asked(value: Seq<char>, sofar: CoverageView) -> Result<
    CoverageView,
    ErrorView,
> {
    match duration_written(value) {
        Some(nanos) => Ok(CoverageView { since: nanos, description: value, ..sofar }),
        None => Err(
            ErrorView::Usage("--since must be a duration like 24h or 30d, got "@ + value),
        ),
    }
}

/// What the arguments of coverage from a position on make of what was read before.
pub open spec fn coverage_from(args: Seq<Seq<char>>, i: int, sofar: CoverageView) -> Result<
    CoverageView,
    ErrorView,
>
    decreases args.len() - i,
{
    if i >= args.len() {
        Ok(sofar)
    } else {
        let arg = args[i];
        if arg == "--severe"@ {
            coverage_from(args, i + 1, CoverageView { severe_only: true, ..sofar })
        } else if arg == "--since"@ {
            if i + 1 < args.len() {
                match since_asked(args[i + 1], sofar) {
                    Ok(read) => coverage_from(args, i + 2, read),
                    Err(error) => Err(error),
                }
            } else {
                Err(ErrorView::Usage("--since requires a duration like 24h or 30d"@))
            }
        } else {
            match behind(arg, "--since="@) {
                Some(value) => match since_asked(value, sofar) {
                    Ok(read) => coverage_from(args, i + 1, read),
                    Err(error) => Err(error),
                },
                None => Err(unknown(arg)),
            }
        }
    }
}

/// The window coverage is reported over where none is named.
pub open spec fn default_window() -> CoverageView {
    CoverageView { since: DEFAULT_COVERAGE_NANOS as nat, description: "24h"@, severe_only: false }
}

fn parse_since(value: &str) -> (since: Result<MonotonicDuration, Error>)
    ensures
        match since {
            Ok(d) => duration_written(value@) == Some(d.nanos as nat),
            Err(e) => duration_written(value@) is None && e@ == ErrorView::Usage(
                "--since must be a duration like 24h or 30d, got "@ + value@,
            ),
        },
{
    match parse_duration(value) {
        Some(duration) => Ok(duration),
        None => {
            let mut message: String =
                "--since must be a duration like 24h or 30d, got ".to_owned();
            message.append(value);
            Err(Error::Usage(message))
        },
    }
}

/// Reads the window of coverage: `--since` with a duration, and `--severe`.
pub fn coverage_window(rest: &Vec<String>) -> (window: Result<CoverageWindow, Error>)
    ensures
        match window {
            Ok(w) => coverage_from(texts(rest@), 0, default_window()) == Ok::<
                CoverageView,
                ErrorView,
            >(w@),
            Err(e) => coverage_from(texts(rest@), 0, default_window()) == Err::<
                CoverageView,
                ErrorView,
            >(e@),
        },
{
    let total: usize = rest.len();
    let ghost args = texts(rest@);
    let mut read: CoverageWindow = CoverageWindow {
        since: MonotonicDuration::from_nanos(DEFAULT_COVERAGE_NANOS),
        description: "24h".to_owned(),
        severe_only: false,
    };
    let mut i: usize = 0;
    while i < total
        invariant
            total == rest@.len(),
            args == texts(rest@),
            coverage_from(args, 0, default_window()) == coverage_from(args, i as int, read@),
        decreases total - i,
    {
        let arg: &str = rest[i].as_str();
        assert(args[i as int] == arg@);
        if same_text(arg, "--severe") {
            read.severe_only = true;
            i = i + 1;
        } else if same_text(arg, "--since") {
            if total - i < 2 {
                return Err(
                    Error::Usage("--since requires a duration like 24h or 30d".to_owned()),
                );
            }
            assert(args[i + 1] == rest@[i + 1]@);
            match parse_since(rest[i + 1].as_str()) {
                Ok(since) => {
                    read.since = since;
                    read.description = rest[i + 1].clone();
                },
                Err(error) => {
                    return Err(error);
                },
            }
            i = i + 2;
        } else {
            match strip_prefix(arg, "--since=") {
                Some(value) => match parse_since(value.as_str()) {
                    Ok(since) => {
                        read.since = since;
                        read.description = value;
                    },
                    Err(error) => {
                        return Err(error);
                    },
                },
                None => {
                    return Err(unknown_argument(arg));
                },
            }
            i = i + 1;
        }
    }
    Ok(read)
}

/// What an export is keyed by.
#[derive(Debug, Clone, Copy, PartialEq, Eq, Structural)]
pub enum ExportKey {
    Session,
    Run,
}

/// What `--key` asks for.
pub open spec fn key_asked(value: Seq<char>) -> Result<ExportKey, ErrorView> {
    if value == "session-id"@ {
        Ok(ExportKey::Session)
    } else if value == "run-id"@ {
        Ok(ExportKey::Run)
    } else {
        Err(ErrorView::Usage("--key must be session-id or run-id, got "@ + value))
    }
}

fn parse_export_key(value: &str) -> (key: Result<ExportKey, Error>)
    ensures
        match key {
            Ok(k) => key_asked(value@) == Ok::<ExportKey, ErrorView>(k),
            Err(e) => key_asked(value@) == Err::<ExportKey, ErrorView>(e@),
        },
{
    if same_text(value, "session-id") {
        Ok(ExportKey::Session)
    } else if same_text(value, "run-id") {
        Ok(ExportKey::Run)
    } else {
        let mut message: String = "--key must be session-id or run-id, got ".to_owned();
        message.append(value);
        Err(Error::Usage(message))
    }
}

/// The key that a value adds to one read before: it may be given once.
pub open spec fn key_added(sofar: Option<ExportKey>, value: Seq<char>) -> Result<
    ExportKey,
    ErrorView,
> {
    if sofar is Some {
        Err(ErrorView::Usage("--key was given more than once"@))
    } else {
        key_asked(value)
    }
}

/// What the arguments of an export from a position on make of what was read before.
pub open spec fn export_from(
    args: Seq<Seq<char>>,
    i: int,
    key: Option<ExportKey>,
    ids: bool,
) -> Result<(ExportKey, bool), ErrorView>
    decreases args.len() - i,
{
    if i >= args.len() {
        match key {
            Some(k) => Ok((k, ids)),
            None => Err(
                ErrorView::Usage("export requires --key session-id or --key run-id"@),
            ),
        }
    } else {
        let arg = args[i];
        if arg == "--include-logical-ids"@ {
            export_from(args, i + 1, key, true)
        } else {
            match behind(arg, "--key="@) {
                Some(value) => match key_added(key, value) {
                    Ok(k) => export_from(args, i + 1, Some(k), ids),
                    Err(error) => Err(error),
                },
                None => if arg != "--key"@ {
                    Err(unknown(arg))
                } else if i + 1 >= args.len() {
                    Err(ErrorView::Usage("--key requires session-id or run-id"@))
                } else {
                    match key_added(key, args[i + 1]) {
                        Ok(k) => export_from(args, i + 2, Some(k), ids),
                        Err(error) => Err(error),
                    }
                },
            }
        }
    }
}

/// Reads the options of an export: the key, exactly once, and whether logical
/// identifiers are written, which they are not unless asked for.
pub fn export_flags(rest: &Vec<String>) -> (flags: Result<(ExportKey, bool), Error>)
    ensures
        match flags {
            Ok(f) => export_from(texts(rest@), 0, None, false) == Ok::<
                (ExportKey, bool),
                ErrorView,
            >(f),
            Err(e) => export_from(texts(rest@), 0, None, false) == Err::<
                (ExportKey, bool),
                ErrorView,
            >(e@),
        },
{
    let total: usize = rest.len();
    let ghost args = texts(rest@);
    let mut key: Option<ExportKey> = None;
    let mut ids: bool = false;
    let mut i: usize = 0;
    while i < total
        invariant
            total == rest@.len(),
            args == texts(rest@),
            export_from(args, 0, None, false) == export_from(args, i as int, key, ids),
            i <= total,
        decreases total - i,
    {
        let arg: &str = rest[i].as_str();
        assert(args[i as int] == arg@);
        if same_text(arg, "--include-logical-ids") {
            ids = true;
            i = i + 1;
            continue ;
        }
        let mut next: usize = i + 1;
        let value: String = match strip_prefix(arg, "--key=") {
            Some(value) => value,
            None => {
                if !same_text(arg, "--key") {
                    return Err(unknown_argument(arg));
                }
                if total - i < 2 {
                    return Err(Error::Usage("--key requires session-id or run-id".to_owned()));
                }
                assert(args[i + 1] == rest@[i + 1]@);
                next = i + 2;
                rest[i + 1].clone()
            },
        };
        if key.is_some() {
            return Err(Error::Usage("--key was given more than once".to_owned()));
        }
        match parse_export_key(value.as_str()) {
            Ok(k) => {
                key = Some(k);
            },
            Err(error) => {
                return Err(error);
            },
        }
        i = next;
    }
    match key {
        Some(k) => Ok((k, ids)),
        None => Err(Error::Usage("export requires --key session-id or --key run-id".to_owned())),
    }
}

proof fn lemma_sample_words_differ(word: Seq<char>)
    ensures
        "--due"@.len() == 5,
        "--all"@.len() == 5 && "--all"@[2] == 'a' && "--due"@[2] == 'd',
        "--if-due"@.len() == 8 && "--if-due"@[2] == 'i',
        "--run-id"@.len() == 8 && "--run-id"@[2] == 'r',
        "--require-success"@.len() == 17,
        "--session-id"@.len() == 12 && "--session-id"@[2] == 's',
        ("--session-id="@ + word).len() == 13 + word.len() && ("--session-id="@ + word)[12] == '='
            && ("--session-id="@ + word)[2] == 's',
        ("--run-id="@ + word).len() == 9 + word.len() && ("--run-id="@ + word)[8] == '=' && (
        "--run-id="@ + word)[2] == 'r',
        "--require-success"@[2] == 'r' && "--require-success"@[8] == 'e',
        behind("--session-id="@ + word, "--session-id="@) == Some(word),
        behind("--run-id="@ + word, "--run-id="@) == Some(word),
        behind("--run-id="@ + word, "--session-id="@) is None,
{
    reveal_strlit("--due");
    reveal_strlit("--all");
    reveal_strlit("--if-due");
    reveal_strlit("--run-id");
    reveal_strlit("--require-success");
    reveal_strlit("--session-id");
    reveal_strlit("--session-id=");
    reveal_strlit("--run-id=");
    law_behind_a_prefix_stands_the_rest("--session-id="@ + word, "--session-id="@, word);
    law_behind_a_prefix_stands_the_rest("--run-id="@ + word, "--run-id="@, word);
    let run = "--run-id="@ + word;
    if behind(run, "--session-id="@) is Some {
        let rest = behind(run, "--session-id="@)->0;
        law_behind_a_prefix_stands_the_rest(run, "--session-id="@, rest);
        assert(("--session-id="@ + rest)[2] == 's');
    }
}

/// Each option of sampling sets what it names and leaves the rest to be read: as one word
/// or as two where it takes a value. All accounts at once are refused.
pub proof fn law_sample_options_set_what_they_name(
    args: Seq<Seq<char>>,
    i: int,
    sofar: SampleView,
    word: Seq<char>,
)
    requires
        0 <= i < args.len(),
    ensures
        args[i] == "--due"@ ==> sample_from(args, i, sofar) == sample_from(
            args,
            i + 1,
            (SampleView { due: true, ..sofar }),
        ),
        args[i] == "--if-due"@ ==> sample_from(args, i, sofar) == sample_from(
            args,
            i + 1,
            (SampleView { if_due: true, ..sofar }),
        ),
        args[i] == "--require-success"@ ==> sample_from(args, i, sofar) == sample_from(
            args,
            i + 1,
            (SampleView { require_success: true, ..sofar }),
        ),
        args[i] == "--session-id"@ && i + 1 < args.len() && args[i + 1] == word ==> sample_from(
            args,
            i,
            sofar,
        ) == sample_from(args, i + 2, (SampleView { session_id: Some(word), ..sofar })),
        args[i] == "--run-id"@ && i + 1 < args.len() && args[i + 1] == word ==> sample_from(
            args,
            i,
            sofar,
        ) == sample_from(args, i + 2, (SampleView { run_id: Some(word), ..sofar })),
        word.len() > 0 && args[i] == "--session-id="@ + word ==> sample_from(args, i, sofar)
            == sample_from(args, i + 1, (SampleView { session_id: Some(word), ..sofar })),
        word.len() > 0 && args[i] == "--run-id="@ + word ==> sample_from(args, i, sofar)
            == sample_from(args, i + 1, (SampleView { run_id: Some(word), ..sofar })),
        args[i] == "--all"@ ==> sample_from(args, i, sofar) is Err,
        i + 1 == args.len() && (args[i] == "--session-id"@ || args[i] == "--run-id"@)
            ==> sample_from(args, i, sofar) is Err,
{
    lemma_sample_words_differ(word);
}

/// Sampling without options asks for nothing; a session needs an account and a run needs a
/// session, whatever else is asked.
pub proof fn law_sessions_need_accounts_and_runs_sessions(args: Seq<Seq<char>>, account: bool)
    ensures
        sample_asked(Seq::empty(), account) matches Ok(asked) && !asked.due && !asked.if_due
            && !asked.require_success && asked.session_id is None && asked.run_id is None,
        sample_asked(args, account) matches Ok(asked) ==> (asked.session_id is Some ==> account)
            && (asked.run_id is Some ==> asked.session_id is Some),
        sample_asked(args, true) is Err ==> sample_asked(args, false) is Err,
{
}

/// The doctor checks where nothing is asked, shows drift where only that is, repairs where
/// only that is, and does nothing else.
pub proof fn law_the_doctor_does_what_is_asked(args: Seq<Seq<char>>)
    ensures
        doctor_asked(args) == Ok::<DoctorRequest, ErrorView>(DoctorRequest::Checks) <==> args.len()
            == 0,
        doctor_asked(args) == Ok::<DoctorRequest, ErrorView>(DoctorRequest::Fix) <==> args.len() > 0
            && forall|i: int| 0 <= i < args.len() ==> #[trigger] args[i] == "--fix"@,
        doctor_asked(args) == Ok::<DoctorRequest, ErrorView>(DoctorRequest::DriftView)
            <==> args.len() > 0 && forall|i: int|
            0 <= i < args.len() ==> (#[trigger] args[i] == "--transcript-format-drift"@ || args[i]
                == "--rate-card-staleness"@),
{
    reveal_strlit("--fix");
    reveal_strlit("--transcript-format-drift");
    reveal_strlit("--rate-card-staleness");
    assert("--fix"@.len() == 5 && "--transcript-format-drift"@.len() == 25
        && "--rate-card-staleness"@.len() == 21);
    lemma_doctor_known(args, 0);
    if args.len() > 0 {
        assert(asks_for_drift(args[0]) || args[0] == "--fix"@ || doctor_known(args, 0) == 0);
    }
    if args.len() > 0 && forall|i: int|
        0 <= i < args.len() ==> (#[trigger] args[i] == "--transcript-format-drift"@ || args[i]
            == "--rate-card-staleness"@) {
        assert(asks_for_drift(args[0]));
        assert forall|i: int| 0 <= i < args.len() implies #[trigger] args[i] != "--fix"@ by {}
    }
}

proof fn lemma_doctor_known(args: Seq<Seq<char>>, i: int)
    requires
        0 <= i <= args.len(),
    ensures
        i <= doctor_known(args, i) <= args.len(),
        forall|k: int|
            i <= k < doctor_known(args, i) ==> (asks_for_drift(#[trigger] args[k]) || args[k]
                == "--fix"@),
        doctor_known(args, i) < args.len() ==> !asks_for_drift(args[doctor_known(args, i)])
            && args[doctor_known(args, i)] != "--fix"@,
    decreases args.len() - i,
{
    if i < args.len() && (asks_for_drift(args[i]) || args[i] == "--fix"@) {
        lemma_doctor_known(args, i + 1);
    }
}

/// Coverage reaches back a day where nothing else is asked, and otherwise as far as the
/// last duration says, described as it was written; only severe gaps are shown where that
/// is asked.
pub proof fn law_coverage_options_set_what_they_name(
    args: Seq<Seq<char>>,
    i: int,
    sofar: CoverageView,
    word: Seq<char>,
)
    requires
        0 <= i < args.len(),
    ensures
        default_window().since == 24 * 60 * 60 * 1_000_000_000,
        default_window().description == "24h"@,
        !default_window().severe_only,
        args[i] == "--severe"@ ==> coverage_from(args, i, sofar) == coverage_from(
            args,
            i + 1,
            (CoverageView { severe_only: true, ..sofar }),
        ),
        duration_written(word) matches Some(nanos) ==> {
            let read = CoverageView { since: nanos, description: word, ..sofar };
            &&& args[i] == "--since"@ && i + 1 < args.len() && args[i + 1] == word
                ==> coverage_from(args, i, sofar) == coverage_from(args, i + 2, read)
            &&& args[i] == "--since="@ + word ==> coverage_from(args, i, sofar) == coverage_from(
                args,
                i + 1,
                read,
            )
        },
        duration_written(word) is None && args[i] == "--since="@ + word ==> coverage_from(
            args,
            i,
            sofar,
        ) is Err,
        coverage_from(args, args.len() as int, sofar) == Ok::<CoverageView, ErrorView>(sofar),
{
    reveal_strlit("--severe");
    reveal_strlit("--since");
    reveal_strlit("--since=");
    law_behind_a_prefix_stands_the_rest("--since="@ + word, "--since="@, word);
    let one = "--since="@ + word;
    assert(one.len() >= 8 && one[3] == 'i' && one[7] == '=');
    assert("--severe"@.len() == 8 && "--severe"@[3] == 'e');
    assert("--since"@.len() == 7);
}

/// An export is keyed by sessions or by runs, as it is asked; once, and not more often.
pub proof fn law_exports_are_keyed_as_asked(
    args: Seq<Seq<char>>,
    i: int,
    ids: bool,
    key: ExportKey,
    word: Seq<char>,
)
    requires
        0 <= i < args.len(),
        word == match key {
            ExportKey::Session => "session-id"@,
            ExportKey::Run => "run-id"@,
        },
    ensures
        key_asked(word) == Ok::<ExportKey, ErrorView>(key),
        args[i] == "--key="@ + word ==> export_from(args, i, None, ids) == export_from(
            args,
            i + 1,
            Some(key),
            ids,
        ),
        args[i] == "--key"@ && i + 1 < args.len() && args[i + 1] == word ==> export_from(
            args,
            i,
            None,
            ids,
        ) == export_from(args, i + 2, Some(key), ids),
        args[i] == "--key="@ + word ==> export_from(args, i, Some(key), ids) is Err,
        args[i] == "--include-logical-ids"@ ==> export_from(args, i, Some(key), ids)
            == export_from(args, i + 1, Some(key), true),
        export_from(args, args.len() as int, Some(key), ids) == Ok::<
            (ExportKey, bool),
            ErrorView,
        >((key, ids)),
        export_from(args, args.len() as int, None, ids) is Err,
{
    reveal_strlit("session-id");
    reveal_strlit("run-id");
    reveal_strlit("--key=");
    reveal_strlit("--key");
    reveal_strlit("--include-logical-ids");
    law_behind_a_prefix_stands_the_rest("--key="@ + word, "--key="@, word);
    let one = "--key="@ + word;
    assert(one.len() >= 6 && one[2] == 'k');
    assert("session-id"@.len() == 10 && "run-id"@.len() == 6);
    assert("--include-logical-ids"@[2] == 'i' && "--key"@.len() == 5 && "--key"@[2] == 'k');
    if behind("--key"@, "--key="@) is Some {
        law_behind_a_prefix_stands_the_rest(
            "--key"@,
            "--key="@,
            behind("--key"@, "--key="@)->0,
        );
    }
}

/// The doctor refuses the first word it does not know, by that word, and repairing
/// together with a drift view.
pub proof fn law_the_doctor_names_what_it_does_not_know(args: Seq<Seq<char>>, k: int, fix: int)
    requires
        0 <= k < args.len(),
        0 <= fix < args.len(),
        forall|i: int|
            0 <= i < k ==> (#[trigger] args[i] == "--fix"@ || args[i]
                == "--transcript-format-drift"@ || args[i] == "--rate-card-staleness"@),
    ensures
        args[k] != "--fix"@ && args[k] != "--transcript-format-drift"@ && args[k]
            != "--rate-card-staleness"@ ==> doctor_asked(args) == Err::<DoctorRequest, ErrorView>(
            unknown(args[k]),
        ),
        args[fix] == "--fix"@ && (args[k] == "--transcript-format-drift"@ || args[k]
            == "--rate-card-staleness"@) ==> doctor_asked(args) is Err,
{
    lemma_doctor_known(args, 0);
    let known = doctor_known(args, 0);
    if args[k] != "--fix"@ && args[k] != "--transcript-format-drift"@ && args[k]
        != "--rate-card-staleness"@ {
        if known < k {
            assert(args[known] == "--fix"@ || asks_for_drift(args[known]));
        }
        if known > k {
            assert(asks_for_drift(args[k]) || args[k] == "--fix"@);
        }
        assert(known == k);
    }
    if args[k] == "--transcript-format-drift"@ || args[k] == "--rate-card-staleness"@ {
        assert(asks_for_drift(args[k]));
    }
}

} // verus!
