//! The command line: flag policies, parsing, help and the option readers.

use aub::cli::accounts::{
    name_busy_wait, sample_busy_policy, AccountConfig, Config, SamplingConfig,
};
use aub::cli::command::{Command, FlagSupport};
use aub::cli::compare::parse_percent;
use aub::cli::help::help_text;
use aub::cli::invocation::{parse_invocation, ExplainMode, Invocation, OutputFormat, Request};
use aub::cli::maintenance::{apply_set, resolve_config_file_path, Environment, Overrides};
use aub::cli::options::{coverage_window, export_flags, sample_options, ExportKey};
use aub::cli::reports::{
    attribution_quality_breach_error, format_ingest_progress_line, AttributionBreach,
    IngestProgress,
};
use aub::cli::sampling::{
    sampling_disposition_error, AccountDisposition, AccountReport, AttemptOutcome,
};
use aub::cli::window::{spend_options, RefreshPolicy, SpendGrouping};
use aub::domain::{MonotonicDuration, TokenKind, UtcTimestamp};
use aub::error::Error;

fn seconds(count: u64) -> MonotonicDuration {
    MonotonicDuration::from_nanos(count * 1_000_000_000)
}

fn args(items: &[&str]) -> Vec<Option<String>> {
    std::iter::once("aub")
        .chain(items.iter().copied())
        .map(|item| Some(item.to_string()))
        .collect()
}

fn percent(raw: &str) -> Result<u32, Error> {
    parse_percent("--surface-percent", raw).map(|ppm| ppm.get())
}

/// `aub sample` opens its ledger with the configured busy timeout, not a fixed
/// value: a configuration naming a wider one must reach the pragma policy.
#[test]
fn sample_busy_policy_reads_the_configured_busy_timeout_not_the_request_timeout() {
    // request_timeout is set too, to a different value: the policy must follow the
    // lock-wait key and not the provider-request one.
    let config = Config {
        sampling: SamplingConfig {
            default_interval: seconds(300),
            reset_edge_lead: seconds(60),
            command_budget: seconds(60),
            request_timeout: seconds(3),
            busy_timeout: seconds(17),
            max_concurrent_requests: 4,
        },
        meter_freshness: seconds(600),
        accounts: Vec::<AccountConfig>::new(),
    };
    assert_eq!(
        sample_busy_policy(&config).busy_timeout,
        seconds(17),
        "the sampler's busy timeout must track the configured value, not a fixed constant"
    );
}

/// The progress line's exact wording: files done of total, sessions and events
/// landed so far, elapsed, and the rate over the interval since the previous line.
#[test]
fn golden_ingest_progress_line_format() {
    let progress = IngestProgress {
        files_done: 100,
        files_total: 3830,
        sessions_written: 12,
        events_written: 4_567,
        elapsed: seconds(37),
        rate_events_per_sec: format!("{:.1}", 123.456),
    };
    assert_eq!(
        format_ingest_progress_line(&progress),
        "ingest transcripts: progress files=100/3830 sessions=12 events=4567 elapsed=37s rate=123.5/s"
    );
}

/// A breached floor becomes a threshold error naming the token kind; with no
/// floor configured nothing is breached and no error comes.
#[test]
fn doctor_maps_an_attribution_floor_breach_to_threshold_not_met() {
    let breaching = vec![AttributionBreach { kind: TokenKind::Input, recent: false }];
    match attribution_quality_breach_error(&breaching) {
        Some(Error::ThresholdNotMet(message)) => {
            assert!(
                message.contains("input"),
                "{message:?} must name the token kind"
            );
        }
        other => panic!("expected ThresholdNotMet, got {other:?}"),
    }
    assert!(attribution_quality_breach_error(&vec![]).is_none());
}

/// `now` and `sample` both turn a persistence-failing disposition into a
/// store-class error and render nothing after it.
#[test]
fn a_persistence_failing_disposition_becomes_a_store_error() {
    let recorded = || AccountReport {
        name: "work-a".to_string(),
        disposition: AccountDisposition::NotYet {
            next_due_at: UtcTimestamp::from_unix_nanos(1),
        },
    };
    assert!(sampling_disposition_error(&vec![recorded()]).is_ok());

    let persist_failed = AccountReport {
        name: "work-a".to_string(),
        disposition: AccountDisposition::PersistFailed {
            attempt_id: 7,
            outcome: AttemptOutcome::Success,
            reason: "disk full".to_string(),
        },
    };
    match sampling_disposition_error(&vec![recorded(), persist_failed]) {
        Err(Error::Store(message)) => {
            assert!(message.contains("durably preserved"), "{message:?}");
            assert!(message.contains("disk full"), "{message:?}");
        }
        other => panic!("PersistFailed must map to Error::Store, got {other:?}"),
    }
}

fn sample_invocation(account: Option<String>) -> Invocation {
    Invocation {
        command: Command::Sample,
        format: OutputFormat::Text,
        verbosity: 0,
        explain: ExplainMode::Off,
        account,
        model: None,
        no_color: false,
        rest: vec!["--all".to_string()],
    }
}

#[test]
fn sample_parser_refuses_all_naming_bare_form() {
    let inv = sample_invocation(None);
    let result = sample_options(&inv.rest, inv.account.is_some());
    match result {
        Err(Error::Usage(msg)) => {
            assert!(
                msg.contains("unknown argument: --all"),
                "expected unknown argument: --all, got {msg}"
            );
            assert!(
                msg.contains("run aub sample alone"),
                "expected bare form naming, got {msg}"
            );
        }
        other => panic!("expected Error::Usage, got {other:?}"),
    }
}

#[test]
fn sample_parser_refuses_all_with_account() {
    let inv = sample_invocation(Some("work-primary".to_string()));
    let result = sample_options(&inv.rest, inv.account.is_some());
    match result {
        Err(Error::Usage(msg)) => {
            assert!(
                msg.contains("unknown argument: --all"),
                "expected unknown argument: --all, got {msg}"
            );
            assert!(
                msg.contains("run aub sample alone"),
                "expected bare form naming, got {msg}"
            );
        }
        other => panic!("expected Error::Usage, got {other:?}"),
    }
}

/// The waited duration is named on the exact refusal `aub sample`
/// reproduces; every other store failure passes through with
/// its message untouched, so a caller cannot mistake an unrelated store
/// error for a busy-database refusal that happened to sit near one.
#[test]
fn name_busy_wait_names_the_duration_on_a_locked_database_refusal_and_leaves_others_alone() {
    let busy_timeout = MonotonicDuration::from_nanos(5_000 * 1_000_000);
    let locked = Error::Store(
        "cannot start sample run: database is locked (code 5, SQLITE_BUSY)".to_string(),
    );
    let named = name_busy_wait(locked, busy_timeout);
    assert!(
        matches!(named, Error::Store(ref m) if m.contains("waited up to 5000ms")),
        "{named:?}"
    );

    let unrelated_text = "cannot read pragma journal_mode: disk I/O error";
    let unchanged = name_busy_wait(Error::Store(unrelated_text.to_string()), busy_timeout);
    assert_eq!(unchanged.message(), unrelated_text);

    let other_class_text = "account 'work': authentication required";
    let unchanged_class = name_busy_wait(
        Error::AuthRequired(other_class_text.to_string()),
        busy_timeout,
    );
    assert_eq!(unchanged_class.message(), other_class_text);
}

// The record this feeds is immutable, so the parser is checked in both directions:
// the shapes an operator copies off the Console page land on the exact ppm, and
// anything outside a percentage is refused rather than rounded into a plausible row.
#[test]
fn compare_percent_flag_takes_what_the_surface_displays_and_refuses_the_rest() {
    assert_eq!(percent("21").unwrap(), 210_000);
    assert_eq!(percent("21.0").unwrap(), 210_000);
    assert_eq!(percent("21%").unwrap(), 210_000);
    assert_eq!(percent("0.5").unwrap(), 5_000);
    assert_eq!(percent("0").unwrap(), 0);
    assert_eq!(percent("100").unwrap(), 1_000_000);
    for bad in ["101", "-1", "abc", "250000", "nan", "inf"] {
        let err = percent(bad).expect_err(bad);
        assert!(
            matches!(err, Error::Usage(ref m) if m.contains("--surface-percent")),
            "{bad}: {err:?}"
        );
    }
}

/// `Command::ALL` must name every variant the enum declares. `DECLARED_VARIANTS`
/// is derived from the enum's own declaration by hand beside it, so the
/// two can only disagree when a variant joined the enum without joining `ALL`;
/// the failure names it. The equality assert after it pins identity and order
/// together, so a shortened or reordered `ALL` is loud, not silent.
#[test]
fn all_lists_every_declared_variant() {
    let missing: Vec<_> = Command::DECLARED_VARIANTS
        .iter()
        .filter(|variant| !Command::ALL.contains(variant))
        .collect();
    assert!(
        missing.is_empty(),
        "variant(s) missing from Command::ALL: {missing:?}"
    );
    assert_eq!(
        Command::ALL.to_vec(),
        Command::DECLARED_VARIANTS.to_vec(),
        "Command::ALL must keep the enum's declaration order"
    );
}

/// Every command declares a shared-flag policy, and the policy is well-formed:
/// verbosity is accepted everywhere, and a rejected `--format` states why rather
/// than rejecting silently.
#[test]
fn every_command_declares_a_shared_flag_policy() {
    for command in Command::ALL {
        let policy = command.flag_policy();
        assert_eq!(
            policy.verbosity,
            FlagSupport::Accepted,
            "{command:?} must accept verbosity"
        );
        for (flag, support) in [
            ("--format", policy.format),
            ("--explain", policy.explain),
            ("--account", policy.account),
            ("--model", policy.model),
            ("--no-color", policy.no_color),
        ] {
            if let FlagSupport::Rejected { reason } = support {
                assert!(
                    !reason.is_empty(),
                    "{command:?} rejects {flag} without a reason"
                );
            }
        }
    }
}

/// Every command declares whether it accepts or rejects `--explain`, and a
/// rejection states why rather than rejecting silently. The acceptance arm
/// pins the parser contract that the provenance work will enable.
#[test]
fn every_command_declares_an_explain_policy() {
    for command in Command::ALL {
        match command.flag_policy().explain {
            FlagSupport::Rejected { reason } => assert!(
                !reason.is_empty(),
                "{command:?} rejects --explain without a reason"
            ),
            FlagSupport::Accepted => {}
        }
    }
}

/// `--explain` is a parsed token for every command whose policy accepts it, and
/// the parser honours the policy: a rejection emits the policy's reason, an
/// acceptance lands as `ExplainMode::Summary` (or `Full` for `--explain=full`).
/// A planted negative is a policy row that says `Accepted` for a command
/// whose parser path ignores the flag, which this loop reports by name.
#[test]
fn the_parser_honours_the_explain_policy_for_every_command() {
    for command in Command::ALL {
        let result = parse_invocation(&args(&[command.name(), "--explain"]));
        match command.flag_policy().explain {
            FlagSupport::Accepted => match result {
                Ok(Request::Run(invocation)) => {
                    assert_eq!(
                        invocation.explain,
                        ExplainMode::Summary,
                        "{command:?} parsed --explain as something other than Summary"
                    );
                }
                other => panic!("{command:?} accepts --explain but parsed as {other:?}"),
            },
            FlagSupport::Rejected { reason } => match result {
                Err(Error::Usage(message)) => {
                    assert!(message.contains(reason), "{command:?}: {message}")
                }
                other => panic!("{command:?} rejects --explain but parsed as {other:?}"),
            },
        }
    }
}

/// `--explain=full` and `--explain=garbage` are both refused for a command
/// whose policy rejects the flag, with the policy's reason: the rejection
/// takes precedence over value validation, so a rejecting command never
/// accepts a value it cannot render.
#[test]
fn explain_values_are_refused_where_the_policy_rejects_the_flag() {
    for value in ["--explain=full", "--explain=garbage"] {
        let result = parse_invocation(&args(&["config", value]));
        match result {
            Err(Error::Usage(message)) => {
                assert!(
                    message.contains("does not accept --explain"),
                    "{value} must be refused with the policy's reason: {message}"
                );
                assert!(
                    message.contains("omit the flag"),
                    "{value} must name the next action: {message}"
                );
            }
            other => panic!("{value} must be refused, got: {other:?}"),
        }
    }
}

/// For commands whose policy accepts `--explain`, `--explain` and `--explain=summary`
/// yield `ExplainMode::Summary`, `--explain=full` yields `ExplainMode::Full`,
/// and invalid values are rejected with actionable guidance.
#[test]
fn explain_values_are_validated_where_the_policy_accepts_the_flag() {
    for cmd in ["status", "spend"] {
        for val in ["--explain", "--explain=summary"] {
            let parsed = parse_invocation(&args(&[cmd, val])).expect("valid explain summary");
            let Request::Run(inv) = parsed else {
                panic!("expected Request::Run, got {parsed:?}")
            };
            assert_eq!(inv.explain, ExplainMode::Summary);
        }
        let parsed_full =
            parse_invocation(&args(&[cmd, "--explain=full"])).expect("valid explain full");
        let Request::Run(inv) = parsed_full else {
            panic!("expected Request::Run, got {parsed_full:?}")
        };
        assert_eq!(inv.explain, ExplainMode::Full);
        let err = parse_invocation(&args(&[cmd, "--explain=invalid"]))
            .expect_err("invalid explain value must error");
        let Error::Usage(msg) = err else {
            panic!("expected Error::Usage, got {err:?}")
        };
        assert!(msg.contains("is not one of summary or full"), "{msg}");
        assert!(msg.contains("use --explain or --explain=full"), "{msg}");
    }
}

/// `--account` is a parsed token for every command, and the parser honours the
/// policy: a rejection emits the policy's reason, an acceptance lands as the
/// invocation's account. Status is the one command that accepts it, and the
/// selector is why.
#[test]
fn the_parser_honours_the_account_policy_for_every_command() {
    for command in Command::ALL {
        let result = parse_invocation(&args(&[command.name(), "--account", "work-a"]));
        match command.flag_policy().account {
            FlagSupport::Accepted => match result {
                Ok(Request::Run(invocation)) => {
                    assert_eq!(
                        invocation.account.as_deref(),
                        Some("work-a"),
                        "{command:?} parsed --account as something other than the value"
                    );
                }
                other => panic!("{command:?} accepts --account but parsed as {other:?}"),
            },
            FlagSupport::Rejected { reason } => match result {
                Err(Error::Usage(message)) => {
                    assert!(message.contains(reason), "{command:?}: {message}")
                }
                other => panic!("{command:?} rejects --account but parsed as {other:?}"),
            },
        }
    }
}

#[test]
fn coverage_selectors_accept_both_since_spellings_and_compose_with_account() {
    let parsed = parse_invocation(&args(&[
        "coverage",
        "--account",
        "research",
        "--severe",
        "--since=30d",
    ]))
    .expect("coverage selectors must parse");
    let Request::Run(invocation) = parsed else {
        panic!("coverage must produce an invocation")
    };
    assert_eq!(invocation.account.as_deref(), Some("research"));
    let window = coverage_window(&invocation.rest).expect("selectors must be valid");
    assert_eq!(window.since, seconds(30 * 86_400));
    assert_eq!(window.description, "30d");
    assert!(window.severe_only);

    let spaced = coverage_window(&vec!["--since".to_string(), "2h".to_string()])
        .expect("the spaced since form must parse");
    assert_eq!(spaced.since, seconds(2 * 3_600));
    assert_eq!(spaced.description, "2h");

    match coverage_window(&vec!["--since=forever".to_string()]) {
        Err(Error::Usage(_)) => {}
        Err(error) => panic!("an invalid coverage interval must be a usage error: {error:?}"),
        Ok(_) => panic!("an invalid coverage interval must be refused"),
    }
}

/// `--model` is a parsed token for every command, both the `--model M` and
/// `--model=M` spellings, and the parser honours the policy: status is the
/// one command that accepts it, and the window selection is why.
#[test]
fn the_parser_honours_the_model_policy_for_every_command() {
    for spelling in [
        vec!["--model", "model-x"],
        vec!["--model=model-x"],
    ] {
        let mut argv = vec![Command::Status.name()];
        argv.extend(spelling);
        let result = parse_invocation(&args(&argv));
        match result {
            Ok(Request::Run(invocation)) => assert_eq!(
                invocation.model.as_deref(),
                Some("model-x"),
                "status must parse --model as the value: {invocation:?}"
            ),
            other => panic!("status accepts --model but parsed as {other:?}"),
        }
    }

    for command in Command::ALL {
        if command == Command::Status {
            continue;
        }
        let result = parse_invocation(&args(&[command.name(), "--model", "m"]));
        match command.flag_policy().model {
            FlagSupport::Rejected { reason } => match result {
                Err(Error::Usage(message)) => {
                    assert!(message.contains(reason), "{command:?}: {message}")
                }
                other => panic!("{command:?} rejects --model but parsed as {other:?}"),
            },
            FlagSupport::Accepted => {
                panic!("{command:?} declares --model accepted but status is the only selector")
            }
        }
    }
}

/// `--no-color` is a parsed token for every command, and the parser honours
/// the policy: a rejection emits the policy's reason, an acceptance lands as
/// the invocation's no_color. No command accepts it yet, so the rejection
/// arm is the one that fires.
#[test]
fn the_parser_honours_the_no_color_policy_for_every_command() {
    for command in Command::ALL {
        let result = parse_invocation(&args(&[command.name(), "--no-color"]));
        match command.flag_policy().no_color {
            FlagSupport::Accepted => match result {
                Ok(Request::Run(invocation)) => {
                    assert!(
                        invocation.no_color,
                        "{command:?} parsed --no-color as false"
                    );
                }
                other => panic!("{command:?} accepts --no-color but parsed as {other:?}"),
            },
            FlagSupport::Rejected { reason } => match result {
                Err(Error::Usage(message)) => {
                    assert!(message.contains(reason), "{command:?}: {message}")
                }
                other => panic!("{command:?} rejects --no-color but parsed as {other:?}"),
            },
        }
    }
}

/// Help states, for every shipping command, the question it answers, the
/// shared flags it refuses and why, and the formats it accepts - the refusal
/// lines derived from the same policy the parser enforces.
#[test]
fn help_states_question_refusal_and_format_for_every_command() {
    let help = help_text();
    for command in Command::ALL {
        let Some(_summary) = command.summary() else {
            assert!(
                command.question().is_none(),
                "{command:?} is hidden but exposes a help question"
            );
            continue;
        };
        let question = command
            .question()
            .unwrap_or_else(|| panic!("{command:?} has no help question"));
        assert!(
            help.contains(question),
            "{command:?} help must state its question"
        );
        let refused_flags = command.refused_flags();
        assert!(
            !refused_flags.is_empty(),
            "{command:?} help has no refusal boundary"
        );
        for refused in refused_flags {
            assert!(
                help.contains(&refused),
                "{command:?} help must state the refusal: {refused}"
            );
        }
        assert!(
            help.contains(&command.format_help()),
            "{command:?} help must state its format support"
        );
    }
}

/// The parser honours the flag policy for every command, checked against the
/// parser rather than the table: `--format json` is accepted exactly where the
/// policy says `Accepted` and refused with the policy's reason elsewhere. The
/// planted negative is a policy row that says `Accepted` for a command whose
/// parser path ignores the flag, which this loop would report by name.
#[test]
fn the_parser_honours_the_format_policy_for_every_command() {
    for command in Command::ALL {
        let result = parse_invocation(&args(&[command.name(), "--format", "json"]));
        match command.flag_policy().format {
            FlagSupport::Accepted => match result {
                Ok(Request::Run(invocation)) => {
                    assert_eq!(invocation.format, OutputFormat::Json, "{command:?}");
                    assert!(
                        invocation.rest.is_empty(),
                        "{command:?} left the flag unread"
                    );
                }
                other => panic!("{command:?} accepts --format but parsed as {other:?}"),
            },
            FlagSupport::Rejected { reason } => match result {
                Err(Error::Usage(message)) => {
                    assert!(message.contains(reason), "{command:?}: {message}")
                }
                other => panic!("{command:?} rejects --format but parsed as {other:?}"),
            },
        }
    }
}

/// Verbosity has one spelling and one meaning on every command. The parser
/// accepts `-v` before or after the command and each occurrence raises the
/// same counter by one.
#[test]
fn verbosity_has_uniform_spelling_and_semantics() {
    for command in Command::ALL {
        assert_eq!(command.flag_policy().verbosity, FlagSupport::Accepted);
        let before = parse_invocation(&args(&["-v", command.name()])).unwrap();
        let after = parse_invocation(&args(&[command.name(), "-v", "-v"])).unwrap();
        match (before, after) {
            (Request::Run(before), Request::Run(after)) => {
                assert_eq!(before.verbosity, 1, "{command:?}");
                assert_eq!(after.verbosity, 2, "{command:?}");
            }
            other => panic!("{command:?} did not parse verbosity uniformly: {other:?}"),
        }
    }
}

#[test]
fn help_and_version_are_recognised_and_unknown_arguments_are_named() {
    assert_eq!(parse_invocation(&args(&["--help"])).unwrap(), Request::Help);
    assert_eq!(parse_invocation(&args(&["-h"])).unwrap(), Request::Help);
    assert_eq!(
        parse_invocation(&args(&["--version"])).unwrap(),
        Request::Version
    );
    assert_eq!(parse_invocation(&args(&[])).unwrap(), Request::Version);
    match parse_invocation(&args(&["--definitely-not-a-flag"])) {
        Err(Error::Usage(message)) => assert!(message.contains("--definitely-not-a-flag")),
        other => panic!("{other:?}"),
    }
    let help = help_text();
    for command in Command::ALL {
        match command.summary() {
            Some(_) => assert!(
                help.contains(command.name()),
                "{command:?} missing from help"
            ),
            None => assert!(!help.contains(command.name()), "{command:?} is a hook"),
        }
    }
}

/// The spend window: today by default, `--since` with `--days`, and a malformed
/// date refused rather than guessed.
#[test]
fn spend_options_default_to_the_utc_day_and_read_grouping_and_refresh_flags() {
    let now = UtcTimestamp::parse_rfc3339("2026-08-30T23:30:00Z").unwrap();
    let today = spend_options(&vec![], now).unwrap();
    assert_eq!(today.window.since.iso(), "2026-08-30");
    assert_eq!(today.window.until.iso(), "2026-08-31");
    assert_eq!(today.grouping, vec![SpendGrouping::Day]);
    assert_eq!(today.refresh, RefreshPolicy::Auto);
    let explicit = spend_options(
        &vec![
            "--since".into(),
            "2026-08-25".into(),
            "--days".into(),
            "3".into(),
            "--group-by=session".into(),
            "--group-by".into(),
            "repository".into(),
            "--refresh=never".into(),
        ],
        now,
    )
    .unwrap();
    assert_eq!(explicit.window.since.iso(), "2026-08-25");
    assert_eq!(explicit.window.until.iso(), "2026-08-28");
    assert_eq!(
        explicit.grouping,
        vec![SpendGrouping::Session, SpendGrouping::Repository]
    );
    assert_eq!(explicit.refresh, RefreshPolicy::Never);
    assert!(spend_options(&vec!["--since".into(), "25/08/2026".into()], now).is_err());
    assert!(spend_options(&vec!["--days".into(), "0".into()], now).is_err());
    assert_eq!(
        spend_options(&vec!["--group-by=account".into()], now)
            .unwrap()
            .grouping,
        vec![SpendGrouping::Account]
    );
    assert_eq!(
        spend_options(&vec!["--group-by=task".into()], now)
            .unwrap()
            .grouping,
        vec![SpendGrouping::Task]
    );
    assert!(spend_options(&vec!["--group-by=model".into()], now).is_err());
    assert!(spend_options(&vec!["--bogus".into()], now).is_err());
}

#[test]
fn apply_set_parses_a_well_formed_key_value_pair() {
    let overrides = apply_set(Overrides::new(), "state.dir=/x").unwrap();
    // Overrides has no public getter (it is consumed directly by resolve()); the
    // round trip through resolve is what config's own tests exercise. This test
    // only proves apply_set itself does not reject a well-formed pair.
    let _ = overrides;
}

#[test]
fn apply_set_rejects_a_pair_with_no_equals_sign() {
    assert!(apply_set(Overrides::new(), "state.dir").is_err());
}

/// The export flags: both `--key` spellings, the logical-identifier flag
/// defaulting off, and the near-identical negatives each naming what they
/// refused: a missing key, an unknown key value, a repeated key, and an
/// argument the command does not own.
#[test]
fn export_flags_read_the_key_and_the_logical_id_flag() {
    let (key, ids) = export_flags(&vec!["--key".into(), "session-id".into()]).unwrap();
    assert_eq!(key, ExportKey::Session);
    assert!(!ids, "logical ids are opt-in, never default");

    let (key, ids) =
        export_flags(&vec!["--key=run-id".into(), "--include-logical-ids".into()]).unwrap();
    assert_eq!(key, ExportKey::Run);
    assert!(ids);

    for (rest, expected) in [
        (vec![], "--key session-id"),
        (vec!["--key".to_string(), "bogus".to_string()], "bogus"),
        (vec!["--key".to_string()], "--key requires"),
        (
            vec![
                "--key".to_string(),
                "run-id".to_string(),
                "--key".to_string(),
                "session-id".to_string(),
            ],
            "more than once",
        ),
        (
            vec![
                "--key".to_string(),
                "run-id".to_string(),
                "--bogus".to_string(),
            ],
            "--bogus",
        ),
    ] {
        match export_flags(&rest) {
            Err(Error::Usage(message)) => {
                assert!(
                    message.contains(expected),
                    "{message:?} must name {expected:?}"
                )
            }
            other => panic!("expected a usage error naming {expected:?}, got {other:?}"),
        }
    }
}

#[test]
fn resolve_config_file_path_prefers_the_flag_over_the_environment_and_default() {
    let env = Environment::new()
        .set("HOME".to_string(), "/tmp/home".to_string())
        .set("AUB_CONFIG_FILE".to_string(), "/from/env.toml".to_string());
    assert_eq!(
        resolve_config_file_path(Some("/from/flag.toml"), &env),
        "/from/flag.toml"
    );
}

#[test]
fn resolve_config_file_path_falls_back_to_the_environment_variable() {
    let env = Environment::new()
        .set("HOME".to_string(), "/tmp/home".to_string())
        .set("AUB_CONFIG_FILE".to_string(), "/from/env.toml".to_string());
    assert_eq!(resolve_config_file_path(None, &env), "/from/env.toml");
}

#[test]
fn resolve_config_file_path_falls_back_to_the_non_identifying_default() {
    let env = Environment::new().set("HOME".to_string(), "/tmp/synthetic-home".to_string());
    assert_eq!(
        resolve_config_file_path(None, &env),
        "/tmp/synthetic-home/.config/aub/config.toml"
    );
}

/// The negative that keeps the scan above a test rather than a ritual: a
/// function body that does name the store fails the same scan.
#[test]
fn the_status_contract_scan_catches_a_forbidden_reference() {
    // The poisoned sample spells the violation in this scanner's
    // vocabulary but not in the literal the store-connection boundary
    // rule greps for, so the negative never trips that rule on this file.
    let poisoned = "fn status() { let probe = crate::store::connection::open(); }";
    assert!(function_body(poisoned, "fn status(").contains("store::connection"));
}

#[test]
fn clear_diagnostics_alias_clear_captures_is_recognised() {
    let req1 = parse_invocation(&args(&["clear-diagnostics"])).unwrap();
    let req2 = parse_invocation(&args(&["clear-captures"])).unwrap();
    match (req1, req2) {
        (Request::Run(inv1), Request::Run(inv2)) => {
            assert_eq!(inv1.command, Command::ClearDiagnostics);
            assert_eq!(inv2.command, Command::ClearDiagnostics);
        }
        other => panic!("expected Request::Run for both aliases, got {other:?}"),
    }
}

#[test]
fn clear_diagnostics_accepts_format_and_provider_and_all() {
    let req = parse_invocation(&args(&[
        "clear-diagnostics",
        "--format",
        "json",
        "--provider",
        "anthropic",
    ]))
    .unwrap();
    match req {
        Request::Run(inv) => {
            assert_eq!(inv.format, OutputFormat::Json);
            assert_eq!(
                inv.rest,
                vec!["--provider".to_string(), "anthropic".to_string()]
            );
        }
        other @ (Request::Version | Request::Help) => {
            panic!("unexpected parse result: {other:?}")
        }
    }
}

#[test]
fn sample_options_help_does_not_mention_all() {
    let options = Command::Sample
        .options_help()
        .expect("sample has options help");
    assert!(
        !options.contains("--all"),
        "sample options must not mention --all: {options}"
    );
    let clear_options = Command::ClearDiagnostics
        .options_help()
        .expect("clear-diagnostics has options help");
    assert!(
        clear_options.contains("--all"),
        "clear-diagnostics must keep --all: {clear_options}"
    );
}

/// The body of one function in a source text: from its declaration to the
/// next top-level `fn`, or to the end of the text.
fn function_body(source: &str, declaration: &str) -> String {
    let start = source
        .find(declaration)
        .unwrap_or_else(|| panic!("the source must declare {declaration}"));
    let rest = &source[start..];
    let end = rest[declaration.len()..]
        .find("\nfn ")
        .map(|offset| offset + declaration.len() + 1)
        .unwrap_or(rest.len());
    rest[..end].to_string()
}
