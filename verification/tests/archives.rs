//! Backups, restores, drills and imports: what is asked for, and what is said of it.

use aub::cli::archives::{
    archive_line, backup_request, drill_outcome, import_backup, import_line, import_request,
    parse_drill_args, parse_restore_args, publishes_projection, render_drill_report,
    render_restore_summary, terminal_outcome, ArchiveSummary, BackupRequest, DamageCase,
    DrillArgs, DrillReport, ImportKind, ImportSummary, ReplayCounts, RestoreSummary, StepOutcome,
    Unrecovered,
};
use aub::error::Error;

fn words(items: &[&str]) -> Vec<String> {
    items.iter().map(|item| item.to_string()).collect()
}

fn usage(message: &str) -> Error {
    Error::Usage(message.to_string())
}

#[test]
fn a_backup_is_created_verified_or_restored() {
    assert_eq!(
        backup_request(&words(&["/b"])),
        Ok(BackupRequest::Create { destination: "/b".to_string() })
    );
    assert_eq!(
        backup_request(&words(&["verify", "/b"])),
        Ok(BackupRequest::Verify { destination: "/b".to_string() })
    );
    match backup_request(&words(&["restore", "/b", "/d", "--surviving", "/s"])) {
        Ok(BackupRequest::Restore(args)) => {
            assert_eq!(args.archive, "/b");
            assert_eq!(args.destination, "/d");
            assert_eq!(args.surviving.as_deref(), Some("/s"));
        }
        other => panic!("expected a restore, got {other:?}"),
    }
}

/// What cannot be understood is quoted in the refusal, quotation marks escaped.
#[test]
fn refusals_quote_what_was_given() {
    assert_eq!(
        backup_request(&words(&["a", "say \"b\""])),
        Err(usage(
            "backup requires DEST, `verify DEST` or `restore ARCHIVE DEST`, got [\"a\", \"say \\\"b\\\"\"]"
        ))
    );
    assert_eq!(
        backup_request(&vec![]),
        Err(usage(
            "backup requires DEST, `verify DEST` or `restore ARCHIVE DEST`, got []"
        ))
    );
    assert_eq!(
        parse_drill_args(&words(&["--seed"])),
        Err(usage(
            "drill requires `--seed CASE SCRATCH_DEST` or `--archive ARCHIVE SCRATCH_DEST`, got [\"--seed\"]"
        ))
    );
}

#[test]
fn restore_arguments_are_read_from_their_place() {
    assert_eq!(
        parse_restore_args(&words(&["restore"]), 1),
        Err(usage("restore requires ARCHIVE and DEST"))
    );
    assert_eq!(
        parse_restore_args(&words(&["a"]), 0),
        Err(usage("restore requires ARCHIVE and DEST"))
    );
    assert_eq!(
        parse_restore_args(&words(&["a", "d", "--surviving"]), 0),
        Err(usage("--surviving requires the surviving directory"))
    );
    assert_eq!(
        parse_restore_args(&words(&["a", "d", "--surviving", "s", "--surviving", "t"]), 0),
        Err(usage("--surviving was given twice"))
    );
    assert_eq!(
        parse_restore_args(&words(&["a", "d", "x"]), 0),
        Err(usage(
            "restore takes ARCHIVE DEST and --surviving DIR, got [\"x\"]"
        ))
    );
}

#[test]
fn drills_are_seeded_or_run_on_an_archive() {
    for (name, case) in [
        ("truncated-database", DamageCase::TruncatedDatabase),
        ("corrupted-projection", DamageCase::CorruptedProjection),
        ("malformed-spool-record", DamageCase::MalformedSpoolRecord),
        ("unsupported-schema-version", DamageCase::UnsupportedSchemaVersion),
    ] {
        assert_eq!(
            parse_drill_args(&words(&["--seed", name, "/scratch"])),
            Ok(DrillArgs::Seed { case, scratch: "/scratch".to_string() })
        );
    }
    assert_eq!(
        parse_drill_args(&words(&["--archive", "/a", "/scratch"])),
        Ok(DrillArgs::Archive { archive: "/a".to_string(), scratch: "/scratch".to_string() })
    );
    assert_eq!(
        parse_drill_args(&words(&["--seed", "fire", "/scratch"])),
        Err(usage(
            "--seed fire is not a known damage case; use truncated-database, corrupted-projection, malformed-spool-record or unsupported-schema-version"
        ))
    );
}

fn archive(verified: bool) -> ArchiveSummary {
    ArchiveSummary {
        verified,
        schema_version: 7,
        ledger_generation: 42,
        pending_records: 3,
        drain_completed: false,
        destination: "/backups/one".to_string(),
    }
}

#[test]
fn an_archive_is_summed_up_in_one_line() {
    assert_eq!(
        archive_line(&archive(true)),
        "backup: verified=true schema=7 generation=42 pending=3 drain_completed=false destination=/backups/one"
    );
}

#[test]
fn imports_need_a_verified_backup() {
    assert_eq!(
        import_backup(ImportKind::SeedArchive, &archive(true)),
        Ok("archive-v7-g42".to_string())
    );
    assert_eq!(
        import_backup(ImportKind::LegacyMeter, &archive(true)),
        Ok("archive-v7-g42".to_string())
    );
    assert_eq!(
        import_backup(ImportKind::SeedArchive, &archive(false)),
        Err(Error::Store(
            "seed archive import requires a verified backup archive".to_string()
        ))
    );
    assert_eq!(
        import_backup(ImportKind::LegacyMeter, &archive(false)),
        Err(Error::Store(
            "legacy import requires a verified backup archive".to_string()
        ))
    );
}

#[test]
fn imports_name_a_source_and_a_backup() {
    let request = import_request(&words(&["seed-archive", "--source", "s", "--backup", "b"]));
    let request = request.unwrap();
    assert_eq!(request.kind, ImportKind::SeedArchive);
    assert_eq!(request.source, "s");
    assert_eq!(request.backup, "b");
    assert_eq!(
        import_request(&words(&["legacy-meter", "--source", "s"])).map(|_| ()),
        Err(usage(
            "import legacy-meter requires --source PATH and --backup VERIFIED_ARCHIVE"
        ))
    );
    assert_eq!(
        import_request(&words(&["legacy-meter", "--sauce", "s"])).map(|_| ()),
        Err(usage("unknown import argument: --sauce"))
    );
    assert_eq!(
        import_request(&words(&["other"])).map(|_| ()),
        Err(usage(
            "import requires either the `legacy-meter` or `seed-archive` subcommand"
        ))
    );
}

fn counts(imported: u64, unchanged: u64, quarantined: u64) -> ImportSummary {
    ImportSummary { imported, unchanged, quarantined }
}

#[test]
fn an_import_ends_in_one_word() {
    assert_eq!(terminal_outcome(counts(0, 5, 1)), "quarantined");
    assert_eq!(terminal_outcome(counts(2, 5, 1)), "imported");
    assert_eq!(terminal_outcome(counts(0, 5, 0)), "unchanged");
    assert_eq!(terminal_outcome(counts(0, 0, 0)), "empty");
    assert!(publishes_projection(counts(1, 0, 0)));
    assert!(!publishes_projection(counts(0, 9, 9)));
    assert_eq!(
        import_line(ImportKind::SeedArchive, "d1", "archive-v7-g42", 8, counts(2, 5, 1)),
        "seed-archive import: source_digest=d1 verified_backup_id=archive-v7-g42 records_read=8 imported=2 unchanged=5 quarantined=1 terminal_outcome=imported"
    );
    assert_eq!(
        import_line(ImportKind::LegacyMeter, "d1", "archive-v7-g42", 8, counts(2, 5, 1)),
        "legacy-meter import: source_digest=d1 verified_backup_id=archive-v7-g42 records_read=8 imported=2 unchanged=5 quarantined=1"
    );
}

fn restored(surviving: bool) -> RestoreSummary {
    RestoreSummary {
        destination: "/d".to_string(),
        archive_verified: true,
        schema_version: 7,
        ledger_generation: 42,
        pending_restored: 3,
        migrations_applied: 1,
        observation_count: 12,
        archive_replay: ReplayCounts { applied: 2, already_applied: 1, quarantined: 0 },
        surviving_replay: if surviving {
            Some(ReplayCounts { applied: 0, already_applied: 4, quarantined: 1 })
        } else {
            None
        },
        projection_recovery: StepOutcome {
            disposition: "skipped".to_string(),
            reason: "none".to_string(),
        },
        transcript_recovery: StepOutcome {
            disposition: "manual".to_string(),
            reason: "later".to_string(),
        },
        unrecovered: vec![Unrecovered {
            source: "archive".to_string(),
            file_name: "x.json".to_string(),
            reason: "torn".to_string(),
        }],
    }
}

#[test]
fn a_restore_is_reported_line_by_line() {
    let lines = render_restore_summary(&restored(true));
    assert_eq!(
        lines,
        words(&[
            "restore: destination=/d archive_verified=true schema=7 generation=42 pending_restored=3 migrations_applied=1 observations=12 unrecovered=1 integrity=ok foreign_keys=ok",
            "replay: source=archive applied=2 already_applied=1 quarantined=0",
            "replay: source=surviving applied=0 already_applied=4 quarantined=1",
            "projection: skipped (none)",
            "transcripts: manual (later)",
            "unrecovered: archive x.json torn",
        ])
    );
    assert_eq!(render_restore_summary(&restored(false)).len(), 5);
}

#[test]
fn a_drill_says_whether_it_passed() {
    let mut report = DrillReport {
        source: "truncated-database".to_string(),
        scratch_destination: "/scratch".to_string(),
        restore: restored(false),
        damaged_directory_preserved: Some(true),
        projection_deterministic: None,
        passed: true,
    };
    let lines = render_drill_report(&report);
    assert_eq!(
        lines[0],
        "drill: source=truncated-database scratch_destination=/scratch"
    );
    assert_eq!(lines[6], "drill: damaged_directory_preserved=true");
    assert_eq!(lines[7], "drill: passed=true");
    assert_eq!(lines.len(), 8);
    assert_eq!(drill_outcome(&report), Ok(()));
    report.passed = false;
    assert_eq!(
        drill_outcome(&report),
        Err(Error::Store(
            "drill: the recovered state failed one of the drill's own checks; see the lines above"
                .to_string()
        ))
    );
}
