//! Backups, restores, drills and imports: how they are asked for, what is refused, and
//! the lines that report them.

use crate::cli::options::usage_about;
use crate::cli::quoting::{quote_list, quoted_list};
use crate::error::{Error, ErrorView};
use crate::sets::texts;
use crate::text::{decimal, decimal_text, optional, same_text};
use vstd::prelude::*;
use vstd::string::*;

verus! {

/// What a restore was asked for.
#[derive(Debug, Clone, PartialEq, Eq)]
pub struct RestoreArgs {
    pub archive: String,
    pub destination: String,
    pub surviving: Option<String>,
}

/// What the arguments of a restore from a position on make of what was read before: the
/// surviving directory, and what belongs nowhere.
pub open spec fn restore_from(
    args: Seq<Seq<char>>,
    i: int,
    surviving: Option<Seq<char>>,
    extra: Seq<Seq<char>>,
) -> Result<Option<Seq<char>>, ErrorView>
    decreases args.len() - i,
{
    if i >= args.len() {
        if extra.len() > 0 {
            Err(
                ErrorView::Usage(
                    "restore takes ARCHIVE DEST and --surviving DIR, got "@ + quoted_list(extra),
                ),
            )
        } else {
            Ok(surviving)
        }
    } else if args[i] == "--surviving"@ {
        if surviving is Some {
            Err(ErrorView::Usage("--surviving was given twice"@))
        } else if i + 1 >= args.len() {
            Err(ErrorView::Usage("--surviving requires the surviving directory"@))
        } else {
            restore_from(args, i + 2, Some(args[i + 1]), extra)
        }
    } else {
        restore_from(args, i + 1, surviving, extra.push(args[i]))
    }
}

/// Reads the arguments of a restore, from a position on: the archive, the destination,
/// and perhaps what survived.
pub fn parse_restore_args(rest: &Vec<String>, from: usize) -> (restore: Result<RestoreArgs, Error>)
    requires
        from <= rest@.len(),
    ensures
        ({
            let args = texts(rest@);
            if args.len() - from < 2 {
                restore matches Err(e) && e@ == ErrorView::Usage(
                    "restore requires ARCHIVE and DEST"@,
                )
            } else {
                match restore {
                    Ok(r) => {
                        &&& r.archive@ == args[from as int]
                        &&& r.destination@ == args[from + 1]
                        &&& restore_from(args, from + 2, None, Seq::empty()) == Ok::<
                            Option<Seq<char>>,
                            ErrorView,
                        >(optional(r.surviving))
                    },
                    Err(e) => restore_from(args, from + 2, None, Seq::empty()) == Err::<
                        Option<Seq<char>>,
                        ErrorView,
                    >(e@),
                }
            }
        }),
{
    let total: usize = rest.len();
    let ghost args = texts(rest@);
    if total - from < 2 {
        return Err(Error::Usage("restore requires ARCHIVE and DEST".to_owned()));
    }
    let archive: String = rest[from].clone();
    let destination: String = rest[from + 1].clone();
    assert(args[from as int] == archive@ && args[from + 1] == destination@);
    let mut surviving: Option<String> = None;
    let mut extra: Vec<String> = Vec::new();
    let mut i: usize = from + 2;
    assert(texts(extra@) =~= Seq::<Seq<char>>::empty());
    while i < total
        invariant
            total == rest@.len(),
            args == texts(rest@),
            restore_from(args, from + 2, None, Seq::empty()) == restore_from(
                args,
                i as int,
                optional(surviving),
                texts(extra@),
            ),
        decreases total - i,
    {
        assert(args[i as int] == rest@[i as int]@);
        if same_text(rest[i].as_str(), "--surviving") {
            if surviving.is_some() {
                return Err(Error::Usage("--surviving was given twice".to_owned()));
            }
            if total - i < 2 {
                return Err(
                    Error::Usage("--surviving requires the surviving directory".to_owned()),
                );
            }
            assert(args[i + 1] == rest@[i + 1]@);
            surviving = Some(rest[i + 1].clone());
            i = i + 2;
        } else {
            let ghost before = extra@;
            extra.push(rest[i].clone());
            assert(texts(extra@) =~= texts(before).push(args[i as int]));
            i = i + 1;
        }
    }
    assert(texts(extra@).len() == extra@.len());
    if extra.len() > 0 {
        let mut message: String = "restore takes ARCHIVE DEST and --surviving DIR, got ".to_owned();
        message.append(quote_list(&extra).as_str());
        return Err(Error::Usage(message));
    }
    Ok(RestoreArgs { archive, destination, surviving })
}

/// What a backup command was asked for.
#[derive(Debug, Clone, PartialEq, Eq)]
pub enum BackupRequest {
    Create { destination: String },
    Verify { destination: String },
    Restore(RestoreArgs),
}

/// Reads what a backup command was asked for: a destination alone makes an archive
/// there.
pub fn backup_request(rest: &Vec<String>) -> (request: Result<BackupRequest, Error>)
    ensures
        ({
            let args = texts(rest@);
            if args.len() > 0 && args[0] == "restore"@ {
                if args.len() < 3 {
                    request matches Err(e) && e@ == ErrorView::Usage(
                        "restore requires ARCHIVE and DEST"@,
                    )
                } else {
                    match request {
                        Ok(r) => {
                            &&& r matches BackupRequest::Restore(restore)
                            &&& restore.archive@ == args[1]
                            &&& restore.destination@ == args[2]
                            &&& restore_from(args, 3, None, Seq::empty()) == Ok::<
                                Option<Seq<char>>,
                                ErrorView,
                            >(optional(restore.surviving))
                        },
                        Err(e) => restore_from(args, 3, None, Seq::empty()) == Err::<
                            Option<Seq<char>>,
                            ErrorView,
                        >(e@),
                    }
                }
            } else if args.len() == 1 {
                request matches Ok(BackupRequest::Create { destination }) && destination@
                    == args[0]
            } else if args.len() == 2 && args[0] == "verify"@ {
                request matches Ok(BackupRequest::Verify { destination }) && destination@
                    == args[1]
            } else {
                request matches Err(e) && e@ == ErrorView::Usage(
                    "backup requires DEST, `verify DEST` or `restore ARCHIVE DEST`, got "@
                        + quoted_list(args),
                )
            }
        }),
{
    let total: usize = rest.len();
    if total > 0 && same_text(rest[0].as_str(), "restore") {
        return match parse_restore_args(rest, 1) {
            Ok(restore) => Ok(BackupRequest::Restore(restore)),
            Err(error) => Err(error),
        };
    }
    if total == 1 {
        return Ok(BackupRequest::Create { destination: rest[0].clone() });
    }
    if total == 2 && same_text(rest[0].as_str(), "verify") {
        return Ok(BackupRequest::Verify { destination: rest[1].clone() });
    }
    let mut message: String =
        "backup requires DEST, `verify DEST` or `restore ARCHIVE DEST`, got ".to_owned();
    message.append(quote_list(rest).as_str());
    Err(Error::Usage(message))
}

/// A way in which a drill damages a state directory.
#[derive(Debug, Clone, Copy, PartialEq, Eq, Structural)]
pub enum DamageCase {
    TruncatedDatabase,
    CorruptedProjection,
    MalformedSpoolRecord,
    UnsupportedSchemaVersion,
}

impl DamageCase {
    /// The damage that goes by a name.
    pub open spec fn named(name: Seq<char>) -> Option<DamageCase> {
        if name == "truncated-database"@ {
            Some(DamageCase::TruncatedDatabase)
        } else if name == "corrupted-projection"@ {
            Some(DamageCase::CorruptedProjection)
        } else if name == "malformed-spool-record"@ {
            Some(DamageCase::MalformedSpoolRecord)
        } else if name == "unsupported-schema-version"@ {
            Some(DamageCase::UnsupportedSchemaVersion)
        } else {
            None
        }
    }

    /// The damage that goes by a name.
    pub fn from_name(name: &str) -> (case: Option<DamageCase>)
        ensures
            case == DamageCase::named(name@),
    {
        if same_text(name, "truncated-database") {
            Some(DamageCase::TruncatedDatabase)
        } else if same_text(name, "corrupted-projection") {
            Some(DamageCase::CorruptedProjection)
        } else if same_text(name, "malformed-spool-record") {
            Some(DamageCase::MalformedSpoolRecord)
        } else if same_text(name, "unsupported-schema-version") {
            Some(DamageCase::UnsupportedSchemaVersion)
        } else {
            None
        }
    }
}

/// What a drill runs on.
#[derive(Debug, Clone, PartialEq, Eq)]
pub enum DrillArgs {
    Seed { case: DamageCase, scratch: String },
    Archive { archive: String, scratch: String },
}

/// Reads what a drill runs on: seeded damage, or an archive.
pub fn parse_drill_args(rest: &Vec<String>) -> (drill: Result<DrillArgs, Error>)
    ensures
        ({
            let args = texts(rest@);
            if args.len() == 3 && args[0] == "--seed"@ {
                match DamageCase::named(args[1]) {
                    Some(damage) => drill matches Ok(DrillArgs::Seed { case, scratch }) && case
                        == damage && scratch@ == args[2],
                    None => drill matches Err(e) && e@ == ErrorView::Usage(
                        "--seed "@ + args[1]
                            + " is not a known damage case; use truncated-database, corrupted-projection, malformed-spool-record or unsupported-schema-version"@,
                    ),
                }
            } else if args.len() == 3 && args[0] == "--archive"@ {
                drill matches Ok(DrillArgs::Archive { archive, scratch }) && archive@ == args[1]
                    && scratch@ == args[2]
            } else {
                drill matches Err(e) && e@ == ErrorView::Usage(
                    "drill requires `--seed CASE SCRATCH_DEST` or `--archive ARCHIVE SCRATCH_DEST`, got "@
                        + quoted_list(args),
                )
            }
        }),
{
    if rest.len() == 3 && same_text(rest[0].as_str(), "--seed") {
        return match DamageCase::from_name(rest[1].as_str()) {
            Some(case) => Ok(DrillArgs::Seed { case, scratch: rest[2].clone() }),
            None => Err(
                usage_about(
                    "--seed ",
                    rest[1].as_str(),
                    " is not a known damage case; use truncated-database, corrupted-projection, malformed-spool-record or unsupported-schema-version",
                ),
            ),
        };
    }
    if rest.len() == 3 && same_text(rest[0].as_str(), "--archive") {
        return Ok(DrillArgs::Archive { archive: rest[1].clone(), scratch: rest[2].clone() });
    }
    let mut message: String =
        "drill requires `--seed CASE SCRATCH_DEST` or `--archive ARCHIVE SCRATCH_DEST`, got ".to_owned();
    message.append(quote_list(rest).as_str());
    Err(Error::Usage(message))
}

/// What an import reads.
#[derive(Debug, Clone, Copy, PartialEq, Eq, Structural)]
pub enum ImportKind {
    LegacyMeter,
    SeedArchive,
}

impl ImportKind {
    /// The subcommand of an import.
    pub open spec fn word(self) -> Seq<char> {
        match self {
            ImportKind::LegacyMeter => "legacy-meter"@,
            ImportKind::SeedArchive => "seed-archive"@,
        }
    }

    /// What an import is called in a refusal.
    pub open spec fn title(self) -> Seq<char> {
        match self {
            ImportKind::LegacyMeter => "legacy"@,
            ImportKind::SeedArchive => "seed archive"@,
        }
    }

    /// The subcommand of this import.
    pub fn name(self) -> (name: &'static str)
        ensures
            name@ == self.word(),
    {
        match self {
            ImportKind::LegacyMeter => "legacy-meter",
            ImportKind::SeedArchive => "seed-archive",
        }
    }
}

/// What an import was asked for.
#[derive(Debug, Clone, PartialEq, Eq)]
pub struct ImportRequest {
    pub kind: ImportKind,
    pub source: String,
    pub backup: String,
}

/// The source and the backup that the arguments from a position on name. A flag at the
/// end of the line names nothing.
pub open spec fn import_from(
    args: Seq<Seq<char>>,
    i: int,
    source: Option<Seq<char>>,
    backup: Option<Seq<char>>,
) -> Result<(Option<Seq<char>>, Option<Seq<char>>), ErrorView>
    decreases args.len() + 1 - i,
{
    let value = if i + 1 < args.len() {
        Some(args[i + 1])
    } else {
        None
    };
    if i >= args.len() {
        Ok((source, backup))
    } else if args[i] == "--source"@ {
        import_from(args, i + 2, value, backup)
    } else if args[i] == "--backup"@ {
        import_from(args, i + 2, source, value)
    } else {
        Err(ErrorView::Usage("unknown import argument: "@ + args[i]))
    }
}

/// The source and the backup of an import.
pub open spec fn import_asked(kind: ImportKind, args: Seq<Seq<char>>) -> Result<
    (Seq<char>, Seq<char>),
    ErrorView,
> {
    match import_from(args, 1, None, None) {
        Ok((Some(source), Some(backup))) => Ok((source, backup)),
        Ok(_) => Err(
            ErrorView::Usage(
                "import "@ + kind.word()
                    + " requires --source PATH and --backup VERIFIED_ARCHIVE"@,
            ),
        ),
        Err(error) => Err(error),
    }
}

fn next_or_none(rest: &Vec<String>, i: usize) -> (value: Option<String>)
    requires
        i < rest@.len(),
    ensures
        optional(value) == if i + 1 < rest@.len() {
            Some(texts(rest@)[i + 1])
        } else {
            None
        },
{
    let total: usize = rest.len();
    if total - i < 2 {
        None
    } else {
        Some(rest[i + 1].clone())
    }
}

/// Reads what an import was asked for: what it reads, from where, and the backup that
/// was made before.
pub fn import_request(rest: &Vec<String>) -> (request: Result<ImportRequest, Error>)
    ensures
        ({
            let args = texts(rest@);
            let kind = if args.len() > 0 && args[0] == "legacy-meter"@ {
                Some(ImportKind::LegacyMeter)
            } else if args.len() > 0 && args[0] == "seed-archive"@ {
                Some(ImportKind::SeedArchive)
            } else {
                None
            };
            match kind {
                Some(k) => match request {
                    Ok(r) => r.kind == k && import_asked(k, args) == Ok::<
                        (Seq<char>, Seq<char>),
                        ErrorView,
                    >((r.source@, r.backup@)),
                    Err(e) => import_asked(k, args) == Err::<(Seq<char>, Seq<char>), ErrorView>(
                        e@,
                    ),
                },
                None => request matches Err(e) && e@ == ErrorView::Usage(
                    "import requires either the `legacy-meter` or `seed-archive` subcommand"@,
                ),
            }
        }),
{
    let total: usize = rest.len();
    let ghost args = texts(rest@);
    let kind: ImportKind = if total > 0 && same_text(rest[0].as_str(), "legacy-meter") {
        ImportKind::LegacyMeter
    } else if total > 0 && same_text(rest[0].as_str(), "seed-archive") {
        ImportKind::SeedArchive
    } else {
        return Err(
            Error::Usage(
                "import requires either the `legacy-meter` or `seed-archive` subcommand".to_owned(),
            ),
        );
    };
    let mut source: Option<String> = None;
    let mut backup: Option<String> = None;
    let mut i: usize = 1;
    assert(args[0] == rest@[0]@);
    while i < total
        invariant
            0 < total,
            total == rest@.len(),
            args == texts(rest@),
            kind == ImportKind::LegacyMeter <==> args[0] == "legacy-meter"@,
            kind == ImportKind::SeedArchive ==> args[0] == "seed-archive"@,
            import_from(args, 1, None, None) == import_from(
                args,
                i as int,
                optional(source),
                optional(backup),
            ),
        decreases total - i,
    {
        let arg: &str = rest[i].as_str();
        assert(args[i as int] == arg@);
        if same_text(arg, "--source") {
            source = next_or_none(rest, i);
        } else if same_text(arg, "--backup") {
            backup = next_or_none(rest, i);
        } else {
            let mut message: String = "unknown import argument: ".to_owned();
            message.append(arg);
            return Err(Error::Usage(message));
        }
        if total - i < 2 {
            assert(import_from(args, i + 2, optional(source), optional(backup)) == import_from(
                args,
                total as int,
                optional(source),
                optional(backup),
            ));
            i = total;
        } else {
            i = i + 2;
        }
    }
    match (source, backup) {
        (Some(source), Some(backup)) => Ok(ImportRequest { kind, source, backup }),
        _ => Err(
            usage_about(
                "import ",
                kind.name(),
                " requires --source PATH and --backup VERIFIED_ARCHIVE",
            ),
        ),
    }
}

/// What is known of an archive.
#[derive(Debug, Clone, PartialEq, Eq)]
pub struct ArchiveSummary {
    pub verified: bool,
    pub schema_version: u64,
    pub ledger_generation: u64,
    pub pending_records: u64,
    pub drain_completed: bool,
    pub destination: String,
}

/// How a truth is shown.
pub open spec fn truth(value: bool) -> Seq<char> {
    if value {
        "true"@
    } else {
        "false"@
    }
}

pub(crate) fn push_truth(text: &mut String, value: bool)
    ensures
        final(text)@ == old(text)@ + truth(value),
{
    if value {
        text.append("true");
    } else {
        text.append("false");
    }
}

pub(crate) fn push_number(text: &mut String, n: u64)
    ensures
        final(text)@ == old(text)@ + decimal(n as nat),
{
    text.append(decimal_text(n as u128).as_str());
}

/// The line that reports an archive.
pub fn archive_line(summary: &ArchiveSummary) -> (line: String)
    ensures
        line@ == "backup: verified="@ + truth(summary.verified) + " schema="@ + decimal(
            summary.schema_version as nat,
        ) + " generation="@ + decimal(summary.ledger_generation as nat) + " pending="@ + decimal(
            summary.pending_records as nat,
        ) + " drain_completed="@ + truth(summary.drain_completed) + " destination="@
            + summary.destination@,
{
    let mut line: String = "backup: verified=".to_owned();
    push_truth(&mut line, summary.verified);
    line.append(" schema=");
    push_number(&mut line, summary.schema_version);
    line.append(" generation=");
    push_number(&mut line, summary.ledger_generation);
    line.append(" pending=");
    push_number(&mut line, summary.pending_records);
    line.append(" drain_completed=");
    push_truth(&mut line, summary.drain_completed);
    line.append(" destination=");
    line.append(summary.destination.as_str());
    line
}

/// The name under which an import records the backup made before it. An import without
/// a verified backup is refused.
pub fn import_backup(kind: ImportKind, backup: &ArchiveSummary) -> (id: Result<String, Error>)
    ensures
        match id {
            Ok(name) => backup.verified && name@ == "archive-v"@ + decimal(
                backup.schema_version as nat,
            ) + "-g"@ + decimal(backup.ledger_generation as nat),
            Err(error) => !backup.verified && error@ == ErrorView::Store(
                kind.title() + " import requires a verified backup archive"@,
            ),
        },
{
    if !backup.verified {
        let mut message: String = match kind {
            ImportKind::LegacyMeter => "legacy".to_owned(),
            ImportKind::SeedArchive => "seed archive".to_owned(),
        };
        message.append(" import requires a verified backup archive");
        return Err(Error::Store(message));
    }
    let mut name: String = "archive-v".to_owned();
    push_number(&mut name, backup.schema_version);
    name.append("-g");
    push_number(&mut name, backup.ledger_generation);
    Ok(name)
}

/// What an import did.
#[derive(Debug, Clone, Copy, PartialEq, Eq, Structural)]
pub struct ImportSummary {
    pub imported: u64,
    pub unchanged: u64,
    pub quarantined: u64,
}

/// How an import ended, in one word.
pub open spec fn import_ending(summary: ImportSummary) -> Seq<char> {
    if summary.quarantined > 0 && summary.imported == 0 {
        "quarantined"@
    } else if summary.imported > 0 {
        "imported"@
    } else if summary.unchanged > 0 {
        "unchanged"@
    } else {
        "empty"@
    }
}

/// How an import ended, in one word.
pub fn terminal_outcome(summary: ImportSummary) -> (word: &'static str)
    ensures
        word@ == import_ending(summary),
{
    if summary.quarantined > 0 && summary.imported == 0 {
        "quarantined"
    } else if summary.imported > 0 {
        "imported"
    } else if summary.unchanged > 0 {
        "unchanged"
    } else {
        "empty"
    }
}

/// Whether an import publishes a new projection: only where it brought something in.
pub fn publishes_projection(summary: ImportSummary) -> (publishes: bool)
    ensures
        publishes == (summary.imported > 0),
{
    summary.imported > 0
}

/// The line that reports an import. The source is named by its digest alone.
pub fn import_line(
    kind: ImportKind,
    source_digest: &str,
    backup_id: &str,
    records_read: u64,
    summary: ImportSummary,
) -> (line: String)
    ensures
        line@ == kind.word() + " import: source_digest="@ + source_digest@
            + " verified_backup_id="@ + backup_id@ + " records_read="@ + decimal(
            records_read as nat,
        ) + " imported="@ + decimal(summary.imported as nat) + " unchanged="@ + decimal(
            summary.unchanged as nat,
        ) + " quarantined="@ + decimal(summary.quarantined as nat) + match kind {
            ImportKind::LegacyMeter => Seq::<char>::empty(),
            ImportKind::SeedArchive => " terminal_outcome="@ + import_ending(summary),
        },
{
    let mut line: String = kind.name().to_owned();
    line.append(" import: source_digest=");
    line.append(source_digest);
    line.append(" verified_backup_id=");
    line.append(backup_id);
    line.append(" records_read=");
    push_number(&mut line, records_read);
    line.append(" imported=");
    push_number(&mut line, summary.imported);
    line.append(" unchanged=");
    push_number(&mut line, summary.unchanged);
    line.append(" quarantined=");
    push_number(&mut line, summary.quarantined);
    match kind {
        ImportKind::LegacyMeter => {},
        ImportKind::SeedArchive => {
            let ghost before = line@;
            line.append(" terminal_outcome=");
            line.append(terminal_outcome(summary));
            assert(line@ =~= before + (" terminal_outcome="@ + import_ending(summary)));
        },
    }
    line
}

/// How a replay of pending evidence ended.
#[derive(Debug, Clone, Copy, PartialEq, Eq, Structural)]
pub struct ReplayCounts {
    pub applied: u64,
    pub already_applied: u64,
    pub quarantined: u64,
}

/// A recovery step that had nothing to do, and why.
#[derive(Debug, Clone, PartialEq, Eq)]
pub struct StepOutcome {
    pub disposition: String,
    pub reason: String,
}

/// A piece of evidence that was not recovered.
#[derive(Debug, Clone, PartialEq, Eq)]
pub struct Unrecovered {
    pub source: String,
    pub file_name: String,
    pub reason: String,
}

/// What a restore did.
#[derive(Debug, PartialEq, Eq)]
pub struct RestoreSummary {
    pub destination: String,
    pub archive_verified: bool,
    pub schema_version: u64,
    pub ledger_generation: u64,
    pub pending_restored: u64,
    pub migrations_applied: u64,
    pub observation_count: u64,
    pub archive_replay: ReplayCounts,
    pub surviving_replay: Option<ReplayCounts>,
    pub projection_recovery: StepOutcome,
    pub transcript_recovery: StepOutcome,
    pub unrecovered: Vec<Unrecovered>,
}

/// The line of a replay.
pub open spec fn replay_text(source: Seq<char>, counts: ReplayCounts) -> Seq<char> {
    "replay: source="@ + source + " applied="@ + decimal(counts.applied as nat)
        + " already_applied="@ + decimal(counts.already_applied as nat) + " quarantined="@
        + decimal(counts.quarantined as nat)
}

/// The line of a recovery step.
pub open spec fn step_text(name: Seq<char>, step: StepOutcome) -> Seq<char> {
    name + ": "@ + step.disposition@ + " ("@ + step.reason@ + ")"@
}

/// The line of a piece of evidence that was not recovered.
pub open spec fn unrecovered_text(item: Unrecovered) -> Seq<char> {
    "unrecovered: "@ + item.source@ + " "@ + item.file_name@ + " "@ + item.reason@
}

/// The first line of a restore.
pub open spec fn restore_text(summary: RestoreSummary) -> Seq<char> {
    "restore: destination="@ + summary.destination@ + " archive_verified="@ + truth(
        summary.archive_verified,
    ) + " schema="@ + decimal(summary.schema_version as nat) + " generation="@ + decimal(
        summary.ledger_generation as nat,
    ) + " pending_restored="@ + decimal(summary.pending_restored as nat)
        + " migrations_applied="@ + decimal(summary.migrations_applied as nat)
        + " observations="@ + decimal(summary.observation_count as nat) + " unrecovered="@
        + decimal(summary.unrecovered@.len()) + " integrity=ok foreign_keys=ok"@
}

/// The lines that report a restore.
pub open spec fn restore_lines(summary: RestoreSummary) -> Seq<Seq<char>> {
    seq![restore_text(summary), replay_text("archive"@, summary.archive_replay)] + (
    match summary.surviving_replay {
        Some(counts) => seq![replay_text("surviving"@, counts)],
        None => Seq::empty(),
    }) + seq![
        step_text("projection"@, summary.projection_recovery),
        step_text("transcripts"@, summary.transcript_recovery),
    ] + summary.unrecovered@.map_values(|item: Unrecovered| unrecovered_text(item))
}

fn push_line(lines: &mut Vec<String>, line: String)
    ensures
        texts(final(lines)@) == texts(old(lines)@).push(line@),
{
    lines.push(line);
    assert(texts(lines@) =~= texts(old(lines)@).push(line@));
}

fn replay_line(source: &str, counts: ReplayCounts) -> (line: String)
    ensures
        line@ == replay_text(source@, counts),
{
    let mut line: String = "replay: source=".to_owned();
    line.append(source);
    line.append(" applied=");
    push_number(&mut line, counts.applied);
    line.append(" already_applied=");
    push_number(&mut line, counts.already_applied);
    line.append(" quarantined=");
    push_number(&mut line, counts.quarantined);
    line
}

fn step_line(name: &str, step: &StepOutcome) -> (line: String)
    ensures
        line@ == step_text(name@, *step),
{
    let mut line: String = name.to_owned();
    line.append(": ");
    line.append(step.disposition.as_str());
    line.append(" (");
    line.append(step.reason.as_str());
    line.append(")");
    line
}

/// The lines that report a restore: its own numbers, the replays, the steps that had
/// nothing to do, and each piece of evidence that was not recovered.
pub fn render_restore_summary(summary: &RestoreSummary) -> (lines: Vec<String>)
    ensures
        texts(lines@) == restore_lines(*summary),
{
    let mut first: String = "restore: destination=".to_owned();
    first.append(summary.destination.as_str());
    first.append(" archive_verified=");
    push_truth(&mut first, summary.archive_verified);
    first.append(" schema=");
    push_number(&mut first, summary.schema_version);
    first.append(" generation=");
    push_number(&mut first, summary.ledger_generation);
    first.append(" pending_restored=");
    push_number(&mut first, summary.pending_restored);
    first.append(" migrations_applied=");
    push_number(&mut first, summary.migrations_applied);
    first.append(" observations=");
    push_number(&mut first, summary.observation_count);
    first.append(" unrecovered=");
    first.append(decimal_text(summary.unrecovered.len() as u128).as_str());
    first.append(" integrity=ok foreign_keys=ok");
    let mut lines: Vec<String> = Vec::new();
    assert(texts(lines@) =~= Seq::<Seq<char>>::empty());
    push_line(&mut lines, first);
    push_line(&mut lines, replay_line("archive", summary.archive_replay));
    match summary.surviving_replay {
        Some(counts) => {
            push_line(&mut lines, replay_line("surviving", counts));
        },
        None => {},
    }
    push_line(&mut lines, step_line("projection", &summary.projection_recovery));
    push_line(&mut lines, step_line("transcripts", &summary.transcript_recovery));
    let ghost head = texts(lines@);
    let ghost tail = summary.unrecovered@.map_values(|item: Unrecovered| unrecovered_text(item));
    assert(restore_lines(*summary) =~= head + tail);
    let mut i: usize = 0;
    assert(texts(lines@) =~= head + tail.take(0));
    while i < summary.unrecovered.len()
        invariant
            i <= summary.unrecovered@.len(),
            tail == summary.unrecovered@.map_values(|item: Unrecovered| unrecovered_text(item)),
            texts(lines@) == head + tail.take(i as int),
        decreases summary.unrecovered@.len() - i,
    {
        let item: &Unrecovered = &summary.unrecovered[i];
        let mut line: String = "unrecovered: ".to_owned();
        line.append(item.source.as_str());
        line.append(" ");
        line.append(item.file_name.as_str());
        line.append(" ");
        line.append(item.reason.as_str());
        assert(tail[i as int] == line@);
        push_line(&mut lines, line);
        assert(texts(lines@) =~= head + tail.take(i + 1));
        i = i + 1;
    }
    assert(tail.take(summary.unrecovered@.len() as int) =~= tail);
    lines
}

/// What a drill did.
#[derive(Debug, PartialEq, Eq)]
pub struct DrillReport {
    pub source: String,
    pub scratch_destination: String,
    pub restore: RestoreSummary,
    pub damaged_directory_preserved: Option<bool>,
    pub projection_deterministic: Option<bool>,
    pub passed: bool,
}

/// A line with a truth, where it is known.
pub open spec fn known_truth(before: Seq<char>, value: Option<bool>) -> Seq<Seq<char>> {
    match value {
        Some(v) => seq![before + truth(v)],
        None => Seq::empty(),
    }
}

/// The lines that report a drill.
pub open spec fn drill_lines(report: DrillReport) -> Seq<Seq<char>> {
    seq![
        "drill: source="@ + report.source@ + " scratch_destination="@
            + report.scratch_destination@,
    ] + restore_lines(report.restore) + known_truth(
        "drill: damaged_directory_preserved="@,
        report.damaged_directory_preserved,
    ) + known_truth("drill: projection_deterministic="@, report.projection_deterministic) + seq![
        "drill: passed="@ + truth(report.passed),
    ]
}

/// The lines that report a drill: where it ran, its restore, its own proofs and whether
/// it passed.
pub fn render_drill_report(report: &DrillReport) -> (lines: Vec<String>)
    ensures
        texts(lines@) == drill_lines(*report),
{
    let mut first: String = "drill: source=".to_owned();
    first.append(report.source.as_str());
    first.append(" scratch_destination=");
    first.append(report.scratch_destination.as_str());
    let mut lines: Vec<String> = Vec::new();
    assert(texts(lines@) =~= Seq::<Seq<char>>::empty());
    push_line(&mut lines, first);
    let mut restore: Vec<String> = render_restore_summary(&report.restore);
    let ghost before = lines@;
    let ghost more = restore@;
    lines.append(&mut restore);
    assert(texts(lines@) =~= texts(before) + texts(more));
    match report.damaged_directory_preserved {
        Some(preserved) => {
            let mut line: String = "drill: damaged_directory_preserved=".to_owned();
            push_truth(&mut line, preserved);
            push_line(&mut lines, line);
        },
        None => {},
    }
    match report.projection_deterministic {
        Some(deterministic) => {
            let mut line: String = "drill: projection_deterministic=".to_owned();
            push_truth(&mut line, deterministic);
            push_line(&mut lines, line);
        },
        None => {},
    }
    let mut last: String = "drill: passed=".to_owned();
    push_truth(&mut last, report.passed);
    push_line(&mut lines, last);
    assert(texts(lines@) =~= drill_lines(*report));
    lines
}

/// The error a drill ends with: none where it passed.
pub fn drill_outcome(report: &DrillReport) -> (outcome: Result<(), Error>)
    ensures
        match outcome {
            Ok(()) => report.passed,
            Err(error) => !report.passed && error@ == ErrorView::Store(
                "drill: the recovered state failed one of the drill's own checks; see the lines above"@,
            ),
        },
{
    if report.passed {
        Ok(())
    } else {
        Err(
            Error::Store(
                "drill: the recovered state failed one of the drill's own checks; see the lines above".to_owned(),
            ),
        )
    }
}

/// Each damage is seeded by its own name, and by no other.
pub proof fn law_damages_have_their_own_names(name: Seq<char>, case: DamageCase)
    ensures
        DamageCase::named(name) == Some(case) <==> name == match case {
            DamageCase::TruncatedDatabase => "truncated-database"@,
            DamageCase::CorruptedProjection => "corrupted-projection"@,
            DamageCase::MalformedSpoolRecord => "malformed-spool-record"@,
            DamageCase::UnsupportedSchemaVersion => "unsupported-schema-version"@,
        },
{
    reveal_strlit("truncated-database");
    reveal_strlit("corrupted-projection");
    reveal_strlit("malformed-spool-record");
    reveal_strlit("unsupported-schema-version");
    assert("truncated-database"@.len() == 18 && "corrupted-projection"@.len() == 20);
    assert("malformed-spool-record"@.len() == 22 && "unsupported-schema-version"@.len() == 26);
}

/// A surviving directory is taken from behind its flag, once; anything else behind the
/// destination is refused.
pub proof fn law_restores_take_one_surviving_directory(
    args: Seq<Seq<char>>,
    i: int,
    word: Seq<char>,
    extra: Seq<Seq<char>>,
)
    requires
        0 <= i < args.len(),
    ensures
        args[i] == "--surviving"@ && i + 1 < args.len() && args[i + 1] == word ==> restore_from(
            args,
            i,
            None,
            extra,
        ) == restore_from(args, i + 2, Some(word), extra),
        args[i] == "--surviving"@ ==> restore_from(args, i, Some(word), extra) is Err,
        args[i] == "--surviving"@ && i + 1 == args.len() ==> restore_from(
            args,
            i,
            None,
            extra,
        ) is Err,
        restore_from(args, args.len() as int, Some(word), Seq::empty()) == Ok::<
            Option<Seq<char>>,
            ErrorView,
        >(Some(word)),
        restore_from(args, args.len() as int, None, Seq::empty()) == Ok::<
            Option<Seq<char>>,
            ErrorView,
        >(None),
        extra.len() > 0 ==> restore_from(args, i, None, extra) is Err,
        args[i] != "--surviving"@ ==> restore_from(args, i, Some(word), extra) is Err,
{
    if extra.len() > 0 {
        lemma_extra_arguments_are_refused(args, i, None, extra);
    }
    if args[i] != "--surviving"@ {
        lemma_extra_arguments_are_refused(args, i + 1, Some(word), extra.push(args[i]));
    }
}

proof fn lemma_extra_arguments_are_refused(
    args: Seq<Seq<char>>,
    i: int,
    surviving: Option<Seq<char>>,
    extra: Seq<Seq<char>>,
)
    requires
        extra.len() > 0,
    ensures
        restore_from(args, i, surviving, extra) is Err,
    decreases args.len() - i,
{
    if i < args.len() {
        if args[i] == "--surviving"@ {
            if surviving is None && i + 1 < args.len() {
                lemma_extra_arguments_are_refused(args, i + 2, Some(args[i + 1]), extra);
            }
        } else {
            lemma_extra_arguments_are_refused(args, i + 1, surviving, extra.push(args[i]));
        }
    }
}

/// An import reads from the source and relies on the backup that are named, in either
/// order, and needs both.
pub proof fn law_imports_need_a_source_and_a_backup(
    kind: ImportKind,
    source: Seq<char>,
    backup: Seq<char>,
)
    ensures
        import_asked(kind, seq![kind.word(), "--source"@, source, "--backup"@, backup]) == Ok::<
            (Seq<char>, Seq<char>),
            ErrorView,
        >((source, backup)),
        import_asked(kind, seq![kind.word(), "--backup"@, backup, "--source"@, source]) == Ok::<
            (Seq<char>, Seq<char>),
            ErrorView,
        >((source, backup)),
        import_asked(kind, seq![kind.word(), "--source"@, source]) is Err,
        import_asked(kind, seq![kind.word(), "--backup"@, backup]) is Err,
        import_asked(kind, seq![kind.word()]) is Err,
        kind.word() == match kind {
            ImportKind::LegacyMeter => "legacy-meter"@,
            ImportKind::SeedArchive => "seed-archive"@,
        },
{
    reveal_strlit("--source");
    reveal_strlit("--backup");
    assert("--source"@[2] == 's' && "--backup"@[2] == 'b');
    reveal_with_fuel(import_from, 4);
}

/// An import ends as imported wherever anything was, as quarantined where something was
/// and nothing imported, as unchanged where all was there before, and as empty where there
/// was nothing.
pub proof fn law_how_imports_end(summary: ImportSummary)
    ensures
        summary.imported > 0 ==> import_ending(summary) == "imported"@,
        summary.imported == 0 && summary.quarantined > 0 ==> import_ending(summary)
            == "quarantined"@,
        summary.imported == 0 && summary.quarantined == 0 && summary.unchanged > 0
            ==> import_ending(summary) == "unchanged"@,
        summary.imported == 0 && summary.quarantined == 0 && summary.unchanged == 0
            ==> import_ending(summary) == "empty"@,
{
}

/// A restored archive is reported in order: what was restored, the replay of the archive,
/// that of the surviving directory where there was one, the projection, the transcripts,
/// and one line for each record that was not recovered.
pub proof fn law_restores_are_reported_in_order(summary: RestoreSummary, i: int)
    ensures
        ({
            let lines = restore_lines(summary);
            let before = if summary.surviving_replay is Some {
                5int
            } else {
                4int
            };
            &&& lines.len() == before + summary.unrecovered@.len()
            &&& lines[0] == restore_text(summary)
            &&& lines[1] == replay_text("archive"@, summary.archive_replay)
            &&& summary.surviving_replay matches Some(counts) ==> lines[2] == replay_text(
                "surviving"@,
                counts,
            )
            &&& lines[before - 2] == step_text("projection"@, summary.projection_recovery)
            &&& lines[before - 1] == step_text("transcripts"@, summary.transcript_recovery)
            &&& 0 <= i < summary.unrecovered@.len() ==> lines[before + i] == unrecovered_text(
                summary.unrecovered@[i],
            )
        }),
{
}

/// A drill is reported from its source to whether it passed, with the restore between.
pub proof fn law_drills_say_whether_they_passed(report: DrillReport)
    ensures
        drill_lines(report)[0] == "drill: source="@ + report.source@ + " scratch_destination="@
            + report.scratch_destination@,
        report.passed ==> drill_lines(report).last() == "drill: passed="@ + "true"@,
        !report.passed ==> drill_lines(report).last() == "drill: passed="@ + "false"@,
        forall|i: int|
            0 <= i < restore_lines(report.restore).len() ==> drill_lines(report)[i + 1]
                == #[trigger] restore_lines(report.restore)[i],
{
}

} // verus!
