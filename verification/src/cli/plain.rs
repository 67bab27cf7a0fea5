//! Text that names no hook: the tokens of hooks begin with two underscores, and nothing
//! that the other commands say of themselves holds two in a row.

use crate::cli::command::Command;
use crate::sets::joined;
use crate::text::{piece_at, within};
use vstd::prelude::*;
use vstd::string::*;

verus! {

/// Whether text neither begins nor ends with an underscore, and holds no two in a row.
pub open spec fn plain(s: Seq<char>) -> bool {
    &&& s.len() > 0 ==> s[0] != '_' && s.last() != '_'
    &&& forall|i: int| 0 < i < s.len() ==> #[trigger] s[i] != '_' || s[i - 1] != '_'
}

/// Whether a character and the one before it are not both underscores.
spec fn apart(s: Seq<char>, i: int) -> bool {
    i <= 0 || s[i] != '_' || s[i - 1] != '_'
}

/// Whether the first `n` characters of some text hold no two underscores in a row, read
/// from the end in steps.
spec fn plain_to(s: Seq<char>, n: int) -> bool
    decreases
        if n > 0 {
            n
        } else {
            0
        },
{
    n <= 1 || {
        &&& apart(s, n - 1)
        &&& apart(s, n - 2)
        &&& apart(s, n - 3)
        &&& apart(s, n - 4)
        &&& apart(s, n - 5)
        &&& apart(s, n - 6)
        &&& apart(s, n - 7)
        &&& apart(s, n - 8)
        &&& plain_to(s, n - 8)
    }
}

proof fn lemma_plain_to(s: Seq<char>, n: int, i: int)
    requires
        0 < i < n,
        plain_to(s, n),
    ensures
        apart(s, i),
    decreases n,
{
    if i < n - 8 {
        lemma_plain_to(s, n - 8, i);
    }
}

proof fn lemma_plain(s: Seq<char>)
    requires
        plain_to(s, s.len() as int),
        s.len() > 0 ==> s[0] != '_' && s[s.len() - 1] != '_',
    ensures
        plain(s),
{
    assert forall|i: int| 0 < i < s.len() implies #[trigger] s[i] != '_' || s[i - 1] != '_' by {
        lemma_plain_to(s, s.len() as int, i);
    }
}

/// Plain texts put together are plain.
pub proof fn lemma_plain_together(a: Seq<char>, b: Seq<char>)
    requires
        plain(a),
        plain(b),
    ensures
        plain(a + b),
{
    let s = a + b;
    assert forall|i: int| 0 < i < s.len() implies #[trigger] s[i] != '_' || s[i - 1] != '_' by {
        if i < a.len() {
            assert(s[i] == a[i] && s[i - 1] == a[i - 1]);
        } else if i > a.len() {
            assert(s[i] == b[i - a.len()] && s[i - 1] == b[i - a.len() - 1]);
        } else {
            assert(s[i] == b[0]);
        }
    }
    if s.len() > 0 {
        if a.len() == 0 {
            assert(s =~= b);
        } else if b.len() == 0 {
            assert(s =~= a);
        } else {
            assert(s[0] == a[0] && s.last() == b.last());
        }
    }
}

/// Plain texts joined by plain text are plain.
pub proof fn lemma_plain_joined(items: Seq<Seq<char>>, separator: Seq<char>)
    requires
        plain(separator),
        forall|i: int| 0 <= i < items.len() ==> plain(#[trigger] items[i]),
    ensures
        plain(joined(items, separator)),
    decreases items.len(),
{
    if items.len() > 1 {
        let shorter = items.drop_last();
        assert forall|i: int| 0 <= i < shorter.len() implies plain(#[trigger] shorter[i]) by {
            assert(shorter[i] == items[i]);
        }
        lemma_plain_joined(shorter, separator);
        lemma_plain_together(joined(shorter, separator), separator);
        assert(plain(items[items.len() - 1]));
        lemma_plain_together(joined(shorter, separator) + separator, items.last());
    } else if items.len() == 1 {
        assert(plain(items[0]));
    }
}

/// Plain text holds nothing that begins with two underscores.
pub proof fn lemma_plain_names_no_hook(s: Seq<char>, token: Seq<char>)
    requires
        plain(s),
        token.len() >= 2,
        token[0] == '_',
        token[1] == '_',
    ensures
        !within(s, token),
{
    if within(s, token) {
        let at = choose|at: int| 0 <= at <= s.len() - token.len() && #[trigger] piece_at(
            s,
            token,
            at,
        );
        let piece = s.subrange(at, at + token.len());
        assert(piece[0] == s[at] && piece[1] == s[at + 1]);
    }
}

/// Whether a reason, where there is one, is plain.
pub open spec fn plainly(text: Option<Seq<char>>) -> bool {
    text matches Some(t) ==> plain(t)
}

/// Whether all that a command says of itself is plain.
pub open spec fn says_plainly(command: Command) -> bool {
    &&& plain(command.token())
    &&& plainly(command.summary_text())
    &&& plainly(command.question_text())
    &&& plainly(command.options_text())
    &&& plainly(command.format_refusal())
    &&& plainly(command.explain_refusal())
    &&& plainly(command.account_refusal())
    &&& plainly(command.model_refusal())
    &&& plainly(command.no_color_refusal())
}

proof fn lemma_status_is_plain()
    ensures
        says_plainly(Command::Status),
{
    reveal_with_fuel(plain_to, 9);
    reveal_strlit("status");
    lemma_plain("status"@);
    reveal_strlit("render the last known meter reading per configured account");
    lemma_plain("render the last known meter reading per configured account"@);
    reveal_strlit("how much quota does each configured account have left?");
    lemma_plain("how much quota does each configured account have left?"@);
    reveal_strlit("status prints no color");
    lemma_plain("status prints no color"@);
}

proof fn lemma_spend_is_plain()
    ensures
        says_plainly(Command::Spend),
{
    reveal_with_fuel(plain_to, 24);
    reveal_strlit("spend");
    lemma_plain("spend"@);
    reveal_strlit("canonical token usage grouped by day, session, project, repository, task or account");
    lemma_plain("canonical token usage grouped by day, session, project, repository, task or account"@);
    reveal_strlit("how many canonical tokens were used, grouped by the requested dimensions?");
    lemma_plain("how many canonical tokens were used, grouped by the requested dimensions?"@);
    reveal_strlit("--today (default) | --since YYYY-MM-DD | --days N | --group-by day|session|project|repository|task|account (repeatable) | --credits | --refresh auto|never|force | --value api-list");
    lemma_plain("--today (default) | --since YYYY-MM-DD | --days N | --group-by day|session|project|repository|task|account (repeatable) | --credits | --refresh auto|never|force | --value api-list"@);
    reveal_strlit("spend groups by account with --group-by account; it has no single-account filter");
    lemma_plain("spend groups by account with --group-by account; it has no single-account filter"@);
    reveal_strlit("spend has no model dimension until a model selector is needed");
    lemma_plain("spend has no model dimension until a model selector is needed"@);
    reveal_strlit("spend prints no color");
    lemma_plain("spend prints no color"@);
}

proof fn lemma_config_is_plain()
    ensures
        says_plainly(Command::Config),
{
    reveal_with_fuel(plain_to, 9);
    reveal_strlit("config");
    lemma_plain("config"@);
    reveal_strlit("print every resolved configuration key with the source that won");
    lemma_plain("print every resolved configuration key with the source that won"@);
    reveal_strlit("which configuration key resolved from where?");
    lemma_plain("which configuration key resolved from where?"@);
    reveal_strlit("--set key=value (repeatable), --config-file PATH");
    lemma_plain("--set key=value (repeatable), --config-file PATH"@);
    reveal_strlit("config prints provenance, not a report");
    lemma_plain("config prints provenance, not a report"@);
    reveal_strlit("config derives no quantity");
    lemma_plain("config derives no quantity"@);
    reveal_strlit("config prints every account at once");
    lemma_plain("config prints every account at once"@);
    reveal_strlit("config prints every key at once");
    lemma_plain("config prints every key at once"@);
    reveal_strlit("config prints no color");
    lemma_plain("config prints no color"@);
}

proof fn lemma_export_is_plain()
    ensures
        says_plainly(Command::Export),
{
    reveal_with_fuel(plain_to, 13);
    reveal_strlit("export");
    lemma_plain("export"@);
    reveal_strlit("emit versioned JSONL usage rows keyed by session-id or run-id for external joins");
    lemma_plain("emit versioned JSONL usage rows keyed by session-id or run-id for external joins"@);
    reveal_strlit("which usage did each session or run consume, as a versioned JSONL ledger for an external join?");
    lemma_plain("which usage did each session or run consume, as a versioned JSONL ledger for an external join?"@);
    reveal_strlit("--key session-id|run-id (required), --include-logical-ids");
    lemma_plain("--key session-id|run-id (required), --include-logical-ids"@);
    reveal_strlit("export is always versioned JSONL");
    lemma_plain("export is always versioned JSONL"@);
    reveal_strlit("export derives no quantity");
    lemma_plain("export derives no quantity"@);
    reveal_strlit("export reads every stored session, not one account");
    lemma_plain("export reads every stored session, not one account"@);
    reveal_strlit("export keys on session or run, not on a model");
    lemma_plain("export keys on session or run, not on a model"@);
    reveal_strlit("export prints no color");
    lemma_plain("export prints no color"@);
}

proof fn lemma_rate_card_is_plain()
    ensures
        says_plainly(Command::RateCard),
{
    reveal_with_fuel(plain_to, 9);
    reveal_strlit("rate-card");
    lemma_plain("rate-card"@);
    reveal_strlit("import, show and history the immutable dated vendor rate cards");
    lemma_plain("import, show and history the immutable dated vendor rate cards"@);
    reveal_strlit("what do the immutable dated vendor rate cards contain?");
    lemma_plain("what do the immutable dated vendor rate cards contain?"@);
    reveal_strlit("rate-card prints a price book, not a report");
    lemma_plain("rate-card prints a price book, not a report"@);
    reveal_strlit("rate-card derives no quantity");
    lemma_plain("rate-card derives no quantity"@);
    reveal_strlit("the rate book is reference data, not per-account state");
    lemma_plain("the rate book is reference data, not per-account state"@);
    reveal_strlit("the rate book is reference data, not per-model state");
    lemma_plain("the rate book is reference data, not per-model state"@);
    reveal_strlit("rate-card prints plain rows");
    lemma_plain("rate-card prints plain rows"@);
}

proof fn lemma_backup_is_plain()
    ensures
        says_plainly(Command::Backup),
{
    reveal_with_fuel(plain_to, 12);
    reveal_strlit("backup");
    lemma_plain("backup"@);
    reveal_strlit("create or verify a consistent archive of durable state");
    lemma_plain("create or verify a consistent archive of durable state"@);
    reveal_strlit("is there a consistent, verified archive of the durable state, and does it restore?");
    lemma_plain("is there a consistent, verified archive of the durable state, and does it restore?"@);
    reveal_strlit("DESTINATION | verify DESTINATION | restore ARCHIVE DEST [--surviving DIR]");
    lemma_plain("DESTINATION | verify DESTINATION | restore ARCHIVE DEST [--surviving DIR]"@);
    reveal_strlit("backup prints one operational result");
    lemma_plain("backup prints one operational result"@);
    reveal_strlit("backup derives no quantity");
    lemma_plain("backup derives no quantity"@);
    reveal_strlit("backup covers the whole ledger");
    lemma_plain("backup covers the whole ledger"@);
    reveal_strlit("backup prints no color");
    lemma_plain("backup prints no color"@);
}

proof fn lemma_ingest_is_plain()
    ensures
        says_plainly(Command::Ingest),
{
    reveal_with_fuel(plain_to, 14);
    reveal_strlit("ingest");
    lemma_plain("ingest"@);
    reveal_strlit("land the configured transcripts' normalized usage into the ledger, advancing the ingestion generation");
    lemma_plain("land the configured transcripts' normalized usage into the ledger, advancing the ingestion generation"@);
    reveal_strlit("have the transcript-derived tables been refreshed from the transcripts on disk, under one generation?");
    lemma_plain("have the transcript-derived tables been refreshed from the transcripts on disk, under one generation?"@);
    reveal_strlit("transcripts [--source NAME] [--changed-only]");
    lemma_plain("transcripts [--source NAME] [--changed-only]"@);
    reveal_strlit("ingest prints one operational result");
    lemma_plain("ingest prints one operational result"@);
    reveal_strlit("ingest derives no quantity");
    lemma_plain("ingest derives no quantity"@);
    reveal_strlit("ingest reads the configured transcript sources");
    lemma_plain("ingest reads the configured transcript sources"@);
    reveal_strlit("ingest reads transcript sources, not models");
    lemma_plain("ingest reads transcript sources, not models"@);
    reveal_strlit("ingest prints no color");
    lemma_plain("ingest prints no color"@);
}

proof fn lemma_rebuild_is_plain()
    ensures
        says_plainly(Command::Rebuild),
{
    reveal_with_fuel(plain_to, 16);
    reveal_strlit("rebuild");
    lemma_plain("rebuild"@);
    reveal_strlit("destroy and recreate one rebuildable materialization group, never touching irreplaceable evidence");
    lemma_plain("destroy and recreate one rebuildable materialization group, never touching irreplaceable evidence"@);
    reveal_strlit("can the transcript-derived materializations be rebuilt from scratch while every irreplaceable record is left untouched?");
    lemma_plain("can the transcript-derived materializations be rebuilt from scratch while every irreplaceable record is left untouched?"@);
    reveal_strlit("transcripts | attribution");
    lemma_plain("transcripts | attribution"@);
    reveal_strlit("rebuild prints one operational result");
    lemma_plain("rebuild prints one operational result"@);
    reveal_strlit("rebuild derives no quantity");
    lemma_plain("rebuild derives no quantity"@);
    reveal_strlit("rebuild sweeps whole materialization tables, not one account");
    lemma_plain("rebuild sweeps whole materialization tables, not one account"@);
    reveal_strlit("rebuild sweeps whole materialization tables, not models");
    lemma_plain("rebuild sweeps whole materialization tables, not models"@);
    reveal_strlit("rebuild prints no color");
    lemma_plain("rebuild prints no color"@);
}

proof fn lemma_doctor_is_plain()
    ensures
        says_plainly(Command::Doctor),
{
    reveal_with_fuel(plain_to, 13);
    reveal_strlit("doctor");
    lemma_plain("doctor"@);
    reveal_strlit("health, drift and integrity diagnostics");
    lemma_plain("health, drift and integrity diagnostics"@);
    reveal_strlit("is the recorded evidence healthy, and does the transcript corpus still match its parsers?");
    lemma_plain("is the recorded evidence healthy, and does the transcript corpus still match its parsers?"@);
    reveal_strlit("--fix | --transcript-format-drift");
    lemma_plain("--fix | --transcript-format-drift"@);
    reveal_strlit("doctor derives no quantity");
    lemma_plain("doctor derives no quantity"@);
    reveal_strlit("doctor is a system-wide diagnostic");
    lemma_plain("doctor is a system-wide diagnostic"@);
    reveal_strlit("doctor prints plain text or json");
    lemma_plain("doctor prints plain text or json"@);
}

proof fn lemma_coverage_is_plain()
    ensures
        says_plainly(Command::Coverage),
{
    reveal_with_fuel(plain_to, 11);
    reveal_strlit("coverage");
    lemma_plain("coverage"@);
    reveal_strlit("did the sampler attempt what the policy owed, and did those attempts observe?");
    lemma_plain("did the sampler attempt what the policy owed, and did those attempts observe?"@);
    reveal_strlit("--since DURATION (default 24h), --severe; --account is shared");
    lemma_plain("--since DURATION (default 24h), --severe; --account is shared"@);
    reveal_strlit("coverage reports every window of the account, not one model");
    lemma_plain("coverage reports every window of the account, not one model"@);
    reveal_strlit("coverage prints plain text or json");
    lemma_plain("coverage prints plain text or json"@);
}

proof fn lemma_import_is_plain()
    ensures
        says_plainly(Command::Import),
{
    reveal_with_fuel(plain_to, 15);
    reveal_strlit("import");
    lemma_plain("import"@);
    reveal_strlit("import explicitly selected legacy evidence with durable provenance");
    lemma_plain("import explicitly selected legacy evidence with durable provenance"@);
    reveal_strlit("which legacy evidence is safe to import into the ledger?");
    lemma_plain("which legacy evidence is safe to import into the ledger?"@);
    reveal_strlit("legacy-meter --source PATH --backup VERIFIED_ARCHIVE | seed-archive --source PATH --backup VERIFIED_ARCHIVE");
    lemma_plain("legacy-meter --source PATH --backup VERIFIED_ARCHIVE | seed-archive --source PATH --backup VERIFIED_ARCHIVE"@);
    reveal_strlit("import prints one operational result");
    lemma_plain("import prints one operational result"@);
    reveal_strlit("import derives no report");
    lemma_plain("import derives no report"@);
    reveal_strlit("import carries account identity in its source");
    lemma_plain("import carries account identity in its source"@);
    reveal_strlit("import carries no model selector");
    lemma_plain("import carries no model selector"@);
    reveal_strlit("import prints no color");
    lemma_plain("import prints no color"@);
}

proof fn lemma_sample_is_plain()
    ensures
        says_plainly(Command::Sample),
{
    reveal_with_fuel(plain_to, 13);
    reveal_strlit("sample");
    lemma_plain("sample"@);
    reveal_strlit("observe provider endpoints for due or selected accounts, recording session markers and evidence");
    lemma_plain("observe provider endpoints for due or selected accounts, recording session markers and evidence"@);
    reveal_strlit("are configured accounts due for meter sampling, and what did the endpoints observe?");
    lemma_plain("are configured accounts due for meter sampling, and what did the endpoints observe?"@);
    reveal_strlit("--due | --account NAME | --if-due | --session-id SESSION | --run-id RUN | --require-success");
    lemma_plain("--due | --account NAME | --if-due | --session-id SESSION | --run-id RUN | --require-success"@);
    reveal_strlit("sample derives no quantity");
    lemma_plain("sample derives no quantity"@);
    reveal_strlit("sample operates on configured accounts, not models");
    lemma_plain("sample operates on configured accounts, not models"@);
    reveal_strlit("sample prints plain status or json");
    lemma_plain("sample prints plain status or json"@);
}

proof fn lemma_now_is_plain()
    ensures
        says_plainly(Command::Now),
{
    reveal_with_fuel(plain_to, 13);
    reveal_strlit("now");
    lemma_plain("now"@);
    reveal_strlit("force a persisted sampling attempt for the selected accounts and render the resulting state");
    lemma_plain("force a persisted sampling attempt for the selected accounts and render the resulting state"@);
    reveal_strlit("how much quota does each configured account have right now?");
    lemma_plain("how much quota does each configured account have right now?"@);
    reveal_strlit("now reports every window; only status takes a --model selector");
    lemma_plain("now reports every window; only status takes a --model selector"@);
    reveal_strlit("now prints no color");
    lemma_plain("now prints no color"@);
}

proof fn lemma_clear_diagnostics_is_plain()
    ensures
        says_plainly(Command::ClearDiagnostics),
{
    reveal_with_fuel(plain_to, 8);
    reveal_strlit("clear-diagnostics");
    lemma_plain("clear-diagnostics"@);
    reveal_strlit("clear retained diagnostic provider bodies");
    lemma_plain("clear retained diagnostic provider bodies"@);
    reveal_strlit("how many retained diagnostic bodies were cleared?");
    lemma_plain("how many retained diagnostic bodies were cleared?"@);
    reveal_strlit("[--provider NAME | --all]");
    lemma_plain("[--provider NAME | --all]"@);
    reveal_strlit("clear-diagnostics derives no quantity");
    lemma_plain("clear-diagnostics derives no quantity"@);
    reveal_strlit("clear-diagnostics scopes by provider, not account");
    lemma_plain("clear-diagnostics scopes by provider, not account"@);
    reveal_strlit("clear-diagnostics takes no model");
    lemma_plain("clear-diagnostics takes no model"@);
    reveal_strlit("clear-diagnostics prints no color");
    lemma_plain("clear-diagnostics prints no color"@);
}

proof fn lemma_drill_is_plain()
    ensures
        says_plainly(Command::Drill),
{
    reveal_with_fuel(plain_to, 19);
    reveal_strlit("drill");
    lemma_plain("drill"@);
    reveal_strlit("damage a scratch state directory and prove the documented recovery procedure, or run it against a real archive");
    lemma_plain("damage a scratch state directory and prove the documented recovery procedure, or run it against a real archive"@);
    reveal_strlit("does the documented recovery procedure actually recover a damaged state directory, and is that still true today?");
    lemma_plain("does the documented recovery procedure actually recover a damaged state directory, and is that still true today?"@);
    reveal_strlit("--seed truncated-database|corrupted-projection|malformed-spool-record|unsupported-schema-version SCRATCH_DEST | --archive ARCHIVE SCRATCH_DEST");
    lemma_plain("--seed truncated-database|corrupted-projection|malformed-spool-record|unsupported-schema-version SCRATCH_DEST | --archive ARCHIVE SCRATCH_DEST"@);
    reveal_strlit("drill prints one operational result");
    lemma_plain("drill prints one operational result"@);
    reveal_strlit("drill derives no quantity");
    lemma_plain("drill derives no quantity"@);
    reveal_strlit("a drill exercises the whole state directory, not one account");
    lemma_plain("a drill exercises the whole state directory, not one account"@);
    reveal_strlit("a drill exercises the whole state directory, not one model");
    lemma_plain("a drill exercises the whole state directory, not one model"@);
    reveal_strlit("drill prints no color");
    lemma_plain("drill prints no color"@);
}

proof fn lemma_task_is_plain()
    ensures
        says_plainly(Command::Task),
{
    reveal_with_fuel(plain_to, 16);
    reveal_strlit("task");
    lemma_plain("task"@);
    reveal_strlit("ingest issue-tracker task-claim events and report per-task usage and overhead");
    lemma_plain("ingest issue-tracker task-claim events and report per-task usage and overhead"@);
    reveal_strlit("which task or named overhead bucket consumed this usage, by temporal segmentation of the issue tracker's claim history?");
    lemma_plain("which task or named overhead bucket consumed this usage, by temporal segmentation of the issue tracker's claim history?"@);
    reveal_strlit("ingest | report TASK-ID | overhead [--today (default) | --since YYYY-MM-DD | --days N]");
    lemma_plain("ingest | report TASK-ID | overhead [--today (default) | --since YYYY-MM-DD | --days N]"@);
    reveal_strlit("task attribution has no account dimension");
    lemma_plain("task attribution has no account dimension"@);
    reveal_strlit("task attribution has no model dimension");
    lemma_plain("task attribution has no model dimension"@);
    reveal_strlit("task prints no color");
    lemma_plain("task prints no color"@);
}

proof fn lemma_compare_is_plain()
    ensures
        says_plainly(Command::Compare),
{
    reveal_with_fuel(plain_to, 21);
    reveal_strlit("compare");
    lemma_plain("compare"@);
    reveal_strlit("record and inspect adapter-semantics comparisons against the provider's authoritative surface");
    lemma_plain("record and inspect adapter-semantics comparisons against the provider's authoritative surface"@);
    reveal_strlit("does the adapter's stored reading of one window agree with what the provider's own authoritative surface showed for it?");
    lemma_plain("does the adapter's stored reading of one window agree with what the provider's own authoritative surface showed for it?"@);
    reveal_strlit("record OBSERVATION_ID WINDOW --surface NAME --surface-percent N [--granularity-percent N] [--read-at RFC3339] [--detail TEXT] | uncompared OBSERVATION_ID");
    lemma_plain("record OBSERVATION_ID WINDOW --surface NAME --surface-percent N [--granularity-percent N] [--read-at RFC3339] [--detail TEXT] | uncompared OBSERVATION_ID"@);
    reveal_strlit("compare prints one operational result");
    lemma_plain("compare prints one operational result"@);
    reveal_strlit("compare derives no quantity");
    lemma_plain("compare derives no quantity"@);
    reveal_strlit("a comparison is scoped by observation and window, not by account");
    lemma_plain("a comparison is scoped by observation and window, not by account"@);
    reveal_strlit("a comparison is scoped by window, not by model");
    lemma_plain("a comparison is scoped by window, not by model"@);
    reveal_strlit("compare prints no color");
    lemma_plain("compare prints no color"@);
}

/// Every command that is no hook says plainly what it says.
pub proof fn lemma_commands_are_plain(command: Command)
    requires
        command.summary_text() is Some,
    ensures
        says_plainly(command),
{
    match command {
        Command::Status => lemma_status_is_plain(),
        Command::Spend => lemma_spend_is_plain(),
        Command::Config => lemma_config_is_plain(),
        Command::Export => lemma_export_is_plain(),
        Command::RateCard => lemma_rate_card_is_plain(),
        Command::Backup => lemma_backup_is_plain(),
        Command::Ingest => lemma_ingest_is_plain(),
        Command::Rebuild => lemma_rebuild_is_plain(),
        Command::Doctor => lemma_doctor_is_plain(),
        Command::Coverage => lemma_coverage_is_plain(),
        Command::Import => lemma_import_is_plain(),
        Command::Sample => lemma_sample_is_plain(),
        Command::Now => lemma_now_is_plain(),
        Command::ClearDiagnostics => lemma_clear_diagnostics_is_plain(),
        Command::Drill => lemma_drill_is_plain(),
        Command::Task => lemma_task_is_plain(),
        Command::Compare => lemma_compare_is_plain(),
        _ => {},
    }
}

/// What help says around that is plain.
pub proof fn lemma_help_is_plain()
    ensures
        plain("  "@),
        plain(" "@),
        plain(""@),
        plain(":"@),
        plain("  answers: "@),
        plain("  refuses: "@),
        plain("; "@),
        plain("  format: "@),
        plain("  options: "@),
        plain("text | json"@),
        plain("text only: "@),
        plain(" ("@),
        plain(")"@),
        plain("--format"@),
        plain("--explain"@),
        plain("--account"@),
        plain("--model"@),
        plain("--no-color"@),
        plain("aub: one ledger for LLM consumption"@),
        plain("usage: aub [-v...] <command> [--format text|json] [options]"@),
        plain("shared flags: -v, --format text|json, --explain[=summary|full], --account NAME, --model MODEL, --no-color"@),
        plain("commands:"@),
        plain("aub            prints the version; aub --help prints this"@),
        plain("\n"@),
{
    reveal_with_fuel(plain_to, 15);
    reveal_strlit("  ");
    lemma_plain("  "@);
    reveal_strlit(" ");
    lemma_plain(" "@);
    reveal_strlit("");
    lemma_plain(""@);
    reveal_strlit(":");
    lemma_plain(":"@);
    reveal_strlit("  answers: ");
    lemma_plain("  answers: "@);
    reveal_strlit("  refuses: ");
    lemma_plain("  refuses: "@);
    reveal_strlit("; ");
    lemma_plain("; "@);
    reveal_strlit("  format: ");
    lemma_plain("  format: "@);
    reveal_strlit("  options: ");
    lemma_plain("  options: "@);
    reveal_strlit("text | json");
    lemma_plain("text | json"@);
    reveal_strlit("text only: ");
    lemma_plain("text only: "@);
    reveal_strlit(" (");
    lemma_plain(" ("@);
    reveal_strlit(")");
    lemma_plain(")"@);
    reveal_strlit("--format");
    lemma_plain("--format"@);
    reveal_strlit("--explain");
    lemma_plain("--explain"@);
    reveal_strlit("--account");
    lemma_plain("--account"@);
    reveal_strlit("--model");
    lemma_plain("--model"@);
    reveal_strlit("--no-color");
    lemma_plain("--no-color"@);
    reveal_strlit("aub: one ledger for LLM consumption");
    lemma_plain("aub: one ledger for LLM consumption"@);
    reveal_strlit("usage: aub [-v...] <command> [--format text|json] [options]");
    lemma_plain("usage: aub [-v...] <command> [--format text|json] [options]"@);
    reveal_strlit("shared flags: -v, --format text|json, --explain[=summary|full], --account NAME, --model MODEL, --no-color");
    lemma_plain("shared flags: -v, --format text|json, --explain[=summary|full], --account NAME, --model MODEL, --no-color"@);
    reveal_strlit("commands:");
    lemma_plain("commands:"@);
    reveal_strlit("aub            prints the version; aub --help prints this");
    lemma_plain("aub            prints the version; aub --help prints this"@);
    reveal_strlit("\n");
    lemma_plain("\n"@);
}

} // verus!
