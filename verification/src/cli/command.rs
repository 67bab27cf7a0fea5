//! The commands, what each answers, and the shared flags each accepts or refuses.
//!
//! A refusal always carries the reason that help prints and the parser gives, so that
//! help and behaviour cannot drift apart.

use crate::sets::texts;
use crate::text::same_text;
use vstd::prelude::*;
use vstd::string::*;

verus! {

/// Every command.
#[derive(Debug, Clone, Copy, PartialEq, Eq, Structural)]
pub enum Command {
    Status,
    Spend,
    Config,
    Export,
    LoggingFixture,
    StateCheck,
    ExitClass,
    AttemptCrashHook,
    ProjectionCrashHook,
    CostModelFixture,
    RateCard,
    Backup,
    Ingest,
    Rebuild,
    Doctor,
    Coverage,
    Import,
    Sample,
    Now,
    ClearDiagnostics,
    Drill,
    Task,
    Compare,
}

/// The flags that all commands share.
#[derive(Debug, Clone, Copy, PartialEq, Eq, Structural)]
pub enum SharedFlag {
    Format,
    Explain,
    Account,
    Model,
    NoColor,
    Verbosity,
}

/// Whether a command accepts a shared flag, and why not where it does not.
#[derive(Debug, Clone, Copy, PartialEq, Eq)]
pub enum FlagSupport {
    Accepted,
    Rejected { reason: &'static str },
}

impl View for FlagSupport {
    type V = Option<Seq<char>>;

    /// The reason for a refusal.
    open spec fn view(&self) -> Option<Seq<char>> {
        match *self {
            FlagSupport::Accepted => None,
            FlagSupport::Rejected { reason } => Some(reason@),
        }
    }
}

/// Which shared flags a command accepts and which it refuses.
#[derive(Debug, Clone, Copy, PartialEq, Eq)]
pub struct FlagPolicy {
    pub format: FlagSupport,
    pub explain: FlagSupport,
    pub account: FlagSupport,
    pub model: FlagSupport,
    pub no_color: FlagSupport,
    pub verbosity: FlagSupport,
}

impl FlagPolicy {
    /// What the policy says of a flag: the reason for a refusal.
    pub open spec fn says(self, flag: SharedFlag) -> Option<Seq<char>> {
        match flag {
            SharedFlag::Format => self.format@,
            SharedFlag::Explain => self.explain@,
            SharedFlag::Account => self.account@,
            SharedFlag::Model => self.model@,
            SharedFlag::NoColor => self.no_color@,
            SharedFlag::Verbosity => self.verbosity@,
        }
    }
}

impl Command {
    /// Every command, in the order of declaration.
    pub const DECLARED_VARIANTS: [Self; 23] = [
        Self::Status,
        Self::Spend,
        Self::Config,
        Self::Export,
        Self::LoggingFixture,
        Self::StateCheck,
        Self::ExitClass,
        Self::AttemptCrashHook,
        Self::ProjectionCrashHook,
        Self::CostModelFixture,
        Self::RateCard,
        Self::Backup,
        Self::Ingest,
        Self::Rebuild,
        Self::Doctor,
        Self::Coverage,
        Self::Import,
        Self::Sample,
        Self::Now,
        Self::ClearDiagnostics,
        Self::Drill,
        Self::Task,
        Self::Compare,
    ];

    /// Every command, in the order in which help lists them.
    pub const ALL: [Self; 23] = [
        Self::Status,
        Self::Spend,
        Self::Config,
        Self::Export,
        Self::LoggingFixture,
        Self::StateCheck,
        Self::ExitClass,
        Self::AttemptCrashHook,
        Self::ProjectionCrashHook,
        Self::CostModelFixture,
        Self::RateCard,
        Self::Backup,
        Self::Ingest,
        Self::Rebuild,
        Self::Doctor,
        Self::Coverage,
        Self::Import,
        Self::Sample,
        Self::Now,
        Self::ClearDiagnostics,
        Self::Drill,
        Self::Task,
        Self::Compare,
    ];

    /// Why a command refuses `--format`; nothing where it accepts it.
    pub open spec fn format_refusal(self) -> Option<Seq<char>> {
        match self {
            Command::Status | Command::Spend | Command::Doctor | Command::Coverage | Command::Sample | Command::Now | Command::ClearDiagnostics | Command::Task => None,
            Command::Config => Some("config prints provenance, not a report"@),
            Command::Export => Some("export is always versioned JSONL"@),
            Command::LoggingFixture => Some("logging-fixture emits diagnostic fixtures, not a report"@),
            Command::StateCheck => Some("state-check prints a readiness line, not a report"@),
            Command::ExitClass => Some("exit-class returns an exit code, not a report"@),
            Command::AttemptCrashHook => Some("attempt-crash-hook drives the store, not a report"@),
            Command::ProjectionCrashHook => Some("projection-crash-hook drives the store, not a report"@),
            Command::CostModelFixture => Some("cost-model-fixture drives the store, not a report"@),
            Command::RateCard => Some("rate-card prints a price book, not a report"@),
            Command::Backup => Some("backup prints one operational result"@),
            Command::Ingest => Some("ingest prints one operational result"@),
            Command::Rebuild => Some("rebuild prints one operational result"@),
            Command::Import => Some("import prints one operational result"@),
            Command::Drill => Some("drill prints one operational result"@),
            Command::Compare => Some("compare prints one operational result"@),
        }
    }

    /// Why a command refuses `--explain`; nothing where it accepts it.
    pub open spec fn explain_refusal(self) -> Option<Seq<char>> {
        match self {
            Command::Status | Command::Spend | Command::Coverage | Command::Now | Command::Task => None,
            Command::Config => Some("config derives no quantity"@),
            Command::Export => Some("export derives no quantity"@),
            Command::LoggingFixture => Some("logging-fixture derives no quantity"@),
            Command::StateCheck => Some("state-check derives no quantity"@),
            Command::ExitClass => Some("exit-class derives no quantity"@),
            Command::AttemptCrashHook => Some("attempt-crash-hook derives no quantity"@),
            Command::ProjectionCrashHook => Some("projection-crash-hook derives no quantity"@),
            Command::CostModelFixture => Some("cost-model-fixture derives no quantity"@),
            Command::RateCard => Some("rate-card derives no quantity"@),
            Command::Backup => Some("backup derives no quantity"@),
            Command::Ingest => Some("ingest derives no quantity"@),
            Command::Rebuild => Some("rebuild derives no quantity"@),
            Command::Doctor => Some("doctor derives no quantity"@),
            Command::Import => Some("import derives no report"@),
            Command::Sample => Some("sample derives no quantity"@),
            Command::ClearDiagnostics => Some("clear-diagnostics derives no quantity"@),
            Command::Drill => Some("drill derives no quantity"@),
            Command::Compare => Some("compare derives no quantity"@),
        }
    }

    /// Why a command refuses `--account`; nothing where it accepts it.
    pub open spec fn account_refusal(self) -> Option<Seq<char>> {
        match self {
            Command::Status | Command::Coverage | Command::Sample | Command::Now => None,
            Command::Spend => Some("spend groups by account with --group-by account; it has no single-account filter"@),
            Command::Config => Some("config prints every account at once"@),
            Command::Export => Some("export reads every stored session, not one account"@),
            Command::LoggingFixture => Some("logging-fixture takes no account"@),
            Command::StateCheck => Some("state-check takes no account"@),
            Command::ExitClass => Some("exit-class takes no account"@),
            Command::AttemptCrashHook => Some("attempt-crash-hook names its own fixture account"@),
            Command::ProjectionCrashHook => Some("projection-crash-hook names its own fixture account"@),
            Command::CostModelFixture => Some("a cost model is scoped to a provider, not to an account"@),
            Command::RateCard => Some("the rate book is reference data, not per-account state"@),
            Command::Backup => Some("backup covers the whole ledger"@),
            Command::Ingest => Some("ingest reads the configured transcript sources"@),
            Command::Rebuild => Some("rebuild sweeps whole materialization tables, not one account"@),
            Command::Doctor => Some("doctor is a system-wide diagnostic"@),
            Command::Import => Some("import carries account identity in its source"@),
            Command::ClearDiagnostics => Some("clear-diagnostics scopes by provider, not account"@),
            Command::Drill => Some("a drill exercises the whole state directory, not one account"@),
            Command::Task => Some("task attribution has no account dimension"@),
            Command::Compare => Some("a comparison is scoped by observation and window, not by account"@),
        }
    }

    /// Why a command refuses `--model`; nothing where it accepts it.
    pub open spec fn model_refusal(self) -> Option<Seq<char>> {
        match self {
            Command::Status => None,
            Command::Spend => Some("spend has no model dimension until a model selector is needed"@),
            Command::Config => Some("config prints every key at once"@),
            Command::Export => Some("export keys on session or run, not on a model"@),
            Command::LoggingFixture => Some("logging-fixture takes no model"@),
            Command::StateCheck => Some("state-check takes no model"@),
            Command::ExitClass => Some("exit-class takes no model"@),
            Command::AttemptCrashHook => Some("attempt-crash-hook drives the store, not a model"@),
            Command::ProjectionCrashHook => Some("projection-crash-hook drives the store, not a model"@),
            Command::CostModelFixture => Some("cost-model-fixture names its own model"@),
            Command::RateCard => Some("the rate book is reference data, not per-model state"@),
            Command::Backup => Some("backup covers the whole ledger"@),
            Command::Ingest => Some("ingest reads transcript sources, not models"@),
            Command::Rebuild => Some("rebuild sweeps whole materialization tables, not models"@),
            Command::Doctor => Some("doctor is a system-wide diagnostic"@),
            Command::Coverage => Some("coverage reports every window of the account, not one model"@),
            Command::Import => Some("import carries no model selector"@),
            Command::Sample => Some("sample operates on configured accounts, not models"@),
            Command::Now => Some("now reports every window; only status takes a --model selector"@),
            Command::ClearDiagnostics => Some("clear-diagnostics takes no model"@),
            Command::Drill => Some("a drill exercises the whole state directory, not one model"@),
            Command::Task => Some("task attribution has no model dimension"@),
            Command::Compare => Some("a comparison is scoped by window, not by model"@),
        }
    }

    /// Why a command refuses `--no-color`; nothing where it accepts it.
    pub open spec fn no_color_refusal(self) -> Option<Seq<char>> {
        match self {
            Command::Status => Some("status prints no color"@),
            Command::Spend => Some("spend prints no color"@),
            Command::Config => Some("config prints no color"@),
            Command::Export => Some("export prints no color"@),
            Command::LoggingFixture => Some("logging-fixture prints no color"@),
            Command::StateCheck => Some("state-check prints no color"@),
            Command::ExitClass => Some("exit-class prints no color"@),
            Command::AttemptCrashHook => Some("attempt-crash-hook prints plain counts"@),
            Command::ProjectionCrashHook => Some("projection-crash-hook prints plain counts"@),
            Command::CostModelFixture => Some("cost-model-fixture prints a plain activation line"@),
            Command::RateCard => Some("rate-card prints plain rows"@),
            Command::Backup => Some("backup prints no color"@),
            Command::Ingest => Some("ingest prints no color"@),
            Command::Rebuild => Some("rebuild prints no color"@),
            Command::Doctor => Some("doctor prints plain text or json"@),
            Command::Coverage => Some("coverage prints plain text or json"@),
            Command::Import => Some("import prints no color"@),
            Command::Sample => Some("sample prints plain status or json"@),
            Command::Now => Some("now prints no color"@),
            Command::ClearDiagnostics => Some("clear-diagnostics prints no color"@),
            Command::Drill => Some("drill prints no color"@),
            Command::Task => Some("task prints no color"@),
            Command::Compare => Some("compare prints no color"@),
        }
    }

    /// Why a command refuses a shared flag; nothing where it accepts it. Every command
    /// accepts verbosity.
    pub open spec fn refusal(self, flag: SharedFlag) -> Option<Seq<char>> {
        match flag {
            SharedFlag::Format => self.format_refusal(),
            SharedFlag::Explain => self.explain_refusal(),
            SharedFlag::Account => self.account_refusal(),
            SharedFlag::Model => self.model_refusal(),
            SharedFlag::NoColor => self.no_color_refusal(),
            SharedFlag::Verbosity => None,
        }
    }

    /// The shared flags a command accepts and those it refuses.
    pub fn flag_policy(self) -> (policy: FlagPolicy)
        ensures
            forall|flag: SharedFlag| #[trigger] policy.says(flag) == self.refusal(flag),
    {
        match self {
            Command::Status => FlagPolicy {
                format: FlagSupport::Accepted,
                explain: FlagSupport::Accepted,
                account: FlagSupport::Accepted,
                model: FlagSupport::Accepted,
                no_color: FlagSupport::Rejected {
                    reason: "status prints no color",
                },
                verbosity: FlagSupport::Accepted,
            },
            Command::Spend => FlagPolicy {
                format: FlagSupport::Accepted,
                explain: FlagSupport::Accepted,
                account: FlagSupport::Rejected {
                    reason: "spend groups by account with --group-by account; it has no single-account filter",
                },
                model: FlagSupport::Rejected {
                    reason: "spend has no model dimension until a model selector is needed",
                },
                no_color: FlagSupport::Rejected {
                    reason: "spend prints no color",
                },
                verbosity: FlagSupport::Accepted,
            },
            Command::Config => FlagPolicy {
                format: FlagSupport::Rejected {
                    reason: "config prints provenance, not a report",
                },
                explain: FlagSupport::Rejected {
                    reason: "config derives no quantity",
                },
                account: FlagSupport::Rejected {
                    reason: "config prints every account at once",
                },
                model: FlagSupport::Rejected {
                    reason: "config prints every key at once",
                },
                no_color: FlagSupport::Rejected {
                    reason: "config prints no color",
                },
                verbosity: FlagSupport::Accepted,
            },
            Command::Export => FlagPolicy {
                format: FlagSupport::Rejected {
                    reason: "export is always versioned JSONL",
                },
                explain: FlagSupport::Rejected {
                    reason: "export derives no quantity",
                },
                account: FlagSupport::Rejected {
                    reason: "export reads every stored session, not one account",
                },
                model: FlagSupport::Rejected {
                    reason: "export keys on session or run, not on a model",
                },
                no_color: FlagSupport::Rejected {
                    reason: "export prints no color",
                },
                verbosity: FlagSupport::Accepted,
            },
            Command::LoggingFixture => FlagPolicy {
                format: FlagSupport::Rejected {
                    reason: "logging-fixture emits diagnostic fixtures, not a report",
                },
                explain: FlagSupport::Rejected {
                    reason: "logging-fixture derives no quantity",
                },
                account: FlagSupport::Rejected {
                    reason: "logging-fixture takes no account",
                },
                model: FlagSupport::Rejected {
                    reason: "logging-fixture takes no model",
                },
                no_color: FlagSupport::Rejected {
                    reason: "logging-fixture prints no color",
                },
                verbosity: FlagSupport::Accepted,
            },
            Command::StateCheck => FlagPolicy {
                format: FlagSupport::Rejected {
                    reason: "state-check prints a readiness line, not a report",
                },
                explain: FlagSupport::Rejected {
                    reason: "state-check derives no quantity",
                },
                account: FlagSupport::Rejected {
                    reason: "state-check takes no account",
                },
                model: FlagSupport::Rejected {
                    reason: "state-check takes no model",
                },
                no_color: FlagSupport::Rejected {
                    reason: "state-check prints no color",
                },
                verbosity: FlagSupport::Accepted,
            },
            Command::ExitClass => FlagPolicy {
                format: FlagSupport::Rejected {
                    reason: "exit-class returns an exit code, not a report",
                },
                explain: FlagSupport::Rejected {
                    reason: "exit-class derives no quantity",
                },
                account: FlagSupport::Rejected {
                    reason: "exit-class takes no account",
                },
                model: FlagSupport::Rejected {
                    reason: "exit-class takes no model",
                },
                no_color: FlagSupport::Rejected {
                    reason: "exit-class prints no color",
                },
                verbosity: FlagSupport::Accepted,
            },
            Command::AttemptCrashHook => FlagPolicy {
                format: FlagSupport::Rejected {
                    reason: "attempt-crash-hook drives the store, not a report",
                },
                explain: FlagSupport::Rejected {
                    reason: "attempt-crash-hook derives no quantity",
                },
                account: FlagSupport::Rejected {
                    reason: "attempt-crash-hook names its own fixture account",
                },
                model: FlagSupport::Rejected {
                    reason: "attempt-crash-hook drives the store, not a model",
                },
                no_color: FlagSupport::Rejected {
                    reason: "attempt-crash-hook prints plain counts",
                },
                verbosity: FlagSupport::Accepted,
            },
            Command::ProjectionCrashHook => FlagPolicy {
                format: FlagSupport::Rejected {
                    reason: "projection-crash-hook drives the store, not a report",
                },
                explain: FlagSupport::Rejected {
                    reason: "projection-crash-hook derives no quantity",
                },
                account: FlagSupport::Rejected {
                    reason: "projection-crash-hook names its own fixture account",
                },
                model: FlagSupport::Rejected {
                    reason: "projection-crash-hook drives the store, not a model",
                },
                no_color: FlagSupport::Rejected {
                    reason: "projection-crash-hook prints plain counts",
                },
                verbosity: FlagSupport::Accepted,
            },
            Command::CostModelFixture => FlagPolicy {
                format: FlagSupport::Rejected {
                    reason: "cost-model-fixture drives the store, not a report",
                },
                explain: FlagSupport::Rejected {
                    reason: "cost-model-fixture derives no quantity",
                },
                account: FlagSupport::Rejected {
                    reason: "a cost model is scoped to a provider, not to an account",
                },
                model: FlagSupport::Rejected {
                    reason: "cost-model-fixture names its own model",
                },
                no_color: FlagSupport::Rejected {
                    reason: "cost-model-fixture prints a plain activation line",
                },
                verbosity: FlagSupport::Accepted,
            },
            Command::RateCard => FlagPolicy {
                format: FlagSupport::Rejected {
                    reason: "rate-card prints a price book, not a report",
                },
                explain: FlagSupport::Rejected {
                    reason: "rate-card derives no quantity",
                },
                account: FlagSupport::Rejected {
                    reason: "the rate book is reference data, not per-account state",
                },
                model: FlagSupport::Rejected {
                    reason: "the rate book is reference data, not per-model state",
                },
                no_color: FlagSupport::Rejected {
                    reason: "rate-card prints plain rows",
                },
                verbosity: FlagSupport::Accepted,
            },
            Command::Backup => FlagPolicy {
                format: FlagSupport::Rejected {
                    reason: "backup prints one operational result",
                },
                explain: FlagSupport::Rejected {
                    reason: "backup derives no quantity",
                },
                account: FlagSupport::Rejected {
                    reason: "backup covers the whole ledger",
                },
                model: FlagSupport::Rejected {
                    reason: "backup covers the whole ledger",
                },
                no_color: FlagSupport::Rejected {
                    reason: "backup prints no color",
                },
                verbosity: FlagSupport::Accepted,
            },
            Command::Ingest => FlagPolicy {
                format: FlagSupport::Rejected {
                    reason: "ingest prints one operational result",
                },
                explain: FlagSupport::Rejected {
                    reason: "ingest derives no quantity",
                },
                account: FlagSupport::Rejected {
                    reason: "ingest reads the configured transcript sources",
                },
                model: FlagSupport::Rejected {
                    reason: "ingest reads transcript sources, not models",
                },
                no_color: FlagSupport::Rejected {
                    reason: "ingest prints no color",
                },
                verbosity: FlagSupport::Accepted,
            },
            Command::Rebuild => FlagPolicy {
                format: FlagSupport::Rejected {
                    reason: "rebuild prints one operational result",
                },
                explain: FlagSupport::Rejected {
                    reason: "rebuild derives no quantity",
                },
                account: FlagSupport::Rejected {
                    reason: "rebuild sweeps whole materialization tables, not one account",
                },
                model: FlagSupport::Rejected {
                    reason: "rebuild sweeps whole materialization tables, not models",
                },
                no_color: FlagSupport::Rejected {
                    reason: "rebuild prints no color",
                },
                verbosity: FlagSupport::Accepted,
            },
            Command::Doctor => FlagPolicy {
                format: FlagSupport::Accepted,
                explain: FlagSupport::Rejected {
                    reason: "doctor derives no quantity",
                },
                account: FlagSupport::Rejected {
                    reason: "doctor is a system-wide diagnostic",
                },
                model: FlagSupport::Rejected {
                    reason: "doctor is a system-wide diagnostic",
                },
                no_color: FlagSupport::Rejected {
                    reason: "doctor prints plain text or json",
                },
                verbosity: FlagSupport::Accepted,
            },
            Command::Coverage => FlagPolicy {
                format: FlagSupport::Accepted,
                explain: FlagSupport::Accepted,
                account: FlagSupport::Accepted,
                model: FlagSupport::Rejected {
                    reason: "coverage reports every window of the account, not one model",
                },
                no_color: FlagSupport::Rejected {
                    reason: "coverage prints plain text or json",
                },
                verbosity: FlagSupport::Accepted,
            },
            Command::Import => FlagPolicy {
                format: FlagSupport::Rejected {
                    reason: "import prints one operational result",
                },
                explain: FlagSupport::Rejected {
                    reason: "import derives no report",
                },
                account: FlagSupport::Rejected {
                    reason: "import carries account identity in its source",
                },
                model: FlagSupport::Rejected {
                    reason: "import carries no model selector",
                },
                no_color: FlagSupport::Rejected {
                    reason: "import prints no color",
                },
                verbosity: FlagSupport::Accepted,
            },
            Command::Sample => FlagPolicy {
                format: FlagSupport::Accepted,
                explain: FlagSupport::Rejected {
                    reason: "sample derives no quantity",
                },
                account: FlagSupport::Accepted,
                model: FlagSupport::Rejected {
                    reason: "sample operates on configured accounts, not models",
                },
                no_color: FlagSupport::Rejected {
                    reason: "sample prints plain status or json",
                },
                verbosity: FlagSupport::Accepted,
            },
            Command::Now => FlagPolicy {
                format: FlagSupport::Accepted,
                explain: FlagSupport::Accepted,
                account: FlagSupport::Accepted,
                model: FlagSupport::Rejected {
                    reason: "now reports every window; only status takes a --model selector",
                },
                no_color: FlagSupport::Rejected {
                    reason: "now prints no color",
                },
                verbosity: FlagSupport::Accepted,
            },
            Command::ClearDiagnostics => FlagPolicy {
                format: FlagSupport::Accepted,
                explain: FlagSupport::Rejected {
                    reason: "clear-diagnostics derives no quantity",
                },
                account: FlagSupport::Rejected {
                    reason: "clear-diagnostics scopes by provider, not account",
                },
                model: FlagSupport::Rejected {
                    reason: "clear-diagnostics takes no model",
                },
                no_color: FlagSupport::Rejected {
                    reason: "clear-diagnostics prints no color",
                },
                verbosity: FlagSupport::Accepted,
            },
            Command::Drill => FlagPolicy {
                format: FlagSupport::Rejected {
                    reason: "drill prints one operational result",
                },
                explain: FlagSupport::Rejected {
                    reason: "drill derives no quantity",
                },
                account: FlagSupport::Rejected {
                    reason: "a drill exercises the whole state directory, not one account",
                },
                model: FlagSupport::Rejected {
                    reason: "a drill exercises the whole state directory, not one model",
                },
                no_color: FlagSupport::Rejected {
                    reason: "drill prints no color",
                },
                verbosity: FlagSupport::Accepted,
            },
            Command::Task => FlagPolicy {
                format: FlagSupport::Accepted,
                explain: FlagSupport::Accepted,
                account: FlagSupport::Rejected {
                    reason: "task attribution has no account dimension",
                },
                model: FlagSupport::Rejected {
                    reason: "task attribution has no model dimension",
                },
                no_color: FlagSupport::Rejected {
                    reason: "task prints no color",
                },
                verbosity: FlagSupport::Accepted,
            },
            Command::Compare => FlagPolicy {
                format: FlagSupport::Rejected {
                    reason: "compare prints one operational result",
                },
                explain: FlagSupport::Rejected {
                    reason: "compare derives no quantity",
                },
                account: FlagSupport::Rejected {
                    reason: "a comparison is scoped by observation and window, not by account",
                },
                model: FlagSupport::Rejected {
                    reason: "a comparison is scoped by window, not by model",
                },
                no_color: FlagSupport::Rejected {
                    reason: "compare prints no color",
                },
                verbosity: FlagSupport::Accepted,
            },
        }
    }

    /// The token that selects a command on the command line.
    pub open spec fn token(self) -> Seq<char> {
        match self {
            Command::Status => "status"@,
            Command::Spend => "spend"@,
            Command::Config => "config"@,
            Command::Export => "export"@,
            Command::LoggingFixture => "__logging-fixture"@,
            Command::StateCheck => "__state-check"@,
            Command::ExitClass => "__exit-class"@,
            Command::AttemptCrashHook => "__attempt-crash-hook"@,
            Command::ProjectionCrashHook => "__projection-crash-hook"@,
            Command::CostModelFixture => "__cost-model-fixture"@,
            Command::RateCard => "rate-card"@,
            Command::Backup => "backup"@,
            Command::Ingest => "ingest"@,
            Command::Rebuild => "rebuild"@,
            Command::Doctor => "doctor"@,
            Command::Coverage => "coverage"@,
            Command::Import => "import"@,
            Command::Sample => "sample"@,
            Command::Now => "now"@,
            Command::ClearDiagnostics => "clear-diagnostics"@,
            Command::Drill => "drill"@,
            Command::Task => "task"@,
            Command::Compare => "compare"@,
        }
    }

    /// The token that selects this command on the command line. A hook for tests begins
    /// with two underscores, so that it is not typed by accident.
    pub fn name(self) -> (name: &'static str)
        ensures
            name@ == self.token(),
    {
        match self {
            Command::Status => "status",
            Command::Spend => "spend",
            Command::Config => "config",
            Command::Export => "export",
            Command::LoggingFixture => "__logging-fixture",
            Command::StateCheck => "__state-check",
            Command::ExitClass => "__exit-class",
            Command::AttemptCrashHook => "__attempt-crash-hook",
            Command::ProjectionCrashHook => "__projection-crash-hook",
            Command::CostModelFixture => "__cost-model-fixture",
            Command::RateCard => "rate-card",
            Command::Backup => "backup",
            Command::Ingest => "ingest",
            Command::Rebuild => "rebuild",
            Command::Doctor => "doctor",
            Command::Coverage => "coverage",
            Command::Import => "import",
            Command::Sample => "sample",
            Command::Now => "now",
            Command::ClearDiagnostics => "clear-diagnostics",
            Command::Drill => "drill",
            Command::Task => "task",
            Command::Compare => "compare",
        }
    }

    /// The one-line description in help; a hook has none.
    pub open spec fn summary_text(self) -> Option<Seq<char>> {
        match self {
            Command::LoggingFixture | Command::StateCheck | Command::ExitClass | Command::AttemptCrashHook | Command::ProjectionCrashHook | Command::CostModelFixture => None,
            Command::Status => Some("render the last known meter reading per configured account"@),
            Command::Spend => Some("canonical token usage grouped by day, session, project, repository, task or account"@),
            Command::Config => Some("print every resolved configuration key with the source that won"@),
            Command::Export => Some("emit versioned JSONL usage rows keyed by session-id or run-id for external joins"@),
            Command::RateCard => Some("import, show and history the immutable dated vendor rate cards"@),
            Command::Backup => Some("create or verify a consistent archive of durable state"@),
            Command::Ingest => Some("land the configured transcripts' normalized usage into the ledger, advancing the ingestion generation"@),
            Command::Rebuild => Some("destroy and recreate one rebuildable materialization group, never touching irreplaceable evidence"@),
            Command::Doctor => Some("health, drift and integrity diagnostics"@),
            Command::Coverage => Some("did the sampler attempt what the policy owed, and did those attempts observe?"@),
            Command::Import => Some("import explicitly selected legacy evidence with durable provenance"@),
            Command::Sample => Some("observe provider endpoints for due or selected accounts, recording session markers and evidence"@),
            Command::Now => Some("force a persisted sampling attempt for the selected accounts and render the resulting state"@),
            Command::ClearDiagnostics => Some("clear retained diagnostic provider bodies"@),
            Command::Drill => Some("damage a scratch state directory and prove the documented recovery procedure, or run it against a real archive"@),
            Command::Task => Some("ingest issue-tracker task-claim events and report per-task usage and overhead"@),
            Command::Compare => Some("record and inspect adapter-semantics comparisons against the provider's authoritative surface"@),
        }
    }

    /// The one-line description that help prints. A hook has none: help does not list it.
    pub fn summary(self) -> (text: Option<&'static str>)
        ensures
            shown(text) == self.summary_text(),
    {
        match self {
            Command::LoggingFixture | Command::StateCheck | Command::ExitClass | Command::AttemptCrashHook | Command::ProjectionCrashHook | Command::CostModelFixture => None,
            Command::Status => Some("render the last known meter reading per configured account"),
            Command::Spend => Some("canonical token usage grouped by day, session, project, repository, task or account"),
            Command::Config => Some("print every resolved configuration key with the source that won"),
            Command::Export => Some("emit versioned JSONL usage rows keyed by session-id or run-id for external joins"),
            Command::RateCard => Some("import, show and history the immutable dated vendor rate cards"),
            Command::Backup => Some("create or verify a consistent archive of durable state"),
            Command::Ingest => Some("land the configured transcripts' normalized usage into the ledger, advancing the ingestion generation"),
            Command::Rebuild => Some("destroy and recreate one rebuildable materialization group, never touching irreplaceable evidence"),
            Command::Doctor => Some("health, drift and integrity diagnostics"),
            Command::Coverage => Some("did the sampler attempt what the policy owed, and did those attempts observe?"),
            Command::Import => Some("import explicitly selected legacy evidence with durable provenance"),
            Command::Sample => Some("observe provider endpoints for due or selected accounts, recording session markers and evidence"),
            Command::Now => Some("force a persisted sampling attempt for the selected accounts and render the resulting state"),
            Command::ClearDiagnostics => Some("clear retained diagnostic provider bodies"),
            Command::Drill => Some("damage a scratch state directory and prove the documented recovery procedure, or run it against a real archive"),
            Command::Task => Some("ingest issue-tracker task-claim events and report per-task usage and overhead"),
            Command::Compare => Some("record and inspect adapter-semantics comparisons against the provider's authoritative surface"),
        }
    }

    /// The question a command answers; a hook answers none.
    pub open spec fn question_text(self) -> Option<Seq<char>> {
        match self {
            Command::LoggingFixture | Command::StateCheck | Command::ExitClass | Command::AttemptCrashHook | Command::ProjectionCrashHook | Command::CostModelFixture => None,
            Command::Status => Some("how much quota does each configured account have left?"@),
            Command::Spend => Some("how many canonical tokens were used, grouped by the requested dimensions?"@),
            Command::Config => Some("which configuration key resolved from where?"@),
            Command::Export => Some("which usage did each session or run consume, as a versioned JSONL ledger for an external join?"@),
            Command::RateCard => Some("what do the immutable dated vendor rate cards contain?"@),
            Command::Backup => Some("is there a consistent, verified archive of the durable state, and does it restore?"@),
            Command::Ingest => Some("have the transcript-derived tables been refreshed from the transcripts on disk, under one generation?"@),
            Command::Rebuild => Some("can the transcript-derived materializations be rebuilt from scratch while every irreplaceable record is left untouched?"@),
            Command::Doctor => Some("is the recorded evidence healthy, and does the transcript corpus still match its parsers?"@),
            Command::Coverage => Some("did the sampler attempt what the policy owed, and did those attempts observe?"@),
            Command::Import => Some("which legacy evidence is safe to import into the ledger?"@),
            Command::Sample => Some("are configured accounts due for meter sampling, and what did the endpoints observe?"@),
            Command::Now => Some("how much quota does each configured account have right now?"@),
            Command::ClearDiagnostics => Some("how many retained diagnostic bodies were cleared?"@),
            Command::Drill => Some("does the documented recovery procedure actually recover a damaged state directory, and is that still true today?"@),
            Command::Task => Some("which task or named overhead bucket consumed this usage, by temporal segmentation of the issue tracker's claim history?"@),
            Command::Compare => Some("does the adapter's stored reading of one window agree with what the provider's own authoritative surface showed for it?"@),
        }
    }

    /// The question this command answers. A hook answers none.
    pub fn question(self) -> (text: Option<&'static str>)
        ensures
            shown(text) == self.question_text(),
    {
        match self {
            Command::LoggingFixture | Command::StateCheck | Command::ExitClass | Command::AttemptCrashHook | Command::ProjectionCrashHook | Command::CostModelFixture => None,
            Command::Status => Some("how much quota does each configured account have left?"),
            Command::Spend => Some("how many canonical tokens were used, grouped by the requested dimensions?"),
            Command::Config => Some("which configuration key resolved from where?"),
            Command::Export => Some("which usage did each session or run consume, as a versioned JSONL ledger for an external join?"),
            Command::RateCard => Some("what do the immutable dated vendor rate cards contain?"),
            Command::Backup => Some("is there a consistent, verified archive of the durable state, and does it restore?"),
            Command::Ingest => Some("have the transcript-derived tables been refreshed from the transcripts on disk, under one generation?"),
            Command::Rebuild => Some("can the transcript-derived materializations be rebuilt from scratch while every irreplaceable record is left untouched?"),
            Command::Doctor => Some("is the recorded evidence healthy, and does the transcript corpus still match its parsers?"),
            Command::Coverage => Some("did the sampler attempt what the policy owed, and did those attempts observe?"),
            Command::Import => Some("which legacy evidence is safe to import into the ledger?"),
            Command::Sample => Some("are configured accounts due for meter sampling, and what did the endpoints observe?"),
            Command::Now => Some("how much quota does each configured account have right now?"),
            Command::ClearDiagnostics => Some("how many retained diagnostic bodies were cleared?"),
            Command::Drill => Some("does the documented recovery procedure actually recover a damaged state directory, and is that still true today?"),
            Command::Task => Some("which task or named overhead bucket consumed this usage, by temporal segmentation of the issue tracker's claim history?"),
            Command::Compare => Some("does the adapter's stored reading of one window agree with what the provider's own authoritative surface showed for it?"),
        }
    }

    /// A command's own options, where it has some.
    pub open spec fn options_text(self) -> Option<Seq<char>> {
        match self {
            Command::Status | Command::LoggingFixture | Command::StateCheck | Command::ExitClass | Command::AttemptCrashHook | Command::ProjectionCrashHook | Command::CostModelFixture | Command::RateCard | Command::Now => None,
            Command::Spend => Some("--today (default) | --since YYYY-MM-DD | --days N | --group-by day|session|project|repository|task|account (repeatable) | --credits | --refresh auto|never|force | --value api-list"@),
            Command::Config => Some("--set key=value (repeatable), --config-file PATH"@),
            Command::Export => Some("--key session-id|run-id (required), --include-logical-ids"@),
            Command::Backup => Some("DESTINATION | verify DESTINATION | restore ARCHIVE DEST [--surviving DIR]"@),
            Command::Ingest => Some("transcripts [--source NAME] [--changed-only]"@),
            Command::Rebuild => Some("transcripts | attribution"@),
            Command::Doctor => Some("--fix | --transcript-format-drift"@),
            Command::Coverage => Some("--since DURATION (default 24h), --severe; --account is shared"@),
            Command::Import => Some("legacy-meter --source PATH --backup VERIFIED_ARCHIVE | seed-archive --source PATH --backup VERIFIED_ARCHIVE"@),
            Command::Sample => Some("--due | --account NAME | --if-due | --session-id SESSION | --run-id RUN | --require-success"@),
            Command::ClearDiagnostics => Some("[--provider NAME | --all]"@),
            Command::Drill => Some("--seed truncated-database|corrupted-projection|malformed-spool-record|unsupported-schema-version SCRATCH_DEST | --archive ARCHIVE SCRATCH_DEST"@),
            Command::Task => Some("ingest | report TASK-ID | overhead [--today (default) | --since YYYY-MM-DD | --days N]"@),
            Command::Compare => Some("record OBSERVATION_ID WINDOW --surface NAME --surface-percent N [--granularity-percent N] [--read-at RFC3339] [--detail TEXT] | uncompared OBSERVATION_ID"@),
        }
    }

    /// This command's own options, where it has some.
    pub fn options_help(self) -> (text: Option<&'static str>)
        ensures
            shown(text) == self.options_text(),
    {
        match self {
            Command::Status | Command::LoggingFixture | Command::StateCheck | Command::ExitClass | Command::AttemptCrashHook | Command::ProjectionCrashHook | Command::CostModelFixture | Command::RateCard | Command::Now => None,
            Command::Spend => Some("--today (default) | --since YYYY-MM-DD | --days N | --group-by day|session|project|repository|task|account (repeatable) | --credits | --refresh auto|never|force | --value api-list"),
            Command::Config => Some("--set key=value (repeatable), --config-file PATH"),
            Command::Export => Some("--key session-id|run-id (required), --include-logical-ids"),
            Command::Backup => Some("DESTINATION | verify DESTINATION | restore ARCHIVE DEST [--surviving DIR]"),
            Command::Ingest => Some("transcripts [--source NAME] [--changed-only]"),
            Command::Rebuild => Some("transcripts | attribution"),
            Command::Doctor => Some("--fix | --transcript-format-drift"),
            Command::Coverage => Some("--since DURATION (default 24h), --severe; --account is shared"),
            Command::Import => Some("legacy-meter --source PATH --backup VERIFIED_ARCHIVE | seed-archive --source PATH --backup VERIFIED_ARCHIVE"),
            Command::Sample => Some("--due | --account NAME | --if-due | --session-id SESSION | --run-id RUN | --require-success"),
            Command::ClearDiagnostics => Some("[--provider NAME | --all]"),
            Command::Drill => Some("--seed truncated-database|corrupted-projection|malformed-spool-record|unsupported-schema-version SCRATCH_DEST | --archive ARCHIVE SCRATCH_DEST"),
            Command::Task => Some("ingest | report TASK-ID | overhead [--today (default) | --since YYYY-MM-DD | --days N]"),
            Command::Compare => Some("record OBSERVATION_ID WINDOW --surface NAME --surface-percent N [--granularity-percent N] [--read-at RFC3339] [--detail TEXT] | uncompared OBSERVATION_ID"),
        }
    }

    /// The formats a command accepts, as help states them.
    pub open spec fn format_text(self) -> Seq<char> {
        match self.format_refusal() {
            None => "text | json"@,
            Some(reason) => "text only: "@ + reason,
        }
    }

    /// The formats this command accepts, or why it has only one.
    pub fn format_help(self) -> (text: String)
        ensures
            text@ == self.format_text(),
    {
        let policy: FlagPolicy = self.flag_policy();
        assert(policy.says(SharedFlag::Format) == self.refusal(SharedFlag::Format));
        match policy.format {
            FlagSupport::Accepted => "text | json".to_owned(),
            FlagSupport::Rejected { reason } => {
                let mut text: String = "text only: ".to_owned();
                text.append(reason);
                text
            },
        }
    }

    /// The shared flags a command refuses, each with the reason.
    pub open spec fn refusals(self) -> Seq<Seq<char>> {
        refused("--format"@, self.format_refusal()) + refused(
            "--explain"@,
            self.explain_refusal(),
        ) + refused("--account"@, self.account_refusal()) + refused(
            "--model"@,
            self.model_refusal(),
        ) + refused("--no-color"@, self.no_color_refusal())
    }

    /// The shared flags this command refuses, each with the reason the parser gives.
    pub fn refused_flags(self) -> (list: Vec<String>)
        ensures
            texts(list@) == self.refusals(),
    {
        let policy: FlagPolicy = self.flag_policy();
        let mut list: Vec<String> = Vec::new();
        assert(texts(list@) =~= Seq::<Seq<char>>::empty());
        assert(policy.says(SharedFlag::Format) == self.refusal(SharedFlag::Format));
        assert(policy.says(SharedFlag::Explain) == self.refusal(SharedFlag::Explain));
        assert(policy.says(SharedFlag::Account) == self.refusal(SharedFlag::Account));
        assert(policy.says(SharedFlag::Model) == self.refusal(SharedFlag::Model));
        assert(policy.says(SharedFlag::NoColor) == self.refusal(SharedFlag::NoColor));
        push_refusal(&mut list, "--format", policy.format);
        push_refusal(&mut list, "--explain", policy.explain);
        push_refusal(&mut list, "--account", policy.account);
        push_refusal(&mut list, "--model", policy.model);
        push_refusal(&mut list, "--no-color", policy.no_color);
        assert(texts(list@) =~= self.refusals());
        list
    }

    /// The command that a token selects.
    pub open spec fn named(name: Seq<char>) -> Option<Command> {
        if name == "clear-captures"@ {
            Some(Command::ClearDiagnostics)
        } else if exists|c: Command| #[trigger] c.token() == name {
            Some(choose|c: Command| #[trigger] c.token() == name)
        } else {
            None
        }
    }

    /// The command that a token selects. Clearing diagnostics goes by a second name.
    pub fn from_name(name: &str) -> (command: Option<Self>)
        ensures
            command == Command::named(name@),
    {
        if same_text(name, "clear-captures") {
            return Some(Command::ClearDiagnostics);
        }
        let all: [Command; 23] = Command::ALL;
        let mut i: usize = 0;
        while i < 23
            invariant
                i <= 23,
                all@ == every_command(),
                name@ != "clear-captures"@,
                forall|k: int| 0 <= k < i ==> (#[trigger] every_command()[k]).token() != name@,
            decreases 23 - i,
        {
            if same_text(name, all[i].name()) {
                proof {
                    let found = all@[i as int];
                    assert(found.token() == name@);
                    let chosen = choose|c: Command| #[trigger] c.token() == name@;
                    law_tokens_are_distinct(found, chosen);
                }
                return Some(all[i]);
            }
            i = i + 1;
        }
        proof {
            assert forall|c: Command| #[trigger] c.token() != name@ by {
                law_every_command_is_listed(c);
                let k = position(c);
                assert(every_command()[k].token() != name@);
            }
        }
        None
    }
}

/// What an optional text shows.
pub open spec fn shown(text: Option<&'static str>) -> Option<Seq<char>> {
    match text {
        Some(t) => Some(t@),
        None => None,
    }
}

/// A refusal of one flag, as help states it.
pub open spec fn refused(flag: Seq<char>, reason: Option<Seq<char>>) -> Seq<Seq<char>> {
    match reason {
        Some(r) => seq![flag + " ("@ + r + ")"@],
        None => Seq::empty(),
    }
}

fn push_refusal(list: &mut Vec<String>, flag: &'static str, support: FlagSupport)
    ensures
        texts(final(list)@) == texts(old(list)@) + refused(flag@, support@),
{
    match support {
        FlagSupport::Accepted => {
            assert(texts(list@) =~= texts(old(list)@) + refused(flag@, support@));
        },
        FlagSupport::Rejected { reason } => {
            let mut text: String = flag.to_owned();
            text.append(" (");
            text.append(reason);
            text.append(")");
            list.push(text);
            assert(texts(list@) =~= texts(old(list)@) + refused(flag@, support@));
        },
    }
}

/// Every command, in the order of declaration.
pub open spec fn every_command() -> Seq<Command> {
    seq![
        Command::Status,
        Command::Spend,
        Command::Config,
        Command::Export,
        Command::LoggingFixture,
        Command::StateCheck,
        Command::ExitClass,
        Command::AttemptCrashHook,
        Command::ProjectionCrashHook,
        Command::CostModelFixture,
        Command::RateCard,
        Command::Backup,
        Command::Ingest,
        Command::Rebuild,
        Command::Doctor,
        Command::Coverage,
        Command::Import,
        Command::Sample,
        Command::Now,
        Command::ClearDiagnostics,
        Command::Drill,
        Command::Task,
        Command::Compare,
    ]
}

/// Where a command stands among all commands.
pub open spec fn position(command: Command) -> int {
    match command {
        Command::Status => 0,
        Command::Spend => 1,
        Command::Config => 2,
        Command::Export => 3,
        Command::LoggingFixture => 4,
        Command::StateCheck => 5,
        Command::ExitClass => 6,
        Command::AttemptCrashHook => 7,
        Command::ProjectionCrashHook => 8,
        Command::CostModelFixture => 9,
        Command::RateCard => 10,
        Command::Backup => 11,
        Command::Ingest => 12,
        Command::Rebuild => 13,
        Command::Doctor => 14,
        Command::Coverage => 15,
        Command::Import => 16,
        Command::Sample => 17,
        Command::Now => 18,
        Command::ClearDiagnostics => 19,
        Command::Drill => 20,
        Command::Task => 21,
        Command::Compare => 22,
    }
}

/// Every command is listed, and once.
pub proof fn law_every_command_is_listed(command: Command)
    ensures
        0 <= position(command) < every_command().len(),
        every_command()[position(command)] == command,
        every_command().no_duplicates(),
{
    assert forall|i: int| 0 <= i < every_command().len() implies position(
        #[trigger] every_command()[i],
    ) == i by {}
}

/// No two commands go by the same token, and none by the second name for clearing
/// diagnostics.
pub proof fn law_tokens_are_distinct(a: Command, b: Command)
    ensures
        a.token() == b.token() ==> a == b,
        a.token() != "clear-captures"@,
{
    reveal_strlit("clear-captures");
    reveal_strlit("status");
    reveal_strlit("spend");
    reveal_strlit("config");
    reveal_strlit("export");
    reveal_strlit("__logging-fixture");
    reveal_strlit("__state-check");
    reveal_strlit("__exit-class");
    reveal_strlit("__attempt-crash-hook");
    reveal_strlit("__projection-crash-hook");
    reveal_strlit("__cost-model-fixture");
    reveal_strlit("rate-card");
    reveal_strlit("backup");
    reveal_strlit("ingest");
    reveal_strlit("rebuild");
    reveal_strlit("doctor");
    reveal_strlit("coverage");
    reveal_strlit("import");
    reveal_strlit("sample");
    reveal_strlit("now");
    reveal_strlit("clear-diagnostics");
    reveal_strlit("drill");
    reveal_strlit("task");
    reveal_strlit("compare");
    let s = a.token();
    let t = b.token();
    let other = "clear-captures"@;
    assert((s == t ==> s[0] == t[0]) && (s == t ==> s[2] == t[2]));
    assert(s.len() != other.len());
}

/// A command's own token selects it.
pub proof fn law_tokens_read_back(command: Command)
    ensures
        Command::named(command.token()) == Some(command),
{
    law_tokens_are_distinct(command, command);
    assert(command.token() == command.token());
    let chosen = choose|c: Command| #[trigger] c.token() == command.token();
    law_tokens_are_distinct(chosen, command);
}

/// Verbosity is accepted by every command.
pub proof fn law_verbosity_is_accepted(command: Command)
    ensures
        command.refusal(SharedFlag::Verbosity) is None,
{
}

/// No flag is refused without a reason.
pub proof fn law_refusals_give_a_reason(command: Command, flag: SharedFlag)
    ensures
        command.refusal(flag) matches Some(reason) ==> reason.len() > 0,
{
    reveal_strlit("a comparison is scoped by observation and window, not by account");
    reveal_strlit("a comparison is scoped by window, not by model");
    reveal_strlit("a cost model is scoped to a provider, not to an account");
    reveal_strlit("a drill exercises the whole state directory, not one account");
    reveal_strlit("a drill exercises the whole state directory, not one model");
    reveal_strlit("attempt-crash-hook derives no quantity");
    reveal_strlit("attempt-crash-hook drives the store, not a model");
    reveal_strlit("attempt-crash-hook drives the store, not a report");
    reveal_strlit("attempt-crash-hook names its own fixture account");
    reveal_strlit("attempt-crash-hook prints plain counts");
    reveal_strlit("backup covers the whole ledger");
    reveal_strlit("backup derives no quantity");
    reveal_strlit("backup prints no color");
    reveal_strlit("backup prints one operational result");
    reveal_strlit("clear-diagnostics derives no quantity");
    reveal_strlit("clear-diagnostics prints no color");
    reveal_strlit("clear-diagnostics scopes by provider, not account");
    reveal_strlit("clear-diagnostics takes no model");
    reveal_strlit("compare derives no quantity");
    reveal_strlit("compare prints no color");
    reveal_strlit("compare prints one operational result");
    reveal_strlit("config derives no quantity");
    reveal_strlit("config prints every account at once");
    reveal_strlit("config prints every key at once");
    reveal_strlit("config prints no color");
    reveal_strlit("config prints provenance, not a report");
    reveal_strlit("cost-model-fixture derives no quantity");
    reveal_strlit("cost-model-fixture drives the store, not a report");
    reveal_strlit("cost-model-fixture names its own model");
    reveal_strlit("cost-model-fixture prints a plain activation line");
    reveal_strlit("coverage prints plain text or json");
    reveal_strlit("coverage reports every window of the account, not one model");
    reveal_strlit("doctor derives no quantity");
    reveal_strlit("doctor is a system-wide diagnostic");
    reveal_strlit("doctor prints plain text or json");
    reveal_strlit("drill derives no quantity");
    reveal_strlit("drill prints no color");
    reveal_strlit("drill prints one operational result");
    reveal_strlit("exit-class derives no quantity");
    reveal_strlit("exit-class prints no color");
    reveal_strlit("exit-class returns an exit code, not a report");
    reveal_strlit("exit-class takes no account");
    reveal_strlit("exit-class takes no model");
    reveal_strlit("export derives no quantity");
    reveal_strlit("export is always versioned JSONL");
    reveal_strlit("export keys on session or run, not on a model");
    reveal_strlit("export prints no color");
    reveal_strlit("export reads every stored session, not one account");
    reveal_strlit("import carries account identity in its source");
    reveal_strlit("import carries no model selector");
    reveal_strlit("import derives no report");
    reveal_strlit("import prints no color");
    reveal_strlit("import prints one operational result");
    reveal_strlit("ingest derives no quantity");
    reveal_strlit("ingest prints no color");
    reveal_strlit("ingest prints one operational result");
    reveal_strlit("ingest reads the configured transcript sources");
    reveal_strlit("ingest reads transcript sources, not models");
    reveal_strlit("logging-fixture derives no quantity");
    reveal_strlit("logging-fixture emits diagnostic fixtures, not a report");
    reveal_strlit("logging-fixture prints no color");
    reveal_strlit("logging-fixture takes no account");
    reveal_strlit("logging-fixture takes no model");
    reveal_strlit("now prints no color");
    reveal_strlit("now reports every window; only status takes a --model selector");
    reveal_strlit("projection-crash-hook derives no quantity");
    reveal_strlit("projection-crash-hook drives the store, not a model");
    reveal_strlit("projection-crash-hook drives the store, not a report");
    reveal_strlit("projection-crash-hook names its own fixture account");
    reveal_strlit("projection-crash-hook prints plain counts");
    reveal_strlit("rate-card derives no quantity");
    reveal_strlit("rate-card prints a price book, not a report");
    reveal_strlit("rate-card prints plain rows");
    reveal_strlit("rebuild derives no quantity");
    reveal_strlit("rebuild prints no color");
    reveal_strlit("rebuild prints one operational result");
    reveal_strlit("rebuild sweeps whole materialization tables, not models");
    reveal_strlit("rebuild sweeps whole materialization tables, not one account");
    reveal_strlit("sample derives no quantity");
    reveal_strlit("sample operates on configured accounts, not models");
    reveal_strlit("sample prints plain status or json");
    reveal_strlit("spend groups by account with --group-by account; it has no single-account filter");
    reveal_strlit("spend has no model dimension until a model selector is needed");
    reveal_strlit("spend prints no color");
    reveal_strlit("state-check derives no quantity");
    reveal_strlit("state-check prints a readiness line, not a report");
    reveal_strlit("state-check prints no color");
    reveal_strlit("state-check takes no account");
    reveal_strlit("state-check takes no model");
    reveal_strlit("status prints no color");
    reveal_strlit("task attribution has no account dimension");
    reveal_strlit("task attribution has no model dimension");
    reveal_strlit("task prints no color");
    reveal_strlit("the rate book is reference data, not per-account state");
    reveal_strlit("the rate book is reference data, not per-model state");
}

/// A command without a description answers no question, and has none exactly where its
/// token begins with two underscores. Every other command refuses some shared flag.
pub proof fn law_hooks_are_hidden(command: Command)
    ensures
        command.summary_text() is None <==> command.question_text() is None,
        command.summary_text() is None <==> (command.token()[0] == '_' && command.token()[1]
            == '_'),
        command.refusals().len() > 0,
{
    reveal_strlit("status");
    reveal_strlit("spend");
    reveal_strlit("config");
    reveal_strlit("export");
    reveal_strlit("__logging-fixture");
    reveal_strlit("__state-check");
    reveal_strlit("__exit-class");
    reveal_strlit("__attempt-crash-hook");
    reveal_strlit("__projection-crash-hook");
    reveal_strlit("__cost-model-fixture");
    reveal_strlit("rate-card");
    reveal_strlit("backup");
    reveal_strlit("ingest");
    reveal_strlit("rebuild");
    reveal_strlit("doctor");
    reveal_strlit("coverage");
    reveal_strlit("import");
    reveal_strlit("sample");
    reveal_strlit("now");
    reveal_strlit("clear-diagnostics");
    reveal_strlit("drill");
    reveal_strlit("task");
    reveal_strlit("compare");
}

/// Which commands take which of the shared flags: reports are formatted, figures that are
/// derived are explained, what is per account takes an account, only the status takes a
/// model, none prints in color, and all can be made verbose.
pub proof fn law_which_commands_take_which_flags(command: Command)
    ensures
        command.refusal(SharedFlag::Format) is None <==> match command {
            Command::Status => true,
            Command::Spend => true,
            Command::Doctor => true,
            Command::Coverage => true,
            Command::Sample => true,
            Command::Now => true,
            Command::ClearDiagnostics => true,
            Command::Task => true,
            _ => false,
        },
        command.refusal(SharedFlag::Explain) is None <==> match command {
            Command::Status => true,
            Command::Spend => true,
            Command::Coverage => true,
            Command::Now => true,
            Command::Task => true,
            _ => false,
        },
        command.refusal(SharedFlag::Account) is None <==> match command {
            Command::Status => true,
            Command::Coverage => true,
            Command::Sample => true,
            Command::Now => true,
            _ => false,
        },
        command.refusal(SharedFlag::Model) is None <==> command == Command::Status,
        command.refusal(SharedFlag::NoColor) is Some,
        command.refusal(SharedFlag::Verbosity) is None,
{
}

/// A word names a command exactly where it is that command's own, but for the older word
/// for clearing diagnostics.
pub proof fn law_words_name_their_commands(word: Seq<char>, command: Command)
    ensures
        word != "clear-captures"@ ==> (Command::named(word) == Some(command) <==> word
            == command.token()),
        Command::named("clear-captures"@) == Some(Command::ClearDiagnostics),
        Command::named("status"@) == Some(Command::Status),
        Command::named("spend"@) == Some(Command::Spend),
        Command::named("config"@) == Some(Command::Config),
        Command::named("export"@) == Some(Command::Export),
        Command::named("rate-card"@) == Some(Command::RateCard),
        Command::named("backup"@) == Some(Command::Backup),
        Command::named("ingest"@) == Some(Command::Ingest),
        Command::named("rebuild"@) == Some(Command::Rebuild),
        Command::named("doctor"@) == Some(Command::Doctor),
        Command::named("coverage"@) == Some(Command::Coverage),
        Command::named("import"@) == Some(Command::Import),
        Command::named("sample"@) == Some(Command::Sample),
        Command::named("now"@) == Some(Command::Now),
        Command::named("clear-diagnostics"@) == Some(Command::ClearDiagnostics),
        Command::named("drill"@) == Some(Command::Drill),
        Command::named("task"@) == Some(Command::Task),
        Command::named("compare"@) == Some(Command::Compare),
{
    law_tokens_read_back(command);
    law_tokens_read_back(Command::Status);
    law_tokens_read_back(Command::Spend);
    law_tokens_read_back(Command::Config);
    law_tokens_read_back(Command::Export);
    law_tokens_read_back(Command::RateCard);
    law_tokens_read_back(Command::Backup);
    law_tokens_read_back(Command::Ingest);
    law_tokens_read_back(Command::Rebuild);
    law_tokens_read_back(Command::Doctor);
    law_tokens_read_back(Command::Coverage);
    law_tokens_read_back(Command::Import);
    law_tokens_read_back(Command::Sample);
    law_tokens_read_back(Command::Now);
    law_tokens_read_back(Command::ClearDiagnostics);
    law_tokens_read_back(Command::Drill);
    law_tokens_read_back(Command::Task);
    law_tokens_read_back(Command::Compare);
    if word != "clear-captures"@ && Command::named(word) == Some(command) {
        let found = choose|c: Command| #[trigger] c.token() == word;
        assert(found.token() == word);
    }
}

} // verus!
