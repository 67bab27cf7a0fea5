//! The lines that commands print.

use aub::calendar::UtcDate;
use aub::cli::reports::{
    attribution_quality_breach_error, ingest_ending, ingest_files_line, ingest_rows_line,
    no_ledger, provenance_line, rate_book_line, rate_card_request, render_card_history,
    render_effective_cards, render_rate_card, render_rate_micros, render_rebuild, required_tracker,
    stale_card_line, task_ingest_line, task_request, version_line, AttributionBreach,
    IngestReport, RateCard, RateCardRequest, TableSweep, TaskIngestReport, TaskRequest,
};
use aub::domain::TokenKind;
use aub::error::Error;

fn words(items: &[&str]) -> Vec<String> {
    items.iter().map(|item| item.to_string()).collect()
}

fn day(text: &str) -> Option<UtcDate> {
    UtcDate::parse(text)
}

fn card() -> RateCard {
    RateCard {
        vendor: "anthropic".to_string(),
        model: "m".to_string(),
        token_class: "input".to_string(),
        rate_micros: 3_000_000,
        currency: "USD".to_string(),
        billing_basis: "per-million".to_string(),
        effective_start: day("2026-01-01").unwrap(),
        effective_end: None,
        published_on: None,
        source: None,
        review_due: None,
    }
}

/// A rate keeps every digit it has, and at least two behind the point.
#[test]
fn rates_are_printed_exactly() {
    for (micros, text) in [
        (0, "0.00"),
        (1, "0.000001"),
        (3_000_000, "3.00"),
        (3_750_000, "3.75"),
        (300_000, "0.30"),
        (1_234_567, "1.234567"),
        (100_010, "0.10001"),
        (-5, "-0.000005"),
        (-1_000_000, "-1.00"),
        (-2_500_000, "-2.50"),
        (i64::MIN, "-9223372036854.775808"),
    ] {
        assert_eq!(render_rate_micros(micros), text);
    }
}

#[test]
fn missing_provenance_is_visible() {
    assert_eq!(
        render_rate_card(&card()),
        "anthropic m input 3.00 USD per-million 2026-01-01-open provenance=missing-both"
    );
    let sourced = RateCard { source: Some("https://x".to_string()), ..card() };
    assert!(render_rate_card(&sourced).ends_with(" source=https://x provenance=missing-publication"));
    let published = RateCard { published_on: day("2025-12-31"), ..card() };
    assert!(render_rate_card(&published)
        .ends_with(" published=2025-12-31 provenance=missing-source"));
    let whole = RateCard {
        effective_end: day("2026-07-01"),
        published_on: day("2025-12-31"),
        source: Some("https://x".to_string()),
        review_due: day("2026-06-01"),
        ..card()
    };
    assert_eq!(
        render_rate_card(&whole),
        "anthropic m input 3.00 USD per-million 2026-01-01-2026-07-01 published=2025-12-31 source=https://x review-due 2026-06-01"
    );
    assert_eq!(
        stale_card_line(&whole),
        "  stale rate card: anthropic m input review due on 2026-06-01"
    );
}

#[test]
fn rate_cards_are_listed_or_their_absence_is() {
    let none = "no rate card records; import a book with `aub rate-card import`";
    assert_eq!(render_effective_cards(0, &vec![]), words(&[none]));
    assert_eq!(
        render_effective_cards(4, &vec![]),
        words(&[
            "4 rate card records exist and none is effective today; inspect them with `aub rate-card history`"
        ])
    );
    assert_eq!(render_effective_cards(1, &vec![card()]), vec![render_rate_card(&card())]);
    assert_eq!(render_card_history(&vec![]), words(&[none]));
    assert_eq!(render_card_history(&vec![card(), card()]).len(), 2);
    assert_eq!(rate_book_line(2, 5), "rate-card import: added=2 unchanged=5");
}

#[test]
fn rate_card_has_three_subcommands() {
    assert_eq!(
        rate_card_request(&words(&["import", "/book"])),
        Ok(RateCardRequest::Import { path: "/book".to_string() })
    );
    assert_eq!(rate_card_request(&words(&["show"])), Ok(RateCardRequest::Show));
    assert_eq!(rate_card_request(&words(&["history"])), Ok(RateCardRequest::History));
    assert_eq!(
        rate_card_request(&words(&["import"])),
        Err(Error::Usage("rate-card import requires a file path".to_string()))
    );
    assert_eq!(
        rate_card_request(&words(&["drop"])),
        Err(Error::Usage(
            "rate-card requires a subcommand (import | show | history), got Some(\"drop\")"
                .to_string()
        ))
    );
}

#[test]
fn an_ingest_says_what_it_read() {
    let report = IngestReport {
        sources: words(&["one", "two"]),
        files_scanned: 9,
        files_parsed: 5,
        files_skipped: 3,
        unreadable_files: 1,
        quarantined: 2,
        generation: 11,
        batches: 4,
        events_written: 100,
        events_already_ingested: 20,
        occurrences_written: 110,
        occurrences_already_ingested: 21,
        components_written: 400,
        sessions_upserted: 6,
        rows_replaced: 7,
    };
    assert_eq!(
        ingest_files_line(&report),
        "ingest transcripts: sources=one,two scanned=9 parsed=5 skipped=3 unreadable=1 quarantined=2 generation=11 batches=4"
    );
    assert_eq!(
        ingest_rows_line(&report),
        "  events: written=100 already-ingested=20 \u{b7} occurrences: written=110 already-ingested=21 \u{b7} components=400 sessions=6 replaced=7"
    );
    assert_eq!(ingest_ending(0), Ok(()));
    assert_eq!(
        ingest_ending(1),
        Err(Error::IngestIncomplete(
            "1 file(s) could not be read; the landed batch excludes them".to_string()
        ))
    );
}

#[test]
fn a_rebuild_counts_its_rows() {
    let sweeps = vec![
        TableSweep { table: "events".to_string(), rows: 3 },
        TableSweep { table: "sessions".to_string(), rows: 4 },
    ];
    assert_eq!(
        render_rebuild("transcripts", &sweeps),
        words(&[
            "rebuild transcripts: deleted 7 rows across 2 tables",
            "  events: 3 rows",
            "  sessions: 4 rows",
        ])
    );
}

#[test]
fn breaches_name_kind_and_scope() {
    let breaches = vec![
        AttributionBreach { kind: TokenKind::Input, recent: false },
        AttributionBreach { kind: TokenKind::CacheRead, recent: true },
    ];
    let label = TokenKind::CacheRead.label();
    assert_eq!(
        attribution_quality_breach_error(&breaches),
        Some(Error::ThresholdNotMet(format!(
            "attribution quality is below the configured floor for: input (all history), {label} (recent window)"
        )))
    );
}

#[test]
fn small_lines_read_as_documented() {
    assert_eq!(
        provenance_line("state.dir", "file"),
        format!("{:<32} {}", "state.dir", "file")
    );
    let long = "a.key.that.is.longer.than.the.column.it.stands.in";
    assert_eq!(provenance_line(long, "env"), format!("{long:<32} env"));
    assert_eq!(
        no_ledger("/x/ledger.db"),
        Error::InsufficientEvidence(
            "no ledger exists at /x/ledger.db; nothing is recorded about sampling yet".to_string()
        )
    );
    assert_eq!(version_line("0.1.0", "abc"), "aub 0.1.0 (abc)");
    assert_eq!(
        task_ingest_line(TaskIngestReport {
            events_inserted: 1,
            events_already_present: 2,
            quarantines_inserted: 3,
            quarantines_already_present: 4,
        }),
        "task ingest: events_inserted=1 events_already_present=2 quarantines_inserted=3 quarantines_already_present=4"
    );
}

#[test]
fn tasks_are_ingested_reported_or_summed_up() {
    assert_eq!(task_request(&words(&["ingest"])), Ok(TaskRequest::Ingest));
    assert_eq!(
        task_request(&words(&["report", "t:1"])),
        Ok(TaskRequest::Report { task: "t:1".to_string() })
    );
    assert_eq!(task_request(&words(&["overhead", "--today"])), Ok(TaskRequest::Overhead));
    for (rest, message) in [
        (words(&["report"]), "task report requires a TASK-ID"),
        (words(&["report", "a", "b"]), "unknown argument: b"),
        (words(&["ingest", "b"]), "unknown argument: b"),
        (words(&[]), "task requires a subcommand (ingest | report | overhead), got None"),
    ] {
        assert_eq!(task_request(&rest), Err(Error::Usage(message.to_string())));
    }
}

#[test]
fn task_claims_need_a_tracker() {
    assert_eq!(required_tracker(Some("/work/.tracker")), Ok("/work/.tracker"));
    assert_eq!(
        required_tracker(None),
        Err(Error::Usage(
            "no [tracker] source is configured; task ingest has nothing to read".to_string()
        ))
    );
}
