//! Comparisons with what a provider's own surface shows.

use aub::cli::compare::{
    compare_record_options, compare_subcommand, compare_uncompared_options, comparison_line,
    mismatch_line, parse_percent, record_adapter_semantics_comparison, render_uncompared,
    AdapterSemanticsComparisonRequest, CompareSubcommand, ComparisonVerdict, ObservedWindow,
    RecordedComparison, DEFAULT_GRANULARITY_PPM,
};
use aub::domain::{QuotaFractionPpm, QuotaUsed, UtcTimestamp};
use aub::error::Error;
use aub::ids::WindowSemanticKey;

fn words(items: &[&str]) -> Vec<String> {
    items.iter().map(|item| item.to_string()).collect()
}

fn refusal<T>(result: Result<T, Error>) -> String {
    match result {
        Err(Error::Usage(message)) => message,
        Err(other) => panic!("expected a usage error, got {other:?}"),
        Ok(_) => panic!("expected a usage error"),
    }
}

fn now() -> UtcTimestamp {
    UtcTimestamp::from_unix_nanos(5)
}

fn ppm(raw: &str) -> Result<u32, Error> {
    parse_percent("--surface-percent", raw).map(QuotaFractionPpm::get)
}

/// Percentages are read exactly and rounded once, halves upwards.
#[test]
fn percentages_are_read_exactly() {
    for (raw, expected) in [
        ("21", 210_000),
        ("+21", 210_000),
        ("21%%", 210_000),
        (".5", 5_000),
        ("5.", 50_000),
        ("0.00004", 0),
        ("0.00005", 1),
        ("99.99995", 1_000_000),
        ("-0", 0),
        ("2.1e1", 210_000),
        ("2100E-2%", 210_000),
        ("1e+2", 1_000_000),
        ("0e999999999999", 0),
        ("1e-999999999999", 0),
    ] {
        assert_eq!(ppm(raw), Ok(expected), "{raw}");
    }
}

#[test]
fn what_is_no_percentage_is_refused() {
    for raw in ["100.1", "-0.1", "1e3", "1e999999999999", "inf", "-Infinity", "NaN"] {
        assert_eq!(
            refusal(ppm(raw)),
            format!("--surface-percent must be a percentage between 0 and 100, got {raw:?}")
        );
    }
    for raw in ["", ".", "%", "1e", "e1", "1e+", "1.2.3", "1 2", "one", "--1"] {
        assert_eq!(
            refusal(ppm(raw)),
            format!("--surface-percent must be a percentage, got {raw:?}")
        );
    }
}

#[test]
fn comparing_has_two_subcommands() {
    assert_eq!(compare_subcommand(&words(&["record"])), Ok(CompareSubcommand::Record));
    assert_eq!(compare_subcommand(&words(&["uncompared"])), Ok(CompareSubcommand::Uncompared));
    assert_eq!(
        refusal(compare_subcommand(&words(&["all"]))),
        "compare requires a subcommand (record | uncompared), got Some(\"all\")"
    );
}

fn request(extra: &[&str]) -> Result<AdapterSemanticsComparisonRequest, Error> {
    let mut rest = vec!["record", "12", "five_hour"];
    rest.extend_from_slice(extra);
    compare_record_options(&words(&rest), now())
}

#[test]
fn a_comparison_takes_defaults_for_what_is_not_given() {
    let read = request(&["--surface", "console", "--surface-percent", "21"]).unwrap();
    assert_eq!(read.observation_id, 12);
    assert_eq!(read.semantic_key.as_str(), "five_hour");
    assert_eq!(read.authoritative_surface, "console");
    assert_eq!(read.surface_quota_used.as_ppm().get(), 210_000);
    assert_eq!(read.documented_granularity.get(), DEFAULT_GRANULARITY_PPM as u32);
    assert_eq!(read.read_at, now());
    assert_eq!(read.detail, None);
    let full = request(&[
        "--surface",
        "console",
        "--surface-percent",
        "21",
        "--granularity-percent",
        "0.5",
        "--read-at",
        "1970-01-01T00:00:01Z",
        "--detail",
        "as shown",
    ])
    .unwrap();
    assert_eq!(full.documented_granularity.get(), 5_000);
    assert_eq!(full.read_at.unix_nanos(), 1_000_000_000);
    assert_eq!(full.detail.as_deref(), Some("as shown"));
}

#[test]
fn a_comparison_names_what_it_lacks() {
    assert_eq!(refusal(request(&[])), "compare record requires --surface NAME");
    assert_eq!(
        refusal(request(&["--surface", "console"])),
        "compare record requires --surface-percent N"
    );
    assert_eq!(refusal(request(&["--surface"])), "--surface requires a value");
    assert_eq!(
        refusal(request(&["--read-at", "noon"])),
        "--read-at must be RFC3339, got \"noon\""
    );
    assert_eq!(refusal(request(&["--loud"])), "compare record: unknown argument --loud");
    assert_eq!(
        refusal(compare_record_options(&words(&["record", "x", "w"]), now())),
        "compare record: OBSERVATION_ID must be an integer, got \"x\""
    );
    assert!(refusal(compare_record_options(&words(&["record", "1"]), now()))
        .starts_with("compare record requires OBSERVATION_ID WINDOW"));
}

fn window(row_id: i64, key: &str, used: i32, mismatch: bool) -> ObservedWindow {
    ObservedWindow {
        row_id,
        semantic_key: WindowSemanticKey::new(key),
        quota_used: QuotaUsed::new(QuotaFractionPpm::new(used).unwrap()),
        verdict: ComparisonVerdict {
            label: if mismatch { "unresolved_mismatch" } else { "agrees" }.to_string(),
            unresolved_mismatch: mismatch,
        },
    }
}

#[test]
fn a_mismatch_opens_a_finding() {
    let asked = request(&["--surface", "console", "--surface-percent", "21"]).unwrap();
    let windows = vec![window(1, "seven_day", 5, false), window(2, "five_hour", 300_000, true)];
    let outcome = record_adapter_semantics_comparison(&asked, &windows, &vec![]).unwrap();
    assert_eq!(outcome.window_id, 2);
    assert_eq!(outcome.verdict, "unresolved_mismatch");
    assert_eq!(outcome.adapter_quota_used.as_ppm().get(), 300_000);
    assert_eq!(
        outcome.mismatch_detail.as_deref(),
        Some(
            "recorded through `aub compare`: adapter read 300000 ppm, console read 210000 ppm for window \"five_hour\" of observation 12"
        )
    );
    assert_eq!(
        comparison_line(&asked, &outcome, 9),
        "compare: recorded observation=12 window=five_hour comparison=#9 adapter_used_ppm=300000 surface_used_ppm=210000 verdict=unresolved_mismatch"
    );
    assert_eq!(
        mismatch_line(4),
        "compare: unresolved mismatch opened as finding annotation=#4"
    );
    let agreeing = vec![window(2, "five_hour", 210_000, false)];
    let quiet = record_adapter_semantics_comparison(&asked, &agreeing, &vec![]).unwrap();
    assert_eq!(quiet.mismatch_detail, None);
}

#[test]
fn a_comparison_is_never_overwritten() {
    let asked = request(&["--surface", "console", "--surface-percent", "21"]).unwrap();
    let windows = vec![window(2, "five_hour", 300_000, false)];
    let recorded = vec![RecordedComparison {
        row_id: 3,
        window_id: 2,
        verdict: "agrees".to_string(),
    }];
    assert_eq!(
        refusal(record_adapter_semantics_comparison(&asked, &windows, &recorded)),
        "observation 12 window \"five_hour\" already carries comparison #3 (verdict agrees); a wrong comparison is corrected by recording another one, never by overwriting it"
    );
    assert_eq!(
        refusal(record_adapter_semantics_comparison(&asked, &vec![], &vec![])),
        "observation 12 has no window named \"five_hour\"; see `aub compare uncompared 12`"
    );
}

#[test]
fn uncompared_windows_are_listed() {
    assert_eq!(compare_uncompared_options(&words(&["uncompared", "12"])), Ok(12));
    assert_eq!(
        refusal(compare_uncompared_options(&words(&["uncompared"]))),
        "compare uncompared requires OBSERVATION_ID"
    );
    assert_eq!(
        refusal(compare_uncompared_options(&words(&["uncompared", "x"]))),
        "compare uncompared: OBSERVATION_ID must be an integer, got \"x\""
    );
    assert_eq!(
        refusal(compare_uncompared_options(&words(&["uncompared", "1", "2"]))),
        "unknown argument: 2"
    );
    let windows = vec![window(1, "seven_day", 5, false), window(2, "five_hour", 5, false)];
    assert_eq!(
        render_uncompared(12, &windows, &vec![2]),
        words(&["compare: observation=12 uncompared window=five_hour"])
    );
    assert_eq!(
        render_uncompared(12, &windows, &vec![7]),
        words(&["compare: observation 12 has no uncompared windows"])
    );
}

/// However many digits are typed, each counts: leading zeros are nothing, and what stands
/// behind the parts per million only rounds them.
#[test]
fn percentages_of_any_length_are_read() {
    let read = |raw: &str| parse_percent("--surface-percent", raw).map(|fraction| fraction.get());
    let zeros = "0".repeat(60);
    assert_eq!(read(&format!("{zeros}21")), Ok(210_000));
    assert_eq!(read(&format!("21.{zeros}")), Ok(210_000));
    assert_eq!(read(&format!("0.00004{zeros}")), Ok(0));
    assert_eq!(read(&format!("0.00005{zeros}")), Ok(1));
    assert_eq!(read(&format!("12{zeros}.5e-60")), Ok(120_000));
    assert_eq!(read(&format!("0.{zeros}21e62")), Ok(210_000));
    assert_eq!(read(&format!("0.{}21e2002", "0".repeat(2_000))), Ok(210_000));
    assert_eq!(read("1e-99999999999999999999999999999999999999999"), Ok(0));
    assert_eq!(read(&format!("0e{}", "9".repeat(50))), Ok(0));
    assert_eq!(read(&format!("100.{zeros}%")), Ok(1_000_000));
    for beyond in [format!("100.{zeros}1"), format!("{zeros}101"), "9".repeat(60)] {
        match read(&beyond) {
            Err(Error::Usage(message)) => {
                assert!(message.contains("between 0 and 100"), "{message}");
            }
            other => panic!("{beyond}: {other:?}"),
        }
    }
}
