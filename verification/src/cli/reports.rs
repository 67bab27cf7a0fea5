//! What commands print: rate cards, ingestion, rebuilds, tasks, the doctor's findings and
//! the configuration.

use crate::calendar::{number_text, UtcDate};
use crate::cli::archives::push_number;
use crate::cli::compare::power_of_ten;
use crate::cli::hooks::{first_is, first_of, quote_first};
use crate::cli::options::{unknown, unknown_argument};
use crate::cli::quoting::quoted_option;
use crate::domain::{MonotonicDuration, TokenKind};
use crate::error::{Error, ErrorView};
use crate::sets::{join_texts, joined, texts};
use crate::text::{all_digits, decimal, decimal_text, digit, digits_value};
use vstd::prelude::*;
use vstd::string::*;

verus! {

/// A number with zeros before it, up to some width.
pub open spec fn zero_filled(n: nat, width: nat) -> Seq<char>
    decreases width,
{
    if width == 0 {
        Seq::empty()
    } else {
        zero_filled(n / 10, (width - 1) as nat).push(digit((n % 10) as int))
    }
}

/// Digits without the zeros at their end, down to two characters.
pub open spec fn shortened(s: Seq<char>) -> Seq<char>
    decreases s.len(),
{
    if s.len() > 2 && s.last() == '0' {
        shortened(s.drop_last())
    } else {
        s
    }
}

/// How far a rate is from zero.
pub open spec fn size(micros: int) -> nat {
    if micros < 0 {
        (-micros) as nat
    } else {
        micros as nat
    }
}

/// The digits behind the point of a rate in millionths: six, without the zeros that end
/// them, down to two.
pub open spec fn fraction_digits(micros: int) -> Seq<char> {
    shortened(zero_filled(size(micros) % 1_000_000, 6))
}

/// How a rate in millionths is shown.
pub open spec fn rate_text(micros: int) -> Seq<char> {
    let unsigned = decimal(size(micros) / 1_000_000) + "."@ + fraction_digits(micros);
    if micros < 0 {
        "-"@ + unsigned
    } else {
        unsigned
    }
}

fn push_digit(text: &mut String, n: u64)
    requires
        n < 10,
    ensures
        final(text)@ == old(text)@.push(digit(n as int)),
{
    let ghost before = text@;
    push_number(text, n);
    proof {
        reveal_with_fuel(decimal, 2);
        assert(text@ =~= before.push(digit(n as int)));
    }
}

fn push_filled(text: &mut String, n: u64, width: u64)
    ensures
        final(text)@ == old(text)@ + zero_filled(n as nat, width as nat),
    decreases width,
{
    if width == 0 {
        assert(text@ =~= text@ + zero_filled(n as nat, 0));
        return;
    }
    let ghost before = text@;
    push_filled(text, n / 10, width - 1);
    push_digit(text, n % 10);
    assert(text@ =~= before + zero_filled(n as nat, width as nat));
}

fn shorten(s: &str) -> (short: String)
    ensures
        short@ == shortened(s@),
{
    let mut len: usize = s.unicode_len();
    assert(s@.take(len as int) =~= s@);
    while len > 2 && s.get_char(len - 1) == '0'
        invariant
            len <= s@.len(),
            shortened(s@) == shortened(s@.take(len as int)),
        decreases len,
    {
        assert(s@.take(len as int).drop_last() =~= s@.take(len - 1));
        len = len - 1;
    }
    assert(s@.subrange(0, len as int) =~= s@.take(len as int));
    s.substring_char(0, len).to_owned()
}

/// The exact decimal form of a rate in millionths: two decimal places at least, and no
/// digit lost that the rate carries.
pub fn render_rate_micros(micros: i64) -> (text: String)
    ensures
        text@ == rate_text(micros as int),
{
    let size: u64 = if micros < 0 {
        (-(micros as i128)) as u64
    } else {
        micros as u64
    };
    let mut fraction: String = String::new();
    push_filled(&mut fraction, size % 1_000_000, 6);
    assert(fraction@ =~= zero_filled((size % 1_000_000) as nat, 6));
    let mut text: String = String::new();
    if micros < 0 {
        text.append("-");
    }
    push_number(&mut text, size / 1_000_000);
    text.append(".");
    text.append(shorten(fraction.as_str()).as_str());
    assert(text@ =~= rate_text(micros as int));
    text
}

proof fn lemma_zero_filled(n: nat, width: nat)
    requires
        n < power_of_ten(width),
    ensures
        zero_filled(n, width).len() == width,
        all_digits(zero_filled(n, width)),
        digits_value(zero_filled(n, width)) == n,
    decreases width,
{
    if width > 0 {
        lemma_zero_filled(n / 10, (width - 1) as nat);
        let s = zero_filled(n, width);
        assert(s.drop_last() =~= zero_filled(n / 10, (width - 1) as nat));
        assert forall|k: int| 0 <= k < s.len() implies 48 <= (#[trigger] s[k]) as int <= 57 by {
            if k < width - 1 {
                assert(s[k] == zero_filled(n / 10, (width - 1) as nat)[k]);
            }
        }
    }
}

proof fn lemma_shortened(s: Seq<char>, n: nat)
    requires
        all_digits(s),
        2 <= s.len() <= n,
    ensures
        2 <= shortened(s).len() <= s.len(),
        all_digits(shortened(s)),
        digits_value(shortened(s)) * power_of_ten((n - shortened(s).len()) as nat)
            == digits_value(s) * power_of_ten((n - s.len()) as nat),
    decreases s.len(),
{
    if s.len() > 2 && s.last() == '0' {
        let short = s.drop_last();
        assert forall|k: int| 0 <= k < short.len() implies 48 <= (#[trigger] short[k]) as int <= 57 by {
            assert(short[k] == s[k]);
        }
        lemma_shortened(short, n);
        let places = (n - s.len()) as nat;
        assert(power_of_ten((n - short.len()) as nat) == 10 * power_of_ten(places));
        let value = digits_value(short) as int;
        let unit = power_of_ten(places) as int;
        assert(value * (10 * unit) == (value * 10) * unit) by (nonlinear_arith);
    }
}

/// A rate is shown exactly: its sign, and around the point digits that say how far it is
/// from zero, with two behind the point at least.
pub proof fn law_rates_are_exact(micros: int)
    ensures
        ({
            let whole = size(micros) / 1_000_000;
            let fraction = fraction_digits(micros);
            let unsigned = decimal(whole) + "."@ + fraction;
            &&& rate_text(micros) == if micros < 0 {
                "-"@ + unsigned
            } else {
                unsigned
            }
            &&& 2 <= fraction.len() <= 6
            &&& all_digits(fraction)
            &&& whole * 1_000_000 + digits_value(fraction) * power_of_ten(
                (6 - fraction.len()) as nat,
            ) == size(micros)
        }),
{
    reveal_with_fuel(power_of_ten, 7);
    let left = size(micros) % 1_000_000;
    let filled = zero_filled(left, 6);
    assert(power_of_ten(6) == 1_000_000);
    lemma_zero_filled(left, 6);
    lemma_shortened(filled, 6);
    assert(power_of_ten(0) == 1);
    let value = digits_value(filled) as int;
    assert(value * (power_of_ten(0) as int) == value) by (nonlinear_arith)
        requires
            power_of_ten(0) == 1,
    ;
    assert(value == left);
}

/// A rate card: the price of one class of tokens of one model, for some time.
#[derive(Debug, PartialEq, Eq)]
pub struct RateCard {
    pub vendor: String,
    pub model: String,
    pub token_class: String,
    pub rate_micros: i64,
    pub currency: String,
    pub billing_basis: String,
    pub effective_start: UtcDate,
    pub effective_end: Option<UtcDate>,
    pub published_on: Option<UtcDate>,
    pub source: Option<String>,
    pub review_due: Option<UtcDate>,
}

/// From when to when a rate card holds.
pub open spec fn card_interval(card: RateCard) -> Seq<char> {
    number_text(card.effective_start@) + "-"@ + match card.effective_end {
        Some(end) => number_text(end@),
        None => "open"@,
    }
}

/// Where a rate card comes from, and what of that is missing.
pub open spec fn card_provenance(card: RateCard) -> Seq<char> {
    (match card.published_on {
        Some(date) => " published="@ + number_text(date@),
        None => Seq::empty(),
    }) + (match card.source {
        Some(source) => " source="@ + source@,
        None => Seq::empty(),
    }) + (match (card.source, card.published_on) {
        (None, None) => " provenance=missing-both"@,
        (None, Some(_)) => " provenance=missing-source"@,
        (Some(_), None) => " provenance=missing-publication"@,
        (Some(_), Some(_)) => Seq::empty(),
    })
}

/// A rate card as a row of a listing.
pub open spec fn card_text(card: RateCard) -> Seq<char> {
    card.vendor@ + " "@ + card.model@ + " "@ + card.token_class@ + " "@ + rate_text(
        card.rate_micros as int,
    ) + " "@ + card.currency@ + " "@ + card.billing_basis@ + " "@ + card_interval(card)
        + card_provenance(card) + (match card.review_due {
        Some(date) => " review-due "@ + number_text(date@),
        None => Seq::empty(),
    })
}

fn provenance_text(card: &RateCard) -> (text: String)
    ensures
        text@ == card_provenance(*card),
{
    let mut text: String = String::new();
    match card.published_on {
        Some(date) => {
            text.append(" published=");
            text.append(date.iso().as_str());
        },
        None => {},
    }
    match &card.source {
        Some(source) => {
            text.append(" source=");
            text.append(source.as_str());
        },
        None => {},
    }
    match (&card.source, card.published_on) {
        (None, None) => {
            text.append(" provenance=missing-both");
        },
        (None, Some(_)) => {
            text.append(" provenance=missing-source");
        },
        (Some(_), None) => {
            text.append(" provenance=missing-publication");
        },
        (Some(_), Some(_)) => {},
    }
    assert(text@ =~= card_provenance(*card));
    text
}

/// A rate card as a row of a listing. Missing provenance shows.
pub fn render_rate_card(card: &RateCard) -> (line: String)
    ensures
        line@ == card_text(*card),
{
    let mut line: String = card.vendor.clone();
    line.append(" ");
    line.append(card.model.as_str());
    line.append(" ");
    line.append(card.token_class.as_str());
    line.append(" ");
    line.append(render_rate_micros(card.rate_micros).as_str());
    line.append(" ");
    line.append(card.currency.as_str());
    line.append(" ");
    line.append(card.billing_basis.as_str());
    line.append(" ");
    let mut interval: String = card.effective_start.iso();
    interval.append("-");
    match card.effective_end {
        Some(end) => {
            interval.append(end.iso().as_str());
        },
        None => {
            interval.append("open");
        },
    }
    line.append(interval.as_str());
    line.append(provenance_text(card).as_str());
    match card.review_due {
        Some(date) => {
            let ghost before = line@;
            line.append(" review-due ");
            line.append(date.iso().as_str());
            assert(line@ =~= before + (" review-due "@ + number_text(date@)));
        },
        None => {
            assert(line@ =~= line@ + Seq::<char>::empty());
        },
    }
    line
}

/// The rows of some rate cards.
pub open spec fn card_rows(cards: Seq<RateCard>) -> Seq<Seq<char>> {
    cards.map_values(|card: RateCard| card_text(card))
}

fn render_cards(cards: &Vec<RateCard>) -> (lines: Vec<String>)
    ensures
        texts(lines@) == card_rows(cards@),
{
    let mut lines: Vec<String> = Vec::new();
    let mut i: usize = 0;
    assert(texts(lines@) =~= card_rows(cards@).take(0));
    while i < cards.len()
        invariant
            i <= cards@.len(),
            texts(lines@) == card_rows(cards@).take(i as int),
        decreases cards@.len() - i,
    {
        let ghost before = lines@;
        lines.push(render_rate_card(&cards[i]));
        assert(texts(lines@) =~= texts(before).push(lines@.last()@));
        assert(card_rows(cards@)[i as int] == lines@.last()@);
        assert(texts(lines@) =~= card_rows(cards@).take(i + 1));
        i = i + 1;
    }
    assert(card_rows(cards@).take(cards@.len() as int) =~= card_rows(cards@));
    lines
}

fn one_line(line: String) -> (lines: Vec<String>)
    ensures
        texts(lines@) == seq![line@],
{
    let mut lines: Vec<String> = Vec::new();
    lines.push(line);
    assert(texts(lines@) =~= seq![line@]);
    lines
}

/// What is said where there are no rate cards.
pub open spec fn no_cards() -> Seq<char> {
    "no rate card records; import a book with `aub rate-card import`"@
}

/// The lines that show the rate cards in force, of so many recorded.
pub fn render_effective_cards(total: u64, effective: &Vec<RateCard>) -> (lines: Vec<String>)
    ensures
        texts(lines@) == if total == 0 {
            seq![no_cards()]
        } else if effective@.len() == 0 {
            seq![
                decimal(total as nat)
                    + " rate card records exist and none is effective today; inspect them with `aub rate-card history`"@,
            ]
        } else {
            card_rows(effective@)
        },
{
    if total == 0 {
        return one_line(
            "no rate card records; import a book with `aub rate-card import`".to_owned(),
        );
    }
    if effective.len() == 0 {
        let mut line: String = decimal_text(total as u128);
        line.append(
            " rate card records exist and none is effective today; inspect them with `aub rate-card history`",
        );
        return one_line(line);
    }
    render_cards(effective)
}

/// The lines that show all rate cards.
pub fn render_card_history(cards: &Vec<RateCard>) -> (lines: Vec<String>)
    ensures
        texts(lines@) == if cards@.len() == 0 {
            seq![no_cards()]
        } else {
            card_rows(cards@)
        },
{
    if cards.len() == 0 {
        return one_line(
            "no rate card records; import a book with `aub rate-card import`".to_owned(),
        );
    }
    render_cards(cards)
}

/// What was asked for of the rate cards.
#[derive(Debug, Clone, PartialEq, Eq)]
pub enum RateCardRequest {
    Import { path: String },
    Show,
    History,
}

/// Reads what was asked for of the rate cards.
pub fn rate_card_request(rest: &Vec<String>) -> (request: Result<RateCardRequest, Error>)
    ensures
        ({
            let args = texts(rest@);
            let first = first_of(args);
            if first == Some("import"@) {
                if args.len() < 2 {
                    request matches Err(e) && e@ == ErrorView::Usage(
                        "rate-card import requires a file path"@,
                    )
                } else {
                    request matches Ok(RateCardRequest::Import { path }) && path@ == args[1]
                }
            } else if first == Some("show"@) {
                request matches Ok(RateCardRequest::Show)
            } else if first == Some("history"@) {
                request matches Ok(RateCardRequest::History)
            } else {
                request matches Err(e) && e@ == ErrorView::Usage(
                    "rate-card requires a subcommand (import | show | history), got "@
                        + quoted_option(first),
                )
            }
        }),
{
    if first_is(rest, "import") {
        if rest.len() < 2 {
            return Err(Error::Usage("rate-card import requires a file path".to_owned()));
        }
        return Ok(RateCardRequest::Import { path: rest[1].clone() });
    }
    if first_is(rest, "show") {
        return Ok(RateCardRequest::Show);
    }
    if first_is(rest, "history") {
        return Ok(RateCardRequest::History);
    }
    let mut message: String =
        "rate-card requires a subcommand (import | show | history), got ".to_owned();
    message.append(quote_first(rest).as_str());
    Err(Error::Usage(message))
}

/// How far ingestion is. The rate is given as it is shown.
#[derive(Debug, Clone, PartialEq, Eq)]
pub struct IngestProgress {
    pub files_done: u64,
    pub files_total: u64,
    pub sessions_written: u64,
    pub events_written: u64,
    pub elapsed: MonotonicDuration,
    pub rate_events_per_sec: String,
}

/// The line that says how far ingestion is.
pub fn format_ingest_progress_line(progress: &IngestProgress) -> (line: String)
    ensures
        line@ == "ingest transcripts: progress files="@ + decimal(progress.files_done as nat)
            + "/"@ + decimal(progress.files_total as nat) + " sessions="@ + decimal(
            progress.sessions_written as nat,
        ) + " events="@ + decimal(progress.events_written as nat) + " elapsed="@ + decimal(
            (progress.elapsed.nanos / 1_000_000_000) as nat,
        ) + "s rate="@ + progress.rate_events_per_sec@ + "/s"@,
{
    let mut line: String = "ingest transcripts: progress files=".to_owned();
    push_number(&mut line, progress.files_done);
    line.append("/");
    push_number(&mut line, progress.files_total);
    line.append(" sessions=");
    push_number(&mut line, progress.sessions_written);
    line.append(" events=");
    push_number(&mut line, progress.events_written);
    line.append(" elapsed=");
    push_number(&mut line, progress.elapsed.as_nanos() / 1_000_000_000);
    line.append("s rate=");
    line.append(progress.rate_events_per_sec.as_str());
    line.append("/s");
    line
}

/// What ingestion did.
#[derive(Debug, PartialEq, Eq)]
pub struct IngestReport {
    pub sources: Vec<String>,
    pub files_scanned: u64,
    pub files_parsed: u64,
    pub files_skipped: u64,
    pub unreadable_files: u64,
    pub quarantined: u64,
    pub generation: u64,
    pub batches: u64,
    pub events_written: u64,
    pub events_already_ingested: u64,
    pub occurrences_written: u64,
    pub occurrences_already_ingested: u64,
    pub components_written: u64,
    pub sessions_upserted: u64,
    pub rows_replaced: u64,
}

/// The first line that reports ingestion: what was read.
pub fn ingest_files_line(report: &IngestReport) -> (line: String)
    ensures
        line@ == "ingest transcripts: sources="@ + joined(texts(report.sources@), ","@)
            + " scanned="@ + decimal(report.files_scanned as nat) + " parsed="@ + decimal(
            report.files_parsed as nat,
        ) + " skipped="@ + decimal(report.files_skipped as nat) + " unreadable="@ + decimal(
            report.unreadable_files as nat,
        ) + " quarantined="@ + decimal(report.quarantined as nat) + " generation="@ + decimal(
            report.generation as nat,
        ) + " batches="@ + decimal(report.batches as nat),
{
    let mut line: String = "ingest transcripts: sources=".to_owned();
    line.append(join_texts(&report.sources, ",").as_str());
    line.append(" scanned=");
    push_number(&mut line, report.files_scanned);
    line.append(" parsed=");
    push_number(&mut line, report.files_parsed);
    line.append(" skipped=");
    push_number(&mut line, report.files_skipped);
    line.append(" unreadable=");
    push_number(&mut line, report.unreadable_files);
    line.append(" quarantined=");
    push_number(&mut line, report.quarantined);
    line.append(" generation=");
    push_number(&mut line, report.generation);
    line.append(" batches=");
    push_number(&mut line, report.batches);
    line
}

/// The second line that reports ingestion: what was written.
pub fn ingest_rows_line(report: &IngestReport) -> (line: String)
    ensures
        line@ == "  events: written="@ + decimal(report.events_written as nat)
            + " already-ingested="@ + decimal(report.events_already_ingested as nat)
            + " · occurrences: written="@ + decimal(report.occurrences_written as nat)
            + " already-ingested="@ + decimal(report.occurrences_already_ingested as nat)
            + " · components="@ + decimal(report.components_written as nat) + " sessions="@
            + decimal(report.sessions_upserted as nat) + " replaced="@ + decimal(
            report.rows_replaced as nat,
        ),
{
    let mut line: String = "  events: written=".to_owned();
    push_number(&mut line, report.events_written);
    line.append(" already-ingested=");
    push_number(&mut line, report.events_already_ingested);
    line.append(" · occurrences: written=");
    push_number(&mut line, report.occurrences_written);
    line.append(" already-ingested=");
    push_number(&mut line, report.occurrences_already_ingested);
    line.append(" · components=");
    push_number(&mut line, report.components_written);
    line.append(" sessions=");
    push_number(&mut line, report.sessions_upserted);
    line.append(" replaced=");
    push_number(&mut line, report.rows_replaced);
    line
}

/// How ingestion ends: files that could not be read make it incomplete.
pub fn ingest_ending(unreadable: u64) -> (ending: Result<(), Error>)
    ensures
        match ending {
            Ok(()) => unreadable == 0,
            Err(error) => unreadable > 0 && error@ == ErrorView::IngestIncomplete(
                decimal(unreadable as nat)
                    + " file(s) could not be read; the landed batch excludes them"@,
            ),
        },
{
    if unreadable == 0 {
        return Ok(());
    }
    let mut message: String = decimal_text(unreadable as u128);
    message.append(" file(s) could not be read; the landed batch excludes them");
    Err(Error::IngestIncomplete(message))
}

/// How many rows of a table were deleted.
#[derive(Debug, Clone, PartialEq, Eq)]
pub struct TableSweep {
    pub table: String,
    pub rows: u64,
}

/// How many rows the first `n` sweeps deleted.
pub open spec fn rows_deleted(sweeps: Seq<TableSweep>, n: int) -> nat
    decreases n,
{
    if n <= 0 {
        0
    } else {
        rows_deleted(sweeps, n - 1) + sweeps[n - 1].rows as nat
    }
}

/// The lines that report a rebuild.
pub open spec fn rebuild_lines(group: Seq<char>, sweeps: Seq<TableSweep>) -> Seq<Seq<char>> {
    seq![
        "rebuild "@ + group + ": deleted "@ + decimal(rows_deleted(sweeps, sweeps.len() as int))
            + " rows across "@ + decimal(sweeps.len()) + " tables"@,
    ] + sweeps.map_values(
        |sweep: TableSweep| "  "@ + sweep.table@ + ": "@ + decimal(sweep.rows as nat) + " rows"@,
    )
}

fn total_rows(sweeps: &Vec<TableSweep>) -> (total: u128)
    ensures
        total == rows_deleted(sweeps@, sweeps@.len() as int),
{
    let count: usize = sweeps.len();
    let mut total: u128 = 0;
    let mut i: usize = 0;
    while i < count
        invariant
            i <= count,
            count == sweeps@.len(),
            total == rows_deleted(sweeps@, i as int),
            total <= i * 0xFFFF_FFFF_FFFF_FFFF,
        decreases count - i,
    {
        assert(i * 0xFFFF_FFFF_FFFF_FFFF + 0xFFFF_FFFF_FFFF_FFFF == (i + 1)
            * 0xFFFF_FFFF_FFFF_FFFF) by (nonlinear_arith);
        assert((i + 1) * 0xFFFF_FFFF_FFFF_FFFF
            < 0x1_0000_0000_0000_0000_0000_0000_0000_0000) by (nonlinear_arith)
            requires
                i < 0xFFFF_FFFF_FFFF_FFFF,
        ;
        total = total + sweeps[i].rows as u128;
        i = i + 1;
    }
    total
}

/// The lines that report a rebuild: the rows deleted, in all and of each table.
pub fn render_rebuild(group: &str, sweeps: &Vec<TableSweep>) -> (lines: Vec<String>)
    ensures
        texts(lines@) == rebuild_lines(group@, sweeps@),
{
    let mut first: String = "rebuild ".to_owned();
    first.append(group);
    first.append(": deleted ");
    first.append(decimal_text(total_rows(sweeps)).as_str());
    first.append(" rows across ");
    first.append(decimal_text(sweeps.len() as u128).as_str());
    first.append(" tables");
    let ghost head = seq![first@];
    let ghost tail = sweeps@.map_values(
        |sweep: TableSweep| "  "@ + sweep.table@ + ": "@ + decimal(sweep.rows as nat) + " rows"@,
    );
    let mut lines: Vec<String> = one_line(first);
    let mut i: usize = 0;
    assert(texts(lines@) =~= head + tail.take(0));
    while i < sweeps.len()
        invariant
            i <= sweeps@.len(),
            tail == sweeps@.map_values(
                |sweep: TableSweep|
                    "  "@ + sweep.table@ + ": "@ + decimal(sweep.rows as nat) + " rows"@,
            ),
            texts(lines@) == head + tail.take(i as int),
        decreases sweeps@.len() - i,
    {
        let mut line: String = "  ".to_owned();
        line.append(sweeps[i].table.as_str());
        line.append(": ");
        push_number(&mut line, sweeps[i].rows);
        line.append(" rows");
        assert(tail[i as int] == line@);
        let ghost before = lines@;
        lines.push(line);
        assert(texts(lines@) =~= texts(before).push(line@));
        assert(texts(lines@) =~= head + tail.take(i + 1));
        i = i + 1;
    }
    assert(tail.take(sweeps@.len() as int) =~= tail);
    lines
}

/// A class of tokens whose attribution fell below the floor, over all history or over
/// the recent window.
#[derive(Debug, Clone, Copy, PartialEq, Eq, Structural)]
pub struct AttributionBreach {
    pub kind: TokenKind,
    pub recent: bool,
}

/// How a breach is named.
pub open spec fn breach_text(breach: AttributionBreach) -> Seq<char> {
    breach.kind.name() + " ("@ + (if breach.recent {
        "recent window"@
    } else {
        "all history"@
    }) + ")"@
}

/// The error that breaches of the floor of attribution end the doctor with; none where
/// there is no breach.
pub fn attribution_quality_breach_error(breaches: &Vec<AttributionBreach>) -> (error: Option<
    Error,
>)
    ensures
        match error {
            Some(e) => breaches@.len() > 0 && e@ == ErrorView::ThresholdNotMet(
                "attribution quality is below the configured floor for: "@ + joined(
                    breaches@.map_values(|b: AttributionBreach| breach_text(b)),
                    ", "@,
                ),
            ),
            None => breaches@.len() == 0,
        },
{
    if breaches.len() == 0 {
        return None;
    }
    let ghost all = breaches@.map_values(|b: AttributionBreach| breach_text(b));
    let mut names: Vec<String> = Vec::new();
    let mut i: usize = 0;
    assert(texts(names@) =~= all.take(0));
    while i < breaches.len()
        invariant
            i <= breaches@.len(),
            all == breaches@.map_values(|b: AttributionBreach| breach_text(b)),
            texts(names@) == all.take(i as int),
        decreases breaches@.len() - i,
    {
        let mut name: String = breaches[i].kind.label().to_owned();
        name.append(" (");
        if breaches[i].recent {
            name.append("recent window");
        } else {
            name.append("all history");
        }
        name.append(")");
        assert(all[i as int] == name@);
        let ghost before = names@;
        names.push(name);
        assert(texts(names@) =~= texts(before).push(name@));
        assert(texts(names@) =~= all.take(i + 1));
        i = i + 1;
    }
    assert(all.take(breaches@.len() as int) =~= all);
    let mut message: String =
        "attribution quality is below the configured floor for: ".to_owned();
    message.append(join_texts(&names, ", ").as_str());
    Some(Error::ThresholdNotMet(message))
}

/// The line for a rate card whose review is due.
pub fn stale_card_line(card: &RateCard) -> (line: String)
    ensures
        line@ == "  stale rate card: "@ + card.vendor@ + " "@ + card.model@ + " "@
            + card.token_class@ + " review due on "@ + match card.review_due {
            Some(date) => number_text(date@),
            None => Seq::<char>::empty(),
        },
{
    let mut line: String = "  stale rate card: ".to_owned();
    line.append(card.vendor.as_str());
    line.append(" ");
    line.append(card.model.as_str());
    line.append(" ");
    line.append(card.token_class.as_str());
    line.append(" review due on ");
    match card.review_due {
        Some(date) => {
            line.append(date.iso().as_str());
        },
        None => {
            assert(line@ =~= line@ + Seq::<char>::empty());
        },
    }
    line
}

/// A key with spaces up to the column of sources.
pub open spec fn key_column(key: Seq<char>) -> Seq<char> {
    if key.len() < 32 {
        key + Seq::new((32 - key.len()) as nat, |i: int| ' ')
    } else {
        key
    }
}

/// The line that says where a setting comes from. What it is set to is never shown.
pub fn provenance_line(key: &str, source: &str) -> (line: String)
    ensures
        line@ == key_column(key@) + " "@ + source@,
{
    let mut line: String = key.to_owned();
    let mut count: usize = key.unicode_len();
    let ghost mut spaces: Seq<char> = Seq::empty();
    while count < 32
        invariant
            spaces == Seq::new((count - key@.len()) as nat, |i: int| ' '),
            line@ == key@ + spaces,
            count >= key@.len(),
            count <= 32 || count == key@.len(),
        decreases 32 - count,
    {
        proof {
            reveal_strlit(" ");
            spaces = spaces.push(' ');
        }
        line.append(" ");
        assert(line@ =~= key@ + spaces);
        count = count + 1;
        assert(spaces =~= Seq::new((count - key@.len()) as nat, |i: int| ' '));
    }
    assert(line@ =~= key_column(key@));
    line.append(" ");
    line.append(source);
    line
}

/// The error where coverage is asked for and nothing was ever recorded.
pub fn no_ledger(path: &str) -> (error: Error)
    ensures
        error@ == ErrorView::InsufficientEvidence(
            "no ledger exists at "@ + path@ + "; nothing is recorded about sampling yet"@,
        ),
{
    let mut message: String = "no ledger exists at ".to_owned();
    message.append(path);
    message.append("; nothing is recorded about sampling yet");
    Error::InsufficientEvidence(message)
}

/// What was asked for of the tasks.
#[derive(Debug, Clone, PartialEq, Eq)]
pub enum TaskRequest {
    Ingest,
    Report { task: String },
    Overhead,
}

/// Reads what was asked for of the tasks. The window of the overhead is read later.
pub fn task_request(rest: &Vec<String>) -> (request: Result<TaskRequest, Error>)
    ensures
        ({
            let args = texts(rest@);
            let first = first_of(args);
            if first == Some("ingest"@) {
                if args.len() > 1 {
                    request matches Err(e) && e@ == unknown(args[1])
                } else {
                    request matches Ok(TaskRequest::Ingest)
                }
            } else if first == Some("report"@) {
                if args.len() < 2 {
                    request matches Err(e) && e@ == ErrorView::Usage(
                        "task report requires a TASK-ID"@,
                    )
                } else if args.len() > 2 {
                    request matches Err(e) && e@ == unknown(args[2])
                } else {
                    request matches Ok(TaskRequest::Report { task }) && task@ == args[1]
                }
            } else if first == Some("overhead"@) {
                request matches Ok(TaskRequest::Overhead)
            } else {
                request matches Err(e) && e@ == ErrorView::Usage(
                    "task requires a subcommand (ingest | report | overhead), got "@
                        + quoted_option(first),
                )
            }
        }),
{
    if first_is(rest, "ingest") {
        if rest.len() > 1 {
            return Err(unknown_argument(rest[1].as_str()));
        }
        return Ok(TaskRequest::Ingest);
    }
    if first_is(rest, "report") {
        if rest.len() < 2 {
            return Err(Error::Usage("task report requires a TASK-ID".to_owned()));
        }
        if rest.len() > 2 {
            return Err(unknown_argument(rest[2].as_str()));
        }
        return Ok(TaskRequest::Report { task: rest[1].clone() });
    }
    if first_is(rest, "overhead") {
        return Ok(TaskRequest::Overhead);
    }
    let mut message: String =
        "task requires a subcommand (ingest | report | overhead), got ".to_owned();
    message.append(quote_first(rest).as_str());
    Err(Error::Usage(message))
}

/// Where task claims are read from: the configured tracker, and nothing else will do.
pub fn required_tracker(tracker: Option<&str>) -> (path: Result<&str, Error>)
    ensures
        match (tracker, path) {
            (Some(t), Ok(p)) => p@ == t@,
            (None, Err(e)) => e@ == ErrorView::Usage(
                "no [tracker] source is configured; task ingest has nothing to read"@,
            ),
            _ => false,
        },
{
    match tracker {
        Some(path) => Ok(path),
        None => Err(
            Error::Usage(
                "no [tracker] source is configured; task ingest has nothing to read".to_owned(),
            ),
        ),
    }
}

/// What the ingestion of task claims did.
#[derive(Debug, Clone, Copy, PartialEq, Eq, Structural)]
pub struct TaskIngestReport {
    pub events_inserted: u64,
    pub events_already_present: u64,
    pub quarantines_inserted: u64,
    pub quarantines_already_present: u64,
}

/// The line that reports the ingestion of task claims.
pub fn task_ingest_line(report: TaskIngestReport) -> (line: String)
    ensures
        line@ == "task ingest: events_inserted="@ + decimal(report.events_inserted as nat)
            + " events_already_present="@ + decimal(report.events_already_present as nat)
            + " quarantines_inserted="@ + decimal(report.quarantines_inserted as nat)
            + " quarantines_already_present="@ + decimal(
            report.quarantines_already_present as nat,
        ),
{
    let mut line: String = "task ingest: events_inserted=".to_owned();
    push_number(&mut line, report.events_inserted);
    line.append(" events_already_present=");
    push_number(&mut line, report.events_already_present);
    line.append(" quarantines_inserted=");
    push_number(&mut line, report.quarantines_inserted);
    line.append(" quarantines_already_present=");
    push_number(&mut line, report.quarantines_already_present);
    line
}

/// The line that reports the import of a rate book.
pub fn rate_book_line(added: u64, unchanged: u64) -> (line: String)
    ensures
        line@ == "rate-card import: added="@ + decimal(added as nat) + " unchanged="@ + decimal(
            unchanged as nat,
        ),
{
    let mut line: String = "rate-card import: added=".to_owned();
    push_number(&mut line, added);
    line.append(" unchanged=");
    push_number(&mut line, unchanged);
    line
}

/// The line that names the version.
pub fn version_line(version: &str, revision: &str) -> (line: String)
    ensures
        line@ == "aub "@ + version@ + " ("@ + revision@ + ")"@,
{
    let mut line: String = "aub ".to_owned();
    line.append(version);
    line.append(" (");
    line.append(revision);
    line.append(")");
    line
}

/// A rate is written no longer than it has to be: of the digits behind the point, the last
/// is a zero only where there are two.
pub proof fn law_rates_are_short(micros: int)
    ensures
        fraction_digits(micros).len() > 2 ==> fraction_digits(micros).last() != '0',
{
    lemma_shortened_ends(zero_filled(size(micros) % 1_000_000, 6));
}

proof fn lemma_shortened_ends(s: Seq<char>)
    ensures
        shortened(s).len() > 2 ==> shortened(s).last() != '0',
    decreases s.len(),
{
    if s.len() > 2 && s.last() == '0' {
        lemma_shortened_ends(s.drop_last());
    }
}

/// A card says from when it is effective and until when, or that it is open, and what of
/// its provenance is missing.
pub proof fn law_cards_say_what_is_missing(card: RateCard)
    ensures
        card.effective_end matches Some(end) ==> card_interval(card) == number_text(
            card.effective_start@,
        ) + "-"@ + number_text(end@),
        card.effective_end is None ==> card_interval(card) == number_text(card.effective_start@)
            + "-"@ + "open"@,
        card.source is None && card.published_on is None ==> card_provenance(card)
            == " provenance=missing-both"@,
        card.source is None && card.published_on is Some ==> card_provenance(card)
            == " published="@ + number_text(card.published_on->0@)
            + " provenance=missing-source"@,
        card.source is Some && card.published_on is None ==> card_provenance(card) == " source="@
            + card.source->0@ + " provenance=missing-publication"@,
        card.source is Some && card.published_on is Some ==> card_provenance(card)
            == " published="@ + number_text(card.published_on->0@) + " source="@
            + card.source->0@,
{
    let none = Seq::<char>::empty();
    if card.source is None && card.published_on is None {
        assert(none + none + " provenance=missing-both"@ =~= " provenance=missing-both"@);
    } else if card.source is None {
        let dated = " published="@ + number_text(card.published_on->0@);
        assert(dated + none =~= dated);
    } else if card.published_on is None {
        let named = " source="@ + card.source->0@;
        assert(none + named =~= named);
    } else {
        let all = " published="@ + number_text(card.published_on->0@) + " source="@
            + card.source->0@;
        let card_all = " published="@ + number_text(card.published_on->0@) + (" source="@
            + card.source->0@) + none;
        assert(all =~= card_all);
    }
}

proof fn lemma_rows_prefix(shorter: Seq<TableSweep>, longer: Seq<TableSweep>, n: int)
    requires
        n <= shorter.len(),
        n <= longer.len(),
        forall|i: int| 0 <= i < n ==> shorter[i] == #[trigger] longer[i],
    ensures
        rows_deleted(shorter, n) == rows_deleted(longer, n),
    decreases n,
{
    if n > 0 {
        lemma_rows_prefix(shorter, longer, n - 1);
        assert(shorter[n - 1] == longer[n - 1]);
    }
}

/// The rows deleted are those of every table together.
pub proof fn law_deleted_rows_add_up(sweeps: Seq<TableSweep>, last: TableSweep)
    ensures
        rows_deleted(Seq::empty(), 0) == 0,
        rows_deleted(sweeps.push(last), sweeps.len() as int + 1) == rows_deleted(
            sweeps,
            sweeps.len() as int,
        ) + last.rows,
        forall|group: Seq<char>| (#[trigger] rebuild_lines(group, sweeps)).len() == sweeps.len()
            + 1,
{
    lemma_rows_prefix(sweeps, sweeps.push(last), sweeps.len() as int);
}

/// A key is shown in a column of thirty-two characters, filled with spaces, or as wide as
/// it is.
pub proof fn law_keys_are_shown_in_a_column(key: Seq<char>)
    ensures
        key.len() <= 32 ==> key_column(key).len() == 32,
        key.len() >= 32 ==> key_column(key) == key,
        key_column(key).take(key.len() as int) == key,
        forall|i: int| key.len() <= i < key_column(key).len() ==> #[trigger] key_column(key)[i]
            == ' ',
{
    assert(key_column(key).take(key.len() as int) =~= key);
}

} // verus!
