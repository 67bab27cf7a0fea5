//! The windows over which usage is reported, the options of the spend report, and how
//! that report ends.

use crate::calendar::{day_written, UtcDate, DAYS_COVERED};
use crate::cli::options::{unknown, unknown_argument};
use crate::domain::UtcTimestamp;
use crate::error::{Error, ErrorView};
use crate::sets::texts;
use crate::text::{
    begins_with, behind, decimal, decimal_text, law_signed_numbers_read_back, lemma_decimal_digits,
    optional, parse_i64, same_text, signed_decimal, signed_decimal_text, signed_value, strip_prefix,
};
use vstd::prelude::*;
use vstd::string::*;

verus! {

/// The days from one on and before another.
#[derive(Debug, Clone, Copy, PartialEq, Eq, Structural)]
pub struct SpendWindow {
    pub since: UtcDate,
    pub until: UtcDate,
}

/// The window of some days from a day on; at least one day, and none after the calendar
/// ends.
pub open spec fn window_asked(since: int, days: int) -> Result<(int, int), ErrorView> {
    if days < 1 {
        Err(ErrorView::Usage("--days must be at least 1, got "@ + signed_decimal(days)))
    } else if since + days >= DAYS_COVERED {
        Err(ErrorView::Usage("the window ends after the year 9999"@))
    } else {
        Ok((since, since + days))
    }
}

impl SpendWindow {
    /// The window of some days from a day on.
    pub fn starting(since: UtcDate, days: i64) -> (window: Result<SpendWindow, Error>)
        ensures
            match window {
                Ok(w) => window_asked(since@, days as int) == Ok::<(int, int), ErrorView>(
                    (w.since@, w.until@),
                ),
                Err(e) => window_asked(since@, days as int) == Err::<(int, int), ErrorView>(e@),
            },
    {
        if days < 1 {
            let mut message: String = "--days must be at least 1, got ".to_owned();
            message.append(signed_decimal_text(days).as_str());
            return Err(Error::Usage(message));
        }
        let first: i64 = since.number() as i64;
        if days >= 3_652_425 - first {
            return Err(Error::Usage("the window ends after the year 9999".to_owned()));
        }
        match UtcDate::from_number(first + days) {
            Some(until) => Ok(SpendWindow { since, until }),
            None => Err(Error::Usage("the window ends after the year 9999".to_owned())),
        }
    }
}

/// What an argument says of a window.
pub enum WindowStep {
    /// It is another argument.
    Other,
    /// It is refused.
    Refused(ErrorView),
    /// The day the window begins with and its days, and where reading goes on.
    Read { since: Option<int>, days: int, next: int },
}

/// The first day a value asks for.
pub open spec fn since_step(value: Seq<char>, days: int, next: int) -> WindowStep {
    match day_written(value) {
        Some(day) => WindowStep::Read { since: Some(day), days, next },
        None => WindowStep::Refused(
            ErrorView::Usage("--since must be YYYY-MM-DD, got "@ + value),
        ),
    }
}

/// The number of days a value asks for.
pub open spec fn days_step(value: Seq<char>, since: Option<int>, next: int) -> WindowStep {
    match signed_value(value) {
        Some(days) => if i64::MIN <= days <= i64::MAX {
            WindowStep::Read { since, days, next }
        } else {
            WindowStep::Refused(ErrorView::Usage("--days must be a number, got "@ + value))
        },
        None => WindowStep::Refused(ErrorView::Usage("--days must be a number, got "@ + value)),
    }
}

/// What an argument says of a window.
pub open spec fn window_step(
    args: Seq<Seq<char>>,
    i: int,
    today: int,
    since: Option<int>,
    days: int,
) -> WindowStep {
    let arg = args[i];
    if arg == "--today"@ {
        WindowStep::Read { since: Some(today), days, next: i + 1 }
    } else if arg == "--since"@ {
        if i + 1 < args.len() {
            since_step(args[i + 1], days, i + 2)
        } else {
            WindowStep::Refused(ErrorView::Usage("--since requires YYYY-MM-DD"@))
        }
    } else if arg == "--days"@ {
        if i + 1 < args.len() {
            days_step(args[i + 1], since, i + 2)
        } else {
            WindowStep::Refused(ErrorView::Usage("--days requires a number"@))
        }
    } else {
        match (behind(arg, "--since="@), behind(arg, "--days="@)) {
            (Some(value), _) => since_step(value, days, i + 1),
            (None, Some(value)) => days_step(value, since, i + 1),
            (None, None) => WindowStep::Other,
        }
    }
}

/// The day some optional date is.
pub open spec fn day_of_option(date: Option<UtcDate>) -> Option<int> {
    match date {
        Some(d) => Some(d@),
        None => None,
    }
}

/// A window that is being read: the day it begins with, and its days.
struct WindowSoFar {
    since: Option<UtcDate>,
    days: i64,
}

fn parse_date(value: &str) -> (date: Result<UtcDate, Error>)
    ensures
        match date {
            Ok(d) => day_written(value@) == Some(d@),
            Err(e) => day_written(value@) is None && e@ == ErrorView::Usage(
                "--since must be YYYY-MM-DD, got "@ + value@,
            ),
        },
{
    match UtcDate::parse(value) {
        Some(date) => Ok(date),
        None => {
            let mut message: String = "--since must be YYYY-MM-DD, got ".to_owned();
            message.append(value);
            Err(Error::Usage(message))
        },
    }
}

fn parse_days(value: &str) -> (days: Result<i64, Error>)
    ensures
        match days {
            Ok(d) => signed_value(value@) == Some(d as int),
            Err(e) => (signed_value(value@) matches Some(d) ==> !(i64::MIN <= d <= i64::MAX)) && e@
                == ErrorView::Usage("--days must be a number, got "@ + value@),
        },
{
    match parse_i64(value) {
        Some(days) => Ok(days),
        None => {
            let mut message: String = "--days must be a number, got ".to_owned();
            message.append(value);
            Err(Error::Usage(message))
        },
    }
}

/// Reads an argument that may say something of a window.
fn read_window(rest: &Vec<String>, i: usize, today: UtcDate, window: &mut WindowSoFar) -> (read:
    Result<Option<usize>, Error>)
    requires
        i < rest@.len(),
    ensures
        ({
            let step = window_step(
                texts(rest@),
                i as int,
                today@,
                day_of_option(old(window).since),
                old(window).days as int,
            );
            match read {
                Ok(Some(next)) => {
                    &&& step == (WindowStep::Read {
                        since: day_of_option(final(window).since),
                        days: final(window).days as int,
                        next: next as int,
                    })
                    &&& i < next <= rest@.len()
                },
                Ok(None) => step is Other && *final(window) == *old(window),
                Err(e) => step == WindowStep::Refused(e@),
            }
        }),
{
    let total: usize = rest.len();
    let ghost args = texts(rest@);
    let arg: &str = rest[i].as_str();
    assert(args[i as int] == arg@);
    if same_text(arg, "--today") {
        window.since = Some(today);
        return Ok(Some(i + 1));
    }
    if same_text(arg, "--since") {
        if total - i < 2 {
            return Err(Error::Usage("--since requires YYYY-MM-DD".to_owned()));
        }
        assert(args[i + 1] == rest@[i + 1]@);
        return match parse_date(rest[i + 1].as_str()) {
            Ok(date) => {
                window.since = Some(date);
                Ok(Some(i + 2))
            },
            Err(error) => Err(error),
        };
    }
    if same_text(arg, "--days") {
        if total - i < 2 {
            return Err(Error::Usage("--days requires a number".to_owned()));
        }
        assert(args[i + 1] == rest@[i + 1]@);
        return match parse_days(rest[i + 1].as_str()) {
            Ok(days) => {
                window.days = days;
                Ok(Some(i + 2))
            },
            Err(error) => Err(error),
        };
    }
    match (strip_prefix(arg, "--since="), strip_prefix(arg, "--days=")) {
        (Some(value), _) => match parse_date(value.as_str()) {
            Ok(date) => {
                window.since = Some(date);
                Ok(Some(i + 1))
            },
            Err(error) => Err(error),
        },
        (None, Some(value)) => match parse_days(value.as_str()) {
            Ok(days) => {
                window.days = days;
                Ok(Some(i + 1))
            },
            Err(error) => Err(error),
        },
        (None, None) => Ok(None),
    }
}

/// The window that the arguments from a position on make of what was read before. Where
/// no day is named, it begins today.
pub open spec fn overhead_from(
    args: Seq<Seq<char>>,
    i: int,
    today: int,
    since: Option<int>,
    days: int,
) -> Result<(int, int), ErrorView>
    decreases args.len() - i,
{
    if i >= args.len() {
        window_asked(
            match since {
                Some(day) => day,
                None => today,
            },
            days,
        )
    } else {
        match window_step(args, i, today, since, days) {
            WindowStep::Other => Err(unknown(args[i])),
            WindowStep::Refused(error) => Err(error),
            WindowStep::Read { since: day, days: count, next } => if next > i {
                overhead_from(args, next, today, day, count)
            } else {
                Err(unknown(args[i]))
            },
        }
    }
}

/// Reads the window of the overhead report, from a position on: today where none is
/// named, in UTC.
pub fn task_overhead_window(rest: &Vec<String>, from: usize, now: UtcTimestamp) -> (window: Result<
    SpendWindow,
    Error,
>)
    requires
        from <= rest@.len(),
    ensures
        ({
            let today = crate::calendar::day_of(now.nanos as int);
            match window {
                Ok(w) => overhead_from(texts(rest@), from as int, today, None, 1) == Ok::<
                    (int, int),
                    ErrorView,
                >((w.since@, w.until@)),
                Err(e) => overhead_from(texts(rest@), from as int, today, None, 1) == Err::<
                    (int, int),
                    ErrorView,
                >(e@),
            }
        }),
{
    let total: usize = rest.len();
    let ghost args = texts(rest@);
    let today: UtcDate = now.utc_date();
    let mut window: WindowSoFar = WindowSoFar { since: None, days: 1 };
    let mut i: usize = from;
    while i < total
        invariant
            total == rest@.len(),
            args == texts(rest@),
            today@ == crate::calendar::day_of(now.nanos as int),
            overhead_from(args, from as int, today@, None, 1) == overhead_from(
                args,
                i as int,
                today@,
                day_of_option(window.since),
                window.days as int,
            ),
        decreases total - i,
    {
        assert(args[i as int] == rest@[i as int]@);
        match read_window(rest, i, today, &mut window) {
            Ok(Some(next)) => {
                i = next;
            },
            Ok(None) => {
                return Err(unknown_argument(rest[i].as_str()));
            },
            Err(error) => {
                return Err(error);
            },
        }
    }
    let first: UtcDate = match window.since {
        Some(date) => date,
        None => today,
    };
    SpendWindow::starting(first, window.days)
}

/// By what spend is grouped.
#[derive(Debug, Clone, Copy, PartialEq, Eq, Structural)]
pub enum SpendGrouping {
    Day,
    Session,
    Project,
    Repository,
    Account,
    Task,
}

/// Whether transcripts are read again before a report.
#[derive(Debug, Clone, Copy, PartialEq, Eq, Structural)]
pub enum RefreshPolicy {
    Auto,
    Never,
    Force,
}

/// How usage is valued.
#[derive(Debug, Clone, Copy, PartialEq, Eq, Structural)]
pub enum SpendValuationMode {
    ApiList,
}

/// What the spend report was asked for.
#[derive(Debug, PartialEq, Eq)]
pub struct SpendOptions {
    pub window: SpendWindow,
    pub grouping: Vec<SpendGrouping>,
    pub refresh: RefreshPolicy,
    pub value: Option<SpendValuationMode>,
    pub credits: bool,
}

/// What is known of a spend report while its options are being read.
pub struct SpendView {
    pub since: Option<int>,
    pub days: int,
    pub grouping: Seq<SpendGrouping>,
    pub refresh: RefreshPolicy,
    pub value: Option<SpendValuationMode>,
    pub credits: bool,
}

/// What a value of `--group-by` asks for.
pub open spec fn grouping_asked(value: Seq<char>) -> Result<SpendGrouping, ErrorView> {
    if value == "day"@ {
        Ok(SpendGrouping::Day)
    } else if value == "session"@ {
        Ok(SpendGrouping::Session)
    } else if value == "project"@ {
        Ok(SpendGrouping::Project)
    } else if value == "repository"@ || value == "repo"@ {
        Ok(SpendGrouping::Repository)
    } else if value == "account"@ {
        Ok(SpendGrouping::Account)
    } else if value == "task"@ {
        Ok(SpendGrouping::Task)
    } else {
        Err(
            ErrorView::Usage(
                "--group-by must be day, session, project, repository, task or account, got "@
                    + value,
            ),
        )
    }
}

/// What a value of `--refresh` asks for.
pub open spec fn refresh_asked(value: Seq<char>) -> Result<RefreshPolicy, ErrorView> {
    if value == "auto"@ {
        Ok(RefreshPolicy::Auto)
    } else if value == "never"@ {
        Ok(RefreshPolicy::Never)
    } else if value == "force"@ {
        Ok(RefreshPolicy::Force)
    } else {
        Err(ErrorView::Usage("--refresh must be auto, never or force, got "@ + value))
    }
}

/// What a value of `--value` asks for.
pub open spec fn valuation_asked(value: Seq<char>) -> Result<SpendValuationMode, ErrorView> {
    if value == "api-list"@ {
        Ok(SpendValuationMode::ApiList)
    } else {
        Err(ErrorView::Usage("--value must be api-list, got "@ + value))
    }
}

/// One step of reading: what an argument makes of what was read before, and where
/// reading goes on.
pub open spec fn spend_step(args: Seq<Seq<char>>, i: int, today: int, sofar: SpendView) -> Result<
    (SpendView, int),
    ErrorView,
> {
    let arg = args[i];
    let more = i + 1 < args.len();
    match window_step(args, i, today, sofar.since, sofar.days) {
        WindowStep::Refused(error) => Err(error),
        WindowStep::Read { since, days, next } => Ok((SpendView { since, days, ..sofar }, next)),
        WindowStep::Other => if arg == "--group-by"@ {
            if !more {
                Err(ErrorView::Usage("--group-by requires a dimension"@))
            } else {
                grouped(args[i + 1], sofar, i + 2)
            }
        } else if arg == "--refresh"@ {
            if more && refresh_asked(args[i + 1]) is Ok {
                Ok((SpendView { refresh: refresh_asked(args[i + 1])->Ok_0, ..sofar }, i + 2))
            } else {
                Ok((SpendView { refresh: RefreshPolicy::Force, ..sofar }, i + 1))
            }
        } else if arg == "--value"@ {
            if !more {
                Err(ErrorView::Usage("--value requires a mode"@))
            } else {
                valued(args[i + 1], sofar, i + 2)
            }
        } else if arg == "--credits"@ {
            Ok((SpendView { credits: true, ..sofar }, i + 1))
        } else {
            match (behind(arg, "--group-by="@), behind(arg, "--refresh="@), behind(arg, "--value="@)) {
                (Some(value), _, _) => grouped(value, sofar, i + 1),
                (None, Some(value), _) => match refresh_asked(value) {
                    Ok(refresh) => Ok((SpendView { refresh, ..sofar }, i + 1)),
                    Err(error) => Err(error),
                },
                (None, None, Some(value)) => valued(value, sofar, i + 1),
                (None, None, None) => Err(unknown(arg)),
            }
        },
    }
}

/// One grouping more.
pub open spec fn grouped(value: Seq<char>, sofar: SpendView, next: int) -> Result<
    (SpendView, int),
    ErrorView,
> {
    match grouping_asked(value) {
        Ok(by) => Ok((SpendView { grouping: sofar.grouping.push(by), ..sofar }, next)),
        Err(error) => Err(error),
    }
}

/// A valuation.
pub open spec fn valued(value: Seq<char>, sofar: SpendView, next: int) -> Result<
    (SpendView, int),
    ErrorView,
> {
    match valuation_asked(value) {
        Ok(mode) => Ok((SpendView { value: Some(mode), ..sofar }, next)),
        Err(error) => Err(error),
    }
}

/// What the arguments from a position on make of what was read before.
pub open spec fn spend_from(args: Seq<Seq<char>>, i: int, today: int, sofar: SpendView) -> Result<
    SpendView,
    ErrorView,
>
    decreases args.len() - i,
{
    if i >= args.len() {
        Ok(sofar)
    } else {
        match spend_step(args, i, today, sofar) {
            Ok((read, next)) => if next > i {
                spend_from(args, next, today, read)
            } else {
                Ok(read)
            },
            Err(error) => Err(error),
        }
    }
}

/// A report of which nothing was read yet.
pub open spec fn no_spend() -> SpendView {
    SpendView {
        since: None,
        days: 1,
        grouping: Seq::empty(),
        refresh: RefreshPolicy::Auto,
        value: None,
        credits: false,
    }
}

/// Whether options are what the arguments ask for: the window begins today where no day
/// is named, and spend is grouped by day where no grouping is.
pub open spec fn spend_asked(args: Seq<Seq<char>>, today: int, options: SpendOptions) -> bool {
    match spend_from(args, 0, today, no_spend()) {
        Ok(read) => {
            &&& window_asked(
                match read.since {
                    Some(day) => day,
                    None => today,
                },
                read.days,
            ) == Ok::<(int, int), ErrorView>((options.window.since@, options.window.until@))
            &&& options.grouping@ == if read.grouping.len() == 0 {
                seq![SpendGrouping::Day]
            } else {
                read.grouping
            }
            &&& options.refresh == read.refresh
            &&& options.value == read.value
            &&& options.credits == read.credits
        },
        Err(_) => false,
    }
}

/// Whether the arguments are refused with an error.
pub open spec fn spend_refused(args: Seq<Seq<char>>, today: int, error: ErrorView) -> bool {
    match spend_from(args, 0, today, no_spend()) {
        Ok(read) => window_asked(
            match read.since {
                Some(day) => day,
                None => today,
            },
            read.days,
        ) == Err::<(int, int), ErrorView>(error),
        Err(e) => e == error,
    }
}

fn parse_spend_grouping(value: &str) -> (grouping: Result<SpendGrouping, Error>)
    ensures
        match grouping {
            Ok(g) => grouping_asked(value@) == Ok::<SpendGrouping, ErrorView>(g),
            Err(e) => grouping_asked(value@) == Err::<SpendGrouping, ErrorView>(e@),
        },
{
    if same_text(value, "day") {
        Ok(SpendGrouping::Day)
    } else if same_text(value, "session") {
        Ok(SpendGrouping::Session)
    } else if same_text(value, "project") {
        Ok(SpendGrouping::Project)
    } else if same_text(value, "repository") || same_text(value, "repo") {
        Ok(SpendGrouping::Repository)
    } else if same_text(value, "account") {
        Ok(SpendGrouping::Account)
    } else if same_text(value, "task") {
        Ok(SpendGrouping::Task)
    } else {
        let mut message: String =
            "--group-by must be day, session, project, repository, task or account, got ".to_owned();
        message.append(value);
        Err(Error::Usage(message))
    }
}

fn parse_refresh_policy(value: &str) -> (policy: Result<RefreshPolicy, Error>)
    ensures
        match policy {
            Ok(p) => refresh_asked(value@) == Ok::<RefreshPolicy, ErrorView>(p),
            Err(e) => refresh_asked(value@) == Err::<RefreshPolicy, ErrorView>(e@),
        },
{
    if same_text(value, "auto") {
        Ok(RefreshPolicy::Auto)
    } else if same_text(value, "never") {
        Ok(RefreshPolicy::Never)
    } else if same_text(value, "force") {
        Ok(RefreshPolicy::Force)
    } else {
        let mut message: String = "--refresh must be auto, never or force, got ".to_owned();
        message.append(value);
        Err(Error::Usage(message))
    }
}

fn parse_valuation(value: &str) -> (mode: Result<SpendValuationMode, Error>)
    ensures
        match mode {
            Ok(m) => valuation_asked(value@) == Ok::<SpendValuationMode, ErrorView>(m),
            Err(e) => valuation_asked(value@) == Err::<SpendValuationMode, ErrorView>(e@),
        },
{
    if same_text(value, "api-list") {
        Ok(SpendValuationMode::ApiList)
    } else {
        let mut message: String = "--value must be api-list, got ".to_owned();
        message.append(value);
        Err(Error::Usage(message))
    }
}

/// A spend report whose options are being read.
struct SpendSoFar {
    window: WindowSoFar,
    grouping: Vec<SpendGrouping>,
    refresh: RefreshPolicy,
    value: Option<SpendValuationMode>,
    credits: bool,
}

impl View for SpendSoFar {
    type V = SpendView;

    closed spec fn view(&self) -> SpendView {
        SpendView {
            since: day_of_option(self.window.since),
            days: self.window.days as int,
            grouping: self.grouping@,
            refresh: self.refresh,
            value: self.value,
            credits: self.credits,
        }
    }
}

fn read_spend(rest: &Vec<String>, i: usize, today: UtcDate, sofar: &mut SpendSoFar) -> (next:
    Result<usize, Error>)
    requires
        i < rest@.len(),
    ensures
        match next {
            Ok(n) => {
                &&& spend_step(texts(rest@), i as int, today@, old(sofar)@) == Ok::<
                    (SpendView, int),
                    ErrorView,
                >((final(sofar)@, n as int))
                &&& i < n
            },
            Err(e) => spend_step(texts(rest@), i as int, today@, old(sofar)@) == Err::<
                (SpendView, int),
                ErrorView,
            >(e@),
        },
{
    let total: usize = rest.len();
    let ghost args = texts(rest@);
    let arg: &str = rest[i].as_str();
    assert(args[i as int] == arg@);
    match read_window(rest, i, today, &mut sofar.window) {
        Ok(Some(next)) => {
            return Ok(next);
        },
        Ok(None) => {},
        Err(error) => {
            return Err(error);
        },
    }
    let more: bool = total - i >= 2;
    if more {
        assert(args[i + 1] == rest@[i + 1]@);
    }
    if same_text(arg, "--group-by") {
        if !more {
            return Err(Error::Usage("--group-by requires a dimension".to_owned()));
        }
        return match parse_spend_grouping(rest[i + 1].as_str()) {
            Ok(by) => {
                sofar.grouping.push(by);
                Ok(i + 2)
            },
            Err(error) => Err(error),
        };
    }
    if same_text(arg, "--refresh") {
        if more {
            match parse_refresh_policy(rest[i + 1].as_str()) {
                Ok(refresh) => {
                    sofar.refresh = refresh;
                    return Ok(i + 2);
                },
                Err(_) => {},
            }
        }
        sofar.refresh = RefreshPolicy::Force;
        return Ok(i + 1);
    }
    if same_text(arg, "--value") {
        if !more {
            return Err(Error::Usage("--value requires a mode".to_owned()));
        }
        return match parse_valuation(rest[i + 1].as_str()) {
            Ok(mode) => {
                sofar.value = Some(mode);
                Ok(i + 2)
            },
            Err(error) => Err(error),
        };
    }
    if same_text(arg, "--credits") {
        sofar.credits = true;
        return Ok(i + 1);
    }
    match (
        strip_prefix(arg, "--group-by="),
        strip_prefix(arg, "--refresh="),
        strip_prefix(arg, "--value="),
    ) {
        (Some(value), _, _) => match parse_spend_grouping(value.as_str()) {
            Ok(by) => {
                sofar.grouping.push(by);
                Ok(i + 1)
            },
            Err(error) => Err(error),
        },
        (None, Some(value), _) => match parse_refresh_policy(value.as_str()) {
            Ok(refresh) => {
                sofar.refresh = refresh;
                Ok(i + 1)
            },
            Err(error) => Err(error),
        },
        (None, None, Some(value)) => match parse_valuation(value.as_str()) {
            Ok(mode) => {
                sofar.value = Some(mode);
                Ok(i + 1)
            },
            Err(error) => Err(error),
        },
        (None, None, None) => Err(unknown_argument(arg)),
    }
}

/// Reads the options of the spend report. Today is the default, in UTC.
pub fn spend_options(rest: &Vec<String>, now: UtcTimestamp) -> (options: Result<
    SpendOptions,
    Error,
>)
    ensures
        ({
            let today = crate::calendar::day_of(now.nanos as int);
            match options {
                Ok(o) => spend_asked(texts(rest@), today, o),
                Err(e) => spend_refused(texts(rest@), today, e@),
            }
        }),
{
    let total: usize = rest.len();
    let ghost args = texts(rest@);
    let today: UtcDate = now.utc_date();
    let mut sofar: SpendSoFar = SpendSoFar {
        window: WindowSoFar { since: None, days: 1 },
        grouping: Vec::new(),
        refresh: RefreshPolicy::Auto,
        value: None,
        credits: false,
    };
    assert(sofar@.grouping =~= Seq::<SpendGrouping>::empty());
    let mut i: usize = 0;
    while i < total
        invariant
            total == rest@.len(),
            args == texts(rest@),
            today@ == crate::calendar::day_of(now.nanos as int),
            spend_from(args, 0, today@, no_spend()) == spend_from(args, i as int, today@, sofar@),
        decreases total - i,
    {
        match read_spend(rest, i, today, &mut sofar) {
            Ok(next) => {
                i = next;
            },
            Err(error) => {
                return Err(error);
            },
        }
    }
    let first: UtcDate = match sofar.window.since {
        Some(date) => date,
        None => today,
    };
    let window: SpendWindow = match SpendWindow::starting(first, sofar.window.days) {
        Ok(window) => window,
        Err(error) => {
            return Err(error);
        },
    };
    let mut grouping: Vec<SpendGrouping> = sofar.grouping;
    if grouping.len() == 0 {
        grouping.push(SpendGrouping::Day);
        assert(grouping@ =~= seq![SpendGrouping::Day]);
    }
    Ok(
        SpendOptions {
            window,
            grouping,
            refresh: sofar.refresh,
            value: sofar.value,
            credits: sofar.credits,
        },
    )
}

/// What a refresh of transcripts came to.
#[derive(Debug, Clone, PartialEq, Eq)]
pub enum RefreshOutcome {
    /// None was made.
    NotRun,
    /// It read what it could, and left some files.
    Ran { unreadable: usize },
    /// It failed.
    Failed { error: String },
}

/// Whether a refresh reads only changed files; none is made where the policy forbids it.
pub fn refresh_plan(policy: RefreshPolicy) -> (changed_only: Option<bool>)
    ensures
        changed_only == match policy {
            RefreshPolicy::Never => None::<bool>,
            RefreshPolicy::Auto => Some(true),
            RefreshPolicy::Force => Some(false),
        },
{
    match policy {
        RefreshPolicy::Never => None,
        RefreshPolicy::Auto => Some(true),
        RefreshPolicy::Force => Some(false),
    }
}

/// What a refresh failed with; the counts reported are then those from before it.
pub open spec fn refresh_failed(outcome: RefreshOutcome) -> Option<Seq<char>> {
    match outcome {
        RefreshOutcome::NotRun => None,
        RefreshOutcome::Ran { unreadable } => if unreadable == 0 {
            None
        } else {
            Some(
                "refresh could not read "@ + decimal(unreadable as nat)
                    + " file(s); retained the prior canonical subtotal"@,
            )
        },
        RefreshOutcome::Failed { error } => Some(
            "refresh failed: "@ + error@ + "; retained the prior canonical subtotal"@,
        ),
    }
}

/// What a refresh failed with.
pub fn refresh_failure(outcome: &RefreshOutcome) -> (failure: Option<String>)
    ensures
        optional(failure) == refresh_failed(*outcome),
{
    match outcome {
        RefreshOutcome::NotRun => None,
        RefreshOutcome::Ran { unreadable } => {
            if *unreadable == 0 {
                return None;
            }
            let mut message: String = "refresh could not read ".to_owned();
            message.append(decimal_text(*unreadable as u128).as_str());
            message.append(" file(s); retained the prior canonical subtotal");
            Some(message)
        },
        RefreshOutcome::Failed { error } => {
            let mut message: String = "refresh failed: ".to_owned();
            message.append(error.as_str());
            message.append("; retained the prior canonical subtotal");
            Some(message)
        },
    }
}

/// How the spend report ends once it is printed: a failed refresh and unreadable files
/// make it incomplete. Files are counted that the report names as unreadable.
pub fn spend_outcome(outcome: &RefreshOutcome, unreadable: usize) -> (ending: Result<(), Error>)
    ensures
        match ending {
            Ok(()) => refresh_failed(*outcome) is None && unreadable == 0,
            Err(error) => error@ == ErrorView::IngestIncomplete(
                match refresh_failed(*outcome) {
                    Some(failure) => failure,
                    None => decimal(unreadable as nat)
                        + " file(s) could not be read; the counts above exclude them"@,
                },
            ) && (refresh_failed(*outcome) is Some || unreadable > 0),
        },
{
    match refresh_failure(outcome) {
        Some(failure) => Err(Error::IngestIncomplete(failure)),
        None => {
            if unreadable == 0 {
                return Ok(());
            }
            let mut message: String = decimal_text(unreadable as u128);
            message.append(" file(s) could not be read; the counts above exclude them");
            Err(Error::IngestIncomplete(message))
        },
    }
}

/// What the credits in the spend report come from.
#[derive(Debug, Clone, Copy, PartialEq, Eq, Structural)]
pub enum CreditReporting {
    Active,
    NoActiveModel,
    NotRequested,
}

/// What the credits in the spend report come from. A model is looked up only where
/// credits are asked for.
pub fn credit_reporting(asked: bool, model_active: bool) -> (reporting: CreditReporting)
    ensures
        reporting == if asked && model_active {
            CreditReporting::Active
        } else if asked {
            CreditReporting::NoActiveModel
        } else {
            CreditReporting::NotRequested
        },
{
    if asked && model_active {
        CreditReporting::Active
    } else if asked {
        CreditReporting::NoActiveModel
    } else {
        CreditReporting::NotRequested
    }
}

/// Without arguments spend is reported for today, grouped by day.
pub proof fn law_spend_defaults_to_today(today: int, options: SpendOptions)
    requires
        spend_asked(Seq::empty(), today, options),
    ensures
        options.window.since@ == today,
        options.window.until@ == today + 1,
        options.grouping@ == seq![SpendGrouping::Day],
        options.refresh == RefreshPolicy::Auto,
        options.value is None,
        !options.credits,
{
}

/// A window is never empty.
pub proof fn law_windows_hold_a_day(since: int, days: int)
    ensures
        window_asked(since, days) matches Ok((first, last)) ==> first < last && last - first
            == days,
{
}

/// The names of the groupings are different words.
proof fn lemma_grouping_names_differ()
    ensures
        "day"@.len() == 3,
        "session"@.len() == 7 && "session"@[0] == 's',
        "project"@.len() == 7 && "project"@[0] == 'p',
        "repository"@.len() == 10,
        "repo"@.len() == 4 && "repo"@[0] == 'r',
        "account"@.len() == 7 && "account"@[0] == 'a',
        "task"@.len() == 4 && "task"@[0] == 't',
{
    reveal_strlit("day");
    reveal_strlit("session");
    reveal_strlit("project");
    reveal_strlit("repository");
    reveal_strlit("repo");
    reveal_strlit("account");
    reveal_strlit("task");
}

/// Every grouping is asked for by its own name, and a repository also in short; no other
/// word asks for it, so no word asks for two.
pub proof fn law_groupings_have_their_own_names(by: SpendGrouping, word: Seq<char>)
    ensures
        grouping_asked(word) == Ok::<SpendGrouping, ErrorView>(by) <==> (word == match by {
            SpendGrouping::Day => "day"@,
            SpendGrouping::Session => "session"@,
            SpendGrouping::Project => "project"@,
            SpendGrouping::Repository => "repository"@,
            SpendGrouping::Account => "account"@,
            SpendGrouping::Task => "task"@,
        } || (word == "repo"@ && by == SpendGrouping::Repository)),
{
    lemma_grouping_names_differ();
}

/// The options that name what spend is grouped by, refreshed and valued with are no
/// options of the window, and differ from one another.
proof fn lemma_spend_options_differ(value: Seq<char>)
    ensures
        forall|args: Seq<Seq<char>>, i: int, today: int, since: Option<int>, days: int|
            (#[trigger] args[i] == "--group-by"@ || args[i] == "--refresh"@ || args[i] == "--value"@
                || args[i] == "--credits"@ || args[i] == "--group-by="@ + value || args[i]
                == "--refresh="@ + value || args[i] == "--value="@ + value) ==> #[trigger] window_step(
                args,
                i,
                today,
                since,
                days,
            ) is Other,
        "--group-by"@.len() == 10,
        "--refresh"@.len() == 9 && "--refresh"@[2] == 'r',
        "--value"@.len() == 7,
        "--credits"@.len() == 9 && "--credits"@[2] == 'c',
        "--group-by="@.len() == 11 && "--group-by="@[2] == 'g',
        "--refresh="@.len() == 10 && "--refresh="@[2] == 'r' && "--refresh="@[9] == '=',
        "--value="@.len() == 8 && "--value="@[2] == 'v',
        "--group-by"@[2] == 'g',
        "--value"@[2] == 'v',
{
    reveal_strlit("--today");
    reveal_strlit("--since");
    reveal_strlit("--days");
    reveal_strlit("--since=");
    reveal_strlit("--days=");
    reveal_strlit("--group-by");
    reveal_strlit("--refresh");
    reveal_strlit("--value");
    reveal_strlit("--credits");
    reveal_strlit("--group-by=");
    reveal_strlit("--refresh=");
    reveal_strlit("--value=");
    assert forall|args: Seq<Seq<char>>, i: int, today: int, since: Option<int>, days: int|
        (#[trigger] args[i] == "--group-by"@ || args[i] == "--refresh"@ || args[i] == "--value"@
            || args[i] == "--credits"@ || args[i] == "--group-by="@ + value || args[i]
            == "--refresh="@ + value || args[i] == "--value="@ + value) implies #[trigger] window_step(
        args,
        i,
        today,
        since,
        days,
    ) is Other by {
        let arg = args[i];
        assert(arg[2] == 'g' || arg[2] == 'r' || arg[2] == 'v' || arg[2] == 'c');
        if begins_with(arg, "--since="@) {
            assert(arg.take(8)[2] == arg[2]);
        }
        if begins_with(arg, "--days="@) {
            assert(arg.take(7)[2] == arg[2]);
        }
    }
}

/// Behind a prefix stands what was put there.
proof fn lemma_behind_what_was_put(prefix: Seq<char>, value: Seq<char>)
    ensures
        behind(prefix + value, prefix) == Some(value),
{
    assert((prefix + value).take(prefix.len() as int) =~= prefix);
    assert((prefix + value).skip(prefix.len() as int) =~= value);
}

/// At every position, `--group-by` and the name of a grouping, as one word or as two, add
/// that grouping behind those asked for before, and change nothing else.
pub proof fn law_group_by_adds_what_it_names(
    args: Seq<Seq<char>>,
    i: int,
    today: int,
    sofar: SpendView,
    by: SpendGrouping,
    word: Seq<char>,
)
    requires
        0 <= i < args.len(),
        word == match by {
            SpendGrouping::Day => "day"@,
            SpendGrouping::Session => "session"@,
            SpendGrouping::Project => "project"@,
            SpendGrouping::Repository => "repository"@,
            SpendGrouping::Account => "account"@,
            SpendGrouping::Task => "task"@,
        },
        args[i] == "--group-by="@ + word || (args[i] == "--group-by"@ && i + 1 < args.len()
            && args[i + 1] == word),
    ensures
        spend_step(args, i, today, sofar) == Ok::<(SpendView, int), ErrorView>(
            (
                SpendView {
                    since: sofar.since,
                    days: sofar.days,
                    grouping: sofar.grouping.push(by),
                    refresh: sofar.refresh,
                    value: sofar.value,
                    credits: sofar.credits,
                },
                if args[i] == "--group-by"@ {
                    i + 2
                } else {
                    i + 1
                },
            ),
        ),
{
    law_groupings_have_their_own_names(by, word);
    lemma_spend_options_differ(word);
    lemma_behind_what_was_put("--group-by="@, word);
    lemma_grouping_names_differ();
    assert(window_step(args, i, today, sofar.since, sofar.days) is Other);
    if args[i] != "--group-by"@ {
        let arg = args[i];
        assert(arg.len() > 11);
        assert(arg[2] == 'g');
        assert(arg != "--refresh"@ && arg != "--value"@ && arg != "--credits"@);
    }
}

/// `--group-by` and a name, and nothing else, report today's spend grouped by what is
/// named and by nothing else.
pub proof fn law_spend_is_grouped_as_asked(
    args: Seq<Seq<char>>,
    today: int,
    options: SpendOptions,
    by: SpendGrouping,
    word: Seq<char>,
)
    requires
        word == match by {
            SpendGrouping::Day => "day"@,
            SpendGrouping::Session => "session"@,
            SpendGrouping::Project => "project"@,
            SpendGrouping::Repository => "repository"@,
            SpendGrouping::Account => "account"@,
            SpendGrouping::Task => "task"@,
        },
        args == seq!["--group-by"@, word] || args == seq!["--group-by="@ + word],
        spend_asked(args, today, options),
    ensures
        options.grouping@ == seq![by],
        options.window.since@ == today,
        options.window.until@ == today + 1,
        options.refresh == RefreshPolicy::Auto,
        options.value is None,
        !options.credits,
{
    law_group_by_adds_what_it_names(args, 0, today, no_spend(), by, word);
    reveal_with_fuel(spend_from, 3);
    assert(no_spend().grouping.push(by) =~= seq![by]);
    if args[0] == "--group-by"@ && args.len() == 1 {
        lemma_spend_options_differ(word);
        assert(("--group-by="@ + word).len() > 10);
    }
}

/// Groupings are kept in the order they are asked for.
pub proof fn law_groupings_keep_their_order(
    args: Seq<Seq<char>>,
    today: int,
    options: SpendOptions,
    first: SpendGrouping,
    second: SpendGrouping,
    words: Seq<Seq<char>>,
)
    requires
        words.len() == 2,
        grouping_asked(words[0]) == Ok::<SpendGrouping, ErrorView>(first),
        grouping_asked(words[1]) == Ok::<SpendGrouping, ErrorView>(second),
        args == seq!["--group-by"@, words[0], "--group-by"@, words[1]],
        spend_asked(args, today, options),
    ensures
        options.grouping@ == seq![first, second],
{
    lemma_spend_options_differ(words[0]);
    reveal_with_fuel(spend_from, 4);
    let one = SpendView { grouping: seq![first], ..no_spend() };
    assert(no_spend().grouping.push(first) =~= seq![first]);
    assert(args[0] == "--group-by"@ && args[1] == words[0]);
    assert(args[2] == "--group-by"@ && args[3] == words[1]);
    assert(window_step(args, 0, today, None, 1) is Other);
    assert(window_step(args, 2, today, None, 1) is Other);
    assert(spend_step(args, 0, today, no_spend()) == Ok::<(SpendView, int), ErrorView>((one, 2)));
    assert(seq![first].push(second) =~= seq![first, second]);
}

/// A refresh policy is asked for by its own name, and by no other word.
pub proof fn law_refresh_policies_have_their_own_names(policy: RefreshPolicy, word: Seq<char>)
    ensures
        refresh_asked(word) == Ok::<RefreshPolicy, ErrorView>(policy) <==> word == match policy {
            RefreshPolicy::Auto => "auto"@,
            RefreshPolicy::Never => "never"@,
            RefreshPolicy::Force => "force"@,
        },
        valuation_asked(word) is Ok <==> word == "api-list"@,
{
    reveal_strlit("auto");
    reveal_strlit("never");
    reveal_strlit("force");
    assert("never"@[0] == 'n' && "force"@[0] == 'f' && "auto"@.len() == 4);
}

/// At every position, `--refresh` and the name of a policy set that policy, `--refresh`
/// alone or before any other word asks for a refresh whatever that word is and leaves it
/// to be read, `--value` and its mode set that, `--credits` asks for credits; and none of
/// them changes anything else.
pub proof fn law_spend_options_set_what_they_name(
    args: Seq<Seq<char>>,
    i: int,
    today: int,
    sofar: SpendView,
    policy: RefreshPolicy,
    word: Seq<char>,
)
    requires
        0 <= i < args.len(),
        word == match policy {
            RefreshPolicy::Auto => "auto"@,
            RefreshPolicy::Never => "never"@,
            RefreshPolicy::Force => "force"@,
        },
    ensures
        args[i] == "--refresh="@ + word ==> spend_step(args, i, today, sofar) == Ok::<
            (SpendView, int),
            ErrorView,
        >((SpendView { refresh: policy, ..sofar }, i + 1)),
        args[i] == "--refresh"@ && i + 1 < args.len() && args[i + 1] == word ==> spend_step(
            args,
            i,
            today,
            sofar,
        ) == Ok::<(SpendView, int), ErrorView>((SpendView { refresh: policy, ..sofar }, i + 2)),
        args[i] == "--refresh"@ && (i + 1 < args.len() ==> args[i + 1] != "auto"@ && args[i + 1]
            != "never"@ && args[i + 1] != "force"@) ==> spend_step(args, i, today, sofar) == Ok::<
            (SpendView, int),
            ErrorView,
        >((SpendView { refresh: RefreshPolicy::Force, ..sofar }, i + 1)),
        args[i] == "--value"@ && i + 1 < args.len() && args[i + 1] == "api-list"@ ==> spend_step(
            args,
            i,
            today,
            sofar,
        ) == Ok::<(SpendView, int), ErrorView>(
            (SpendView { value: Some(SpendValuationMode::ApiList), ..sofar }, i + 2),
        ),
        args[i] == "--credits"@ ==> spend_step(args, i, today, sofar) == Ok::<
            (SpendView, int),
            ErrorView,
        >((SpendView { credits: true, ..sofar }, i + 1)),
{
    law_refresh_policies_have_their_own_names(policy, word);
    lemma_spend_options_differ(word);
    lemma_behind_what_was_put("--refresh="@, word);
    let known = window_step(args, i, today, sofar.since, sofar.days);
    if args[i] == "--refresh="@ + word {
        let arg = args[i];
        assert(arg[2] == 'r');
        assert(arg[9] == '=');
        assert(arg.len() >= 10);
        assert(arg != "--refresh"@ && arg != "--group-by"@ && arg != "--value"@ && arg
            != "--credits"@);
        if begins_with(arg, "--group-by="@) {
            assert(arg.take(11)[2] == arg[2]);
        }
    }
}

/// There is a window exactly where it has a day and ends before the year 10000 does.
pub proof fn law_when_there_is_a_window(since: int, days: int)
    ensures
        window_asked(since, days) is Ok <==> days >= 1 && since + days < 3_652_425,
        window_asked(since, days) matches Ok((first, end)) ==> first == since && end == since
            + days,
{
}

/// At every position, `--today` starts the window today, `--since` and a day start it
/// there, and `--days` and a number give it that many days; each as one word or as two,
/// and none changes what the others set.
pub proof fn law_window_options_set_what_they_name(
    args: Seq<Seq<char>>,
    i: int,
    today: int,
    since: Option<int>,
    days: int,
    word: Seq<char>,
)
    requires
        0 <= i < args.len(),
    ensures
        args[i] == "--today"@ ==> window_step(args, i, today, since, days) == (WindowStep::Read {
            since: Some(today),
            days,
            next: i + 1,
        }),
        day_written(word) matches Some(day) ==> {
            &&& args[i] == "--since="@ + word ==> window_step(args, i, today, since, days) == (
            WindowStep::Read { since: Some(day), days, next: i + 1 })
            &&& args[i] == "--since"@ && i + 1 < args.len() && args[i + 1] == word
                ==> window_step(args, i, today, since, days) == (WindowStep::Read {
                since: Some(day),
                days,
                next: i + 2,
            })
        },
        signed_value(word) matches Some(count) && i64::MIN <= count <= i64::MAX ==> {
            &&& args[i] == "--days="@ + word ==> window_step(args, i, today, since, days) == (
            WindowStep::Read { since, days: signed_value(word)->0, next: i + 1 })
            &&& args[i] == "--days"@ && i + 1 < args.len() && args[i + 1] == word
                ==> window_step(args, i, today, since, days) == (WindowStep::Read {
                since,
                days: signed_value(word)->0,
                next: i + 2,
            })
        },
{
    reveal_strlit("--today");
    reveal_strlit("--since");
    reveal_strlit("--days");
    reveal_strlit("--since=");
    reveal_strlit("--days=");
    lemma_behind_what_was_put("--since="@, word);
    lemma_behind_what_was_put("--days="@, word);
    assert("--today"@[2] == 't' && "--since"@[2] == 's' && "--days"@[2] == 'd');
    assert(("--since="@ + word)[2] == 's' && ("--since="@ + word).len() >= 8);
    assert(("--days="@ + word)[2] == 'd' && ("--days="@ + word).len() >= 7);
    if begins_with("--days="@ + word, "--since="@) {
        assert(("--days="@ + word).take(8)[2] == 's');
    }
}

proof fn lemma_spend_from_continues(
    before: Seq<Seq<char>>,
    more: Seq<Seq<char>>,
    i: int,
    today: int,
    sofar: SpendView,
)
    requires
        0 <= i <= before.len(),
        more.len() == 2,
        more[0] == "--group-by"@,
        spend_from(before, i, today, sofar) is Ok,
    ensures
        spend_from(before + more, i, today, sofar) == spend_from(
            before + more,
            before.len() as int,
            today,
            spend_from(before, i, today, sofar)->Ok_0,
        ),
    decreases before.len() - i,
{
    let all = before + more;
    let n = before.len() as int;
    if i < n {
        assert(all[i] == before[i]);
        if i + 1 < n {
            assert(all[i + 1] == before[i + 1]);
        } else {
            assert(all[n] == "--group-by"@);
            reveal_strlit("--group-by");
            reveal_strlit("auto");
            reveal_strlit("never");
            reveal_strlit("force");
            assert(refresh_asked(all[n]) is Err);
        }
        assert(window_step(all, i, today, sofar.since, sofar.days) == window_step(
            before,
            i,
            today,
            sofar.since,
            sofar.days,
        ));
        assert(spend_step(all, i, today, sofar) == spend_step(before, i, today, sofar));
        let (read, next) = spend_step(before, i, today, sofar)->Ok_0;
        assert(i < next <= n);
        lemma_spend_from_continues(before, more, next, today, read);
    }
}

/// Behind any arguments that can be read, `--group-by` and a name add what is named to
/// the groupings read before, and change nothing else of the report.
pub proof fn law_one_more_grouping(
    before: Seq<Seq<char>>,
    today: int,
    by: SpendGrouping,
    word: Seq<char>,
)
    requires
        word == match by {
            SpendGrouping::Day => "day"@,
            SpendGrouping::Session => "session"@,
            SpendGrouping::Project => "project"@,
            SpendGrouping::Repository => "repository"@,
            SpendGrouping::Account => "account"@,
            SpendGrouping::Task => "task"@,
        },
        spend_from(before, 0, today, no_spend()) is Ok,
    ensures
        ({
            let read = spend_from(before, 0, today, no_spend())->Ok_0;
            let with = spend_from(before + seq!["--group-by"@, word], 0, today, no_spend());
            &&& with is Ok
            &&& with->Ok_0.grouping == read.grouping.push(by)
            &&& with->Ok_0.since == read.since
            &&& with->Ok_0.days == read.days
            &&& with->Ok_0.refresh == read.refresh
            &&& with->Ok_0.value == read.value
            &&& with->Ok_0.credits == read.credits
        }),
{
    let more = seq!["--group-by"@, word];
    let n = before.len() as int;
    let read = spend_from(before, 0, today, no_spend())->Ok_0;
    lemma_spend_from_continues(before, more, 0, today, no_spend());
    assert((before + more)[n] == "--group-by"@ && (before + more)[n + 1] == word);
    law_group_by_adds_what_it_names(before + more, n, today, read, by, word);
    reveal_with_fuel(spend_from, 2);
}

/// The overhead report covers today where nothing is asked, and the days that are asked
/// for from the day that is; it is refused where that is no window.
pub proof fn law_overhead_covers_the_days_asked(
    before: Seq<Seq<char>>,
    today: int,
    word: Seq<char>,
    day: int,
    count: i64,
)
    requires
        day_written(word) == Some(day),
    ensures
        ({
            let asked = overhead_from(
                before + seq!["--since"@, word, "--days"@, signed_decimal(count as int)],
                before.len() as int,
                today,
                None,
                1,
            );
            &&& asked is Ok <==> count >= 1 && day + count < 3_652_425
            &&& asked matches Ok((first, end)) ==> first == day && end == day + count
        }),
        today + 1 < 3_652_425 ==> overhead_from(before, before.len() as int, today, None, 1) == Ok::<
            (int, int),
            ErrorView,
        >((today, today + 1)),
{
    let number = signed_decimal(count as int);
    let args = before + seq!["--since"@, word, "--days"@, number];
    let i = before.len() as int;
    assert(args[i] == "--since"@ && args[i + 1] == word && args[i + 2] == "--days"@ && args[i + 3]
        == number);
    law_signed_numbers_read_back(count as int);
    law_window_options_set_what_they_name(args, i, today, None, 1, word);
    law_window_options_set_what_they_name(args, i + 2, today, Some(day), 1, number);
    reveal_with_fuel(overhead_from, 4);
}

/// The spend report covers the days that are asked for from the day that is, and is
/// refused only where that is no window.
pub proof fn law_spend_covers_the_days_asked(
    today: int,
    word: Seq<char>,
    day: int,
    count: i64,
    options: SpendOptions,
    error: ErrorView,
)
    requires
        day_written(word) == Some(day),
    ensures
        ({
            let args = seq!["--since"@, word, "--days"@, signed_decimal(count as int)];
            &&& spend_asked(args, today, options) ==> {
                &&& count >= 1
                &&& day + count < 3_652_425
                &&& options.window.since@ == day
                &&& options.window.until@ == day + count
                &&& options.grouping@ == seq![SpendGrouping::Day]
                &&& options.refresh == RefreshPolicy::Auto
                &&& options.value is None
                &&& !options.credits
            }
            &&& spend_refused(args, today, error) ==> count < 1 || day + count >= 3_652_425
        }),
{
    let number = signed_decimal(count as int);
    let args = seq!["--since"@, word, "--days"@, number];
    law_signed_numbers_read_back(count as int);
    law_window_options_set_what_they_name(args, 0, today, None, 1, word);
    law_window_options_set_what_they_name(args, 2, today, Some(day), 1, number);
    lemma_spend_options_differ(word);
    reveal_strlit("--since");
    reveal_strlit("--days");
    reveal_with_fuel(spend_from, 4);
}

/// Nothing is both asked for and refused, and a refusal has one reason.
pub proof fn law_spend_is_asked_or_refused(
    args: Seq<Seq<char>>,
    today: int,
    options: SpendOptions,
    error: ErrorView,
    other: ErrorView,
)
    ensures
        !(spend_asked(args, today, options) && spend_refused(args, today, error)),
        spend_refused(args, today, error) && spend_refused(args, today, other) ==> error == other,
{
}

/// A refresh fails exactly where it came to an error or left a file unread, and says how
/// many it left or which error it was.
pub proof fn law_refreshes_fail_where_something_was_unread(
    unreadable: usize,
    other: usize,
    error: String,
    another: String,
)
    ensures
        refresh_failed(RefreshOutcome::NotRun) is None,
        refresh_failed(RefreshOutcome::Ran { unreadable }) is Some <==> unreadable > 0,
        refresh_failed(RefreshOutcome::Failed { error }) is Some,
        unreadable != other && unreadable > 0 ==> refresh_failed(RefreshOutcome::Ran { unreadable })
            != refresh_failed(RefreshOutcome::Ran { unreadable: other }),
        error@ != another@ ==> refresh_failed(RefreshOutcome::Failed { error }) != refresh_failed(
            RefreshOutcome::Failed { error: another },
        ),
{
    let (a, b) = ("refresh could not read "@, " file(s); retained the prior canonical subtotal"@);
    if unreadable != other && unreadable > 0 && other > 0 {
        lemma_decimal_digits(unreadable as nat);
        lemma_decimal_digits(other as nat);
        lemma_between_the_same_stands_the_same(
            a,
            decimal(unreadable as nat),
            decimal(other as nat),
            b,
        );
    }
    lemma_between_the_same_stands_the_same(
        "refresh failed: "@,
        error@,
        another@,
        "; retained the prior canonical subtotal"@,
    );
}

proof fn lemma_between_the_same_stands_the_same(
    before: Seq<char>,
    one: Seq<char>,
    other: Seq<char>,
    after: Seq<char>,
)
    ensures
        before + one + after == before + other + after ==> one == other,
{
    let (a, b) = (before + one + after, before + other + after);
    if a == b {
        let n = before.len() as int;
        assert(one.len() == other.len()) by {
            assert(a.len() == b.len());
        }
        assert(one =~= a.subrange(n, n + one.len()));
        assert(other =~= b.subrange(n, n + one.len()));
    }
}

} // verus!
