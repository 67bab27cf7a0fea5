//! Reading the command line: the command, the shared flags its policy accepts, and what
//! is left for the command itself. Nothing runs here.

use crate::cli::command::{Command, FlagPolicy, FlagSupport, SharedFlag};
use crate::error::{Error, ErrorView};
use crate::sets::texts;
use crate::text::{
    behind, law_behind_a_prefix_stands_the_rest, optional, same_text, strip_prefix,
};
use vstd::prelude::*;
use vstd::string::*;

verus! {

/// The output format a command was asked for.
#[derive(Debug, Clone, Copy, PartialEq, Eq, Structural)]
pub enum OutputFormat {
    Text,
    Json,
}

/// How much of its derivation a report explains.
#[derive(Debug, Clone, Copy, PartialEq, Eq, Structural)]
pub enum ExplainMode {
    Off,
    Summary,
    Full,
}

/// What the command line asked for: the command, the shared flags it accepts, and its
/// own arguments, still to be read.
#[derive(Debug, Clone, PartialEq, Eq)]
pub struct Invocation {
    pub command: Command,
    pub format: OutputFormat,
    pub verbosity: u8,
    pub explain: ExplainMode,
    /// The account asked for, where the command accepts `--account`.
    pub account: Option<String>,
    /// The model asked for, where the command accepts `--model`.
    pub model: Option<String>,
    /// Whether `--no-color` was asked for. No command accepts it.
    pub no_color: bool,
    pub rest: Vec<String>,
}

/// What a command line resolves to.
#[derive(Debug, Clone, PartialEq, Eq)]
pub enum Request {
    /// No command: print the version line.
    Version,
    /// Print the help text.
    Help,
    /// A command to run.
    Run(Invocation),
}

/// What an invocation holds.
pub struct InvocationView {
    pub command: Command,
    pub format: OutputFormat,
    pub verbosity: nat,
    pub explain: ExplainMode,
    pub account: Option<Seq<char>>,
    pub model: Option<Seq<char>>,
    pub no_color: bool,
    pub rest: Seq<Seq<char>>,
}

impl View for Invocation {
    type V = InvocationView;

    open spec fn view(&self) -> InvocationView {
        InvocationView {
            command: self.command,
            format: self.format,
            verbosity: self.verbosity as nat,
            explain: self.explain,
            account: optional(self.account),
            model: optional(self.model),
            no_color: self.no_color,
            rest: texts(self.rest@),
        }
    }
}

/// What a request holds.
pub enum RequestView {
    Version,
    Help,
    Run(InvocationView),
}

impl View for Request {
    type V = RequestView;

    open spec fn view(&self) -> RequestView {
        match *self {
            Request::Version => RequestView::Version,
            Request::Help => RequestView::Help,
            Request::Run(invocation) => RequestView::Run(invocation@),
        }
    }
}

/// The arguments as they were given; one that is not valid text has none.
pub open spec fn given(args: Seq<Option<String>>) -> Seq<Option<Seq<char>>> {
    args.map_values(|arg: Option<String>| optional(arg))
}

/// The value of a flag at some argument: behind an equals sign, or the next argument.
pub enum FlagValue {
    /// The argument is another one.
    Absent,
    /// The flag stands there without a value.
    Missing,
    /// The value, and where reading goes on.
    Given { value: Seq<char>, next: int },
}

/// The value of a flag at some argument.
pub open spec fn flag_value(args: Seq<Option<Seq<char>>>, i: int, flag: Seq<char>) -> FlagValue {
    let arg = args[i]->0;
    match behind(arg, flag + "="@) {
        Some(value) => FlagValue::Given { value, next: i + 1 },
        None => if arg != flag {
            FlagValue::Absent
        } else if i + 1 < args.len() && args[i + 1] is Some {
            FlagValue::Given { value: args[i + 1]->0, next: i + 2 }
        } else {
            FlagValue::Missing
        },
    }
}

/// The refusal of a shared flag.
pub open spec fn flag_refused(command: Command, flag: Seq<char>, reason: Seq<char>) -> ErrorView {
    ErrorView::Usage(
        command.token() + " does not accept "@ + flag + ": "@ + reason + "; omit the flag"@,
    )
}

/// The refusal of a flag without its value.
pub open spec fn value_missing(flag: Seq<char>) -> ErrorView {
    ErrorView::Usage(flag + " requires an argument"@)
}

/// What `--format` asks for.
pub open spec fn format_asked(command: Command, value: Seq<char>) -> Result<
    OutputFormat,
    ErrorView,
> {
    match command.refusal(SharedFlag::Format) {
        Some(reason) => Err(flag_refused(command, "--format"@, reason)),
        None => if value == "json"@ {
            Ok(OutputFormat::Json)
        } else if value == "text"@ {
            Ok(OutputFormat::Text)
        } else {
            Err(
                ErrorView::Usage(
                    "--format must be text or json, got "@ + value
                        + "; use --format text or --format json"@,
                ),
            )
        },
    }
}

/// What `--explain` asks for, with or without a value. A refusal comes before any look
/// at the value.
pub open spec fn explain_asked(command: Command, value: Option<Seq<char>>) -> Result<
    ExplainMode,
    ErrorView,
> {
    match command.refusal(SharedFlag::Explain) {
        Some(reason) => Err(flag_refused(command, "--explain"@, reason)),
        None => match value {
            None => Ok(ExplainMode::Summary),
            Some(v) => if v.len() == 0 || v == "summary"@ {
                Ok(ExplainMode::Summary)
            } else if v == "full"@ {
                Ok(ExplainMode::Full)
            } else {
                Err(
                    ErrorView::Usage(
                        "--explain="@ + v
                            + " is not one of summary or full; use --explain or --explain=full"@,
                    ),
                )
            },
        },
    }
}

/// What a flag that takes any value asks for.
pub open spec fn name_asked(
    command: Command,
    flag: SharedFlag,
    spelling: Seq<char>,
    value: Seq<char>,
) -> Result<Seq<char>, ErrorView> {
    match command.refusal(flag) {
        Some(reason) => Err(flag_refused(command, spelling, reason)),
        None => Ok(value),
    }
}

/// What an argument means that is none of `--format`, `--account` and `--model`.
pub open spec fn plain_argument(arg: Seq<char>, sofar: InvocationView) -> Result<
    InvocationView,
    ErrorView,
> {
    if arg == "-v"@ {
        Ok(InvocationView { verbosity: sofar.verbosity + 1, ..sofar })
    } else if arg == "--explain"@ {
        match explain_asked(sofar.command, None) {
            Ok(explain) => Ok(InvocationView { explain, ..sofar }),
            Err(error) => Err(error),
        }
    } else if behind(arg, "--explain="@) is Some {
        match explain_asked(sofar.command, behind(arg, "--explain="@)) {
            Ok(explain) => Ok(InvocationView { explain, ..sofar }),
            Err(error) => Err(error),
        }
    } else if arg == "--no-color"@ {
        match sofar.command.refusal(SharedFlag::NoColor) {
            Some(reason) => Err(flag_refused(sofar.command, "--no-color"@, reason)),
            None => Ok(InvocationView { no_color: true, ..sofar }),
        }
    } else {
        Ok(InvocationView { rest: sofar.rest.push(arg), ..sofar })
    }
}

/// One step of reading: what an argument makes of what was read before, and where
/// reading goes on.
pub open spec fn step(args: Seq<Option<Seq<char>>>, i: int, sofar: InvocationView) -> Result<
    (InvocationView, int),
    ErrorView,
> {
    match (
        flag_value(args, i, "--format"@),
        flag_value(args, i, "--account"@),
        flag_value(args, i, "--model"@),
    ) {
        (FlagValue::Missing, _, _) => Err(value_missing("--format"@)),
        (FlagValue::Given { value, next }, _, _) => match format_asked(sofar.command, value) {
            Ok(format) => Ok((InvocationView { format, ..sofar }, next)),
            Err(error) => Err(error),
        },
        (_, FlagValue::Missing, _) => Err(value_missing("--account"@)),
        (_, FlagValue::Given { value, next }, _) => match name_asked(
            sofar.command,
            SharedFlag::Account,
            "--account"@,
            value,
        ) {
            Ok(name) => Ok((InvocationView { account: Some(name), ..sofar }, next)),
            Err(error) => Err(error),
        },
        (_, _, FlagValue::Missing) => Err(value_missing("--model"@)),
        (_, _, FlagValue::Given { value, next }) => match name_asked(
            sofar.command,
            SharedFlag::Model,
            "--model"@,
            value,
        ) {
            Ok(name) => Ok((InvocationView { model: Some(name), ..sofar }, next)),
            Err(error) => Err(error),
        },
        _ => match plain_argument(args[i]->0, sofar) {
            Ok(read) => Ok((read, i + 1)),
            Err(error) => Err(error),
        },
    }
}

/// What the arguments from a position on make of what was read before.
pub open spec fn read_from(args: Seq<Option<Seq<char>>>, i: int, sofar: InvocationView) -> Result<
    InvocationView,
    ErrorView,
>
    decreases args.len() - i,
{
    if i >= args.len() {
        Ok(sofar)
    } else if args[i] is None {
        Err(
            ErrorView::Usage("argument is not valid UTF-8; pass only UTF-8 arguments"@),
        )
    } else {
        match step(args, i, sofar) {
            Ok((read, next)) => if next > i {
                read_from(args, next, read)
            } else {
                Ok(read)
            },
            Err(error) => Err(error),
        }
    }
}

/// Where the first argument stands, from a position on, that is not `-v`.
pub open spec fn after_verbosity(args: Seq<Option<Seq<char>>>, i: int) -> int
    decreases args.len() - i,
{
    if i < args.len() && args[i] == Some("-v"@) {
        after_verbosity(args, i + 1)
    } else {
        i
    }
}

/// A command on which nothing was read yet.
pub open spec fn bare(command: Command, verbosity: nat) -> InvocationView {
    InvocationView {
        command,
        format: OutputFormat::Text,
        verbosity,
        explain: ExplainMode::Off,
        account: None,
        model: None,
        no_color: false,
        rest: Seq::empty(),
    }
}

/// The request to run what was read.
pub open spec fn to_run(read: Result<InvocationView, ErrorView>) -> Result<
    RequestView,
    ErrorView,
> {
    match read {
        Ok(invocation) => Ok(RequestView::Run(invocation)),
        Err(error) => Err(error),
    }
}

/// What a command line asks for. Its first argument is the program itself.
pub open spec fn request(args: Seq<Option<Seq<char>>>) -> Result<RequestView, ErrorView> {
    let at = after_verbosity(args, 1);
    if at >= args.len() {
        Ok(RequestView::Version)
    } else if args[at] is None {
        Err(ErrorView::Usage("argument is not valid UTF-8"@))
    } else {
        let name = args[at]->0;
        if name == "--help"@ || name == "-h"@ {
            Ok(RequestView::Help)
        } else if name == "--version"@ || name == "-V"@ {
            Ok(RequestView::Version)
        } else {
            match Command::named(name) {
                None => Err(
                    ErrorView::Usage(
                        "unknown argument: "@ + name + "; run aub --help to list commands"@,
                    ),
                ),
                Some(command) => to_run(read_from(args, at + 1, bare(command, (at - 1) as nat))),
            }
        }
    }
}

/// The value of a flag at some argument.
enum FlagReading {
    Absent,
    Missing,
    Given(String, usize),
}

fn flag_at(args: &Vec<Option<String>>, i: usize, flag: &str) -> (reading: FlagReading)
    requires
        i < args@.len(),
        args@[i as int] is Some,
    ensures
        match reading {
            FlagReading::Absent => flag_value(given(args@), i as int, flag@) is Absent,
            FlagReading::Missing => flag_value(given(args@), i as int, flag@) is Missing,
            FlagReading::Given(value, next) => flag_value(given(args@), i as int, flag@)
                == (FlagValue::Given { value: value@, next: next as int }),
        },
{
    let total: usize = args.len();
    match &args[i] {
        Some(arg) => {
            assert(given(args@)[i as int] == Some(arg@));
            let mut prefix: String = flag.to_owned();
            prefix.append("=");
            match strip_prefix(arg.as_str(), prefix.as_str()) {
                Some(value) => FlagReading::Given(value, i + 1),
                None => if !same_text(arg.as_str(), flag) {
                    FlagReading::Absent
                } else if i < total - 1 {
                    assert(given(args@)[i + 1] == optional(args@[i + 1]));
                    match &args[i + 1] {
                        Some(value) => FlagReading::Given(value.clone(), i + 2),
                        None => FlagReading::Missing,
                    }
                } else {
                    FlagReading::Missing
                },
            }
        },
        None => FlagReading::Absent,
    }
}

fn refuse(command: Command, flag: &str, reason: &str) -> (error: Error)
    ensures
        error@ == flag_refused(command, flag@, reason@),
{
    let mut message: String = command.name().to_owned();
    message.append(" does not accept ");
    message.append(flag);
    message.append(": ");
    message.append(reason);
    message.append("; omit the flag");
    Error::Usage(message)
}

fn refuse_without_value(flag: &str) -> (error: Error)
    ensures
        error@ == value_missing(flag@),
{
    let mut message: String = flag.to_owned();
    message.append(" requires an argument");
    Error::Usage(message)
}

fn parse_format(command: Command, value: &str) -> (format: Result<OutputFormat, Error>)
    ensures
        match format {
            Ok(f) => format_asked(command, value@) == Ok::<OutputFormat, ErrorView>(f),
            Err(e) => format_asked(command, value@) == Err::<OutputFormat, ErrorView>(e@),
        },
{
    let policy: FlagPolicy = command.flag_policy();
    assert(policy.says(SharedFlag::Format) == command.refusal(SharedFlag::Format));
    match policy.format {
        FlagSupport::Rejected { reason } => Err(refuse(command, "--format", reason)),
        FlagSupport::Accepted => if same_text(value, "json") {
            Ok(OutputFormat::Json)
        } else if same_text(value, "text") {
            Ok(OutputFormat::Text)
        } else {
            let mut message: String = "--format must be text or json, got ".to_owned();
            message.append(value);
            message.append("; use --format text or --format json");
            Err(Error::Usage(message))
        },
    }
}

fn parse_explain(command: Command, value: Option<String>) -> (mode: Result<ExplainMode, Error>)
    ensures
        match mode {
            Ok(m) => explain_asked(command, optional(value)) == Ok::<ExplainMode, ErrorView>(m),
            Err(e) => explain_asked(command, optional(value)) == Err::<ExplainMode, ErrorView>(e@),
        },
{
    let policy: FlagPolicy = command.flag_policy();
    assert(policy.says(SharedFlag::Explain) == command.refusal(SharedFlag::Explain));
    match policy.explain {
        FlagSupport::Rejected { reason } => Err(refuse(command, "--explain", reason)),
        FlagSupport::Accepted => match value {
            None => Ok(ExplainMode::Summary),
            Some(v) => if v.as_str().unicode_len() == 0 || same_text(v.as_str(), "summary") {
                Ok(ExplainMode::Summary)
            } else if same_text(v.as_str(), "full") {
                Ok(ExplainMode::Full)
            } else {
                let mut message: String = "--explain=".to_owned();
                message.append(v.as_str());
                message.append(
                    " is not one of summary or full; use --explain or --explain=full",
                );
                Err(Error::Usage(message))
            },
        },
    }
}

fn parse_account(command: Command, value: String) -> (account: Result<String, Error>)
    ensures
        match account {
            Ok(name) => name_asked(command, SharedFlag::Account, "--account"@, value@) == Ok::<
                Seq<char>,
                ErrorView,
            >(name@),
            Err(e) => name_asked(command, SharedFlag::Account, "--account"@, value@) == Err::<
                Seq<char>,
                ErrorView,
            >(e@),
        },
{
    let policy: FlagPolicy = command.flag_policy();
    assert(policy.says(SharedFlag::Account) == command.refusal(SharedFlag::Account));
    match policy.account {
        FlagSupport::Rejected { reason } => Err(refuse(command, "--account", reason)),
        FlagSupport::Accepted => Ok(value),
    }
}

fn parse_model(command: Command, value: String) -> (model: Result<String, Error>)
    ensures
        match model {
            Ok(name) => name_asked(command, SharedFlag::Model, "--model"@, value@) == Ok::<
                Seq<char>,
                ErrorView,
            >(name@),
            Err(e) => name_asked(command, SharedFlag::Model, "--model"@, value@) == Err::<
                Seq<char>,
                ErrorView,
            >(e@),
        },
{
    let policy: FlagPolicy = command.flag_policy();
    assert(policy.says(SharedFlag::Model) == command.refusal(SharedFlag::Model));
    match policy.model {
        FlagSupport::Rejected { reason } => Err(refuse(command, "--model", reason)),
        FlagSupport::Accepted => Ok(value),
    }
}

fn parse_no_color(command: Command) -> (no_color: Result<bool, Error>)
    ensures
        match no_color {
            Ok(asked) => asked && command.refusal(SharedFlag::NoColor) is None,
            Err(e) => command.refusal(SharedFlag::NoColor) matches Some(reason) && e@
                == flag_refused(command, "--no-color"@, reason),
        },
{
    let policy: FlagPolicy = command.flag_policy();
    assert(policy.says(SharedFlag::NoColor) == command.refusal(SharedFlag::NoColor));
    match policy.no_color {
        FlagSupport::Rejected { reason } => Err(refuse(command, "--no-color", reason)),
        FlagSupport::Accepted => Ok(true),
    }
}

/// An invocation that is still being read.
struct Partial {
    command: Command,
    format: OutputFormat,
    verbosity: usize,
    explain: ExplainMode,
    account: Option<String>,
    model: Option<String>,
    no_color: bool,
    rest: Vec<String>,
}

impl View for Partial {
    type V = InvocationView;

    closed spec fn view(&self) -> InvocationView {
        InvocationView {
            command: self.command,
            format: self.format,
            verbosity: self.verbosity as nat,
            explain: self.explain,
            account: optional(self.account),
            model: optional(self.model),
            no_color: self.no_color,
            rest: texts(self.rest@),
        }
    }
}

/// Reads an argument that is none of `--format`, `--account` and `--model`.
fn read_plain(sofar: &mut Partial, arg: &String) -> (read: Result<(), Error>)
    requires
        old(sofar).verbosity < usize::MAX,
    ensures
        match read {
            Ok(()) => plain_argument(arg@, old(sofar)@) == Ok::<InvocationView, ErrorView>(
                final(sofar)@,
            ) && final(sofar).verbosity <= old(sofar).verbosity + 1,
            Err(error) => plain_argument(arg@, old(sofar)@) == Err::<InvocationView, ErrorView>(
                error@,
            ),
        },
{
    if same_text(arg.as_str(), "-v") {
        sofar.verbosity = sofar.verbosity + 1;
        return Ok(());
    }
    if same_text(arg.as_str(), "--explain") {
        match parse_explain(sofar.command, None) {
            Ok(explain) => {
                sofar.explain = explain;
                return Ok(());
            },
            Err(error) => {
                return Err(error);
            },
        }
    }
    match strip_prefix(arg.as_str(), "--explain=") {
        Some(value) => {
            match parse_explain(sofar.command, Some(value)) {
                Ok(explain) => {
                    sofar.explain = explain;
                    return Ok(());
                },
                Err(error) => {
                    return Err(error);
                },
            }
        },
        None => {},
    }
    if same_text(arg.as_str(), "--no-color") {
        match parse_no_color(sofar.command) {
            Ok(asked) => {
                sofar.no_color = asked;
                return Ok(());
            },
            Err(error) => {
                return Err(error);
            },
        }
    }
    let ghost before = sofar.rest@;
    sofar.rest.push(arg.clone());
    assert(texts(sofar.rest@) =~= texts(before).push(arg@));
    Ok(())
}

/// Reads one argument and says where reading goes on.
fn read_step(args: &Vec<Option<String>>, i: usize, sofar: &mut Partial) -> (next: Result<
    usize,
    Error,
>)
    requires
        i < args@.len(),
        args@[i as int] is Some,
        old(sofar).verbosity <= i,
    ensures
        match next {
            Ok(n) => {
                &&& step(given(args@), i as int, old(sofar)@) == Ok::<
                    (InvocationView, int),
                    ErrorView,
                >((final(sofar)@, n as int))
                &&& i < n
                &&& final(sofar).verbosity <= n
            },
            Err(error) => step(given(args@), i as int, old(sofar)@) == Err::<
                (InvocationView, int),
                ErrorView,
            >(error@),
        },
{
    let total: usize = args.len();
    assert(i < total);
    match flag_at(args, i, "--format") {
        FlagReading::Missing => {
            return Err(refuse_without_value("--format"));
        },
        FlagReading::Given(value, next) => {
            match parse_format(sofar.command, value.as_str()) {
                Ok(format) => {
                    sofar.format = format;
                    return Ok(next);
                },
                Err(error) => {
                    return Err(error);
                },
            }
        },
        FlagReading::Absent => {},
    }
    match flag_at(args, i, "--account") {
        FlagReading::Missing => {
            return Err(refuse_without_value("--account"));
        },
        FlagReading::Given(value, next) => {
            match parse_account(sofar.command, value) {
                Ok(name) => {
                    sofar.account = Some(name);
                    return Ok(next);
                },
                Err(error) => {
                    return Err(error);
                },
            }
        },
        FlagReading::Absent => {},
    }
    match flag_at(args, i, "--model") {
        FlagReading::Missing => {
            return Err(refuse_without_value("--model"));
        },
        FlagReading::Given(value, next) => {
            match parse_model(sofar.command, value) {
                Ok(name) => {
                    sofar.model = Some(name);
                    return Ok(next);
                },
                Err(error) => {
                    return Err(error);
                },
            }
        },
        FlagReading::Absent => {},
    }
    match &args[i] {
        Some(arg) => {
            assert(given(args@)[i as int] == Some(arg@));
            match read_plain(sofar, arg) {
                Ok(()) => Ok(i + 1),
                Err(error) => Err(error),
            }
        },
        None => Ok(i + 1),
    }
}

/// Reads the command line. The first argument is the program; one that is not valid
/// text is absent. `-v` may stand before and after the command; a shared flag is
/// honoured exactly where the command accepts it and refused with the policy's own
/// reason elsewhere; everything else is left to the command. Verbosity is a byte.
pub fn parse_invocation(args: &Vec<Option<String>>) -> (parsed: Result<Request, Error>)
    requires
        request(given(args@)) matches Ok(RequestView::Run(invocation)) ==> invocation.verbosity
            <= u8::MAX,
    ensures
        match parsed {
            Ok(r) => request(given(args@)) == Ok::<RequestView, ErrorView>(r@),
            Err(e) => request(given(args@)) == Err::<RequestView, ErrorView>(e@),
        },
{
    let total: usize = args.len();
    let ghost all = given(args@);
    let mut i: usize = 1;
    let mut leading: bool = true;
    while i < total && leading
        invariant
            1 <= i,
            i <= total || i == 1,
            total == args@.len(),
            all == given(args@),
            after_verbosity(all, 1) == after_verbosity(all, i as int),
            !leading ==> after_verbosity(all, 1) == i && i < total,
        ensures
            after_verbosity(all, 1) == i,
            1 <= i,
            i <= total || i == 1,
        decreases 2 * (total - i) + if leading { 1int } else { 0int },
    {
        assert(all[i as int] == optional(args@[i as int]));
        match &args[i] {
            Some(arg) => {
                if same_text(arg.as_str(), "-v") {
                    i = i + 1;
                } else {
                    leading = false;
                }
            },
            None => {
                leading = false;
            },
        }
    }
    if i >= total {
        return Ok(Request::Version);
    }
    assert(all[i as int] == optional(args@[i as int]));
    let name: &String = match &args[i] {
        Some(name) => name,
        None => {
            return Err(Error::Usage("argument is not valid UTF-8".to_owned()));
        },
    };
    if same_text(name.as_str(), "--help") || same_text(name.as_str(), "-h") {
        return Ok(Request::Help);
    }
    if same_text(name.as_str(), "--version") || same_text(name.as_str(), "-V") {
        return Ok(Request::Version);
    }
    let command: Command = match Command::from_name(name.as_str()) {
        Some(command) => command,
        None => {
            let mut message: String = "unknown argument: ".to_owned();
            message.append(name.as_str());
            message.append("; run aub --help to list commands");
            return Err(Error::Usage(message));
        },
    };
    let mut sofar: Partial = Partial {
        command,
        format: OutputFormat::Text,
        verbosity: i - 1,
        explain: ExplainMode::Off,
        account: None,
        model: None,
        no_color: false,
        rest: Vec::new(),
    };
    assert(texts(sofar.rest@) =~= Seq::<Seq<char>>::empty());
    assert(sofar@ == bare(command, (i - 1) as nat));
    i = i + 1;
    while i < total
        invariant
            1 <= i,
            total == args@.len(),
            all == given(args@),
            sofar.verbosity <= i,
            request(all) == to_run(read_from(all, i as int, sofar@)),
        decreases total - i,
    {
        assert(all[i as int] == optional(args@[i as int]));
        if args[i].is_none() {
            return Err(
                Error::Usage(
                    "argument is not valid UTF-8; pass only UTF-8 arguments".to_owned(),
                ),
            );
        }
        match read_step(args, i, &mut sofar) {
            Ok(next) => {
                i = next;
            },
            Err(error) => {
                return Err(error);
            },
        }
    }
    let verbosity: u8 = sofar.verbosity as u8;
    Ok(
        Request::Run(
            Invocation {
                command: sofar.command,
                format: sofar.format,
                verbosity,
                explain: sofar.explain,
                account: sofar.account,
                model: sofar.model,
                no_color: sofar.no_color,
                rest: sofar.rest,
            },
        ),
    )
}

/// A command line of the program, a command and more arguments.
pub open spec fn line(command: Command, more: Seq<Seq<char>>) -> Seq<Option<Seq<char>>> {
    seq![Some("aub"@), Some(command.token())] + more.map_values(|arg: Seq<char>| Some(arg))
}

proof fn lemma_line_is_read(command: Command, more: Seq<Seq<char>>)
    ensures
        request(line(command, more)) == to_run(read_from(line(command, more), 2, bare(command, 0))),
{
    let args = line(command, more);
    crate::cli::command::law_tokens_read_back(command);
    lemma_tokens_are_no_flags(command);
    assert(args[1] == Some(command.token()));
    assert(after_verbosity(args, 1) == 1);
}

proof fn lemma_tokens_are_no_flags(command: Command)
    ensures
        command.token() != "-v"@,
        command.token() != "--help"@,
        command.token() != "-h"@,
        command.token() != "--version"@,
        command.token() != "-V"@,
{
    reveal_strlit("-v");
    reveal_strlit("--help");
    reveal_strlit("-h");
    reveal_strlit("--version");
    reveal_strlit("-V");
    reveal_strlit("status");
    reveal_strlit("spend");
    reveal_strlit("config");
    reveal_strlit("export");
    reveal_strlit("__logging-fixture");
    reveal_strlit("__state-check");
    reveal_strlit("__exit-class");
    reveal_strlit("__attempt-crash-hook");
    reveal_strlit("__projection-crash-hook");
    reveal_strlit("__cost-model-fixture");
    reveal_strlit("rate-card");
    reveal_strlit("backup");
    reveal_strlit("ingest");
    reveal_strlit("rebuild");
    reveal_strlit("doctor");
    reveal_strlit("coverage");
    reveal_strlit("import");
    reveal_strlit("sample");
    reveal_strlit("now");
    reveal_strlit("clear-diagnostics");
    reveal_strlit("drill");
    reveal_strlit("task");
    reveal_strlit("compare");
    assert(command.token()[0] != '-');
    assert("-v"@[0] == '-' && "--help"@[0] == '-' && "-h"@[0] == '-' && "--version"@[0] == '-'
        && "-V"@[0] == '-');
}

proof fn lemma_flag_with_value(args: Seq<Option<Seq<char>>>, flag: Seq<char>, value: Seq<char>)
    requires
        args.len() == 4,
        args[2] == Some(flag),
        args[3] == Some(value),
    ensures
        flag_value(args, 2, flag) == (FlagValue::Given { value, next: 4 }),
{
    reveal_strlit("=");
}

/// The parser honours the policy on `--format` for every command: a command that refuses
/// it says why, and one that accepts it takes the value and leaves nothing unread.
pub proof fn law_format_policy_is_honoured(command: Command, value: Seq<char>)
    ensures
        request(line(command, seq!["--format"@, value])) == match format_asked(command, value) {
            Ok(format) => Ok::<RequestView, ErrorView>(
                RequestView::Run(InvocationView { format, ..bare(command, 0) }),
            ),
            Err(error) => Err(error),
        },
{
    let args = line(command, seq!["--format"@, value]);
    lemma_line_is_read(command, seq!["--format"@, value]);
    lemma_flag_with_value(args, "--format"@, value);
    reveal_with_fuel(read_from, 3);
}

/// The parser honours the policy on `--account` for every command.
pub proof fn law_account_policy_is_honoured(command: Command, value: Seq<char>)
    ensures
        request(line(command, seq!["--account"@, value])) == match command.refusal(
            SharedFlag::Account,
        ) {
            None => Ok::<RequestView, ErrorView>(
                RequestView::Run(InvocationView { account: Some(value), ..bare(command, 0) }),
            ),
            Some(reason) => Err(flag_refused(command, "--account"@, reason)),
        },
{
    let args = line(command, seq!["--account"@, value]);
    lemma_line_is_read(command, seq!["--account"@, value]);
    lemma_flag_with_value(args, "--account"@, value);
    lemma_other_flags(args, 2);
    reveal_with_fuel(read_from, 3);
}

/// The parser honours the policy on `--model` for every command.
pub proof fn law_model_policy_is_honoured(command: Command, value: Seq<char>)
    ensures
        request(line(command, seq!["--model"@, value])) == match command.refusal(
            SharedFlag::Model,
        ) {
            None => Ok::<RequestView, ErrorView>(
                RequestView::Run(InvocationView { model: Some(value), ..bare(command, 0) }),
            ),
            Some(reason) => Err(flag_refused(command, "--model"@, reason)),
        },
{
    let args = line(command, seq!["--model"@, value]);
    lemma_line_is_read(command, seq!["--model"@, value]);
    lemma_flag_with_value(args, "--model"@, value);
    lemma_other_flags(args, 2);
    reveal_with_fuel(read_from, 3);
}

proof fn lemma_other_flags(args: Seq<Option<Seq<char>>>, i: int)
    ensures
        args[i] == Some("--account"@) || args[i] == Some("--model"@) || args[i] == Some(
            "--explain"@,
        ) || args[i] == Some("--no-color"@) || args[i] == Some("-v"@) ==> flag_value(
            args,
            i,
            "--format"@,
        ) is Absent,
        args[i] == Some("--model"@) || args[i] == Some("--explain"@) || args[i] == Some(
            "--no-color"@,
        ) || args[i] == Some("-v"@) ==> flag_value(args, i, "--account"@) is Absent,
        args[i] == Some("--explain"@) || args[i] == Some("--no-color"@) || args[i] == Some("-v"@)
            ==> flag_value(args, i, "--model"@) is Absent,
{
    reveal_strlit("=");
    reveal_strlit("--format");
    reveal_strlit("--account");
    reveal_strlit("--model");
    reveal_strlit("--explain");
    reveal_strlit("--no-color");
    reveal_strlit("-v");
    let arg = args[i]->0;
    let format = "--format"@ + "="@;
    let account = "--account"@ + "="@;
    let model = "--model"@ + "="@;
    assert(format[2] == 'f' && account[2] == 'a' && model[2] == 'm');
    assert("--format"@[2] == 'f' && "--account"@[2] == 'a' && "--model"@[2] == 'm'
        && "--explain"@[2] == 'e' && "--no-color"@[2] == 'n' && "-v"@.len() == 2);
    assert(arg.take(format.len() as int)[2] == arg[2] || arg.len() < format.len());
    assert(arg.take(account.len() as int)[2] == arg[2] || arg.len() < account.len());
    assert(arg.take(model.len() as int)[2] == arg[2] || arg.len() < model.len());
}

/// The parser honours the policy on `--explain` for every command, whatever the value:
/// a refusal comes before any look at it.
pub proof fn law_explain_policy_is_honoured(command: Command, value: Seq<char>)
    ensures
        request(line(command, seq!["--explain="@ + value])) == match explain_asked(
            command,
            Some(value),
        ) {
            Ok(explain) => Ok::<RequestView, ErrorView>(
                RequestView::Run(InvocationView { explain, ..bare(command, 0) }),
            ),
            Err(error) => Err(error),
        },
        request(line(command, seq!["--explain"@])) == match command.refusal(SharedFlag::Explain) {
            None => Ok::<RequestView, ErrorView>(
                RequestView::Run(
                    InvocationView { explain: ExplainMode::Summary, ..bare(command, 0) },
                ),
            ),
            Some(reason) => Err(flag_refused(command, "--explain"@, reason)),
        },
{
    let spelled = "--explain="@ + value;
    let args = line(command, seq![spelled]);
    lemma_line_is_read(command, seq![spelled]);
    assert(args[2] == Some(spelled));
    lemma_inline_explain(args, 2, value);
    reveal_with_fuel(read_from, 2);
    let short = line(command, seq!["--explain"@]);
    lemma_line_is_read(command, seq!["--explain"@]);
    assert(short[2] == Some("--explain"@));
    lemma_other_flags(short, 2);
    assert("--explain"@ != "-v"@) by {
        reveal_strlit("--explain");
        reveal_strlit("-v");
    }
    assert(bare(command, 0).command == command);
}

proof fn lemma_inline_explain(args: Seq<Option<Seq<char>>>, i: int, value: Seq<char>)
    requires
        args[i] == Some("--explain="@ + value),
    ensures
        flag_value(args, i, "--format"@) is Absent,
        flag_value(args, i, "--account"@) is Absent,
        flag_value(args, i, "--model"@) is Absent,
        "--explain="@ + value != "-v"@,
        "--explain="@ + value != "--explain"@,
        behind("--explain="@ + value, "--explain="@) == Some(value),
{
    reveal_strlit("=");
    reveal_strlit("--format");
    reveal_strlit("--account");
    reveal_strlit("--model");
    reveal_strlit("--explain");
    reveal_strlit("--explain=");
    reveal_strlit("-v");
    let arg = "--explain="@ + value;
    let format = "--format"@ + "="@;
    let account = "--account"@ + "="@;
    let model = "--model"@ + "="@;
    assert(arg[2] == 'e');
    assert(format[2] == 'f' && account[2] == 'a' && model[2] == 'm');
    assert("--format"@[2] == 'f' && "--account"@[2] == 'a' && "--model"@[2] == 'm');
    assert(arg.take(format.len() as int)[2] == arg[2] || arg.len() < format.len());
    assert(arg.take(account.len() as int)[2] == arg[2] || arg.len() < account.len());
    assert(arg.take(model.len() as int)[2] == arg[2] || arg.len() < model.len());
    assert(arg.len() >= 10);
    assert(arg.take(10) =~= "--explain="@);
    assert(arg.skip(10) =~= value);
}

/// The parser honours the policy on `--no-color` for every command.
pub proof fn law_no_color_policy_is_honoured(command: Command)
    ensures
        request(line(command, seq!["--no-color"@])) == match command.refusal(SharedFlag::NoColor) {
            None => Ok::<RequestView, ErrorView>(
                RequestView::Run(InvocationView { no_color: true, ..bare(command, 0) }),
            ),
            Some(reason) => Err(flag_refused(command, "--no-color"@, reason)),
        },
{
    let args = line(command, seq!["--no-color"@]);
    lemma_line_is_read(command, seq!["--no-color"@]);
    assert(args[2] == Some("--no-color"@));
    lemma_other_flags(args, 2);
    reveal_strlit("--no-color");
    reveal_strlit("-v");
    reveal_strlit("--explain");
    reveal_strlit("--explain=");
    assert("--no-color"@[2] == 'n' && "--explain"@[2] == 'e' && "--explain="@[2] == 'e');
    assert("--no-color"@.len() == 10 && "--explain="@.len() == 10);
    assert("--no-color"@.take(10) =~= "--no-color"@);
    reveal_with_fuel(read_from, 2);
}

/// A command line with `-v` some times before the command and some times behind it.
pub open spec fn verbose_line(command: Command, before: nat, after: nat) -> Seq<
    Option<Seq<char>>,
> {
    seq![Some("aub"@)] + Seq::new(before, |i: int| Some("-v"@)) + seq![Some(command.token())]
        + Seq::new(after, |i: int| Some("-v"@))
}

/// Verbosity has one meaning for every command: each `-v`, before or behind the command,
/// raises it by one.
pub proof fn law_verbosity_counts_every_mention(command: Command, before: nat, after: nat)
    ensures
        request(verbose_line(command, before, after)) == Ok::<RequestView, ErrorView>(
            RequestView::Run(bare(command, before + after)),
        ),
{
    let args = verbose_line(command, before, after);
    lemma_tokens_are_no_flags(command);
    crate::cli::command::law_tokens_read_back(command);
    lemma_leading_verbosity(args, 1, before as int + 1);
    assert(args[before as int + 1] == Some(command.token()));
    lemma_trailing_verbosity(args, before as int + 2, bare(command, before));
}

/// No command line raises verbosity more often than it has arguments behind the program.
pub proof fn law_verbosity_is_bounded(args: Seq<Option<Seq<char>>>)
    ensures
        request(args) matches Ok(RequestView::Run(invocation)) ==> invocation.verbosity + 1
            < args.len(),
{
    let at = after_verbosity(args, 1);
    lemma_verbosity_advances(args, 1);
    if at < args.len() && args[at] is Some {
        match Command::named(args[at]->0) {
            Some(command) => {
                lemma_reading_bounds_verbosity(args, at + 1, bare(command, (at - 1) as nat));
            },
            None => {},
        }
    }
}

proof fn lemma_verbosity_advances(args: Seq<Option<Seq<char>>>, i: int)
    ensures
        after_verbosity(args, i) >= i,
    decreases args.len() - i,
{
    if i < args.len() && args[i] == Some("-v"@) {
        lemma_verbosity_advances(args, i + 1);
    }
}

proof fn lemma_reading_bounds_verbosity(
    args: Seq<Option<Seq<char>>>,
    i: int,
    sofar: InvocationView,
)
    requires
        sofar.verbosity + 2 <= i <= args.len(),
    ensures
        read_from(args, i, sofar) matches Ok(read) ==> read.verbosity + 2 <= args.len(),
    decreases args.len() - i,
{
    if i < args.len() && args[i] is Some {
        match step(args, i, sofar) {
            Ok((read, next)) => {
                if next > i {
                    lemma_reading_bounds_verbosity(args, next, read);
                }
            },
            Err(_) => {},
        }
    }
}

proof fn lemma_leading_verbosity(args: Seq<Option<Seq<char>>>, i: int, end: int)
    requires
        0 <= i <= end < args.len(),
        forall|k: int| i <= k < end ==> #[trigger] args[k] == Some("-v"@),
        args[end] != Some("-v"@),
    ensures
        after_verbosity(args, i) == end,
    decreases end - i,
{
    if i < end {
        lemma_leading_verbosity(args, i + 1, end);
    }
}

proof fn lemma_trailing_verbosity(args: Seq<Option<Seq<char>>>, i: int, sofar: InvocationView)
    requires
        0 <= i <= args.len(),
        forall|k: int| i <= k < args.len() ==> #[trigger] args[k] == Some("-v"@),
    ensures
        read_from(args, i, sofar) == Ok::<InvocationView, ErrorView>(
            InvocationView { verbosity: (sofar.verbosity + (args.len() - i)) as nat, ..sofar },
        ),
    decreases args.len() - i,
{
    if i < args.len() {
        lemma_other_flags(args, i);
        lemma_trailing_verbosity(
            args,
            i + 1,
            InvocationView { verbosity: sofar.verbosity + 1, ..sofar },
        );
    }
}

/// What a command prints is asked for by name, where it can be asked for at all: text or
/// JSON, and an explanation in short or in full. No other name is taken.
pub proof fn law_formats_and_explanations_have_their_own_names(command: Command, word: Seq<char>)
    ensures
        command.refusal(SharedFlag::Format) is None ==> {
            &&& format_asked(command, word) == Ok::<OutputFormat, ErrorView>(OutputFormat::Json)
                <==> word == "json"@
            &&& format_asked(command, word) == Ok::<OutputFormat, ErrorView>(OutputFormat::Text)
                <==> word == "text"@
        },
        command.refusal(SharedFlag::Format) is Some ==> format_asked(command, word) is Err,
        command.refusal(SharedFlag::Explain) is None ==> {
            &&& explain_asked(command, None) == Ok::<ExplainMode, ErrorView>(ExplainMode::Summary)
            &&& explain_asked(command, Some(word)) == Ok::<ExplainMode, ErrorView>(
                ExplainMode::Full,
            ) <==> word == "full"@
            &&& explain_asked(command, Some(word)) == Ok::<ExplainMode, ErrorView>(
                ExplainMode::Summary,
            ) <==> word == "summary"@ || word.len() == 0
            &&& explain_asked(command, Some(word)) != Ok::<ExplainMode, ErrorView>(
                ExplainMode::Off,
            )
        },
        command.refusal(SharedFlag::Explain) is Some ==> explain_asked(command, None) is Err
            && explain_asked(command, Some(word)) is Err,
{
    reveal_strlit("json");
    reveal_strlit("text");
    reveal_strlit("summary");
    reveal_strlit("full");
    assert("json"@[0] == 'j' && "text"@[0] == 't');
    assert("summary"@.len() == 7 && "full"@.len() == 4);
}

/// A flag takes the value behind its equals sign, or the argument that follows it; and
/// where it has neither, that is noticed. Nothing else is the flag.
pub proof fn law_flags_take_their_values(
    args: Seq<Option<Seq<char>>>,
    i: int,
    flag: Seq<char>,
    value: Seq<char>,
)
    requires
        0 <= i < args.len(),
        args[i] is Some,
    ensures
        args[i] == Some(flag + "="@ + value) ==> flag_value(args, i, flag) == (FlagValue::Given {
            value,
            next: i + 1,
        }),
        args[i] == Some(flag) && i + 1 < args.len() && args[i + 1] == Some(value) ==> flag_value(
            args,
            i,
            flag,
        ) == (FlagValue::Given { value, next: i + 2 }),
        args[i] == Some(flag) && (i + 1 == args.len() || args[i + 1] is None) ==> flag_value(
            args,
            i,
            flag,
        ) is Missing,
        flag_value(args, i, flag) is Absent <==> args[i]->0 != flag && forall|rest: Seq<char>|
            args[i]->0 != #[trigger] (flag + "="@ + rest),
{
    let arg = args[i]->0;
    let prefix = flag + "="@;
    reveal_strlit("=");
    law_behind_a_prefix_stands_the_rest(arg, prefix, value);
    if behind(arg, prefix) is Some {
        let rest = behind(arg, prefix)->0;
        law_behind_a_prefix_stands_the_rest(arg, prefix, rest);
        assert(arg == flag + "="@ + rest);
        assert(arg.len() > flag.len());
    }
    assert forall|rest: Seq<char>| behind(arg, prefix) is None implies arg != #[trigger] (flag
        + "="@ + rest) by {
        law_behind_a_prefix_stands_the_rest(arg, prefix, rest);
    }
}

/// An argument that does not begin with a dash is the command's own: it is kept behind
/// those before it, and changes nothing else.
pub proof fn law_plain_arguments_are_kept(
    args: Seq<Option<Seq<char>>>,
    i: int,
    sofar: InvocationView,
    word: Seq<char>,
)
    requires
        0 <= i < args.len(),
        args[i] == Some(word),
        word.len() == 0 || word[0] != '-',
    ensures
        step(args, i, sofar) == Ok::<(InvocationView, int), ErrorView>(
            (
                InvocationView {
                    command: sofar.command,
                    format: sofar.format,
                    verbosity: sofar.verbosity,
                    explain: sofar.explain,
                    account: sofar.account,
                    model: sofar.model,
                    no_color: sofar.no_color,
                    rest: sofar.rest.push(word),
                },
                i + 1,
            ),
        ),
{
    reveal_strlit("--format");
    reveal_strlit("--account");
    reveal_strlit("--model");
    reveal_strlit("=");
    reveal_strlit("-v");
    reveal_strlit("--explain");
    reveal_strlit("--explain=");
    reveal_strlit("--no-color");
    lemma_no_dash_no_flag(word, "--format"@ + "="@);
    lemma_no_dash_no_flag(word, "--account"@ + "="@);
    lemma_no_dash_no_flag(word, "--model"@ + "="@);
    lemma_no_dash_no_flag(word, "--explain="@);
    assert("--format"@[0] == '-' && "--account"@[0] == '-' && "--model"@[0] == '-');
    assert("-v"@[0] == '-' && "--explain"@[0] == '-' && "--no-color"@[0] == '-');
}

proof fn lemma_no_dash_no_flag(word: Seq<char>, prefix: Seq<char>)
    requires
        word.len() == 0 || word[0] != '-',
        prefix.len() > 0,
        prefix[0] == '-',
    ensures
        behind(word, prefix) is None,
{
    if behind(word, prefix) is Some {
        let rest = behind(word, prefix)->0;
        law_behind_a_prefix_stands_the_rest(word, prefix, rest);
        assert((prefix + rest)[0] == '-');
    }
}

/// Without a command the version is printed, and so it is where it is asked for; help is
/// printed where it is; a word that is no command is refused.
pub proof fn law_what_is_asked_without_a_command(word: Seq<char>)
    ensures
        request(seq![Some("aub"@)]) == Ok::<RequestView, ErrorView>(RequestView::Version),
        request(seq![Some("aub"@), Some(word)]) == Ok::<RequestView, ErrorView>(RequestView::Help)
            <==> word == "--help"@ || word == "-h"@,
        request(seq![Some("aub"@), Some(word)]) == Ok::<RequestView, ErrorView>(
            RequestView::Version,
        ) <==> word == "--version"@ || word == "-V"@ || word == "-v"@,
        request(seq![Some("aub"@), None]) is Err,
{
    reveal_strlit("--help");
    reveal_strlit("-h");
    reveal_strlit("--version");
    reveal_strlit("-V");
    reveal_strlit("-v");
    assert("--help"@.len() == 6 && "--version"@.len() == 9);
    assert("-h"@[1] == 'h' && "-V"@[1] == 'V' && "-v"@[1] == 'v');
    reveal_with_fuel(after_verbosity, 3);
    let args = seq![Some("aub"@), Some(word)];
    assert(args[1] == Some(word));
}

} // verus!
