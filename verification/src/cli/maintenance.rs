//! The options of the commands that keep the ledger: configuration, ingestion, rebuilds,
//! imports, backups, restores, drills and the clearing of diagnostics.

use crate::cli::options::{unknown, unknown_argument, usage_about};
use crate::cli::quoting::{quote, quoted};
use crate::error::{Error, ErrorView};
use crate::sets::texts;
use crate::text::{
    begins_with, behind, law_behind_a_prefix_stands_the_rest, law_text_is_split_at_the_first,
    optional, same_text, split_around, split_once, starts_with, strip_prefix,
};
use vstd::prelude::*;
use vstd::string::*;

verus! {

/// Settings given on the command line, in the order in which they were given.
#[derive(Debug, PartialEq, Eq)]
pub struct Overrides {
    pub keys: Vec<String>,
    pub values: Vec<String>,
}

/// What some settings hold: each key with its value.
pub open spec fn settings(overrides: Overrides) -> Seq<(Seq<char>, Seq<char>)> {
    Seq::new(
        overrides.keys@.len(),
        |i: int| (overrides.keys@[i]@, overrides.values@[i]@),
    )
}

impl Overrides {
    /// Whether every key has a value.
    pub open spec fn paired(self) -> bool {
        self.keys@.len() == self.values@.len()
    }

    /// No settings.
    pub fn new() -> (overrides: Self)
        ensures
            overrides.paired(),
            settings(overrides) == Seq::<(Seq<char>, Seq<char>)>::empty(),
    {
        let overrides: Overrides = Overrides { keys: Vec::new(), values: Vec::new() };
        assert(settings(overrides) =~= Seq::<(Seq<char>, Seq<char>)>::empty());
        overrides
    }

    /// One setting more.
    pub fn set(self, key: String, value: String) -> (overrides: Self)
        requires
            self.paired(),
        ensures
            overrides.paired(),
            settings(overrides) == settings(self).push((key@, value@)),
    {
        let mut keys: Vec<String> = self.keys;
        let mut values: Vec<String> = self.values;
        keys.push(key);
        values.push(value);
        let overrides: Overrides = Overrides { keys, values };
        assert(settings(overrides) =~= settings(self).push((key@, value@)));
        overrides
    }
}

/// The setting that text in the form `key=value` gives.
pub open spec fn setting(text: Seq<char>) -> Result<(Seq<char>, Seq<char>), ErrorView> {
    match split_around(text, '=') {
        Some(pair) => Ok(pair),
        None => Err(ErrorView::Usage("--set requires key=value, got "@ + quoted(text))),
    }
}

/// Adds a setting in the form `key=value`.
pub fn apply_set(overrides: Overrides, kv: &str) -> (result: Result<Overrides, Error>)
    requires
        overrides.paired(),
    ensures
        match result {
            Ok(o) => {
                &&& o.paired()
                &&& setting(kv@) matches Ok(pair) && settings(o) == settings(overrides).push(pair)
            },
            Err(e) => setting(kv@) == Err::<(Seq<char>, Seq<char>), ErrorView>(e@),
        },
{
    match split_once(kv, '=') {
        Some((key, value)) => Ok(overrides.set(key, value)),
        None => {
            let mut message: String = "--set requires key=value, got ".to_owned();
            message.append(quote(kv).as_str());
            Err(Error::Usage(message))
        },
    }
}

/// What printing the configuration was asked for.
#[derive(Debug, PartialEq, Eq)]
pub struct ConfigOptions {
    pub overrides: Overrides,
    pub config_file: Option<String>,
}

/// What those options hold.
pub struct ConfigView {
    pub settings: Seq<(Seq<char>, Seq<char>)>,
    pub config_file: Option<Seq<char>>,
}

impl View for ConfigOptions {
    type V = ConfigView;

    open spec fn view(&self) -> ConfigView {
        ConfigView {
            settings: settings(self.overrides),
            config_file: optional(self.config_file),
        }
    }
}

/// Options with one setting more.
pub open spec fn with_setting(sofar: ConfigView, text: Seq<char>) -> Result<
    ConfigView,
    ErrorView,
> {
    match setting(text) {
        Ok(pair) => Ok(ConfigView { settings: sofar.settings.push(pair), ..sofar }),
        Err(error) => Err(error),
    }
}

/// What the arguments from a position on make of what was read before.
pub open spec fn config_from(args: Seq<Seq<char>>, i: int, sofar: ConfigView) -> Result<
    ConfigView,
    ErrorView,
>
    decreases args.len() - i,
{
    if i >= args.len() {
        Ok(sofar)
    } else {
        let arg = args[i];
        match (behind(arg, "--set="@), behind(arg, "--config-file="@)) {
            (Some(text), _) => match with_setting(sofar, text) {
                Ok(read) => config_from(args, i + 1, read),
                Err(error) => Err(error),
            },
            (None, Some(path)) => config_from(
                args,
                i + 1,
                ConfigView { config_file: Some(path), ..sofar },
            ),
            (None, None) => if arg == "--set"@ {
                if i + 1 < args.len() {
                    match with_setting(sofar, args[i + 1]) {
                        Ok(read) => config_from(args, i + 2, read),
                        Err(error) => Err(error),
                    }
                } else {
                    Err(ErrorView::Usage("--set requires an argument"@))
                }
            } else if arg == "--config-file"@ {
                if i + 1 < args.len() {
                    config_from(
                        args,
                        i + 2,
                        ConfigView { config_file: Some(args[i + 1]), ..sofar },
                    )
                } else {
                    Err(ErrorView::Usage("--config-file requires an argument"@))
                }
            } else {
                Err(unknown(arg))
            },
        }
    }
}

/// Options on which nothing was read yet.
pub open spec fn no_config() -> ConfigView {
    ConfigView { settings: Seq::empty(), config_file: None }
}

/// Reads the options of printing the configuration: settings, and where its file is.
pub fn config_options(rest: &Vec<String>) -> (options: Result<ConfigOptions, Error>)
    ensures
        match options {
            Ok(o) => config_from(texts(rest@), 0, no_config()) == Ok::<ConfigView, ErrorView>(o@)
                && o.overrides.paired(),
            Err(e) => config_from(texts(rest@), 0, no_config()) == Err::<ConfigView, ErrorView>(
                e@,
            ),
        },
{
    let total: usize = rest.len();
    let ghost args = texts(rest@);
    let mut overrides: Overrides = Overrides::new();
    let mut config_file: Option<String> = None;
    let mut i: usize = 0;
    while i < total
        invariant
            total == rest@.len(),
            args == texts(rest@),
            overrides.paired(),
            config_from(args, 0, no_config()) == config_from(
                args,
                i as int,
                ConfigView {
                    settings: settings(overrides),
                    config_file: optional(config_file),
                },
            ),
        decreases total - i,
    {
        let arg: &str = rest[i].as_str();
        assert(args[i as int] == arg@);
        let mut next: usize = i + 1;
        match (strip_prefix(arg, "--set="), strip_prefix(arg, "--config-file=")) {
            (Some(text), _) => match apply_set(overrides, text.as_str()) {
                Ok(more) => {
                    overrides = more;
                },
                Err(error) => {
                    return Err(error);
                },
            },
            (None, Some(path)) => {
                config_file = Some(path);
            },
            (None, None) => {
                if same_text(arg, "--set") {
                    if total - i < 2 {
                        return Err(Error::Usage("--set requires an argument".to_owned()));
                    }
                    assert(args[i + 1] == rest@[i + 1]@);
                    match apply_set(overrides, rest[i + 1].as_str()) {
                        Ok(more) => {
                            overrides = more;
                        },
                        Err(error) => {
                            return Err(error);
                        },
                    }
                    next = i + 2;
                } else if same_text(arg, "--config-file") {
                    if total - i < 2 {
                        return Err(Error::Usage("--config-file requires an argument".to_owned()));
                    }
                    assert(args[i + 1] == rest@[i + 1]@);
                    config_file = Some(rest[i + 1].clone());
                    next = i + 2;
                } else {
                    return Err(unknown_argument(arg));
                }
            },
        }
        i = next;
    }
    Ok(ConfigOptions { overrides, config_file })
}

/// The environment variables that are set.
#[derive(Debug, PartialEq, Eq)]
pub struct Environment {
    pub names: Vec<String>,
    pub values: Vec<String>,
}

/// The value a name has last been given, among the first `n` variables.
pub open spec fn last_value(
    names: Seq<String>,
    values: Seq<String>,
    name: Seq<char>,
    n: int,
) -> Option<Seq<char>>
    decreases n,
{
    if n <= 0 {
        None
    } else if names[n - 1]@ == name {
        Some(values[n - 1]@)
    } else {
        last_value(names, values, name, n - 1)
    }
}

impl Environment {
    /// Whether every name has a value.
    pub open spec fn paired(self) -> bool {
        self.names@.len() == self.values@.len()
    }

    /// What a variable holds.
    pub open spec fn holds(self, name: Seq<char>) -> Option<Seq<char>> {
        last_value(self.names@, self.values@, name, self.names@.len() as int)
    }

    /// No variables.
    pub fn new() -> (env: Self)
        ensures
            env.paired(),
            forall|name: Seq<char>| #[trigger] env.holds(name) is None,
    {
        Environment { names: Vec::new(), values: Vec::new() }
    }

    /// One variable more.
    pub fn set(self, name: String, value: String) -> (env: Self)
        requires
            self.paired(),
        ensures
            env.paired(),
            forall|other: Seq<char>| #[trigger]
                env.holds(other) == if other == name@ {
                    Some(value@)
                } else {
                    self.holds(other)
                },
    {
        let mut names: Vec<String> = self.names;
        let mut values: Vec<String> = self.values;
        names.push(name);
        values.push(value);
        let env: Environment = Environment { names, values };
        proof {
            assert forall|other: Seq<char>| #[trigger] env.holds(other) == if other == name@ {
                Some(value@)
            } else {
                self.holds(other)
            } by {
                lemma_last_value(
                    self.names@,
                    self.values@,
                    env.names@,
                    env.values@,
                    other,
                    self.names@.len() as int,
                );
            }
        }
        env
    }

    /// What a variable holds.
    pub fn get(&self, name: &str) -> (value: Option<String>)
        requires
            self.paired(),
        ensures
            optional(value) == self.holds(name@),
    {
        let mut i: usize = self.names.len();
        while i > 0
            invariant
                i <= self.names@.len(),
                self.paired(),
                self.holds(name@) == last_value(self.names@, self.values@, name@, i as int),
            decreases i,
        {
            if same_text(self.names[i - 1].as_str(), name) {
                return Some(self.values[i - 1].clone());
            }
            i = i - 1;
        }
        None
    }
}

proof fn lemma_last_value(
    names: Seq<String>,
    values: Seq<String>,
    more_names: Seq<String>,
    more_values: Seq<String>,
    name: Seq<char>,
    n: int,
)
    requires
        n <= names.len(),
        names.len() == values.len(),
        names.len() <= more_names.len(),
        more_names.len() == more_values.len(),
        forall|k: int| 0 <= k < names.len() ==> #[trigger] names[k] == more_names[k],
        forall|k: int| 0 <= k < names.len() ==> #[trigger] values[k] == more_values[k],
    ensures
        last_value(names, values, name, n) == last_value(more_names, more_values, name, n),
    decreases n,
{
    if n > 0 {
        assert(names[n - 1] == more_names[n - 1]);
        assert(values[n - 1] == more_values[n - 1]);
        lemma_last_value(names, values, more_names, more_values, name, n - 1);
    }
}

/// Where the configuration file is: where a flag says, else where the environment says,
/// else in the home directory. A file cannot say where it is itself.
pub open spec fn config_path(flag: Option<Seq<char>>, env: Environment) -> Seq<char> {
    match (flag, env.holds("AUB_CONFIG_FILE"@)) {
        (Some(path), _) => path,
        (None, Some(path)) => path,
        (None, None) => {
            let home = match env.holds("HOME"@) {
                Some(home) => home,
                None => "/nonexistent"@,
            };
            home + "/.config/aub/config.toml"@
        },
    }
}

/// Where the configuration file is.
pub fn resolve_config_file_path(flag: Option<&str>, env: &Environment) -> (path: String)
    requires
        env.paired(),
    ensures
        path@ == config_path(
            match flag {
                Some(f) => Some(f@),
                None => None,
            },
            *env,
        ),
{
    match flag {
        Some(path) => {
            return path.to_owned();
        },
        None => {},
    }
    match env.get("AUB_CONFIG_FILE") {
        Some(path) => {
            return path;
        },
        None => {},
    }
    let mut path: String = match env.get("HOME") {
        Some(home) => home,
        None => "/nonexistent".to_owned(),
    };
    path.append("/.config/aub/config.toml");
    path
}

/// What ingestion was asked for.
#[derive(Debug, Clone, PartialEq, Eq)]
pub struct IngestOptions {
    pub source: Option<String>,
    pub changed_only: bool,
}

/// What the arguments of ingestion from a position on make of what was read before: a
/// source, named once, and whether only changed files are read.
pub open spec fn ingest_from(
    args: Seq<Seq<char>>,
    i: int,
    source: Option<Seq<char>>,
    changed_only: bool,
) -> Result<(Option<Seq<char>>, bool), ErrorView>
    decreases args.len() - i,
{
    if i >= args.len() {
        Ok((source, changed_only))
    } else {
        let arg = args[i];
        let twice = ErrorView::Usage("--source was given more than once"@);
        match behind(arg, "--source="@) {
            Some(name) => if source is Some {
                Err(twice)
            } else {
                ingest_from(args, i + 1, Some(name), changed_only)
            },
            None => if arg == "--source"@ {
                if i + 1 >= args.len() {
                    Err(ErrorView::Usage("--source requires a source name"@))
                } else if source is Some {
                    Err(twice)
                } else {
                    ingest_from(args, i + 2, Some(args[i + 1]), changed_only)
                }
            } else if arg == "--changed-only"@ {
                ingest_from(args, i + 1, source, true)
            } else {
                Err(unknown(arg))
            },
        }
    }
}

/// What ingestion was asked for: the target comes first.
pub open spec fn ingest_asked(args: Seq<Seq<char>>) -> Result<
    (Option<Seq<char>>, bool),
    ErrorView,
> {
    if args.len() == 0 {
        Err(ErrorView::Usage("ingest requires a target: ingest transcripts"@))
    } else if args[0] != "transcripts"@ {
        Err(
            ErrorView::Usage(
                "unknown ingest target: "@ + args[0] + "; ingest reads transcripts"@,
            ),
        )
    } else {
        ingest_from(args, 1, None, false)
    }
}

/// Reads the options of ingestion.
pub fn ingest_flags(rest: &Vec<String>) -> (options: Result<IngestOptions, Error>)
    ensures
        match options {
            Ok(o) => ingest_asked(texts(rest@)) == Ok::<(Option<Seq<char>>, bool), ErrorView>(
                (optional(o.source), o.changed_only),
            ),
            Err(e) => ingest_asked(texts(rest@)) == Err::<(Option<Seq<char>>, bool), ErrorView>(
                e@,
            ),
        },
{
    let total: usize = rest.len();
    let ghost args = texts(rest@);
    if total == 0 {
        return Err(Error::Usage("ingest requires a target: ingest transcripts".to_owned()));
    }
    assert(args[0] == rest@[0]@);
    if !same_text(rest[0].as_str(), "transcripts") {
        return Err(
            usage_about("unknown ingest target: ", rest[0].as_str(), "; ingest reads transcripts"),
        );
    }
    let mut source: Option<String> = None;
    let mut changed_only: bool = false;
    let mut i: usize = 1;
    while i < total
        invariant
            total == rest@.len(),
            args == texts(rest@),
            ingest_asked(args) == ingest_from(args, i as int, optional(source), changed_only),
        decreases total - i,
    {
        let arg: &str = rest[i].as_str();
        assert(args[i as int] == arg@);
        match strip_prefix(arg, "--source=") {
            Some(name) => {
                if source.is_some() {
                    return Err(Error::Usage("--source was given more than once".to_owned()));
                }
                source = Some(name);
                i = i + 1;
            },
            None => {
                if same_text(arg, "--source") {
                    if total - i < 2 {
                        return Err(Error::Usage("--source requires a source name".to_owned()));
                    }
                    assert(args[i + 1] == rest@[i + 1]@);
                    if source.is_some() {
                        return Err(Error::Usage("--source was given more than once".to_owned()));
                    }
                    source = Some(rest[i + 1].clone());
                    i = i + 2;
                } else if same_text(arg, "--changed-only") {
                    changed_only = true;
                    i = i + 1;
                } else {
                    return Err(unknown_argument(arg));
                }
            },
        }
    }
    Ok(IngestOptions { source, changed_only })
}

/// A group of tables that can be rebuilt from what they were made of.
#[derive(Debug, Clone, Copy, PartialEq, Eq, Structural)]
pub enum RebuildGroup {
    Transcripts,
    Attribution,
}

impl RebuildGroup {
    /// The name of a group.
    pub open spec fn word(self) -> Seq<char> {
        match self {
            RebuildGroup::Transcripts => "transcripts"@,
            RebuildGroup::Attribution => "attribution"@,
        }
    }

    /// The name of this group.
    pub fn name(self) -> (name: &'static str)
        ensures
            name@ == self.word(),
    {
        match self {
            RebuildGroup::Transcripts => "transcripts",
            RebuildGroup::Attribution => "attribution",
        }
    }
}

/// The group a rebuild was asked for.
pub open spec fn rebuild_asked(args: Seq<Seq<char>>) -> Result<RebuildGroup, ErrorView> {
    if args.len() == 0 {
        Err(ErrorView::Usage("rebuild requires a target: transcripts | attribution"@))
    } else if args.len() > 1 {
        Err(unknown(args[1]))
    } else if args[0] == RebuildGroup::Transcripts.word() {
        Ok(RebuildGroup::Transcripts)
    } else if args[0] == RebuildGroup::Attribution.word() {
        Ok(RebuildGroup::Attribution)
    } else {
        Err(
            ErrorView::Usage(
                "unknown rebuild target "@ + args[0]
                    + "; rebuildable targets are: transcripts | attribution"@,
            ),
        )
    }
}

/// Reads the target of a rebuild: only what is rebuildable can be named.
pub fn rebuild_target(rest: &Vec<String>) -> (group: Result<RebuildGroup, Error>)
    ensures
        match group {
            Ok(g) => rebuild_asked(texts(rest@)) == Ok::<RebuildGroup, ErrorView>(g),
            Err(e) => rebuild_asked(texts(rest@)) == Err::<RebuildGroup, ErrorView>(e@),
        },
{
    if rest.len() == 0 {
        return Err(
            Error::Usage("rebuild requires a target: transcripts | attribution".to_owned()),
        );
    }
    if rest.len() > 1 {
        return Err(unknown_argument(rest[1].as_str()));
    }
    let name: &str = rest[0].as_str();
    if same_text(name, "transcripts") {
        Ok(RebuildGroup::Transcripts)
    } else if same_text(name, "attribution") {
        Ok(RebuildGroup::Attribution)
    } else {
        Err(
            usage_about(
                "unknown rebuild target ",
                name,
                "; rebuildable targets are: transcripts | attribution",
            ),
        )
    }
}

/// Whose retained bodies are cleared.
#[derive(Debug, Clone, PartialEq, Eq)]
pub struct ClearDiagnosticsOptions {
    pub provider: Option<String>,
    pub all: bool,
}

/// A provider where none was named before, and a name is not empty.
pub open spec fn provider_named(sofar: Option<Seq<char>>, name: Seq<char>) -> Result<
    Seq<char>,
    ErrorView,
> {
    if sofar is Some {
        Err(ErrorView::Usage("--provider specified more than once"@))
    } else if name.len() == 0 {
        Err(ErrorView::Usage("--provider requires a non-empty name"@))
    } else {
        Ok(name)
    }
}

/// What the arguments from a position on make of what was read before.
pub open spec fn clearing_from(
    args: Seq<Seq<char>>,
    i: int,
    provider: Option<Seq<char>>,
    all: bool,
) -> Result<(Option<Seq<char>>, bool), ErrorView>
    decreases args.len() - i,
{
    if i >= args.len() {
        if all && provider is Some {
            Err(ErrorView::Usage("--all cannot be combined with --provider"@))
        } else {
            Ok((provider, all))
        }
    } else {
        let arg = args[i];
        match behind(arg, "--provider="@) {
            Some(name) => match provider_named(provider, name) {
                Ok(named) => clearing_from(args, i + 1, Some(named), all),
                Err(error) => Err(error),
            },
            None => if arg == "--provider"@ {
                if i + 1 >= args.len() {
                    Err(
                        ErrorView::Usage(
                            if provider is Some {
                                "--provider specified more than once"@
                            } else {
                                "--provider requires a provider name"@
                            },
                        ),
                    )
                } else {
                    match provider_named(provider, args[i + 1]) {
                        Ok(named) => clearing_from(args, i + 2, Some(named), all),
                        Err(error) => Err(error),
                    }
                }
            } else if arg == "--all"@ {
                clearing_from(args, i + 1, provider, true)
            } else if begins_with(arg, "--"@) {
                Err(unknown(arg))
            } else if provider is Some {
                Err(ErrorView::Usage("unexpected positional argument: "@ + arg))
            } else {
                clearing_from(args, i + 1, Some(arg), all)
            },
        }
    }
}

/// Reads whose retained bodies are cleared: those of one provider, or all.
pub fn clear_diagnostics_options(rest: &Vec<String>) -> (options: Result<
    ClearDiagnosticsOptions,
    Error,
>)
    ensures
        match options {
            Ok(o) => clearing_from(texts(rest@), 0, None, false) == Ok::<
                (Option<Seq<char>>, bool),
                ErrorView,
            >((optional(o.provider), o.all)),
            Err(e) => clearing_from(texts(rest@), 0, None, false) == Err::<
                (Option<Seq<char>>, bool),
                ErrorView,
            >(e@),
        },
{
    let total: usize = rest.len();
    let ghost args = texts(rest@);
    let mut provider: Option<String> = None;
    let mut all: bool = false;
    let mut i: usize = 0;
    while i < total
        invariant
            total == rest@.len(),
            args == texts(rest@),
            clearing_from(args, 0, None, false) == clearing_from(
                args,
                i as int,
                optional(provider),
                all,
            ),
        decreases total - i,
    {
        let arg: &str = rest[i].as_str();
        assert(args[i as int] == arg@);
        let inline: Option<String> = strip_prefix(arg, "--provider=");
        if inline.is_some() || same_text(arg, "--provider") {
            if provider.is_some() {
                return Err(Error::Usage("--provider specified more than once".to_owned()));
            }
            let mut next: usize = i + 1;
            let name: String = match inline {
                Some(name) => name,
                None => {
                    if total - i < 2 {
                        return Err(Error::Usage("--provider requires a provider name".to_owned()));
                    }
                    assert(args[i + 1] == rest@[i + 1]@);
                    next = i + 2;
                    rest[i + 1].clone()
                },
            };
            if name.as_str().unicode_len() == 0 {
                return Err(Error::Usage("--provider requires a non-empty name".to_owned()));
            }
            provider = Some(name);
            i = next;
        } else if same_text(arg, "--all") {
            all = true;
            i = i + 1;
        } else if starts_with(arg, "--") {
            return Err(unknown_argument(arg));
        } else {
            if provider.is_some() {
                let mut message: String = "unexpected positional argument: ".to_owned();
                message.append(arg);
                return Err(Error::Usage(message));
            }
            provider = Some(rest[i].clone());
            i = i + 1;
        }
    }
    if all && provider.is_some() {
        return Err(Error::Usage("--all cannot be combined with --provider".to_owned()));
    }
    Ok(ClearDiagnosticsOptions { provider, all })
}

/// A setting is a key and a value, split at the first equals sign; text without one sets
/// nothing.
pub proof fn law_settings_are_split_at_the_first_equals(text: Seq<char>)
    ensures
        setting(text) is Ok <==> text.contains('='),
        setting(text) matches Ok((key, value)) ==> text == key + seq!['='] + value
            && !key.contains('='),
{
    law_text_is_split_at_the_first(text, '=');
}

proof fn lemma_config_words_differ(word: Seq<char>)
    ensures
        behind("--set="@ + word, "--set="@) == Some(word),
        behind("--config-file="@ + word, "--config-file="@) == Some(word),
        behind("--config-file="@ + word, "--set="@) is None,
        behind("--set"@, "--set="@) is None,
        behind("--set"@, "--config-file="@) is None,
        behind("--config-file"@, "--set="@) is None,
        behind("--config-file"@, "--config-file="@) is None,
        "--set"@ != "--config-file"@,
{
    reveal_strlit("--set=");
    reveal_strlit("--config-file=");
    reveal_strlit("--set");
    reveal_strlit("--config-file");
    law_behind_a_prefix_stands_the_rest("--set="@ + word, "--set="@, word);
    law_behind_a_prefix_stands_the_rest("--config-file="@ + word, "--config-file="@, word);
    assert("--set"@.len() == 5 && "--config-file"@.len() == 13);
    lemma_other_prefix("--config-file="@ + word, "--set="@);
    lemma_other_prefix("--config-file"@, "--set="@);
}

proof fn lemma_other_prefix(text: Seq<char>, prefix: Seq<char>)
    requires
        text.len() > 2,
        prefix.len() > 2,
        text[2] != prefix[2],
    ensures
        behind(text, prefix) is None,
{
    if behind(text, prefix) is Some {
        let rest = behind(text, prefix)->0;
        law_behind_a_prefix_stands_the_rest(text, prefix, rest);
        assert((prefix + rest)[2] == prefix[2]);
    }
}

/// Settings are kept in the order they are made, the last file that is named is read, and
/// neither changes the other.
pub proof fn law_config_options_set_what_they_name(
    args: Seq<Seq<char>>,
    i: int,
    sofar: ConfigView,
    word: Seq<char>,
)
    requires
        0 <= i < args.len(),
    ensures
        setting(word) matches Ok(pair) ==> {
            let read = ConfigView {
                settings: sofar.settings.push(pair),
                config_file: sofar.config_file,
            };
            &&& args[i] == "--set="@ + word ==> config_from(args, i, sofar) == config_from(
                args,
                i + 1,
                read,
            )
            &&& args[i] == "--set"@ && i + 1 < args.len() && args[i + 1] == word ==> config_from(
                args,
                i,
                sofar,
            ) == config_from(args, i + 2, read)
        },
        setting(word) is Err && args[i] == "--set="@ + word ==> config_from(args, i, sofar) is Err,
        args[i] == "--config-file="@ + word ==> config_from(args, i, sofar) == config_from(
            args,
            i + 1,
            (ConfigView { settings: sofar.settings, config_file: Some(word) }),
        ),
        args[i] == "--config-file"@ && i + 1 < args.len() && args[i + 1] == word ==> config_from(
            args,
            i,
            sofar,
        ) == config_from(
            args,
            i + 2,
            (ConfigView { settings: sofar.settings, config_file: Some(word) }),
        ),
        config_from(args, args.len() as int, sofar) == Ok::<ConfigView, ErrorView>(sofar),
        no_config().settings.len() == 0,
        no_config().config_file is None,
{
    lemma_config_words_differ(word);
}

/// The file that is read is the one that is named, or else the one that the environment
/// names, or else the one in the home directory.
pub proof fn law_where_the_configuration_is_read(flag: Option<Seq<char>>, env: Environment)
    ensures
        flag matches Some(path) ==> config_path(flag, env) == path,
        flag is None && env.holds("AUB_CONFIG_FILE"@) is Some ==> config_path(flag, env)
            == env.holds("AUB_CONFIG_FILE"@)->0,
        flag is None && env.holds("AUB_CONFIG_FILE"@) is None && env.holds("HOME"@) is Some
            ==> config_path(flag, env) == env.holds("HOME"@)->0 + "/.config/aub/config.toml"@,
        flag is None && env.holds("AUB_CONFIG_FILE"@) is None && env.holds("HOME"@) is None
            ==> config_path(flag, env) == "/nonexistent"@ + "/.config/aub/config.toml"@,
{
}

/// A variable holds what was set last under its name, and nothing where nothing was.
pub proof fn law_the_last_value_holds(
    names: Seq<String>,
    values: Seq<String>,
    name: Seq<char>,
    n: int,
)
    ensures
        match last_value(names, values, name, n) {
            Some(value) => exists|k: int|
                0 <= k < n && (#[trigger] names[k])@ == name && values[k]@ == value && forall|
                    m: int,
                |
                    k < m < n ==> (#[trigger] names[m])@ != name,
            None => forall|k: int| 0 <= k < n ==> (#[trigger] names[k])@ != name,
        },
    decreases n,
{
    if n > 0 {
        if names[n - 1]@ == name {
            assert(names[n - 1]@ == name);
        } else {
            law_the_last_value_holds(names, values, name, n - 1);
            if last_value(names, values, name, n) is Some {
                let value = last_value(names, values, name, n)->0;
                let k = choose|k: int|
                    0 <= k < n - 1 && (#[trigger] names[k])@ == name && values[k]@ == value
                        && forall|m: int| k < m < n - 1 ==> (#[trigger] names[m])@ != name;
                assert(names[k]@ == name);
            }
        }
    }
}

/// Transcripts are ingested from the source that is named, once, and only changed ones
/// where that is asked.
pub proof fn law_ingest_options_set_what_they_name(
    args: Seq<Seq<char>>,
    i: int,
    source: Option<Seq<char>>,
    changed_only: bool,
    word: Seq<char>,
)
    requires
        0 <= i < args.len(),
    ensures
        ingest_asked(seq!["transcripts"@]) == Ok::<(Option<Seq<char>>, bool), ErrorView>(
            (None, false),
        ),
        ingest_asked(Seq::empty()) is Err,
        word != "transcripts"@ ==> ingest_asked(seq![word]) is Err,
        args[i] == "--changed-only"@ ==> ingest_from(args, i, source, changed_only) == ingest_from(
            args,
            i + 1,
            source,
            true,
        ),
        args[i] == "--source="@ + word ==> ingest_from(args, i, None, changed_only) == ingest_from(
            args,
            i + 1,
            Some(word),
            changed_only,
        ),
        args[i] == "--source"@ && i + 1 < args.len() && args[i + 1] == word ==> ingest_from(
            args,
            i,
            None,
            changed_only,
        ) == ingest_from(args, i + 2, Some(word), changed_only),
        source is Some && (args[i] == "--source"@ || args[i] == "--source="@ + word)
            ==> ingest_from(args, i, source, changed_only) is Err,
        ingest_from(args, args.len() as int, source, changed_only) == Ok::<
            (Option<Seq<char>>, bool),
            ErrorView,
        >((source, changed_only)),
{
    reveal_strlit("--changed-only");
    reveal_strlit("--source=");
    reveal_strlit("--source");
    law_behind_a_prefix_stands_the_rest("--source="@ + word, "--source="@, word);
    lemma_other_prefix("--changed-only"@, "--source="@);
    assert("--changed-only"@[2] == 'c' && "--source"@[2] == 's' && "--source"@.len() == 8);
    if behind("--source"@, "--source="@) is Some {
        law_behind_a_prefix_stands_the_rest(
            "--source"@,
            "--source="@,
            behind("--source"@, "--source="@)->0,
        );
    }
}

/// What is rebuilt is named alone, by its own word.
pub proof fn law_rebuilds_are_asked_for_by_name(args: Seq<Seq<char>>, group: RebuildGroup)
    ensures
        rebuild_asked(args) == Ok::<RebuildGroup, ErrorView>(group) <==> args.len() == 1 && args[0]
            == match group {
            RebuildGroup::Transcripts => "transcripts"@,
            RebuildGroup::Attribution => "attribution"@,
        },
{
    reveal_strlit("transcripts");
    reveal_strlit("attribution");
    assert("transcripts"@[0] == 't' && "attribution"@[0] == 'a');
}

/// Diagnostics are cleared of the provider that is named, by flag or by itself, or of all;
/// never of both, and of one provider only.
pub proof fn law_clearing_names_one_provider_or_all(
    args: Seq<Seq<char>>,
    i: int,
    provider: Option<Seq<char>>,
    all: bool,
    word: Seq<char>,
)
    requires
        0 <= i < args.len(),
        word.len() > 0,
    ensures
        args[i] == "--all"@ ==> clearing_from(args, i, provider, all) == clearing_from(
            args,
            i + 1,
            provider,
            true,
        ),
        args[i] == "--provider="@ + word ==> clearing_from(args, i, None, all) == clearing_from(
            args,
            i + 1,
            Some(word),
            all,
        ),
        args[i] == "--provider"@ && i + 1 < args.len() && args[i + 1] == word ==> clearing_from(
            args,
            i,
            None,
            all,
        ) == clearing_from(args, i + 2, Some(word), all),
        args[i] == word && word[0] != '-' ==> clearing_from(args, i, None, all) == clearing_from(
            args,
            i + 1,
            Some(word),
            all,
        ),
        provider is Some && (args[i] == "--provider="@ + word || (args[i] == word && word[0]
            != '-')) ==> clearing_from(args, i, provider, all) is Err,
        clearing_from(args, args.len() as int, provider, all) is Err <==> all && provider is Some,
        !(all && provider is Some) ==> clearing_from(args, args.len() as int, provider, all)
            == Ok::<(Option<Seq<char>>, bool), ErrorView>((provider, all)),
{
    reveal_strlit("--all");
    reveal_strlit("--provider=");
    reveal_strlit("--provider");
    reveal_strlit("--");
    law_behind_a_prefix_stands_the_rest("--provider="@ + word, "--provider="@, word);
    lemma_other_prefix("--all"@, "--provider="@);
    assert("--all"@[2] == 'a' && "--provider"@[2] == 'p' && "--provider"@.len() == 10);
    assert("--all"@[0] == '-' && "--provider"@[0] == '-' && "--"@[0] == '-');
    if behind("--provider"@, "--provider="@) is Some {
        law_behind_a_prefix_stands_the_rest(
            "--provider"@,
            "--provider="@,
            behind("--provider"@, "--provider="@)->0,
        );
    }
    if word[0] != '-' {
        if behind(word, "--provider="@) is Some {
            let rest = behind(word, "--provider="@)->0;
            law_behind_a_prefix_stands_the_rest(word, "--provider="@, rest);
            assert(("--provider="@ + rest)[0] == '-');
        }
        if begins_with(word, "--"@) {
            assert(word.take(2)[0] == word[0]);
        }
    }
}

} // verus!
