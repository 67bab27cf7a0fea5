//! The help text, made from what the commands state of themselves.

use crate::cli::command::{
    every_command, law_every_command_is_listed, law_hooks_are_hidden, position, refused, Command,
};
use crate::cli::plain::{
    lemma_commands_are_plain, lemma_help_is_plain, lemma_plain_joined, lemma_plain_names_no_hook,
    lemma_plain_together, plain, plainly,
};
use crate::sets::{join_texts, joined, lemma_within_joined, texts};
use crate::text::{lemma_within_between, lemma_within_chain, within};
use vstd::prelude::*;
use vstd::string::*;

verus! {

/// A name with spaces up to the column of descriptions.
pub open spec fn filled(name: Seq<char>) -> Seq<char> {
    if name.len() < 8 {
        name + Seq::new((8 - name.len()) as nat, |i: int| ' ')
    } else {
        name
    }
}

/// The line that lists a command; a hook has none.
pub open spec fn listing(command: Command) -> Seq<Seq<char>> {
    match command.summary_text() {
        Some(summary) => seq!["  "@ + filled(command.token()) + " "@ + summary],
        None => Seq::empty(),
    }
}

/// The listings of the first `n` commands.
pub open spec fn listings(n: int) -> Seq<Seq<char>>
    decreases n,
{
    if n <= 0 {
        Seq::empty()
    } else {
        listings(n - 1) + listing(every_command()[n - 1])
    }
}

/// What help says of a command: its question, its refusals, its formats and its
/// options. A hook has no such block.
pub open spec fn block(command: Command) -> Seq<Seq<char>> {
    match command.question_text() {
        Some(question) => {
            let head = seq![""@, command.token() + ":"@, "  answers: "@ + question];
            let refuses = if command.refusals().len() > 0 {
                seq!["  refuses: "@ + joined(command.refusals(), "; "@)]
            } else {
                Seq::empty()
            };
            let format = seq!["  format: "@ + command.format_text()];
            let options = match command.options_text() {
                Some(text) => seq!["  options: "@ + text],
                None => Seq::empty(),
            };
            head + refuses + format + options
        },
        None => Seq::empty(),
    }
}

/// The blocks of the first `n` commands.
pub open spec fn blocks(n: int) -> Seq<Seq<char>>
    decreases n,
{
    if n <= 0 {
        Seq::empty()
    } else {
        blocks(n - 1) + block(every_command()[n - 1])
    }
}

/// The lines help begins with.
pub open spec fn opening() -> Seq<Seq<char>> {
    seq![
        "aub: one ledger for LLM consumption"@,
        ""@,
        "usage: aub [-v...] <command> [--format text|json] [options]"@,
        "shared flags: -v, --format text|json, --explain[=summary|full], --account NAME, --model MODEL, --no-color"@,
        ""@,
        "commands:"@,
    ]
}

/// The lines of help.
pub open spec fn help_lines() -> Seq<Seq<char>> {
    opening() + listings(23) + blocks(23) + seq![
        ""@,
        "aub            prints the version; aub --help prints this"@,
    ]
}

fn push_line(lines: &mut Vec<String>, line: String)
    ensures
        texts(final(lines)@) == texts(old(lines)@).push(line@),
{
    lines.push(line);
    assert(texts(lines@) =~= texts(old(lines)@).push(line@));
}

fn push_text(lines: &mut Vec<String>, before: &str, line: &str)
    ensures
        texts(final(lines)@) == texts(old(lines)@).push(before@ + line@),
{
    let mut text: String = before.to_owned();
    text.append(line);
    push_line(lines, text);
}

fn filled_text(name: &str) -> (text: String)
    ensures
        text@ == filled(name@),
{
    let mut text: String = name.to_owned();
    let mut count: usize = name.unicode_len();
    let ghost mut spaces: Seq<char> = Seq::empty();
    while count < 8
        invariant
            spaces == Seq::new((count - name@.len()) as nat, |i: int| ' '),
            text@ == name@ + spaces,
            count >= name@.len(),
            count <= 8 || count == name@.len(),
        decreases 8 - count,
    {
        proof {
            reveal_strlit(" ");
            spaces = spaces.push(' ');
        }
        text.append(" ");
        assert(text@ =~= name@ + spaces);
        count = count + 1;
        assert(spaces =~= Seq::new((count - name@.len()) as nat, |i: int| ' '));
    }
    assert(text@ =~= filled(name@));
    text
}

fn push_listing(lines: &mut Vec<String>, command: Command)
    ensures
        texts(final(lines)@) == texts(old(lines)@) + listing(command),
{
    match command.summary() {
        Some(summary) => {
            let mut line: String = "  ".to_owned();
            line.append(filled_text(command.name()).as_str());
            line.append(" ");
            line.append(summary);
            push_line(lines, line);
        },
        None => {},
    }
    assert(texts(lines@) =~= texts(old(lines)@) + listing(command));
}

fn push_block(lines: &mut Vec<String>, command: Command)
    ensures
        texts(final(lines)@) == texts(old(lines)@) + block(command),
{
    let ghost before = texts(lines@);
    let question: &'static str = match command.question() {
        Some(question) => question,
        None => {
            assert(texts(lines@) =~= before + block(command));
            return;
        },
    };
    push_line(lines, "".to_owned());
    let mut name: String = command.name().to_owned();
    name.append(":");
    push_line(lines, name);
    push_text(lines, "  answers: ", question);
    let refused: Vec<String> = command.refused_flags();
    assert(texts(refused@).len() == refused@.len());
    if refused.len() > 0 {
        push_text(lines, "  refuses: ", join_texts(&refused, "; ").as_str());
    }
    push_text(lines, "  format: ", command.format_help().as_str());
    match command.options_help() {
        Some(options) => {
            push_text(lines, "  options: ", options);
        },
        None => {},
    }
    assert(texts(lines@) =~= before + block(command));
}

/// The help text: a line for each command, then a block for each that states the
/// question it answers, the shared flags it refuses and why, and its formats.
pub fn help_text() -> (text: String)
    ensures
        text@ == joined(help_lines(), "\n"@),
{
    let mut lines: Vec<String> = Vec::new();
    assert(texts(lines@) =~= Seq::<Seq<char>>::empty());
    push_line(&mut lines, "aub: one ledger for LLM consumption".to_owned());
    push_line(&mut lines, "".to_owned());
    push_line(
        &mut lines,
        "usage: aub [-v...] <command> [--format text|json] [options]".to_owned(),
    );
    push_line(
        &mut lines,
        "shared flags: -v, --format text|json, --explain[=summary|full], --account NAME, --model MODEL, --no-color".to_owned(),
    );
    push_line(&mut lines, "".to_owned());
    push_line(&mut lines, "commands:".to_owned());
    assert(texts(lines@) =~= opening());
    let all: [Command; 23] = Command::ALL;
    let mut i: usize = 0;
    assert(texts(lines@) =~= opening() + listings(0));
    while i < 23
        invariant
            i <= 23,
            all@ == every_command(),
            texts(lines@) == opening() + listings(i as int),
        decreases 23 - i,
    {
        push_listing(&mut lines, all[i]);
        i = i + 1;
        assert(texts(lines@) =~= opening() + listings(i as int));
    }
    let ghost listed = texts(lines@);
    i = 0;
    assert(texts(lines@) =~= listed + blocks(0));
    while i < 23
        invariant
            i <= 23,
            all@ == every_command(),
            texts(lines@) == listed + blocks(i as int),
        decreases 23 - i,
    {
        push_block(&mut lines, all[i]);
        i = i + 1;
        assert(texts(lines@) =~= listed + blocks(i as int));
    }
    push_line(&mut lines, "".to_owned());
    push_line(&mut lines, "aub            prints the version; aub --help prints this".to_owned());
    assert(texts(lines@) =~= help_lines());
    join_texts(&lines, "\n")
}

proof fn lemma_blocks_hold(n: int, command: Command, line: Seq<char>)
    requires
        position(command) < n <= 23,
        block(command).contains(line),
    ensures
        blocks(n).contains(line),
    decreases n,
{
    law_every_command_is_listed(command);
    let last = block(every_command()[n - 1]);
    if position(command) == n - 1 {
        let k = choose|k: int| 0 <= k < last.len() && last[k] == line;
        assert(blocks(n)[blocks(n - 1).len() + k] == line);
    } else {
        lemma_blocks_hold(n - 1, command, line);
        let before = blocks(n - 1);
        let k = choose|k: int| 0 <= k < before.len() && before[k] == line;
        assert(blocks(n)[k] == line);
    }
}

/// Help states, for every command that is not a hook, the question it answers, the
/// flags it refuses with the reasons the parser gives, and the formats it accepts.
pub proof fn law_help_states_every_command(command: Command)
    requires
        command.question_text() is Some,
    ensures
        help_lines().contains("  answers: "@ + command.question_text()->0),
        help_lines().contains("  refuses: "@ + joined(command.refusals(), "; "@)),
        help_lines().contains("  format: "@ + command.format_text()),
{
    law_hooks_are_hidden(command);
    let answers = "  answers: "@ + command.question_text()->0;
    let refuses = "  refuses: "@ + joined(command.refusals(), "; "@);
    let format = "  format: "@ + command.format_text();
    assert(block(command)[2] == answers);
    assert(block(command)[3] == refuses);
    assert(block(command)[4] == format);
    lemma_blocks_hold(23, command, answers);
    lemma_blocks_hold(23, command, refuses);
    lemma_blocks_hold(23, command, format);
    lemma_blocks_are_in_help(answers);
    lemma_blocks_are_in_help(refuses);
    lemma_blocks_are_in_help(format);
}

proof fn lemma_blocks_are_in_help(line: Seq<char>)
    requires
        blocks(23).contains(line),
    ensures
        help_lines().contains(line),
{
    let k = choose|k: int| 0 <= k < blocks(23).len() && blocks(23)[k] == line;
    assert(help_lines()[(opening() + listings(23)).len() + k] == line);
}

proof fn lemma_listings_hold(n: int, command: Command)
    requires
        position(command) < n <= 23,
        command.summary_text() is Some,
    ensures
        listings(n).contains(listing(command)[0]),
    decreases n,
{
    law_every_command_is_listed(command);
    let before = listings(n - 1);
    if position(command) == n - 1 {
        assert(listings(n)[before.len() as int] == listing(command)[0]);
    } else {
        lemma_listings_hold(n - 1, command);
        let k = choose|k: int| 0 <= k < before.len() && before[k] == listing(command)[0];
        assert(listings(n)[k] == listing(command)[0]);
    }
}

/// What stands within a line of help stands within help.
proof fn lemma_within_help(line: Seq<char>, piece: Seq<char>)
    requires
        help_lines().contains(line),
        within(line, piece),
    ensures
        within(joined(help_lines(), "\n"@), piece),
{
    let k = choose|k: int| 0 <= k < help_lines().len() && help_lines()[k] == line;
    lemma_within_joined(help_lines(), "\n"@, k);
    lemma_within_chain(joined(help_lines(), "\n"@), line, piece);
}

/// What ends a line of help stands within help.
proof fn lemma_ending_within_help(before: Seq<char>, piece: Seq<char>)
    requires
        help_lines().contains(before + piece),
    ensures
        within(joined(help_lines(), "\n"@), piece),
{
    let none = Seq::<char>::empty();
    lemma_within_between(before, piece, none);
    assert(before + piece + none =~= before + piece);
    lemma_within_help(before + piece, piece);
}

proof fn lemma_filled(name: Seq<char>)
    ensures
        within(filled(name), name),
        plain(name) ==> plain(filled(name)),
{
    let none = Seq::<char>::empty();
    if name.len() < 8 {
        let spaces = Seq::new((8 - name.len()) as nat, |i: int| ' ');
        lemma_within_between(none, name, spaces);
        assert(none + name + spaces =~= filled(name));
        if plain(name) {
            assert(plain(spaces));
            lemma_plain_together(name, spaces);
        }
    } else {
        lemma_within_between(none, name, none);
        assert(none + name + none =~= filled(name));
    }
}

/// Help names every command that is not a hook, with its summary, the question it answers,
/// the formats it accepts and each of its refusals; and it names no hook.
pub proof fn law_help_names_commands_and_no_hooks(command: Command)
    ensures
        ({
            let help = joined(help_lines(), "\n"@);
            &&& command.summary_text() matches Some(summary) ==> {
                &&& within(help, command.token())
                &&& within(help, summary)
                &&& command.question_text() is Some
                &&& within(help, command.question_text()->0)
                &&& within(help, command.format_text())
                &&& forall|i: int|
                    0 <= i < command.refusals().len() ==> within(
                        help,
                        #[trigger] command.refusals()[i],
                    )
            }
            &&& command.summary_text() is None ==> !within(help, command.token())
        }),
{
    let help = joined(help_lines(), "\n"@);
    law_hooks_are_hidden(command);
    law_every_command_is_listed(command);
    match command.summary_text() {
        Some(summary) => {
            let line = listing(command)[0];
            let name = filled(command.token());
            lemma_listings_hold(23, command);
            let k = choose|k: int| 0 <= k < listings(23).len() && listings(23)[k] == line;
            assert(help_lines()[opening().len() + k] == line);
            assert(line == ("  "@ + name + " "@) + summary);
            lemma_ending_within_help("  "@ + name + " "@, summary);
            lemma_within_between("  "@, name, " "@ + summary);
            assert("  "@ + name + (" "@ + summary) =~= line);
            lemma_filled(command.token());
            lemma_within_chain(line, name, command.token());
            lemma_within_help(line, command.token());
            law_help_states_every_command(command);
            lemma_ending_within_help("  answers: "@, command.question_text()->0);
            lemma_ending_within_help("  format: "@, command.format_text());
            let refusals = joined(command.refusals(), "; "@);
            lemma_ending_within_help("  refuses: "@, refusals);
            assert forall|i: int| 0 <= i < command.refusals().len() implies within(
                help,
                #[trigger] command.refusals()[i],
            ) by {
                lemma_within_joined(command.refusals(), "; "@, i);
                lemma_within_chain(help, refusals, command.refusals()[i]);
            }
        },
        None => {
            lemma_help_lines_are_plain();
            lemma_help_is_plain();
            lemma_plain_joined(help_lines(), "\n"@);
            lemma_hooks_have_tokens(command);
            lemma_plain_names_no_hook(help, command.token());
        },
    }
}

proof fn lemma_hooks_have_tokens(command: Command)
    requires
        command.summary_text() is None,
    ensures
        command.token().len() >= 2,
{
    reveal_strlit("__logging-fixture");
    reveal_strlit("__state-check");
    reveal_strlit("__exit-class");
    reveal_strlit("__attempt-crash-hook");
    reveal_strlit("__projection-crash-hook");
    reveal_strlit("__cost-model-fixture");
}

/// Whether every line is plain.
spec fn all_plain(lines: Seq<Seq<char>>) -> bool {
    forall|i: int| 0 <= i < lines.len() ==> plain(#[trigger] lines[i])
}

proof fn lemma_all_plain_together(a: Seq<Seq<char>>, b: Seq<Seq<char>>)
    requires
        all_plain(a),
        all_plain(b),
    ensures
        all_plain(a + b),
{
    let lines = a + b;
    assert forall|i: int| 0 <= i < lines.len() implies plain(#[trigger] lines[i]) by {
        if i < a.len() {
            assert(lines[i] == a[i]);
        } else {
            assert(lines[i] == b[i - a.len()]);
        }
    }
}

proof fn lemma_refused_is_plain(flag: Seq<char>, reason: Option<Seq<char>>)
    requires
        plain(flag),
        plainly(reason),
    ensures
        all_plain(refused(flag, reason)),
{
    lemma_help_is_plain();
    match reason {
        Some(r) => {
            lemma_plain_together(flag, " ("@);
            lemma_plain_together(flag + " ("@, r);
            lemma_plain_together(flag + " ("@ + r, ")"@);
        },
        None => {},
    }
}

proof fn lemma_refusals_are_plain(command: Command)
    requires
        command.summary_text() is Some,
    ensures
        all_plain(command.refusals()),
{
    lemma_help_is_plain();
    lemma_commands_are_plain(command);
    let format = refused("--format"@, command.format_refusal());
    let explain = refused("--explain"@, command.explain_refusal());
    let account = refused("--account"@, command.account_refusal());
    let model = refused("--model"@, command.model_refusal());
    let color = refused("--no-color"@, command.no_color_refusal());
    lemma_refused_is_plain("--format"@, command.format_refusal());
    lemma_refused_is_plain("--explain"@, command.explain_refusal());
    lemma_refused_is_plain("--account"@, command.account_refusal());
    lemma_refused_is_plain("--model"@, command.model_refusal());
    lemma_refused_is_plain("--no-color"@, command.no_color_refusal());
    lemma_all_plain_together(format, explain);
    lemma_all_plain_together(format + explain, account);
    lemma_all_plain_together(format + explain + account, model);
    lemma_all_plain_together(format + explain + account + model, color);
}

proof fn lemma_listing_is_plain(command: Command)
    ensures
        all_plain(listing(command)),
{
    match command.summary_text() {
        Some(summary) => {
            let name = filled(command.token());
            lemma_help_is_plain();
            lemma_commands_are_plain(command);
            lemma_filled(command.token());
            lemma_plain_together("  "@, name);
            lemma_plain_together("  "@ + name, " "@);
            lemma_plain_together("  "@ + name + " "@, summary);
        },
        None => {},
    }
}

proof fn lemma_block_is_plain(command: Command)
    ensures
        all_plain(block(command)),
{
    law_hooks_are_hidden(command);
    match command.question_text() {
        Some(question) => {
            lemma_help_is_plain();
            lemma_commands_are_plain(command);
            lemma_refusals_are_plain(command);
            lemma_plain_together(command.token(), ":"@);
            lemma_plain_together("  answers: "@, question);
            lemma_plain_joined(command.refusals(), "; "@);
            lemma_plain_together("  refuses: "@, joined(command.refusals(), "; "@));
            match command.format_refusal() {
                Some(reason) => {
                    lemma_plain_together("text only: "@, reason);
                },
                None => {},
            }
            lemma_plain_together("  format: "@, command.format_text());
            match command.options_text() {
                Some(text) => {
                    lemma_plain_together("  options: "@, text);
                },
                None => {},
            }
        },
        None => {},
    }
}

proof fn lemma_commands_say_plainly(n: int)
    requires
        0 <= n <= 23,
    ensures
        all_plain(listings(n)),
        all_plain(blocks(n)),
    decreases n,
{
    if n > 0 {
        let command = every_command()[n - 1];
        lemma_commands_say_plainly(n - 1);
        lemma_listing_is_plain(command);
        lemma_block_is_plain(command);
        lemma_all_plain_together(listings(n - 1), listing(command));
        lemma_all_plain_together(blocks(n - 1), block(command));
    }
}

proof fn lemma_help_lines_are_plain()
    ensures
        all_plain(help_lines()),
{
    lemma_help_is_plain();
    lemma_commands_say_plainly(23);
    let closing = seq![""@, "aub            prints the version; aub --help prints this"@];
    lemma_all_plain_together(opening(), listings(23));
    lemma_all_plain_together(opening() + listings(23), blocks(23));
    lemma_all_plain_together(opening() + listings(23) + blocks(23), closing);
}

} // verus!
