//! The table of commands and the laws of the parser, on concrete lines.

use aub::cli::command::{Command, FlagSupport};
use aub::cli::help::help_text;
use aub::cli::invocation::{parse_invocation, Request};
use aub::error::Error;

fn line(items: &[&str]) -> Vec<Option<String>> {
    let mut args = vec![Some("aub".to_string())];
    args.extend(items.iter().map(|item| Some(item.to_string())));
    args
}

#[test]
fn names_read_back_and_are_distinct() {
    for command in Command::ALL {
        assert_eq!(Command::from_name(command.name()), Some(command));
    }
    assert_eq!(Command::from_name("clear-captures"), Some(Command::ClearDiagnostics));
    assert_eq!(Command::from_name("Status"), None);
}

#[test]
fn hooks_are_hidden_from_help() {
    let help = help_text();
    for command in Command::ALL {
        let hidden = command.name().starts_with("__");
        assert_eq!(command.summary().is_none(), hidden, "{command:?}");
        assert_eq!(command.question().is_none(), hidden, "{command:?}");
        assert_eq!(help.contains(command.name()), !hidden, "{command:?}");
    }
    assert!(help.ends_with("aub            prints the version; aub --help prints this"));
}

#[test]
fn refused_flags_are_those_the_policy_rejects() {
    for command in Command::ALL {
        let policy = command.flag_policy();
        let rejected = [
            policy.format,
            policy.explain,
            policy.account,
            policy.model,
            policy.no_color,
        ]
        .iter()
        .filter(|support| **support != FlagSupport::Accepted)
        .count();
        assert_eq!(command.refused_flags().len(), rejected, "{command:?}");
    }
}

#[test]
fn values_are_taken_from_the_next_argument_or_behind_an_equals_sign() {
    for spelling in [vec!["status", "--account", "-v"], vec!["status", "--account=-v"]] {
        match parse_invocation(&line(&spelling)) {
            Ok(Request::Run(invocation)) => {
                assert_eq!(invocation.account.as_deref(), Some("-v"));
                assert_eq!(invocation.verbosity, 0);
            }
            other => panic!("{other:?}"),
        }
    }
    assert_eq!(
        parse_invocation(&line(&["status", "--account"])),
        Err(Error::Usage("--account requires an argument".to_string()))
    );
    match parse_invocation(&line(&["status", "--format", "xml"])) {
        Err(Error::Usage(message)) => assert!(message.contains("xml"), "{message}"),
        other => panic!("{other:?}"),
    }
}

#[test]
fn arguments_must_be_text() {
    let early = vec![Some("aub".to_string()), None];
    assert_eq!(
        parse_invocation(&early),
        Err(Error::Usage("argument is not valid UTF-8".to_string()))
    );
    let late = vec![Some("aub".to_string()), Some("status".to_string()), None];
    assert_eq!(
        parse_invocation(&late),
        Err(Error::Usage(
            "argument is not valid UTF-8; pass only UTF-8 arguments".to_string()
        ))
    );
    assert_eq!(parse_invocation(&vec![]), Ok(Request::Version));
}

#[test]
fn verbosity_counts_up_to_its_limit() {
    let mut items = vec!["-v"; 200];
    items.push("status");
    items.extend(vec!["-v"; 55]);
    match parse_invocation(&line(&items)) {
        Ok(Request::Run(invocation)) => assert_eq!(invocation.verbosity, 255),
        other => panic!("{other:?}"),
    }
}

/// Help names each command that ships, with what it says of itself, and no hook.
#[test]
fn help_names_what_ships_and_nothing_else() {
    let help = help_text();
    for command in Command::ALL {
        match command.summary() {
            Some(summary) => {
                assert!(help.contains(command.name()) && help.contains(summary));
                assert!(help.contains(command.question().unwrap()));
                assert!(help.contains(&command.format_help()));
                for refused in command.refused_flags() {
                    assert!(help.contains(&refused), "{refused}");
                }
            }
            None => assert!(!help.contains(command.name()), "{}", command.name()),
        }
    }
}
