use bors_core::command::{parse_commands, tokenize, BorsCommand, CommandParseError};
use bors_core::text::u64_to_string;

#[test]
fn parse_ping_yields_exactly_one_ok_ping() {
    let res = parse_commands("@bors ping");
    assert_eq!(res.len(), 1);
    assert!(matches!(res[0], Ok(BorsCommand::Ping)));
}

#[test]
fn parse_bare_trigger_yields_exactly_one_missing_command() {
    let res = parse_commands("@bors");
    assert_eq!(res.len(), 1);
    assert!(matches!(res[0], Err(CommandParseError::MissingCommand)));
}

#[test]
fn parse_unknown_keyword_yields_exactly_one_unknown_command() {
    let res = parse_commands("@bors frobnicate");
    assert_eq!(res.len(), 1);
    match &res[0] {
        Err(CommandParseError::UnknownCommand(token)) => assert_eq!(token, "frobnicate"),
        other => panic!("expected UnknownCommand, got {:?}", other),
    }
}

#[test]
fn parse_try_yields_exactly_one_ok_try() {
    let res = parse_commands("@bors try");
    assert_eq!(res.len(), 1);
    assert!(matches!(res[0], Ok(BorsCommand::Try)));
}

#[test]
fn parse_two_lines_keeps_both_results_in_order() {
    let res = parse_commands("@bors ping\n@bors bogus");
    assert_eq!(res.len(), 2);
    assert!(matches!(res[0], Ok(BorsCommand::Ping)));
    match &res[1] {
        Err(CommandParseError::UnknownCommand(token)) => assert_eq!(token, "bogus"),
        other => panic!("expected UnknownCommand, got {:?}", other),
    }
}

#[test]
fn parse_malformed_line_does_not_suppress_later_commands() {
    let res = parse_commands("@bors\nsome prose\n@bors try");
    assert_eq!(res.len(), 2);
    assert!(matches!(res[0], Err(CommandParseError::MissingCommand)));
    assert!(matches!(res[1], Ok(BorsCommand::Try)));
}

#[test]
fn parse_empty_text_yields_nothing() {
    assert!(parse_commands("").is_empty());
}

#[test]
fn parse_plain_prose_yields_nothing() {
    assert!(parse_commands("looks good to me\r\nthanks!").is_empty());
}

#[test]
fn parse_trigger_must_open_the_line() {
    assert!(parse_commands("please @bors ping").is_empty());
}

#[test]
fn parse_tolerates_crlf_and_extra_spaces() {
    let res = parse_commands("  @bors   ping  \r\n@bors try\r\n");
    assert_eq!(res.len(), 2);
    assert!(matches!(res[0], Ok(BorsCommand::Ping)));
    assert!(matches!(res[1], Ok(BorsCommand::Try)));
}

#[test]
fn parse_ignores_arguments_after_the_keyword() {
    let res = parse_commands("@bors ping please");
    assert_eq!(res.len(), 1);
    assert!(matches!(res[0], Ok(BorsCommand::Ping)));
}

#[test]
fn tokenize_splits_on_blanks_and_tabs() {
    let toks = tokenize("  @bors\ttry now ");
    assert_eq!(toks, vec!["@bors", "try", "now"]);
}

#[test]
fn tokenize_of_blank_line_is_empty() {
    assert!(tokenize("   \t ").is_empty());
    assert!(tokenize("").is_empty());
}

#[test]
fn u64_renders_in_decimal() {
    assert_eq!(u64_to_string(0), "0");
    assert_eq!(u64_to_string(7), "7");
    assert_eq!(u64_to_string(42), "42");
    assert_eq!(u64_to_string(1200300), "1200300");
    assert_eq!(u64_to_string(u64::MAX), "18446744073709551615");
}
