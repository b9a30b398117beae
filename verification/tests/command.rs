use guessing_game::{Command, GuessSession, MutableRangeInclusive, parse_command, parse_u32_bytes};

#[test]
fn recognizes_the_four_commands() {
    assert_eq!(parse_command("bot".as_bytes()), Command::Bot);
    assert_eq!(parse_command("quit".as_bytes()), Command::Quit);
    assert_eq!(parse_command("best".as_bytes()), Command::Best);
    assert_eq!(parse_command("secret".as_bytes()), Command::Secret);
}

#[test]
fn commands_are_case_sensitive_exact_matches() {
    assert_eq!(parse_command("Bot".as_bytes()), Command::Invalid);
    assert_eq!(parse_command("QUIT".as_bytes()), Command::Invalid);
    assert_eq!(parse_command("bests".as_bytes()), Command::Invalid);
    assert_eq!(parse_command("secrets".as_bytes()), Command::Invalid);
    assert_eq!(parse_command("bo".as_bytes()), Command::Invalid);
}

#[test]
fn numbers_fall_through_to_guesses() {
    assert_eq!(parse_command("42".as_bytes()), Command::Guess(42));
    assert_eq!(parse_command("+42".as_bytes()), Command::Guess(42));
    assert_eq!(parse_command("007".as_bytes()), Command::Guess(7));
    assert_eq!(parse_command("0".as_bytes()), Command::Guess(0));
    assert_eq!(parse_command("4294967295".as_bytes()), Command::Guess(u32::MAX));
}

#[test]
fn malformed_input_is_invalid() {
    assert_eq!(parse_command("".as_bytes()), Command::Invalid);
    assert_eq!(parse_command("+".as_bytes()), Command::Invalid);
    assert_eq!(parse_command("-1".as_bytes()), Command::Invalid);
    assert_eq!(parse_command("12a".as_bytes()), Command::Invalid);
    assert_eq!(parse_command("4294967296".as_bytes()), Command::Invalid);
    assert_eq!(parse_command("99999999999999999999".as_bytes()), Command::Invalid);
    assert_eq!(parse_command("1 2".as_bytes()), Command::Invalid);
    assert_eq!(parse_command("++1".as_bytes()), Command::Invalid);
}

#[test]
fn parser_agrees_with_str_parse() {
    // The byte-level reader accepts exactly what str::parse::<u32> accepts
    // on a trimmed line, and returns the same value.
    for text in [
        "0", "1", "42", "100", "+5", "007", "4294967295", "4294967296", "", "+", "-0", "-7",
        "bot", "1.5", " 1", "1 ", "0x10",
    ] {
        assert_eq!(parse_u32_bytes(text.as_bytes()), text.parse::<u32>().ok(), "input {text:?}");
    }
}

#[test]
fn quit_is_classified_without_touching_the_session() {
    // A quit on the first prompt ends the game at once: no guess is
    // evaluated, so the session state is exactly as constructed and the
    // secret was never revealed through an outcome.
    let full = MutableRangeInclusive::new(1, 100);
    let session = GuessSession::new(full, 42);
    let command = parse_command("quit".as_bytes());
    assert_eq!(command, Command::Quit);
    // The caller stops here; nothing was evaluated.
    assert_eq!(session.tries_remaining, 7);
    assert_eq!(session.candidates.start, 1);
    assert_eq!(session.candidates.end, 100);
    assert!(!session.is_terminal());
}
