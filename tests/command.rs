use hamis::command::{parse_command, Command};
use hamis::text::{contains, decimal_text};

#[test]
fn start_needs_a_mention() {
    assert_eq!(
        parse_command(5, "Hamis START", Some(9)),
        Command::Start { initiator: 5, invited: 9 }
    );
    assert_eq!(parse_command(5, "hamis start", None), Command::PlayAlone);
}

#[test]
fn score_command() {
    assert_eq!(parse_command(5, "what is my HAMIS score", None), Command::Score);
}

#[test]
fn gamble_reads_the_first_number() {
    assert_eq!(parse_command(5, "hamis gamble 7", None), Command::Gamble(7));
    assert_eq!(parse_command(5, "hamis gamble 0", None), Command::Gamble(0));
    assert_eq!(parse_command(5, "hamis gamble 12 3", None), Command::GambleOutOfRange);
    assert_eq!(
        parse_command(5, "hamis gamble 99999999999999999999999", None),
        Command::GambleOutOfRange
    );
    assert_eq!(parse_command(5, "hamis gamble on red", None), Command::GambleWithoutNumber);
}

#[test]
fn start_takes_precedence() {
    assert_eq!(parse_command(5, "hamis score hamis start", None), Command::PlayAlone);
}

#[test]
fn other_text_is_ignored() {
    assert_eq!(parse_command(5, "hello there", Some(3)), Command::Ignore);
}

#[test]
fn substring_search() {
    assert!(contains("abcabd", "abd"));
    assert!(contains("abc", ""));
    assert!(!contains("ab", "abc"));
    assert!(!contains("abcab", "abd"));
}

#[test]
fn decimal_text_of_numbers() {
    assert_eq!(decimal_text(0), "0");
    assert_eq!(decimal_text(7), "7");
    assert_eq!(decimal_text(1203), "1203");
    assert_eq!(decimal_text(u64::MAX), u64::MAX.to_string());
}

