use golem::command::Command;

#[test]
fn keyword_help() {
    assert_eq!(Command::parse("help"), Command::Help);
}

#[test]
fn keyword_bingo() {
    assert_eq!(Command::parse("bingo"), Command::Bingo);
}

#[test]
fn keyword_needs_exact_text() {
    assert_eq!(Command::parse("help me"), Command::Unknown);
    assert_eq!(Command::parse("bingo!"), Command::Unknown);
}

#[test]
fn codefall_without_digit_defaults_to_one() {
    assert_eq!(Command::parse("codefall"), Command::Codefall(1));
}

#[test]
fn codefall_with_digit() {
    assert_eq!(Command::parse("codefall 1"), Command::Codefall(1));
    assert_eq!(Command::parse("codefall 2"), Command::Codefall(2));
    assert_eq!(Command::parse("codefall 3"), Command::Codefall(3));
}

#[test]
fn codefall_digit_out_of_range_defaults_to_one() {
    assert_eq!(Command::parse("codefall 4"), Command::Codefall(1));
    assert_eq!(Command::parse("codefall 0"), Command::Codefall(1));
}

#[test]
fn codefall_matches_anywhere_in_the_text() {
    assert_eq!(Command::parse("xcodefall 3"), Command::Codefall(3));
    assert_eq!(Command::parse("please codefall now"), Command::Codefall(1));
}

#[test]
fn codefall_takes_priority_over_multiple() {
    assert_eq!(Command::parse("mult 5 codefall"), Command::Codefall(1));
}

#[test]
fn multiple_word_forms() {
    assert_eq!(Command::parse("mult 10"), Command::Multiple(1000));
    assert_eq!(Command::parse("multi 10"), Command::Multiple(1000));
    assert_eq!(Command::parse("multiply 10"), Command::Multiple(1000));
    assert_eq!(Command::parse("multiple 10"), Command::Multiple(1000));
    assert_eq!(Command::parse("multiples 10"), Command::Multiple(1000));
}

#[test]
fn multiple_with_dollar_sign_and_fraction() {
    assert_eq!(Command::parse("multiply $5.5"), Command::Multiple(550));
    assert_eq!(Command::parse("mult $0.07"), Command::Multiple(7));
    assert_eq!(Command::parse("multiples 3.33"), Command::Multiple(333));
}

#[test]
fn multiple_takes_at_most_two_fraction_digits() {
    assert_eq!(Command::parse("multi 7.125"), Command::Multiple(712));
}

#[test]
fn multiple_needs_a_digit() {
    assert_eq!(Command::parse("mult $"), Command::Unknown);
    assert_eq!(Command::parse("mult money"), Command::Unknown);
    assert_eq!(Command::parse("multipl 5"), Command::Unknown);
}

#[test]
fn multiple_matches_anywhere_in_the_text() {
    assert_eq!(Command::parse("go mult 10 now"), Command::Multiple(1000));
}

#[test]
fn multiple_saturates_on_huge_values() {
    assert_eq!(
        Command::parse("mult 99999999999999999999999999"),
        Command::Multiple(u64::MAX)
    );
}

#[test]
fn from_agrees_with_parse() {
    assert_eq!(Command::from("help"), Command::Help);
    assert_eq!(Command::from("codefall 2"), Command::Codefall(2));
    assert_eq!(Command::from("mult $5.5"), Command::Multiple(550));
}

#[test]
fn empty_and_noise_are_unknown() {
    assert_eq!(Command::parse(""), Command::Unknown);
    assert_eq!(Command::parse("hello there"), Command::Unknown);
}
