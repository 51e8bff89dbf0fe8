use hangman::input::{parse, InputError};

#[test]
fn a_single_ascii_letter_is_a_guess() {
    assert_eq!(parse("a"), Ok('a'));
    assert_eq!(parse("z"), Ok('z'));
    assert_eq!(parse("A"), Ok('A'));
    assert_eq!(parse("Z"), Ok('Z'));
}

#[test]
fn a_line_of_another_length_is_no_guess() {
    assert_eq!(parse(""), Err(InputError::NotOneLetter));
    assert_eq!(parse("ab"), Err(InputError::NotOneLetter));
    assert_eq!(parse("a "), Err(InputError::NotOneLetter));
    assert_eq!(parse("12"), Err(InputError::NotOneLetter));
}

#[test]
fn a_character_of_several_bytes_is_no_guess() {
    assert_eq!(parse("\u{e9}"), Err(InputError::NotOneLetter));
    assert_eq!(parse("\u{80}"), Err(InputError::NotOneLetter));
}

#[test]
fn a_single_character_that_is_no_letter_is_no_guess() {
    assert_eq!(parse("1"), Err(InputError::NotALetter));
    assert_eq!(parse("!"), Err(InputError::NotALetter));
    assert_eq!(parse(" "), Err(InputError::NotALetter));
    assert_eq!(parse("\u{7f}"), Err(InputError::NotALetter));
    assert_eq!(parse("@"), Err(InputError::NotALetter));
    assert_eq!(parse("["), Err(InputError::NotALetter));
    assert_eq!(parse("`"), Err(InputError::NotALetter));
    assert_eq!(parse("{"), Err(InputError::NotALetter));
}
