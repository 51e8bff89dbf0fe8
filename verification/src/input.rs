//! Reading a guess from a line of input.

use vstd::prelude::*;
use crate::text::chars_of;
use crate::words::{is_letter, is_letter_char};

verus! {

/// Why a line of input is no guess.
#[derive(Debug, PartialEq, Eq, Structural, Clone, Copy)]
pub enum InputError {
    /// The line is not a single one-byte character.
    NotOneLetter,
    /// The character is not an ASCII letter.
    NotALetter,
}

/// The line is one character that takes one byte.
pub open spec fn single_byte(line: Seq<char>) -> bool {
    line.len() == 1 && line[0] <= '\u{7f}'
}

/// The guess that a line of input stands for, or why it stands for none.
pub open spec fn parsed(line: Seq<char>) -> Result<char, InputError> {
    if !single_byte(line) {
        Err(InputError::NotOneLetter)
    } else if !is_letter(line[0]) {
        Err(InputError::NotALetter)
    } else {
        Ok(line[0])
    }
}

/// The guess in `line`, which is to hold one ASCII letter and nothing else.
pub fn parse(line: &str) -> (guess: Result<char, InputError>)
    ensures
        guess == parsed(line@),
{
    let letters = chars_of(line);
    if letters.len() != 1 || letters[0] > '\u{7f}' {
        return Err(InputError::NotOneLetter);
    }
    let c = letters[0];
    if !is_letter_char(c) {
        return Err(InputError::NotALetter);
    }
    Ok(c)
}

} // verus!
