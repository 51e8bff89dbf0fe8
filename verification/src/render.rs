//! The text shown to the player: the secret with unguessed letters hidden
//! while the round is on, and the closing message once it has ended.

use vstd::prelude::*;
use crate::game::{Game, GameState, GameView};
use crate::text::{chars_of, contains_char};

verus! {

/// The character for one decimal digit.
pub open spec fn digit(d: nat) -> char {
    if d == 0 {
        '0'
    } else if d == 1 {
        '1'
    } else if d == 2 {
        '2'
    } else if d == 3 {
        '3'
    } else if d == 4 {
        '4'
    } else if d == 5 {
        '5'
    } else if d == 6 {
        '6'
    } else if d == 7 {
        '7'
    } else if d == 8 {
        '8'
    } else {
        '9'
    }
}

/// `n` in decimal, without leading zeros.
pub open spec fn decimal(n: nat) -> Seq<char>
    decreases n,
{
    if n < 10 {
        seq![digit(n)]
    } else {
        decimal(n / 10).push(digit(n % 10))
    }
}

/// What stands for the character `c` of the secret: itself once it has been
/// guessed, an underscore before.
pub open spec fn shown(c: char, guesses: Seq<char>) -> char {
    if guesses.contains(c) {
        c
    } else {
        '_'
    }
}

/// The secret with each unguessed character hidden, and one space between
/// neighbours.
pub open spec fn obscured(secret: Seq<char>, guesses: Seq<char>) -> Seq<char> {
    Seq::new(
        if secret.len() == 0 {
            0
        } else {
            (2 * secret.len() - 1) as nat
        },
        |k: int|
            if k % 2 == 0 {
                shown(secret[k / 2], guesses)
            } else {
                ' '
            },
    )
}

/// The guesses in their order, with a comma and a space between neighbours.
pub open spec fn listed(guesses: Seq<char>) -> Seq<char> {
    Seq::new(
        if guesses.len() == 0 {
            0
        } else {
            (3 * guesses.len() - 2) as nat
        },
        |k: int|
            if k % 3 == 0 {
                guesses[k / 3]
            } else if k % 3 == 1 {
                ','
            } else {
                ' '
            },
    )
}

/// The message for a round that was won.
pub open spec fn won_text(v: GameView) -> Seq<char> {
    "Well done you guessed the secret ("@ + v.secret
        + ")\nNow all of your hopes and dreams will come true"@
}

/// The message for a round that was lost.
pub open spec fn lost_text(v: GameView) -> Seq<char> {
    "You failed to guess the secret ("@ + v.secret
        + ")\nNever mind, we can't all be winners.\nNow if you could just join this queue for the fabulous Ark Ship B..."@
}

/// The message for a round that is still on.
pub open spec fn in_progress_text(v: GameView) -> Seq<char> {
    "\n            "@ + obscured(v.secret, v.guesses) + "\nGuesses   : "@ + listed(v.guesses)
        + "\nRemaining : "@ + decimal(v.remaining) + "\n"@
}

/// The message for a round, by its status.
pub open spec fn rendering(v: GameView) -> Seq<char> {
    match v.state() {
        GameState::InProgress => in_progress_text(v),
        GameState::Won => won_text(v),
        GameState::Lost => lost_text(v),
    }
}

fn digit_char(d: u32) -> (c: char)
    requires
        d < 10,
    ensures
        c == digit(d as nat),
{
    if d == 0 {
        '0'
    } else if d == 1 {
        '1'
    } else if d == 2 {
        '2'
    } else if d == 3 {
        '3'
    } else if d == 4 {
        '4'
    } else if d == 5 {
        '5'
    } else if d == 6 {
        '6'
    } else if d == 7 {
        '7'
    } else if d == 8 {
        '8'
    } else {
        '9'
    }
}

fn push_decimal(text: &mut String, n: u32)
    ensures
        final(text)@ == old(text)@ + decimal(n as nat),
    decreases n,
{
    if n >= 10 {
        push_decimal(text, n / 10);
    }
    text.push(digit_char(n % 10));
}

/// A description of the round as it stands: the closing message with the
/// secret once the round is won or lost; else the obscured secret, the
/// guesses and the number of wrong guesses left.
pub fn render(game: &Game) -> (text: String)
    ensures
        text@ == rendering(game@),
{
    match game.state() {
        GameState::InProgress => game_in_progress_message(game),
        GameState::Won => game_won_message(game),
        GameState::Lost => game_lost_message(game),
    }
}

/// The message for a round that was won, which reveals the secret.
pub fn game_won_message(game: &Game) -> (text: String)
    ensures
        text@ == won_text(game@),
{
    let mut text = "Well done you guessed the secret (".to_owned();
    text.append(game.secret());
    text.append(")\nNow all of your hopes and dreams will come true");
    text
}

/// The message for a round that was lost, which reveals the secret.
pub fn game_lost_message(game: &Game) -> (text: String)
    ensures
        text@ == lost_text(game@),
{
    let mut text = "You failed to guess the secret (".to_owned();
    text.append(game.secret());
    text.append(
        ")\nNever mind, we can't all be winners.\nNow if you could just join this queue for the fabulous Ark Ship B...",
    );
    text
}

/// The message for a round that is still on.
pub fn game_in_progress_message(game: &Game) -> (text: String)
    ensures
        text@ == in_progress_text(game@),
{
    let mut text = "\n            ".to_owned();
    text.append(obscured_secret(game).as_str());
    text.append("\nGuesses   : ");
    text.append(display_guesses(game.guesses()).as_str());
    text.append("\nRemaining : ");
    push_decimal(&mut text, game.remaining_guesses());
    text.append("\n");
    text
}

/// The secret with each unguessed character shown as an underscore.
pub fn obscured_secret(game: &Game) -> (text: String)
    ensures
        text@ == obscured(game@.secret, game@.guesses),
{
    let secret = chars_of(game.secret());
    let guesses = game.guesses();
    let mut text = String::new();
    let mut i: usize = 0;
    while i < secret.len()
        invariant
            i <= secret.len(),
            secret@ == game@.secret,
            guesses@ == game@.guesses,
            text@ == obscured(secret@.take(i as int), guesses@),
        decreases secret.len() - i,
    {
        let c = secret[i];
        let ghost before = text@;
        if i > 0 {
            text.push(' ');
        }
        if contains_char(guesses, c) {
            text.push(c);
        } else {
            text.push('_');
        }
        i += 1;
        assert(text@ =~= obscured(secret@.take(i as int), guesses@));
    }
    assert(secret@.take(secret@.len() as int) == secret@);
    text
}

/// The guesses, separated by a comma and a space.
pub fn display_guesses(guesses: &[char]) -> (text: String)
    ensures
        text@ == listed(guesses@),
{
    let mut text = String::new();
    let mut i: usize = 0;
    while i < guesses.len()
        invariant
            i <= guesses.len(),
            text@ == listed(guesses@.take(i as int)),
        decreases guesses.len() - i,
    {
        if i > 0 {
            text.push(',');
            text.push(' ');
        }
        text.push(guesses[i]);
        i += 1;
        assert(text@ =~= listed(guesses@.take(i as int)));
    }
    assert(guesses@.take(guesses@.len() as int) == guesses@);
    text
}

} // verus!
