//! A single-player word-guessing game: the rules of one round, the choice of
//! the secret word, and the text shown to the player after each turn.

use vstd::prelude::*;

pub mod game;
pub mod input;
pub mod render;
pub mod text;
pub mod words;

pub use crate::game::{Game, GameError, GameResult, GameState, GameView};
pub use crate::render::render;
pub use crate::words::{choose_secret, WordError, WordSource};

verus! {

/// How a round is set up.
pub struct Config {
    /// The number of wrong guesses that the player is allowed.
    pub total_guesses: u32,
    /// Where the secret comes from.
    pub word_source: WordSource,
}

impl Default for Config {
    /// Seven wrong guesses, and a secret from the fixed list.
    fn default() -> (config: Config)
        ensures
            config.total_guesses == 7,
            config.word_source is BuiltIn,
    {
        Config { total_guesses: 7, word_source: WordSource::BuiltIn }
    }
}

/// A fresh round on a secret drawn from the configured source, with the
/// configured budget; or the reason why no secret could be chosen. `file` is
/// what came of reading the word file, as for `choose_secret`.
pub fn start_game(config: Config, file: Result<String, String>) -> (game: Result<Game, WordError>)
    ensures
        match crate::words::candidates(config.word_source, file) {
            Ok(list) => if list.len() == 0 {
                game matches Err(WordError::EmptyWordList)
            } else {
                &&& game is Ok
                &&& list.contains(game->Ok_0@.secret)
                &&& game->Ok_0@ == GameView::fresh(game->Ok_0@.secret, config.total_guesses as nat)
            },
            Err(e) => game matches Err(cause) && cause == e,
        },
        config.word_source is BuiltIn ==> game is Ok,
        game is Ok ==> crate::words::valid_word(game->Ok_0@.secret),
        game is Ok && config.total_guesses > 0 ==> game->Ok_0@.state() == GameState::InProgress,
{
    match choose_secret(config.word_source, file) {
        Ok(secret) => Ok(Game::new(secret, config.total_guesses)),
        Err(e) => Err(e),
    }
}

} // verus!
