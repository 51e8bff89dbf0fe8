use hangman::words::{
    built_in_words, extract_words, is_valid_word, load_words, select_random, word_at,
    words_from_file,
};
use hangman::{choose_secret, start_game, Config, GameState, WordError, WordSource};

fn no_file() -> Result<String, String> {
    Ok(String::new())
}

fn sample_text() -> String {
    "bacon\n123\n\negg!\nsausage".to_owned()
}

#[test]
fn the_built_in_list_has_its_four_words() {
    assert_eq!(built_in_words(), vec!["bacon", "egg", "sausage", "klingon"]);
}

#[test]
fn choosing_from_the_built_in_source_selects_from_the_built_in_list() {
    let list = built_in_words();
    let mut seen: Vec<String> = Vec::new();
    for _ in 0..1000 {
        let secret = choose_secret(WordSource::BuiltIn, no_file()).unwrap();
        assert!(list.contains(&secret));
        if !seen.contains(&secret) {
            seen.push(secret);
        }
    }
    assert!(seen.len() > 1);
}

#[test]
fn the_built_in_source_does_not_look_at_the_file() {
    let list = built_in_words();
    let secret = choose_secret(WordSource::BuiltIn, Err("no such file".to_owned())).unwrap();
    assert!(list.contains(&secret));
    let secret = choose_secret(WordSource::BuiltIn, Ok("zaphod\n".to_owned())).unwrap();
    assert!(list.contains(&secret));
}

#[test]
fn lines_that_are_not_words_are_filtered_out() {
    assert_eq!(extract_words(sample_text()), vec!["bacon", "sausage"]);
}

#[test]
fn choosing_from_a_file_selects_one_of_its_words() {
    for _ in 0..200 {
        let source = WordSource::FromFile("words.txt".to_owned());
        let secret = choose_secret(source, Ok(sample_text())).unwrap();
        assert!(secret == "bacon" || secret == "sausage");
    }
}

#[test]
fn choosing_from_a_file_of_four_names_selects_one_of_them() {
    let words = vec!["arthur".to_owned(), "ford".to_owned(), "trillian".to_owned(), "zaphod".to_owned()];
    for _ in 0..200 {
        let source = WordSource::FromFile("tests/words.txt".to_owned());
        let text = "arthur\nford\n123\ntrillian\nzaphod\n".to_owned();
        let secret = choose_secret(source, Ok(text)).unwrap();
        assert!(words.contains(&secret));
        assert_ne!(secret, "123");
    }
}

#[test]
fn a_file_that_cannot_be_read_gives_an_io_error_with_its_cause() {
    let source = WordSource::FromFile("missing.txt".to_owned());
    let result = choose_secret(source, Err("No such file or directory".to_owned()));
    assert_eq!(result, Err(WordError::IoError("No such file or directory".to_owned())));
}

#[test]
fn a_file_without_a_usable_line_gives_an_empty_word_list() {
    for text in ["", "\n", "\n\n\n", "123\negg!\n\n", "two words\n", " \n", "caf\u{e9}\n"] {
        let source = WordSource::FromFile("words.txt".to_owned());
        assert_eq!(choose_secret(source, Ok(text.to_owned())), Err(WordError::EmptyWordList));
    }
}

#[test]
fn lines_are_split_on_the_newline_character_only() {
    assert_eq!(extract_words("bacon\r\negg\r\n".to_owned()), Vec::<String>::new());
    assert_eq!(extract_words("bacon\r\negg".to_owned()), vec!["egg"]);
    assert_eq!(extract_words("bacon egg".to_owned()), Vec::<String>::new());
    assert_eq!(extract_words("bacon\negg\n".to_owned()), vec!["bacon", "egg"]);
    assert_eq!(extract_words("\n\nbacon\n\n\nEgg".to_owned()), vec!["bacon", "Egg"]);
    assert_eq!(extract_words("egg\negg\nbacon".to_owned()), vec!["egg", "egg", "bacon"]);
    assert_eq!(extract_words(String::new()), Vec::<String>::new());
}

#[test]
fn a_valid_word_is_not_empty_and_holds_ascii_letters_only() {
    assert!(is_valid_word("bacon"));
    assert!(is_valid_word("a"));
    assert!(is_valid_word("azAZ"));
    assert!(is_valid_word("Klingon"));
    assert!(!is_valid_word(""));
    assert!(!is_valid_word("123"));
    assert!(!is_valid_word("egg!"));
    assert!(!is_valid_word("egg "));
    assert!(!is_valid_word(" "));
    assert!(!is_valid_word("a`"));
    assert!(!is_valid_word("a{"));
    assert!(!is_valid_word("a@"));
    assert!(!is_valid_word("a["));
    assert!(!is_valid_word("na\u{ef}ve"));
}

#[test]
fn loading_words_follows_the_source() {
    assert_eq!(load_words(WordSource::BuiltIn, no_file()), Ok(built_in_words()));
    let source = WordSource::FromFile("words.txt".to_owned());
    assert_eq!(
        load_words(source, Ok(sample_text())),
        Ok(vec!["bacon".to_owned(), "sausage".to_owned()])
    );
    let source = WordSource::FromFile("words.txt".to_owned());
    assert_eq!(
        load_words(source, Err("denied".to_owned())),
        Err(WordError::IoError("denied".to_owned()))
    );
    assert_eq!(words_from_file(Ok("x\n1".to_owned())), Ok(vec!["x".to_owned()]));
    assert_eq!(
        words_from_file(Err("denied".to_owned())),
        Err(WordError::IoError("denied".to_owned()))
    );
}

#[test]
fn a_word_is_taken_by_its_index() {
    let words = vec!["bacon".to_owned(), "egg".to_owned(), "sausage".to_owned()];
    assert_eq!(word_at(&words, 0), "bacon");
    assert_eq!(word_at(&words, 1), "egg");
    assert_eq!(word_at(&words, 2), "sausage");
}

#[test]
fn selecting_from_a_single_word_gives_that_word() {
    let words = vec!["egg".to_owned()];
    for _ in 0..100 {
        assert_eq!(select_random(&words), Ok("egg".to_owned()));
    }
}

#[test]
fn selecting_reaches_every_word() {
    let words = vec!["bacon".to_owned(), "egg".to_owned(), "sausage".to_owned()];
    let mut seen = [false; 3];
    for _ in 0..2000 {
        let word = select_random(&words).unwrap();
        let index = words.iter().position(|w| *w == word).unwrap();
        seen[index] = true;
    }
    assert_eq!(seen, [true, true, true]);
}

#[test]
fn selecting_from_no_words_gives_an_empty_word_list() {
    assert_eq!(select_random(&Vec::new()), Err(WordError::EmptyWordList));
}

#[test]
fn the_default_configuration_allows_seven_wrong_guesses() {
    let config = Config::default();
    assert_eq!(config.total_guesses, 7);
    assert_eq!(config.word_source, WordSource::BuiltIn);
}

#[test]
fn a_started_game_is_fresh() {
    let list = built_in_words();
    let game = start_game(Config::default(), no_file()).ok().unwrap();
    assert!(list.iter().any(|w| w == game.secret()));
    assert_eq!(game.remaining_guesses(), 7);
    assert!(game.guesses().is_empty());
    assert_eq!(game.state(), GameState::InProgress);
}

#[test]
fn a_game_started_from_a_file_takes_its_secret_from_the_file() {
    let config = Config { total_guesses: 3, word_source: WordSource::FromFile("w.txt".to_owned()) };
    let game = start_game(config, Ok("42\nzaphod\n".to_owned())).ok().unwrap();
    assert_eq!(game.secret(), "zaphod");
    assert_eq!(game.remaining_guesses(), 3);
}

#[test]
fn no_game_is_started_without_a_secret() {
    let config = Config { total_guesses: 3, word_source: WordSource::FromFile("w.txt".to_owned()) };
    assert_eq!(start_game(config, Err("denied".to_owned())).err(), Some(WordError::IoError("denied".to_owned())));
    let config = Config { total_guesses: 3, word_source: WordSource::FromFile("w.txt".to_owned()) };
    assert_eq!(start_game(config, Ok("42\n".to_owned())).err(), Some(WordError::EmptyWordList));
}
