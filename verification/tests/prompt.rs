use wordle::{check_guess, input_guess, play_again_answer, playagain, trim, GuessError};

#[test]
fn typed_guess_is_trimmed_and_put_in_capitals() {
    assert_eq!(input_guess("hello\n"), Ok(String::from("HELLO")));
    assert_eq!(input_guess("  World \r\n"), Ok(String::from("WORLD")));
    assert_eq!(input_guess("TRAIN"), Ok(String::from("TRAIN")));
    assert_eq!(input_guess("\tzebra\t"), Ok(String::from("ZEBRA")));
}

#[test]
fn typed_guess_with_other_characters_is_not_alphabetic() {
    assert_eq!(input_guess("hell0\n"), Err(GuessError::NotAlphabetic));
    assert_eq!(input_guess("he lo\n"), Err(GuessError::NotAlphabetic));
    assert_eq!(input_guess("12345\n"), Err(GuessError::NotAlphabetic));
    assert_eq!(input_guess("h\u{20ac}llo\n"), Err(GuessError::NotAlphabetic));
    assert_eq!(input_guess("\u{661}\u{662}\u{663}\u{664}\u{665}\n"), Err(GuessError::NotAlphabetic));
    assert_eq!(input_guess("he\u{200b}lo\n"), Err(GuessError::NotAlphabetic));
}

#[test]
fn typed_guess_with_accented_letters_is_taken() {
    assert_eq!(input_guess("h\u{e9}llo\n"), Ok(String::from("H\u{c9}LLO")));
    assert_eq!(check_guess("h\u{e9}llo"), Ok(String::from("H\u{c9}LLO")));
    assert_eq!(check_guess("\u{c9}COLE"), Ok(String::from("\u{c9}COLE")));
    assert_eq!(input_guess(" \u{3b1}\u{3b2}\u{3b3}\u{3b4}\u{3b5} \n"), Ok(String::from("\u{391}\u{392}\u{393}\u{394}\u{395}")));
    assert_eq!(check_guess("stra\u{df}"), Ok(String::from("STRASS")));
}

#[test]
fn typed_guess_is_measured_in_characters() {
    assert_eq!(input_guess("\u{e9}col\n"), Err(GuessError::WrongLength));
    assert_eq!(input_guess("\u{e9}abc\n"), Err(GuessError::WrongLength));
    assert_eq!(input_guess("\u{e9}coles\n"), Err(GuessError::WrongLength));
    assert_eq!(input_guess("\u{df}\n"), Err(GuessError::WrongLength));
}

#[test]
fn basic_characters_are_alphabetic_where_they_are_letters() {
    for code in 0u32..0x80 {
        let c = char::from_u32(code).unwrap();
        let letter = ('a'..='z').contains(&c) || ('A'..='Z').contains(&c);
        let expected = if letter { GuessError::WrongLength } else { GuessError::NotAlphabetic };
        assert_eq!(check_guess(&String::from(c)), Err(expected), "U+{:04X}", code);
    }
}

#[test]
fn basic_letters_go_to_their_capitals() {
    for code in 0u32..0x80 {
        let c = char::from_u32(code).unwrap();
        if ('a'..='z').contains(&c) || ('A'..='Z').contains(&c) {
            let capital = if c >= 'a' { char::from_u32(code - 32).unwrap() } else { c };
            let text: String = [c, 'a', 'Z', c, 'm'].iter().collect();
            let word: String = [capital, 'A', 'Z', capital, 'M'].iter().collect();
            assert_eq!(check_guess(&text), Ok(word));
        }
    }
}

#[test]
fn every_character_is_judged_as_the_standard_library_judges_it() {
    for code in 0u32..=0x10FFFF {
        if let Some(c) = char::from_u32(code) {
            let text: String = [c, c, c, c, c].iter().collect();
            let expected = if c.is_alphabetic() {
                Ok(text.to_uppercase())
            } else {
                Err(GuessError::NotAlphabetic)
            };
            assert_eq!(check_guess(&text), expected, "U+{:04X}", code);
        }
    }
}

#[test]
fn white_space_is_its_twenty_five_code_points() {
    let mut found = 0;
    for code in 0u32..=0x10FFFF {
        if let Some(c) = char::from_u32(code) {
            let listed = matches!(
                code,
                0x09..=0x0D
                    | 0x20
                    | 0x85
                    | 0xA0
                    | 0x1680
                    | 0x2000..=0x200A
                    | 0x2028
                    | 0x2029
                    | 0x202F
                    | 0x205F
                    | 0x3000
            );
            let text: String = [c, 'a', c].iter().collect();
            let expected = if listed { String::from("a") } else { text.clone() };
            assert_eq!(trim(&text), expected, "U+{:04X}", code);
            if listed {
                found += 1;
            }
        }
    }
    assert_eq!(found, 25);
}

#[test]
fn typed_guess_of_another_length_is_wrong_length() {
    assert_eq!(input_guess("hi\n"), Err(GuessError::WrongLength));
    assert_eq!(input_guess("sixsix\n"), Err(GuessError::WrongLength));
    assert_eq!(input_guess("\n"), Err(GuessError::WrongLength));
    assert_eq!(input_guess(""), Err(GuessError::WrongLength));
    assert_eq!(input_guess("   \n"), Err(GuessError::WrongLength));
}

#[test]
fn letters_are_checked_before_the_length() {
    assert_eq!(input_guess("ab1\n"), Err(GuessError::NotAlphabetic));
    assert_eq!(input_guess("abcdefg8\n"), Err(GuessError::NotAlphabetic));
    assert_eq!(check_guess("1"), Err(GuessError::NotAlphabetic));
}

#[test]
fn checked_guess_is_not_trimmed() {
    assert_eq!(check_guess("hello"), Ok(String::from("HELLO")));
    assert_eq!(check_guess("HeLLo"), Ok(String::from("HELLO")));
    assert_eq!(check_guess("hello\n"), Err(GuessError::NotAlphabetic));
    assert_eq!(check_guess(" hello"), Err(GuessError::NotAlphabetic));
    assert_eq!(check_guess("hell"), Err(GuessError::WrongLength));
    assert_eq!(check_guess(""), Err(GuessError::WrongLength));
}

#[test]
fn guess_errors_have_their_lines() {
    assert_eq!(
        GuessError::NotAlphabetic.message(),
        "INFO: Word should contain only alphabets"
    );
    assert_eq!(GuessError::WrongLength.message(), "INFO: Must provide word of length 5");
}

#[test]
fn play_again_takes_small_y_and_capital_n_only() {
    assert_eq!(play_again_answer("y"), Some(true));
    assert_eq!(play_again_answer("N"), Some(false));
    assert_eq!(play_again_answer("n"), None);
    assert_eq!(play_again_answer("Y"), None);
    assert_eq!(play_again_answer("yes"), None);
    assert_eq!(play_again_answer("No"), None);
    assert_eq!(play_again_answer(""), None);
    assert_eq!(play_again_answer("yN"), None);
}

#[test]
fn typed_answer_is_trimmed() {
    assert_eq!(playagain("y"), Some(true));
    assert_eq!(playagain("N"), Some(false));
    assert_eq!(playagain("y\n"), Some(true));
    assert_eq!(playagain("N\r\n"), Some(false));
    assert_eq!(playagain("  y  "), Some(true));
    assert_eq!(playagain("n\n"), None);
    assert_eq!(playagain("Y\n"), None);
    assert_eq!(playagain("yes\n"), None);
    assert_eq!(playagain("\n"), None);
    assert_eq!(playagain("y N\n"), None);
    assert_eq!(play_again_answer("y\n"), None);
}

#[test]
fn trim_drops_white_space_at_both_ends_only() {
    assert_eq!(trim("  hello \n"), "hello");
    assert_eq!(trim("a b"), "a b");
    assert_eq!(trim("\t a b \r\n"), "a b");
    assert_eq!(trim(""), "");
    assert_eq!(trim(" \n\t "), "");
    assert_eq!(trim("x"), "x");
    assert_eq!(trim("\u{a0}hello\u{2003}"), "hello");
    assert_eq!(trim("\u{3000}y\u{85}"), "y");
    assert_eq!(trim("\u{200b}y"), "\u{200b}y");
}

#[test]
fn trim_agrees_with_the_standard_library() {
    for text in ["", " ", "a", " a", "a ", " a ", "\n\na b\n\n", "\u{1680}x\u{2028}", "  \u{e9}t\u{e9}  "] {
        assert_eq!(trim(text), text.trim());
    }
}
