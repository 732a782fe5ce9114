use okkhor::parser::Parser;
use okkhor_gui::bengali::{diff, Replacement};

#[test]
fn identical_strings_produce_no_work() {
    assert_eq!(
        diff("আমি", "আমি"),
        Replacement {
            backspaces: 0,
            text: String::new()
        }
    );
}

#[test]
fn appending_needs_no_backspaces() {
    assert_eq!(
        diff("আ", "আম"),
        Replacement {
            backspaces: 0,
            text: "ম".into()
        }
    );
}

#[test]
fn a_vowel_sign_lands_on_the_base_already_on_screen() {
    // The ম stays put and only the vowel sign is sent after it.
    assert_eq!(
        diff("আম", "আমি"),
        Replacement {
            backspaces: 0,
            text: "ি".into()
        }
    );
}

#[test]
fn a_reanalysed_conjunct_rewrites_only_its_tail() {
    // ক -> ক্ষ keeps the ক and appends the hasant and ষ.
    assert_eq!(
        diff("ক", "ক্ষ"),
        Replacement {
            backspaces: 0,
            text: "\u{09CD}\u{09B7}".into()
        }
    );

    // ক্ষ -> ক্স shares ক্ and swaps only the final consonant.
    assert_eq!(
        diff("ক্ষ", "ক্স"),
        Replacement {
            backspaces: 1,
            text: "\u{09B8}".into()
        }
    );
}

#[test]
fn erasing_counts_utf16_units() {
    assert_eq!(
        diff("ক্ষ", ""),
        Replacement {
            backspaces: 3,
            text: String::new()
        }
    );
    assert_eq!(
        diff("", "ক্ষ"),
        Replacement {
            backspaces: 0,
            text: "ক্ষ".into()
        }
    );
}

#[test]
fn a_character_outside_the_basic_plane_takes_two_backspaces() {
    // U+1F600 is one character but two UTF-16 units.
    assert_eq!(
        diff("a\u{1F600}", "a"),
        Replacement {
            backspaces: 2,
            text: String::new()
        }
    );
    assert_eq!(
        diff("a\u{1F600}b", "a\u{1F601}b"),
        Replacement {
            backspaces: 3,
            text: "\u{1F601}b".into()
        }
    );
}

#[test]
fn a_shared_leading_byte_is_not_a_shared_character() {
    // আ (E0 A6 86) and ই (E0 A6 87) share two bytes but no character.
    assert_eq!(
        diff("আ", "ই"),
        Replacement {
            backspaces: 1,
            text: "ই".into()
        }
    );
}

/// Type `keys` one at a time, tracking what the target would display.
fn type_word(keys: &str) -> String {
    let parser = Parser::new_phonetic();
    let mut raw = String::new();
    let mut screen = String::new();

    for key in keys.chars() {
        raw.push(key);
        let expected = parser.convert(&raw);
        let step = diff(&screen, &expected);

        let mut chars: Vec<char> = screen.chars().collect();
        chars.truncate(chars.len() - step.backspaces);
        screen = chars.into_iter().collect::<String>() + &step.text;

        assert_eq!(screen, expected, "after typing {key:?} of {keys:?}");
    }

    screen
}

const WORDS: [&str; 8] = [
    "ami",
    "banglay",
    "gan",
    "gai",
    "kkhoma",
    "kxoma",
    "rikx",
    "bangladesh",
];

#[test]
fn live_preview_converges() {
    for word in WORDS {
        let expected = Parser::new_phonetic().convert(word);
        assert_eq!(type_word(word), expected);
    }
}

#[test]
fn backspacing_unwinds_the_word() {
    let parser = Parser::new_phonetic();
    let mut raw = String::from("kkhoma");
    let mut screen = type_word(&raw);

    while !raw.is_empty() {
        raw.pop();
        let expected = parser.convert(&raw);
        let step = diff(&screen, &expected);

        let mut chars: Vec<char> = screen.chars().collect();
        chars.truncate(chars.len() - step.backspaces);
        screen = chars.into_iter().collect::<String>() + &step.text;

        assert_eq!(screen, expected, "after erasing down to {raw:?}");
    }

    assert!(screen.is_empty());
}

#[test]
fn punctuation_conversions() {
    let parser = Parser::new_phonetic();

    assert_eq!(parser.convert("."), "\u{0964}"); // danda ।
    assert_eq!(parser.convert(".."), "\u{0964}\u{0964}"); // ।।
    assert_eq!(parser.convert("..."), "..."); // ellipsis stays literal
    assert_eq!(parser.convert("ami."), "আমি\u{0964}");

    assert_eq!(parser.convert(":"), "\u{0983}"); // visarga ঃ
    assert_eq!(parser.convert("^"), "\u{0981}"); // candrabindu ঁ
    assert_eq!(parser.convert(",,"), "\u{09CD}\u{200C}"); // hasant + ZWNJ
    assert_eq!(parser.convert("$"), "\u{09F3}"); // taka ৳
    assert_eq!(parser.convert(","), ",");

    // The backtick escapes each of them back to the plain character, which
    // only works because the backtick is buffered alongside.
    assert_eq!(parser.convert(".`"), ".");
    assert_eq!(parser.convert(":`"), ":");
    assert_eq!(parser.convert("^`"), "^");
}

#[test]
fn decimal_point_corrects_itself_mid_word() {
    let parser = Parser::new_phonetic();
    assert_eq!(parser.convert("3."), "৩\u{0964}");
    assert_eq!(parser.convert("3.14"), "৩.১৪");
    assert_eq!(type_word("3.14"), "৩.১৪");
}

#[test]
fn punctuation_survives_the_live_preview() {
    for keys in ["ami.", "ami..", "bhalo:", "3.14", "100$", "ka,,kha"] {
        let expected = Parser::new_phonetic().convert(keys);
        assert_eq!(type_word(keys), expected, "typing {keys:?}");
    }
}

#[test]
fn bengali_case_selects_different_consonants() {
    let parser = Parser::new_phonetic();
    assert_eq!(parser.convert("s"), "স");
    assert_eq!(parser.convert("S"), "শ");
    assert_eq!(parser.convert("t"), "ত");
    assert_eq!(parser.convert("T"), "ট");
    assert_eq!(parser.convert("d"), "দ");
    assert_eq!(parser.convert("D"), "ড");
    assert_eq!(parser.convert("n"), "ন");
    assert_eq!(parser.convert("N"), "ণ");
    assert_eq!(parser.convert("r"), "র");
    // Escaped: this is the precomposed U+09DC, not ড + U+09BC NUKTA.
    assert_eq!(parser.convert("R"), "\u{09DC}");
    assert_eq!(parser.convert("Dhaka"), "ঢাকা");
}

#[test]
fn bengali_later_letters_reinterpret_earlier_ones() {
    let parser = Parser::new_phonetic();
    assert_eq!(parser.convert("k"), "ক");
    assert_eq!(parser.convert("x"), "এক্স");
    assert_eq!(parser.convert("kx"), "ক্ষ");
    assert_eq!(parser.convert("kkh"), "ক্ষ");
    assert_eq!(parser.convert("kxoma"), "ক্ষমা");

    // Losing the buffer between the two keystrokes gives this instead.
    assert_eq!(
        format!("{}{}", parser.convert("k"), parser.convert("x")),
        "কএক্স"
    );
}

#[test]
fn known_conversions() {
    let parser = Parser::new_phonetic();
    assert_eq!(parser.convert("ami"), "আমি");
    // Fully escaped: okkhor emits the precomposed U+09DF for য়.
    assert_eq!(
        parser.convert("banglay"),
        "\u{09AC}\u{09BE}\u{0982}\u{09B2}\u{09BE}\u{09DF}"
    );
    assert_eq!(parser.convert("kkhoma"), "ক্ষমা");
    // Digits become Bangla numerals, which is why they extend a word
    // rather than breaking it.
    assert_eq!(parser.convert("123"), "১২৩");
}
