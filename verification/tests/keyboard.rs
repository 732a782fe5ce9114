use okkhor::parser::Parser;
use okkhor_gui::input::OKKHOR_MAGIC;
use okkhor_gui::keyboard::{
    classify, click_ends_word, hook_key_event, is_shortcut, punctuation, Action, HookKey,
    Modifiers, VK_CAPITAL, VK_CONTROL, VK_DECIMAL, VK_OEM_1, VK_OEM_3, VK_OEM_COMMA,
    VK_OEM_PERIOD, VK_SHIFT, WM_KEYDOWN, WM_KEYUP, WM_LBUTTONDOWN,
};

/// Every symbol routed into the buffer has to be one okkhor converts, and has
/// to be printable ASCII.
#[test]
fn routed_symbols_are_the_ones_okkhor_converts() {
    for (vk, shift, ch) in [
        (VK_OEM_PERIOD, false, '.'),
        (VK_DECIMAL, false, '.'),
        (VK_OEM_COMMA, false, ','),
        (VK_OEM_1, true, ':'),
        (VK_OEM_3, false, '`'),
        (0x34, true, '$'),
        (0x36, true, '^'),
    ] {
        assert_eq!(punctuation(vk, shift), Some(ch), "vk {vk:#04X}");
        assert!(ch.is_ascii_graphic(), "put_char would drop {ch:?}");
    }

    let parser = Parser::new_phonetic();
    assert_eq!(parser.convert("."), "\u{0964}"); // danda ।
    assert_eq!(parser.convert(".."), "\u{0964}\u{0964}"); // ।।
    assert_eq!(parser.convert(":"), "\u{0983}"); // visarga ঃ
    assert_eq!(parser.convert("^"), "\u{0981}"); // candrabindu ঁ
    assert_eq!(parser.convert(",,"), "\u{09CD}\u{200C}"); // hasant + ZWNJ
    assert_eq!(parser.convert("$"), "\u{09F3}"); // taka ৳
    assert_eq!(parser.convert(".`"), ".");
}

#[test]
fn keyboard_case_selects_different_consonants() {
    let parser = Parser::new_phonetic();
    assert_eq!(parser.convert("s"), "স");
    assert_eq!(parser.convert("S"), "শ");
    assert_eq!(parser.convert("t"), "ত");
    assert_eq!(parser.convert("T"), "ট");
    assert_eq!(parser.convert("Dhaka"), "ঢাকা");
}

#[test]
fn keyboard_later_letters_reinterpret_earlier_ones() {
    let parser = Parser::new_phonetic();
    assert_eq!(parser.convert("kx"), "ক্ষ");
    assert_eq!(parser.convert("kxoma"), "ক্ষমা");
    assert_eq!(
        format!("{}{}", parser.convert("k"), parser.convert("x")),
        "কএক্স"
    );
}

#[test]
fn digits_extend_the_word() {
    let parser = Parser::new_phonetic();
    assert_eq!(parser.convert("123"), "১২৩");
    assert_eq!(parser.convert("3."), "৩\u{0964}");
    assert_eq!(parser.convert("3.14"), "৩.১৪");
}

#[test]
fn punctuation_needs_the_right_shift_state() {
    assert_eq!(punctuation(VK_OEM_PERIOD, true), None);
    assert_eq!(punctuation(VK_DECIMAL, true), Some('.'));
    assert_eq!(punctuation(VK_OEM_1, false), None);
    assert_eq!(punctuation(0x34, false), None);
    assert_eq!(punctuation(0x41, false), None);
}

#[test]
fn letters_follow_shift_and_caps_lock() {
    assert_eq!(classify(0x53, false, false), Action::Word('s'));
    assert_eq!(classify(0x53, true, false), Action::Word('S'));
    assert_eq!(classify(0x53, false, true), Action::Word('S'));
    assert_eq!(classify(0x53, true, true), Action::Word('s'));
    assert_eq!(classify(0x41, false, false), Action::Word('a'));
    assert_eq!(classify(0x5A, false, false), Action::Word('z'));
}

#[test]
fn digits_and_keypad() {
    assert_eq!(classify(0x33, false, false), Action::Word('3'));
    // Shifted top-row digits are symbols; `$` and `^` are punctuation.
    assert_eq!(classify(0x34, true, false), Action::Word('$'));
    assert_eq!(classify(0x33, true, false), Action::Break);
    assert_eq!(classify(0x67, true, false), Action::Word('7'));
}

#[test]
fn modifiers_are_transparent_and_others_break() {
    assert_eq!(classify(VK_SHIFT, true, false), Action::Transparent);
    assert_eq!(classify(VK_CAPITAL, false, false), Action::Transparent);
    assert_eq!(classify(VK_CONTROL, false, false), Action::Transparent);
    assert_eq!(classify(0xA1, true, false), Action::Transparent);
    assert_eq!(classify(0x20, false, false), Action::Break); // space
    assert_eq!(classify(0x08, false, false), Action::Break); // backspace
    assert_eq!(classify(0x25, false, false), Action::Break); // left arrow
}

#[test]
fn shortcuts_are_any_of_the_command_modifiers() {
    let none = Modifiers { shift: true, caps_lock: true, ctrl: false, alt: false, lwin: false, rwin: false };
    assert!(!is_shortcut(&none));
    assert!(is_shortcut(&Modifiers { ctrl: true, ..none }));
    assert!(is_shortcut(&Modifiers { alt: true, ..none }));
    assert!(is_shortcut(&Modifiers { rwin: true, ..none }));
}

#[test]
fn hook_events_are_sorted() {
    assert_eq!(hook_key_event(0, 0, 0x41, WM_KEYDOWN), HookKey::Down(0x41));
    assert_eq!(hook_key_event(0, 0, 0x41, WM_KEYUP), HookKey::Up(0x41));
    assert_eq!(hook_key_event(0, 0, 0x41, 0x0104), HookKey::Down(0x41));
    assert_eq!(hook_key_event(0, 0, 0x41, 0x0105), HookKey::Up(0x41));
    assert_eq!(hook_key_event(-1, 0, 0x41, WM_KEYDOWN), HookKey::Pass);
    assert_eq!(hook_key_event(0, OKKHOR_MAGIC, 0x41, WM_KEYDOWN), HookKey::Pass);
    assert_eq!(hook_key_event(0, 0, 0x100, WM_KEYDOWN), HookKey::Pass);
    assert_eq!(hook_key_event(0, 0, 0x41, 0x0200), HookKey::Pass);
}

#[test]
fn clicks_end_the_word_unless_they_are_ours() {
    assert!(click_ends_word(0, 0, WM_LBUTTONDOWN));
    assert!(click_ends_word(0, 0, 0x0204));
    assert!(click_ends_word(0, 0, 0x0207));
    assert!(!click_ends_word(0, OKKHOR_MAGIC, WM_LBUTTONDOWN));
    assert!(!click_ends_word(-1, 0, WM_LBUTTONDOWN));
    assert!(!click_ends_word(0, 0, 0x0202)); // button up
}
