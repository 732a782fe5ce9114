//! What the low-level keyboard and mouse hooks decide.
//!
//! The hook procedures themselves, and the reads of the modifier keys, are
//! Win32 calls and live in the application; everything they decide from the
//! values those calls return is here.

use vstd::prelude::*;

use crate::input::OKKHOR_MAGIC;

verus! {

/// Virtual-key codes that the keyboard mapping names, as Win32 defines them.
pub const VK_SHIFT: u32 = 0x10;
pub const VK_CONTROL: u32 = 0x11;
pub const VK_MENU: u32 = 0x12;
pub const VK_CAPITAL: u32 = 0x14;
pub const VK_LWIN: u32 = 0x5B;
pub const VK_RWIN: u32 = 0x5C;
pub const VK_DECIMAL: u32 = 0x6E;
pub const VK_F11: u32 = 0x7A;
pub const VK_OEM_1: u32 = 0xBA;
pub const VK_OEM_COMMA: u32 = 0xBC;
pub const VK_OEM_PERIOD: u32 = 0xBE;
pub const VK_OEM_3: u32 = 0xC0;

/// Window messages the hooks react to, as Win32 defines them.
pub const WM_KEYDOWN: u32 = 0x0100;
pub const WM_KEYUP: u32 = 0x0101;
pub const WM_SYSKEYDOWN: u32 = 0x0104;
pub const WM_SYSKEYUP: u32 = 0x0105;
pub const WM_LBUTTONDOWN: u32 = 0x0201;
pub const WM_RBUTTONDOWN: u32 = 0x0204;
pub const WM_MBUTTONDOWN: u32 = 0x0207;

/// What a key means to the transliteration buffer.
#[derive(Debug, PartialEq, Eq, Clone, Copy)]
pub enum Action {
    /// Extends the current word.
    Word(char),
    /// Ends the current word. Passed through untouched. Backspace is one of
    /// these: a word cannot be unwound, so the key goes to the application and
    /// deletes from the screen directly.
    Break,
    /// A modifier. Passed through without ending the word — `Shift` in
    /// particular must not flush, since Avro is case sensitive (`s` is স but
    /// `S` is শ).
    Transparent,
}

/// The state of the modifier keys when a key goes down.
#[derive(Debug, Clone, Copy)]
pub struct Modifiers {
    pub shift: bool,
    pub caps_lock: bool,
    pub ctrl: bool,
    pub alt: bool,
    pub lwin: bool,
    pub rwin: bool,
}

/// The punctuation okkhor has conversions for, by key and Shift state.
pub open spec fn punctuation_spec(vk: u32, shift: bool) -> Option<char> {
    let v = vk as u16;
    if v == VK_OEM_PERIOD && !shift {
        Some('.')
    } else if v == VK_DECIMAL {
        Some('.')
    } else if v == VK_OEM_COMMA && !shift {
        Some(',')
    } else if v == VK_OEM_1 && shift {
        Some(':')
    } else if v == VK_OEM_3 && !shift {
        Some('`')
    } else if v == 0x34 && shift {
        Some('$')
    } else if v == 0x36 && shift {
        Some('^')
    } else {
        None
    }
}

/// Punctuation that okkhor has conversions for, and therefore has to reach the
/// parser instead of being passed through as ASCII.
///
/// | typed | becomes | |
/// |-------|---------|-|
/// | `.`   | `।`     | danda, but stays `.` in front of a digit so `3.14` works |
/// | `..`  | `।।`    | |
/// | `:`   | `ঃ`     | visarga |
/// | `^`   | `ঁ`     | candrabindu |
/// | `,,`  | `্‌`     | hasant + ZWNJ |
/// | `$`   | `৳`     | taka sign |
///
/// These extend the buffered word rather than ending it: the multi-character
/// patterns only fire when both characters sit in the same buffer, and the
/// danda rule needs to see whether a digit follows. A lone `,` converts to
/// itself, and is here only so `,,` can be recognised. The backtick is Avro's
/// marker for "do not combine these two letters", and escapes each of them.
pub fn punctuation(vk: u32, shift: bool) -> (r: Option<char>)
    ensures
        r == punctuation_spec(vk, shift),
{
    let v = vk as u16;
    if v == 0xBE && !shift {
        Some('.')
    } else if v == 0x6E {
        Some('.')
    } else if v == 0xBC && !shift {
        Some(',')
    } else if v == 0xBA && shift {
        Some(':')
    } else if v == 0xC0 && !shift {
        Some('`')
    } else if v == 0x34 && shift {
        Some('$')
    } else if v == 0x36 && shift {
        Some('^')
    } else {
        None
    }
}

/// Keys that modify others and so neither extend nor end a word.
pub open spec fn is_modifier_key(vk: u32) -> bool {
    vk == VK_SHIFT || vk == VK_CONTROL || vk == VK_MENU || vk == VK_CAPITAL || vk == VK_LWIN
        || vk == VK_RWIN || (0xA0 <= vk <= 0xA5)
}

/// The letter a letter key types: lower case unless exactly one of Shift and
/// Caps Lock is on.
pub open spec fn letter_for(vk: u32, shift: bool, caps_lock: bool) -> char {
    if shift != caps_lock {
        (('A' as u32) + (vk - 0x41)) as char
    } else {
        (('a' as u32) + (vk - 0x41)) as char
    }
}

/// What a key means, given the Shift and Caps Lock state.
pub open spec fn classify_spec(vk: u32, shift: bool, caps_lock: bool) -> Action {
    if punctuation_spec(vk, shift) is Some {
        Action::Word(punctuation_spec(vk, shift).unwrap())
    } else if 0x41 <= vk <= 0x5A {
        Action::Word(letter_for(vk, shift, caps_lock))
    } else if 0x30 <= vk <= 0x39 && !shift {
        Action::Word((('0' as u32) + (vk - 0x30)) as char)
    } else if 0x60 <= vk <= 0x69 {
        Action::Word((('0' as u32) + (vk - 0x60)) as char)
    } else if is_modifier_key(vk) {
        Action::Transparent
    } else {
        Action::Break
    }
}

/// Every character that `classify` puts into a word is printable ASCII.
pub open spec fn is_word_char(c: char) -> bool {
    '!' <= c <= '~'
}

/// Classify a virtual-key code.
///
/// The Latin keys are mapped by hand for a QWERTY-compatible layout, which
/// Avro's romanisation requires in any case. Shift and Caps Lock combine the
/// usual way for letters; shifted top-row digits are symbols, and the two of
/// those okkhor knows about are punctuation; keypad digits ignore Shift.
pub fn classify(vk: u32, shift: bool, caps_lock: bool) -> (a: Action)
    ensures
        a == classify_spec(vk, shift, caps_lock),
        a matches Action::Word(c) ==> is_word_char(c),
{
    if let Some(symbol) = punctuation(vk, shift) {
        return Action::Word(symbol);
    }
    if 0x41 <= vk && vk <= 0x5A {
        let offset = (vk - 0x41) as u8;
        if shift != caps_lock {
            Action::Word((0x41u8 + offset) as char)
        } else {
            Action::Word((0x61u8 + offset) as char)
        }
    } else if 0x30 <= vk && vk <= 0x39 && !shift {
        Action::Word((0x30u8 + (vk - 0x30) as u8) as char)
    } else if 0x60 <= vk && vk <= 0x69 {
        Action::Word((0x30u8 + (vk - 0x60) as u8) as char)
    } else if vk == VK_SHIFT || vk == VK_CONTROL || vk == VK_MENU || vk == VK_CAPITAL || vk
        == VK_LWIN || vk == VK_RWIN || (0xA0 <= vk && vk <= 0xA5) {
        Action::Transparent
    } else {
        Action::Break
    }
}

/// True when the keystroke is part of a shortcut rather than typed text.
pub fn is_shortcut(mods: &Modifiers) -> (b: bool)
    ensures
        b == (mods.ctrl || mods.alt || mods.lwin || mods.rwin),
{
    mods.ctrl || mods.alt || mods.lwin || mods.rwin
}

/// What the keyboard hook does with one event before the state is consulted.
#[derive(Debug, PartialEq, Eq, Clone, Copy)]
pub enum HookKey {
    /// Hand the event on untouched.
    Pass,
    /// A key went down.
    Down(u32),
    /// A key came up.
    Up(u32),
}

/// How a low-level keyboard event is sorted.
pub open spec fn hook_key_spec(code: i32, extra_info: usize, vk: u32, message: u32) -> HookKey {
    if code < 0 || extra_info == OKKHOR_MAGIC || vk > 0xFF {
        HookKey::Pass
    } else if message == WM_KEYDOWN || message == WM_SYSKEYDOWN {
        HookKey::Down(vk)
    } else if message == WM_KEYUP || message == WM_SYSKEYUP {
        HookKey::Up(vk)
    } else {
        HookKey::Pass
    }
}

/// Sort a low-level keyboard event.
///
/// Negative codes must be passed on, the hook's own injected text carries
/// [`OKKHOR_MAGIC`] and comes straight back through, and only codes that fit
/// in a byte can be ours.
pub fn hook_key_event(code: i32, extra_info: usize, vk: u32, message: u32) -> (r: HookKey)
    ensures
        r == hook_key_spec(code, extra_info, vk, message),
        r == (if code < 0 || extra_info == OKKHOR_MAGIC || vk > 0xFF {
            HookKey::Pass
        } else if message == WM_KEYDOWN || message == WM_SYSKEYDOWN {
            HookKey::Down(vk)
        } else if message == WM_KEYUP || message == WM_SYSKEYUP {
            HookKey::Up(vk)
        } else {
            HookKey::Pass
        }),
{
    if code < 0 || extra_info == OKKHOR_MAGIC || vk > 0xFF {
        HookKey::Pass
    } else if message == WM_KEYDOWN || message == WM_SYSKEYDOWN {
        HookKey::Down(vk)
    } else if message == WM_KEYUP || message == WM_SYSKEYUP {
        HookKey::Up(vk)
    } else {
        HookKey::Pass
    }
}

/// Whether a low-level mouse event abandons the buffered word.
pub open spec fn click_ends_word_spec(code: i32, extra_info: usize, message: u32) -> bool {
    code >= 0 && extra_info != OKKHOR_MAGIC && (message == WM_LBUTTONDOWN || message
        == WM_RBUTTONDOWN || message == WM_MBUTTONDOWN)
}

/// Any click moves the caret somewhere that cannot be predicted, so a click
/// that is not our own abandons the buffered word.
pub fn click_ends_word(code: i32, extra_info: usize, message: u32) -> (b: bool)
    ensures
        b == click_ends_word_spec(code, extra_info, message),
        b == (code >= 0 && extra_info != OKKHOR_MAGIC && (message == WM_LBUTTONDOWN || message
            == WM_RBUTTONDOWN || message == WM_MBUTTONDOWN)),
{
    code >= 0 && extra_info != OKKHOR_MAGIC && (message == WM_LBUTTONDOWN || message
        == WM_RBUTTONDOWN || message == WM_MBUTTONDOWN)
}


// ---------------------------------------------------------------------------
// Laws
// ---------------------------------------------------------------------------

/// The character a key adds to the word, if it adds one.
pub open spec fn word_char_of(a: Action) -> Option<char> {
    match a {
        Action::Word(c) => Some(c),
        _ => None,
    }
}

/// Top-row digit keys without Shift extend the word with their ASCII digit,
/// which okkhor turns into a Bangla numeral; Caps Lock makes no difference.
pub proof fn law_top_row_digits_extend_the_word(d: u32, caps_lock: bool)
    requires
        d <= 9,
    ensures
        word_char_of(classify_spec((0x30 + d) as u32, false, caps_lock)) matches Some(c) && c as int == 48
            + d,
{
}

/// Keypad digit keys extend the word with their ASCII digit, with or without
/// Shift and Caps Lock.
pub proof fn law_keypad_digits_extend_the_word(d: u32, shift: bool, caps_lock: bool)
    requires
        d <= 9,
    ensures
        word_char_of(classify_spec((0x60 + d) as u32, shift, caps_lock)) matches Some(c) && c as int == 48
            + d,
{
}

/// Letter keys extend the word with their letter, upper case exactly when one
/// of Shift and Caps Lock is on (Avro is case sensitive: `s` is স, `S` is শ).
pub proof fn law_letters_extend_the_word(k: u32, shift: bool, caps_lock: bool)
    requires
        k < 26,
    ensures
        word_char_of(classify_spec((0x41 + k) as u32, shift, caps_lock)) matches Some(c) && c as int == (
        if shift != caps_lock {
            65int
        } else {
            97int
        }) + k,
{
}

/// Shifted top-row digits type symbols okkhor does not convert, and end the
/// word; the two it does convert, `$` and `^`, extend it.
pub proof fn law_shifted_digits(d: u32, caps_lock: bool)
    requires
        d <= 9,
    ensures
        d == 4 ==> classify_spec((0x30 + d) as u32, true, caps_lock) == Action::Word('$'),
        d == 6 ==> classify_spec((0x30 + d) as u32, true, caps_lock) == Action::Word('^'),
        d != 4 && d != 6 ==> classify_spec((0x30 + d) as u32, true, caps_lock) == Action::Break,
{
}

/// The punctuation keys okkhor has conversions for extend the word with their
/// character: `.` (main and keypad), `,`, `:`, the backtick, `$` and `^`.
pub proof fn law_punctuation_keys_extend_the_word(caps_lock: bool, shift: bool)
    ensures
        classify_spec(0xBE, false, caps_lock) == Action::Word('.'),
        classify_spec(0x6E, shift, caps_lock) == Action::Word('.'),
        classify_spec(0xBC, false, caps_lock) == Action::Word(','),
        classify_spec(0xBA, true, caps_lock) == Action::Word(':'),
        classify_spec(0xC0, false, caps_lock) == Action::Word('`'),
        classify_spec(0x34, true, caps_lock) == Action::Word('$'),
        classify_spec(0x36, true, caps_lock) == Action::Word('^'),
{
}

/// Shift, Ctrl, Alt, Caps Lock and the Windows keys (either side) neither
/// extend nor end the word.
pub proof fn law_modifiers_are_transparent(vk: u32, shift: bool, caps_lock: bool)
    requires
        vk == 0x10 || vk == 0x11 || vk == 0x12 || vk == 0x14 || vk == 0x5B || vk == 0x5C || (0xA0
            <= vk <= 0xA5),
    ensures
        classify_spec(vk, shift, caps_lock) == Action::Transparent,
{
}

/// Backspace, Tab, Enter, Escape, Space, the arrow keys, Delete and the
/// function keys end the word.
pub proof fn law_editing_keys_end_the_word(vk: u32, shift: bool, caps_lock: bool)
    requires
        vk == 0x08 || vk == 0x09 || vk == 0x0D || vk == 0x1B || vk == 0x20 || (0x25 <= vk <= 0x28)
            || vk == 0x2E || (0x70 <= vk <= 0x87),
    ensures
        classify_spec(vk, shift, caps_lock) == Action::Break,
{
}

/// Anything a key adds to the word is printable ASCII, which is all okkhor's
/// parser accepts.
pub proof fn law_word_chars_are_printable_ascii(vk: u32, shift: bool, caps_lock: bool)
    ensures
        word_char_of(classify_spec(vk, shift, caps_lock)) matches Some(c) ==> 0x21 <= c as int
            <= 0x7E,
{
}


/// Only letters, digits, keypad digits and the punctuation okkhor converts
/// extend the word; only the modifier keys are transparent; every other key
/// ends the word.
pub proof fn law_what_extends_the_word(vk: u32, shift: bool, caps_lock: bool)
    ensures
        classify_spec(vk, shift, caps_lock) is Word ==> (0x41 <= vk <= 0x5A) || (0x30 <= vk <= 0x39
            && !shift) || (0x60 <= vk <= 0x69) || (vk as u16 == 0xBE && !shift) || vk as u16
            == 0x6E || (vk as u16 == 0xBC && !shift) || (vk as u16 == 0xBA && shift) || (vk as u16
            == 0xC0 && !shift) || (vk as u16 == 0x34 && shift) || (vk as u16 == 0x36 && shift),
        classify_spec(vk, shift, caps_lock) is Transparent <==> (vk == 0x10 || vk == 0x11 || vk
            == 0x12 || vk == 0x14 || vk == 0x5B || vk == 0x5C || (0xA0 <= vk <= 0xA5)),
{
}

/// The keyboard hook passes on what is not ours to judge: events with a
/// negative code, the text it injected itself (stamped with the magic value),
/// and codes beyond a byte. Of the rest, key-downs and key-ups (system ones
/// included) are handed to the state, and anything else is passed on.
pub proof fn law_hook_sorts_key_events(code: i32, extra_info: usize, vk: u32, message: u32)
    ensures
        code < 0 ==> hook_key_spec(code, extra_info, vk, message) == HookKey::Pass,
        extra_info == 0x4F4B_4B48 ==> hook_key_spec(code, extra_info, vk, message) == HookKey::Pass,
        vk > 0xFF ==> hook_key_spec(code, extra_info, vk, message) == HookKey::Pass,
        code >= 0 && extra_info != 0x4F4B_4B48 && vk <= 0xFF ==> {
            &&& (message == 0x0100 || message == 0x0104) ==> hook_key_spec(
                code,
                extra_info,
                vk,
                message,
            ) == HookKey::Down(vk)
            &&& (message == 0x0101 || message == 0x0105) ==> hook_key_spec(
                code,
                extra_info,
                vk,
                message,
            ) == HookKey::Up(vk)
            &&& !(message == 0x0100 || message == 0x0104 || message == 0x0101 || message == 0x0105)
                ==> hook_key_spec(code, extra_info, vk, message) == HookKey::Pass
        },
{
}

/// A left, right or middle button press that is not our own ends the word;
/// nothing else the mouse does, and no injected event, does.
pub proof fn law_clicks_end_the_word(code: i32, extra_info: usize, message: u32)
    ensures
        click_ends_word_spec(code, extra_info, message) <==> (code >= 0 && extra_info
            != 0x4F4B_4B48 && (message == 0x0201 || message == 0x0204 || message == 0x0207)),
{
}

} // verus!
