use okkhor::parser::Parser;
use okkhor_gui::bengali::Replacement;
use okkhor_gui::keyboard::{Modifiers, VK_DECIMAL, VK_F11, VK_OEM_PERIOD, VK_SHIFT};
use okkhor_gui::state::{exe_name, is_shell_class, App, KeyResponse, Session};

const WINDOW: isize = 0x1000;
const OTHER: isize = 0x2000;

fn plain() -> Modifiers {
    Modifiers { shift: false, caps_lock: false, ctrl: false, alt: false, lwin: false, rwin: false }
}

fn shifted() -> Modifiers {
    Modifiers { shift: true, ..plain() }
}

fn exe(_: isize) -> String {
    String::from("C:\\Windows\\notepad.exe")
}

/// The key code of an ASCII letter or digit.
fn vk_of(c: char) -> u32 {
    c.to_ascii_uppercase() as u32
}

fn rewrite(r: KeyResponse) -> Replacement {
    match r {
        KeyResponse::Rewrite(r) => r,
        _ => panic!("expected a rewrite"),
    }
}

fn active_app() -> App {
    let mut app = App::new();
    app.retarget(WINDOW, exe(WINDOW));
    assert_eq!(app.toggle(WINDOW, |_| true), true);
    app
}

#[test]
fn every_window_starts_inactive() {
    let app = App::new();
    assert!(!app.is_active(WINDOW));
    assert!(!app.is_active(0));
}

#[test]
fn toggle_flips_and_flips_back() {
    let mut app = App::new();
    assert!(app.toggle(WINDOW, |_| true));
    assert!(app.is_active(WINDOW));
    assert!(!app.toggle(WINDOW, |_| true));
    assert!(!app.is_active(WINDOW));
}

#[test]
fn modes_are_per_window() {
    let mut app = App::new();
    app.toggle(WINDOW, |_| true);
    assert!(app.is_active(WINDOW));
    assert!(!app.is_active(OTHER));
    app.toggle(OTHER, |_| true);
    app.toggle(OTHER, |_| true);
    assert!(app.is_active(WINDOW));
}

#[test]
fn pruning_forgets_windows_that_are_gone() {
    let mut app = App::new();
    app.toggle(WINDOW, |_| true);
    app.toggle(OTHER, |h| h != WINDOW);
    assert!(!app.is_active(WINDOW));
    assert!(app.is_active(OTHER));
    app.prune(|_| false);
    assert!(!app.is_active(OTHER));
}

#[test]
fn destroyed_windows_lose_their_mode() {
    let mut app = active_app();
    app.on_destroy(WINDOW);
    assert!(!app.is_active(WINDOW));
}

#[test]
fn typing_ami_sends_each_letter_onto_the_last() {
    // README: typing `ami` sends আ, then ম, then ি.
    let mut app = active_app();
    let a = rewrite(app.key_down(vk_of('a'), WINDOW, plain(), exe));
    assert_eq!(a, Replacement { backspaces: 0, text: "আ".into() });
    let m = rewrite(app.key_down(vk_of('m'), WINDOW, plain(), exe));
    assert_eq!(m, Replacement { backspaces: 0, text: "ম".into() });
    let i = rewrite(app.key_down(vk_of('i'), WINDOW, plain(), exe));
    assert_eq!(i, Replacement { backspaces: 0, text: "ি".into() });
    assert_eq!(app.session().raw, "ami");
    assert_eq!(app.session().emitted, "আমি");
}

#[test]
fn a_key_that_changes_nothing_is_still_swallowed() {
    let mut app = active_app();
    rewrite(app.key_down(vk_of('k'), WINDOW, plain(), exe));
    let o = app.key_down(vk_of('o'), WINDOW, plain(), exe);
    assert!(o.swallows());
    assert_eq!(rewrite(o), Replacement { backspaces: 0, text: String::new() });
    let r = rewrite(app.key_down(vk_of('r'), WINDOW, plain(), exe));
    assert_eq!(r.text, "র");
}

#[test]
fn shift_does_not_break_the_word() {
    let mut app = active_app();
    rewrite(app.key_down(vk_of('k'), WINDOW, plain(), exe));
    let shift = app.key_down(VK_SHIFT, WINDOW, shifted(), exe);
    assert!(!shift.swallows());
    assert_eq!(app.session().raw, "k");
    rewrite(app.key_down(vk_of('h'), WINDOW, plain(), exe));
    assert_eq!(app.session().raw, "kh");
    assert_eq!(app.session().emitted, Parser::new_phonetic().convert("kh"));
}

#[test]
fn shift_selects_the_other_consonant() {
    let mut app = active_app();
    let s = rewrite(app.key_down(vk_of('s'), WINDOW, shifted(), exe));
    assert_eq!(s.text, "শ");
}

#[test]
fn space_ends_the_word_and_reaches_the_application() {
    let mut app = active_app();
    rewrite(app.key_down(vk_of('k'), WINDOW, plain(), exe));
    let space = app.key_down(0x20, WINDOW, plain(), exe);
    assert!(!space.swallows());
    assert_eq!(app.session().raw, "");
    // The x after the break starts a fresh word: এক্স, not ক্ষ.
    let x = rewrite(app.key_down(vk_of('x'), WINDOW, plain(), exe));
    assert_eq!(x, Replacement { backspaces: 0, text: "এক্স".into() });
}

#[test]
fn inactive_windows_get_every_key() {
    let mut app = App::new();
    let r = app.key_down(vk_of('a'), WINDOW, plain(), exe);
    assert!(!r.swallows());
    assert_eq!(app.session().raw, "");
    assert_eq!(app.target(), WINDOW);
    assert_eq!(app.target_exe(), "C:\\Windows\\notepad.exe");
}

#[test]
fn shortcuts_pass_and_abandon_the_word() {
    let mut app = active_app();
    rewrite(app.key_down(vk_of('k'), WINDOW, plain(), exe));
    let ctrl_c = app.key_down(vk_of('c'), WINDOW, Modifiers { ctrl: true, ..plain() }, exe);
    assert!(!ctrl_c.swallows());
    assert_eq!(app.session().raw, "");
}

#[test]
fn a_new_foreground_window_starts_a_new_word() {
    let mut app = active_app();
    app.toggle(OTHER, |_| true);
    rewrite(app.key_down(vk_of('k'), WINDOW, plain(), exe));
    let x = rewrite(app.key_down(vk_of('x'), OTHER, plain(), |_| String::from("other.exe")));
    assert_eq!(x.backspaces, 0);
    assert_eq!(x.text, "এক্স");
    assert_eq!(app.target(), OTHER);
    assert_eq!(app.target_exe(), "other.exe");
}

#[test]
fn swallowed_keys_have_their_key_up_swallowed() {
    let mut app = active_app();
    let vk = vk_of('a');
    assert!(app.key_down(vk, WINDOW, plain(), exe).swallows());
    assert!(app.key_up(vk));
    assert!(!app.key_up(vk));
    assert!(!app.key_down(0x20, WINDOW, plain(), exe).swallows());
    assert!(!app.key_up(0x20));
}

#[test]
fn the_toggle_key_is_caught_only_when_the_hotkey_was_refused() {
    let mut app = active_app();
    assert!(matches!(app.key_down(VK_F11, WINDOW, plain(), exe), KeyResponse::Pass));
    app.set_hotkeys_via_hook(true);
    assert!(app.hotkeys_via_hook());
    let r = app.key_down(VK_F11, WINDOW, plain(), exe);
    assert!(matches!(r, KeyResponse::ToggleHotkey));
    assert!(r.swallows());
    // Its release is swallowed as well, once.
    assert!(app.key_up(VK_F11));
    assert!(!app.key_up(VK_F11));
}

#[test]
fn focus_inside_the_target_abandons_the_word() {
    let mut app = active_app();
    rewrite(app.key_down(vk_of('k'), WINDOW, plain(), exe));
    // The target announcing focus on itself keeps the word.
    app.on_focus(WINDOW, WINDOW);
    assert_eq!(app.session().raw, "k");
    // Another window's focus noise keeps the word.
    app.on_focus(0x3000, OTHER);
    assert_eq!(app.session().raw, "k");
    // A child control of the target taking focus ends it.
    app.on_focus(0x3000, WINDOW);
    assert_eq!(app.session().raw, "");
}

#[test]
fn foreground_changes_retarget_and_abandon() {
    let mut app = active_app();
    rewrite(app.key_down(vk_of('k'), WINDOW, plain(), exe));
    app.on_foreground(OTHER, String::from("D:\\apps\\word.exe"));
    assert_eq!(app.session().raw, "");
    assert_eq!(app.target(), OTHER);
    let (active, label) = app.tray_status();
    assert!(!active);
    assert_eq!(label, "word.exe — inactive");
}

#[test]
fn toggle_foreground_acts_on_the_focused_window() {
    let mut app = App::new();
    assert_eq!(app.toggle_foreground(0, exe, |_| true), None);
    assert_eq!(app.toggle_foreground(WINDOW, exe, |_| true), Some(true));
    assert_eq!(app.target(), WINDOW);
    let (active, label) = app.tray_status();
    assert!(active);
    assert_eq!(label, "notepad.exe — ACTIVE");
    assert_eq!(app.toggle_foreground(WINDOW, exe, |_| true), Some(false));
}

#[test]
fn render_reconverts_the_buffer() {
    let mut app = active_app();
    rewrite(app.key_down(vk_of('k'), WINDOW, plain(), exe));
    let again = app.render();
    assert_eq!(again, Replacement { backspaces: 0, text: String::new() });
}

#[test]
fn session_clear_forgets_the_word() {
    let mut s = Session::default();
    s.raw.push_str("ami");
    s.emitted.push_str("আমি");
    s.clear();
    assert_eq!(s.raw, "");
    assert_eq!(s.emitted, "");
}

#[test]
fn the_message_window_is_remembered() {
    let mut app = App::new();
    assert_eq!(app.msg_hwnd(), 0);
    app.set_msg_hwnd(42);
    assert_eq!(app.msg_hwnd(), 42);
}

#[test]
fn exe_name_takes_the_last_component() {
    assert_eq!(exe_name("C:\\Program Files\\App\\app.exe"), "app.exe");
    assert_eq!(exe_name("/usr/bin/thing"), "thing");
    assert_eq!(exe_name("mixed/dir\\name.exe"), "name.exe");
    assert_eq!(exe_name("plain.exe"), "plain.exe");
    assert_eq!(exe_name(""), "");
    assert_eq!(exe_name("C:\\অক্ষর\\okkhor.exe"), "okkhor.exe");
    assert_eq!(exe_name("C:\\dir\\"), "");
}

#[test]
fn shell_windows_are_recognised() {
    assert!(is_shell_class("Shell_TrayWnd"));
    assert!(is_shell_class("NotifyIconOverflowWindow"));
    assert!(is_shell_class("XamlExplorerHostIslandWindow"));
    assert!(!is_shell_class("Notepad"));
    assert!(!is_shell_class("Shell_TrayWn"));
}

#[test]
fn punctuation_extends_the_word_through_the_hook() {
    let mut app = active_app();
    for vk in [vk_of('3'), VK_OEM_PERIOD, vk_of('1'), vk_of('4')] {
        assert!(app.key_down(vk, WINDOW, plain(), exe).swallows());
    }
    assert_eq!(app.session().raw, "3.14");
    assert_eq!(app.session().emitted, "৩.১৪");

    let mut app = active_app();
    let first = rewrite(app.key_down(VK_OEM_PERIOD, WINDOW, plain(), exe));
    assert_eq!(first, Replacement { backspaces: 0, text: "\u{0964}".into() });
    rewrite(app.key_down(VK_DECIMAL, WINDOW, plain(), exe));
    assert_eq!(app.session().emitted, "\u{0964}\u{0964}");
}

#[test]
fn key_ups_stay_paired_across_other_calls() {
    let mut app = active_app();
    let a = vk_of('a');
    let b = vk_of('b');
    assert!(app.key_down(a, WINDOW, plain(), exe).swallows());
    // Other keys, focus noise, a new foreground window and a mode toggle in
    // between do not lose the record of `a`.
    assert!(app.key_down(b, WINDOW, plain(), exe).swallows());
    assert!(app.key_up(b));
    app.on_focus(0x1001, WINDOW);
    app.on_foreground(OTHER, exe(OTHER));
    app.toggle(OTHER, |_| true);
    assert!(!app.key_down(0x20, OTHER, plain(), exe).swallows());
    assert!(app.key_up(a));
    assert!(!app.key_up(a));
    // A key that was never swallowed is passed on, after anything.
    assert!(!app.key_up(vk_of('c')));
}
