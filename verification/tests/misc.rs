use okkhor_gui::autostart::{from_wide_bytes, quoted, wide};
use okkhor_gui::input::{replacement_keystrokes, Keystroke, KEYEVENTF_KEYUP, KEYEVENTF_UNICODE, VK_BACK};
use okkhor_gui::setup::{
    decimal, finish_step, finisher_args, helper_name, ico_file, ico_image, is_uninstall_helper,
    offer_answer, parse_args, running_from_install_dir, uninstall_command, FinishStep, Mode,
    FINISH_ATTEMPTS,
};
use okkhor_gui::tray::{make_opaque, tray_label, write_tip};
use okkhor_gui::window::{
    window_command, WindowCommand, WM_APP_QUIT, WM_APP_TOGGLE, WM_APP_TRAY, WM_DESTROY, WM_HOTKEY,
};
use okkhor_gui::winevent::{classify_win_event, WinEvent};

#[test]
fn wide_appends_a_nul() {
    assert_eq!(wide("ab"), vec![0x61, 0x62, 0]);
    assert_eq!(wide(""), vec![0]);
    assert_eq!(wide("অ"), vec![0x0985, 0]);
    assert_eq!(wide("\u{1F600}"), vec![0xD83D, 0xDE00, 0]);
}

#[test]
fn wide_bytes_read_back_up_to_the_nul() {
    assert_eq!(from_wide_bytes(&[0x61, 0, 0x62, 0, 0, 0, 0x63, 0]), "ab");
    assert_eq!(from_wide_bytes(&[0x61, 0, 0x62]), "a");
    assert_eq!(from_wide_bytes(&[0x85, 0x09]), "অ");
    assert_eq!(from_wide_bytes(&[0x3D, 0xD8, 0x00, 0xDE]), "\u{1F600}");
    // An unpaired surrogate is replaced.
    assert_eq!(from_wide_bytes(&[0x3D, 0xD8, 0x61, 0x00]), "\u{FFFD}a");
    assert_eq!(from_wide_bytes(&[]), "");
}

#[test]
fn the_startup_entry_is_quoted() {
    assert_eq!(quoted("C:\\Program Files\\okkhor.exe"), "\"C:\\Program Files\\okkhor.exe\"");
}

#[test]
fn keystrokes_erase_then_type() {
    let events = replacement_keystrokes(1, "অ");
    assert_eq!(
        events,
        vec![
            Keystroke { vk: VK_BACK, scan: 0, flags: 0 },
            Keystroke { vk: VK_BACK, scan: 0, flags: KEYEVENTF_KEYUP },
            Keystroke { vk: 0, scan: 0x0985, flags: KEYEVENTF_UNICODE },
            Keystroke { vk: 0, scan: 0x0985, flags: KEYEVENTF_UNICODE | KEYEVENTF_KEYUP },
        ]
    );
    assert!(replacement_keystrokes(0, "").is_empty());
    assert_eq!(replacement_keystrokes(2, "").len(), 4);
    assert_eq!(replacement_keystrokes(0, "\u{1F600}").len(), 4);
}

#[test]
fn parse_args_modes() {
    let args = |v: &[&str]| v.iter().map(|s| s.to_string()).collect::<Vec<String>>();
    assert!(matches!(parse_args(&args(&[]), true), Mode::Run));
    assert!(matches!(parse_args(&args(&[]), false), Mode::Offer));
    // --silent suppresses every dialog: from outside the install directory it
    // installs without offering, and from inside it simply runs.
    assert!(matches!(parse_args(&args(&["--silent"]), false), Mode::Install { silent: true }));
    assert!(matches!(parse_args(&args(&["--silent"]), true), Mode::Run));
    assert!(matches!(parse_args(&args(&["--portable"]), false), Mode::Run));
    assert!(matches!(parse_args(&args(&["--install"]), false), Mode::Install { silent: false }));
    assert!(matches!(parse_args(&args(&["--silent", "--install"]), true), Mode::Install { silent: true }));
    assert!(matches!(parse_args(&args(&["--uninstall", "--silent"]), true), Mode::Uninstall { silent: true }));
    match parse_args(&args(&["--finish-uninstall", "C:\\dir", "1234"]), true) {
        Mode::FinishUninstall { dir, pid } => {
            assert_eq!(dir, "C:\\dir");
            assert_eq!(pid, 1234);
        }
        _ => panic!("expected FinishUninstall"),
    }
    assert!(matches!(parse_args(&args(&["--finish-uninstall", "C:\\dir"]), true), Mode::Run));
    assert!(matches!(parse_args(&args(&["--finish-uninstall", "C:\\dir", "x1"]), false), Mode::Run));
    assert!(matches!(parse_args(&args(&["--finish-uninstall", "d", "+7"]), false), Mode::FinishUninstall { pid: 7, .. }));
    assert!(matches!(parse_args(&args(&["--finish-uninstall", "d", "4294967296"]), false), Mode::Run));
    assert!(matches!(parse_args(&args(&["--finish-uninstall", "d", "4294967295", "--install"]), false), Mode::FinishUninstall { pid: 4294967295, .. }));
}

#[test]
fn install_dir_comparison_ignores_case() {
    assert!(running_from_install_dir("C:\\Users\\A\\AppData\\Local\\Programs\\okkhor\\okkhor.exe", "c:\\users\\a\\appdata\\local\\programs\\okkhor\\OKKHOR.EXE"));
    assert!(!running_from_install_dir("C:\\Downloads\\okkhor.exe", "C:\\Programs\\okkhor\\okkhor.exe"));
}

#[test]
fn uninstall_helpers_are_recognised() {
    assert!(is_uninstall_helper("okkhor-uninstall-1234.exe"));
    assert!(!is_uninstall_helper("okkhor-uninstall-1234.txt"));
    assert!(!is_uninstall_helper("okkhor.exe"));
    assert!(!is_uninstall_helper("x-okkhor-uninstall-1.exe"));
}

#[test]
fn uninstall_commands() {
    assert_eq!(uninstall_command("C:\\p\\okkhor.exe", false), "\"C:\\p\\okkhor.exe\" --uninstall");
    assert_eq!(uninstall_command("C:\\p\\okkhor.exe", true), "\"C:\\p\\okkhor.exe\" --uninstall --silent");
}

#[test]
fn ico_image_layout() {
    // A 2x2 image: rows come out bottom-up, then a 4-byte-per-row mask.
    let pixels: Vec<u8> = (0u8..16).collect();
    let image = ico_image(2, &pixels);
    assert_eq!(image.len(), 40 + 16 + 8);
    assert_eq!(&image[0..4], &40u32.to_le_bytes());
    assert_eq!(&image[4..8], &2i32.to_le_bytes());
    assert_eq!(&image[8..12], &4i32.to_le_bytes());
    assert_eq!(&image[12..14], &1u16.to_le_bytes());
    assert_eq!(&image[14..16], &32u16.to_le_bytes());
    assert!(image[16..40].iter().all(|&b| b == 0));
    assert_eq!(&image[40..48], &pixels[8..16]);
    assert_eq!(&image[48..56], &pixels[0..8]);
    assert!(image[56..].iter().all(|&b| b == 0));
}

#[test]
fn ico_image_mask_rows_are_padded() {
    let size = 33usize;
    let pixels = vec![7u8; size * size * 4];
    let image = ico_image(size as i32, &pixels);
    // 33 pixels need two 32-bit words of mask per row.
    assert_eq!(image.len(), 40 + size * size * 4 + 8 * size);
}

#[test]
fn ico_file_layout() {
    let a = vec![1u8, 2, 3];
    let b = vec![4u8, 5];
    let file = ico_file(&vec![(32, a.clone()), (48, b.clone())]);
    let mut expected = vec![0u8, 0, 1, 0, 2, 0];
    expected.extend_from_slice(&[32, 32, 0, 0, 1, 0, 32, 0]);
    expected.extend_from_slice(&3u32.to_le_bytes());
    expected.extend_from_slice(&(6u32 + 32).to_le_bytes());
    expected.extend_from_slice(&[48, 48, 0, 0, 1, 0, 32, 0]);
    expected.extend_from_slice(&2u32.to_le_bytes());
    expected.extend_from_slice(&(6u32 + 32 + 3).to_le_bytes());
    expected.extend_from_slice(&a);
    expected.extend_from_slice(&b);
    assert_eq!(file, expected);
}

#[test]
fn tray_labels() {
    assert_eq!(tray_label("", true), "okkhor-gui");
    assert_eq!(tray_label("notepad.exe", true), "notepad.exe — ACTIVE");
    assert_eq!(tray_label("notepad.exe", false), "notepad.exe — inactive");
}

#[test]
fn tips_are_nul_terminated_and_cut_to_fit() {
    let mut field = [0xFFFFu16; 128];
    write_tip(&mut field, "ab");
    assert_eq!(&field[..3], &[0x61, 0x62, 0]);
    assert_eq!(field[3], 0xFFFF);

    let long: String = std::iter::repeat('x').take(200).collect();
    let mut field = [0u16; 128];
    write_tip(&mut field, &long);
    assert!(field[..127].iter().all(|&u| u == 0x78));
    assert_eq!(field[127], 0);
}

#[test]
fn pixels_are_made_opaque() {
    let mut pixels = vec![1u8, 2, 3, 0, 5, 6, 7, 0, 9];
    make_opaque(&mut pixels);
    assert_eq!(pixels, vec![1, 2, 3, 0xFF, 5, 6, 7, 0xFF, 9]);
}

#[test]
fn window_events_are_sorted() {
    assert_eq!(classify_win_event(0x0003, 0, 0), WinEvent::Foreground);
    assert_eq!(classify_win_event(0x0003, -4, 0), WinEvent::Other);
    assert_eq!(classify_win_event(0x8005, -4, 3), WinEvent::Focus);
    assert_eq!(classify_win_event(0x8001, 0, 0), WinEvent::Destroy);
    assert_eq!(classify_win_event(0x8001, 0, 1), WinEvent::Other);
    assert_eq!(classify_win_event(0x8002, 0, 0), WinEvent::Other);
}

use okkhor_gui::tray::{menu_choice, menu_command_id, menu_entries, MenuChoice, MenuEntry};

#[test]
fn the_menu_offers_install_only_outside_the_install_dir() {
    assert_eq!(
        menu_entries(true, false, true),
        vec![
            MenuEntry::Toggle { checked: true },
            MenuEntry::Separator,
            MenuEntry::Autostart { checked: false },
            MenuEntry::Separator,
            MenuEntry::Exit,
        ]
    );
    assert_eq!(
        menu_entries(false, true, false),
        vec![
            MenuEntry::Toggle { checked: false },
            MenuEntry::Separator,
            MenuEntry::Autostart { checked: true },
            MenuEntry::Separator,
            MenuEntry::Install,
            MenuEntry::Separator,
            MenuEntry::Exit,
        ]
    );
}

#[test]
fn menu_commands_round_trip() {
    for (entry, choice) in [
        (MenuEntry::Toggle { checked: false }, MenuChoice::ToggleTarget),
        (MenuEntry::Autostart { checked: true }, MenuChoice::ToggleAutostart),
        (MenuEntry::Install, MenuChoice::Install),
        (MenuEntry::Exit, MenuChoice::Exit),
    ] {
        assert_eq!(menu_choice(menu_command_id(entry)), Some(choice));
    }
    assert_eq!(menu_command_id(MenuEntry::Separator), 0);
    assert_eq!(menu_choice(0), None);
    assert_eq!(menu_choice(99), None);
}

#[test]
fn window_messages_are_dispatched() {
    assert_eq!(WM_APP_TRAY, 0x8001);
    assert_eq!(WM_APP_TOGGLE, 0x8002);
    assert_eq!(WM_APP_QUIT, 0x8003);
    assert_eq!(window_command(WM_HOTKEY, 1, 0), WindowCommand::ToggleForeground);
    assert_eq!(window_command(WM_HOTKEY, 2, 0), WindowCommand::Ignore);
    assert_eq!(window_command(WM_APP_TOGGLE, 0, 0), WindowCommand::ToggleForeground);
    assert_eq!(window_command(WM_APP_QUIT, 0, 0), WindowCommand::Quit);
    assert_eq!(window_command(WM_DESTROY, 0, 0), WindowCommand::Quit);
    // Right and left button releases on the icon open the menu.
    assert_eq!(window_command(WM_APP_TRAY, 0, 0x0205), WindowCommand::ShowMenu);
    assert_eq!(window_command(WM_APP_TRAY, 0, 0x0202), WindowCommand::ShowMenu);
    // Mouse moves over the icon do not.
    assert_eq!(window_command(WM_APP_TRAY, 0, 0x0200), WindowCommand::Ignore);
    // WM_PAINT belongs to the default procedure.
    assert_eq!(window_command(0x000F, 0, 0), WindowCommand::Default);
}

#[test]
fn a_written_string_value_reads_back() {
    for text in ["", "okkhor", "\"C:\\Program Files\\okkhor.exe\"", "অক্ষর", "a\u{1F600}b"] {
        let mut bytes: Vec<u8> = wide(text).iter().flat_map(|u| u.to_le_bytes()).collect();
        assert_eq!(from_wide_bytes(&bytes), text);
        // Whatever follows the terminator is ignored.
        bytes.extend_from_slice(&[0x61, 0x00, 0x62]);
        assert_eq!(from_wide_bytes(&bytes), text);
    }
    assert_eq!(from_wide_bytes(&[0x61, 0, 0, 0, 0x62, 0]), "a");
}

#[test]
fn pids_are_written_in_decimal() {
    assert_eq!(decimal(0), "0");
    assert_eq!(decimal(7), "7");
    assert_eq!(decimal(10), "10");
    assert_eq!(decimal(1234), "1234");
    assert_eq!(decimal(u32::MAX), "4294967295");
    for n in [0u32, 9, 10, 99, 100, 65535, 1_000_000, u32::MAX] {
        assert_eq!(decimal(n), n.to_string());
    }
}

#[test]
fn the_helper_reads_back_its_arguments() {
    for (dir, pid) in [("C:\\Users\\me\\AppData\\Local\\Programs\\okkhor", 4321u32), ("--install", 0), ("", u32::MAX)] {
        let args = finisher_args(dir, pid);
        assert_eq!(args, vec!["--finish-uninstall".to_string(), dir.to_string(), pid.to_string()]);
        for from_install_dir in [false, true] {
            match parse_args(&args, from_install_dir) {
                Mode::FinishUninstall { dir: d, pid: p } => {
                    assert_eq!(d, dir);
                    assert_eq!(p, pid);
                }
                _ => panic!("expected the finishing mode"),
            }
        }
    }
}

#[test]
fn pid_text_is_read_as_from_str_reads_it() {
    let mode = |pid: &str| {
        let args = vec!["--finish-uninstall".to_string(), "d".to_string(), pid.to_string()];
        match parse_args(&args, true) {
            Mode::FinishUninstall { pid, .. } => Some(pid),
            _ => None,
        }
    };
    assert_eq!(mode("+12"), Some(12));
    assert_eq!(mode("007"), Some(7));
    assert_eq!(mode("4294967295"), Some(u32::MAX));
    assert_eq!(mode("4294967296"), None);
    assert_eq!(mode("12a"), None);
    assert_eq!(mode("-1"), None);
    assert_eq!(mode("+"), None);
    assert_eq!(mode(""), None);
    for text in ["0", "+0", "99999999999", "1 2", "\u{0967}"] {
        assert_eq!(mode(text), text.parse::<u32>().ok());
    }
}

#[test]
fn helper_names_are_swept() {
    assert_eq!(helper_name(4321), "okkhor-uninstall-4321.exe");
    assert!(is_uninstall_helper(&helper_name(0)));
    assert!(is_uninstall_helper(&helper_name(u32::MAX)));
}

#[test]
fn the_helper_gives_up_after_its_attempts() {
    assert_eq!(FINISH_ATTEMPTS, 25);
    assert_eq!(finish_step(1, true), FinishStep::Exit(0));
    assert_eq!(finish_step(1, false), FinishStep::Retry);
    assert_eq!(finish_step(24, false), FinishStep::Retry);
    assert_eq!(finish_step(25, false), FinishStep::Exit(1));
    assert_eq!(finish_step(25, true), FinishStep::Exit(0));
}

#[test]
fn the_install_offer_is_answered() {
    assert!(matches!(offer_answer(true, false), Mode::Install { silent: true }));
    assert!(matches!(offer_answer(false, true), Mode::Install { silent: false }));
    assert!(matches!(offer_answer(false, false), Mode::Run));
}
